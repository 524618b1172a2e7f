//! Upper and lower case.
use vstd::prelude::*;

use crate::text;

verus! {

/// Whether every character is an ASCII character.
pub open spec fn all_ascii(s: Seq<char>) -> bool {
    forall|i: int| 0 <= i < s.len() ==> (#[trigger] s[i] as u32) < 0x80
}

/// The upper-case form of an ASCII letter; any other character as it is.
pub open spec fn ascii_upper_char(c: char) -> char {
    if 'a' <= c <= 'z' {
        ((c as u32 - 0x20) as u32) as char
    } else {
        c
    }
}

/// The lower-case form of an ASCII letter; any other character as it is.
pub open spec fn ascii_lower_char(c: char) -> char {
    if 'A' <= c <= 'Z' {
        ((c as u32 + 0x20) as u32) as char
    } else {
        c
    }
}

/// A text with its ASCII letters in upper case.
pub open spec fn ascii_upper(s: Seq<char>) -> Seq<char> {
    s.map_values(|c: char| ascii_upper_char(c))
}

/// A text with its ASCII letters in lower case.
pub open spec fn ascii_lower(s: Seq<char>) -> Seq<char> {
    s.map_values(|c: char| ascii_lower_char(c))
}

/// The upper-case form of a text, by the tables of Unicode.
pub uninterp spec fn uppercase(s: Seq<char>) -> Seq<char>;

/// The lower-case form of a text, by the tables of Unicode.
pub uninterp spec fn lowercase(s: Seq<char>) -> Seq<char>;

/// `str::to_uppercase`: the upper-case form by the tables of Unicode, which on
/// ASCII characters only touch the letters.
#[verifier::external_body]
pub(crate) fn to_uppercase(s: &str) -> (r: String)
    ensures
        r@ == uppercase(s@),
        all_ascii(s@) ==> r@ == ascii_upper(s@),
{
    s.to_uppercase()
}

/// `str::to_lowercase`: the lower-case form by the tables of Unicode, which on
/// ASCII characters only touch the letters.
#[verifier::external_body]
pub(crate) fn to_lowercase(s: &str) -> (r: String)
    ensures
        r@ == lowercase(s@),
        all_ascii(s@) ==> r@ == ascii_lower(s@),
{
    s.to_lowercase()
}

fn lower_char(c: char) -> (r: char)
    ensures
        r == ascii_lower_char(c),
{
    if 'A' <= c && c <= 'Z' {
        let n: u8 = c as u8;
        (n + 0x20) as char
    } else {
        c
    }
}

/// Whether two texts are the same but for the case of ASCII letters.
pub fn equal_ignoring_case(a: &str, b: &str) -> (r: bool)
    ensures
        r == (ascii_lower(a@) == ascii_lower(b@)),
{
    let left = text::chars_of(a);
    let right = text::chars_of(b);
    let ghost low_left = ascii_lower(a@);
    let ghost low_right = ascii_lower(b@);
    if left.len() != right.len() {
        assert(low_left.len() != low_right.len());
        return false;
    }
    for i in 0..left.len()
        invariant
            left@ == a@,
            right@ == b@,
            low_left == ascii_lower(a@),
            low_right == ascii_lower(b@),
            left@.len() == right@.len(),
            forall|k: int| 0 <= k < i ==> low_left[k] == low_right[k],
    {
        if lower_char(left[i]) != lower_char(right[i]) {
            assert(low_left[i as int] != low_right[i as int]);
            return false;
        }
    }
    assert(low_left =~= low_right);
    true
}

/// Every letter has a case: upper and lower case undo each other, a letter in
/// one is never a letter in the other, and nothing else changes.
pub proof fn lemma_case_of_letters(c: char)
    ensures
        'a' <= c <= 'z' ==> 'A' <= ascii_upper_char(c) <= 'Z' && ascii_lower_char(
            ascii_upper_char(c),
        ) == c && ascii_lower_char(c) == c,
        'A' <= c <= 'Z' ==> 'a' <= ascii_lower_char(c) <= 'z' && ascii_upper_char(
            ascii_lower_char(c),
        ) == c && ascii_upper_char(c) == c,
        !('a' <= c <= 'z') && !('A' <= c <= 'Z') ==> ascii_upper_char(c) == c && ascii_lower_char(c)
            == c,
{
}

/// Texts are the same in lower case exactly where they are in upper case.
pub proof fn lemma_same_but_for_case(a: Seq<char>, b: Seq<char>)
    ensures
        ascii_lower(a) == ascii_lower(b) <==> ascii_upper(a) == ascii_upper(b),
{
    if ascii_lower(a) == ascii_lower(b) {
        assert(a.len() == ascii_lower(a).len() && b.len() == ascii_lower(b).len());
        assert forall|i: int| 0 <= i < a.len() implies ascii_upper(a)[i] == ascii_upper(b)[i] by {
            assert(ascii_lower(a)[i] == ascii_lower(b)[i]);
            lemma_case_of_letters(a[i]);
            lemma_case_of_letters(b[i]);
        }
        assert(ascii_upper(a) =~= ascii_upper(b));
    }
    if ascii_upper(a) == ascii_upper(b) {
        assert(a.len() == ascii_upper(a).len() && b.len() == ascii_upper(b).len());
        assert forall|i: int| 0 <= i < a.len() implies ascii_lower(a)[i] == ascii_lower(b)[i] by {
            assert(ascii_upper(a)[i] == ascii_upper(b)[i]);
            lemma_case_of_letters(a[i]);
            lemma_case_of_letters(b[i]);
        }
        assert(ascii_lower(a) =~= ascii_lower(b));
    }
}

} // verus!
