//! Text as sequences of characters: the operations on names, literals and
//! type strings that the rest of the library is built on, each stated over
//! `Seq<char>` and proved against that statement.
use vstd::prelude::*;

verus! {

// ---------------------------------------------------------------------------
// Building strings
// ---------------------------------------------------------------------------

/// `String::push` appends one character to the end of the string.
pub assume_specification[ String::push ](s: &mut String, c: char)
    ensures
        final(s)@ == old(s)@.push(c),
;

/// The characters of `s`, in order.
pub fn chars_of(s: &str) -> (r: Vec<char>)
    ensures
        r@ == s@,
{
    let mut out: Vec<char> = Vec::new();
    for c in it: s.chars()
        invariant
            out@ == it.seq().take(it.index() as int),
            it.seq() == s@,
    {
        out.push(c);
    }
    out
}

/// Appends every character of `s` to `out`.
pub fn push_chars(out: &mut String, s: &[char])
    ensures
        final(out)@ == old(out)@ + s@,
{
    let ghost start = out@;
    for i in 0..s.len()
        invariant
            out@ == start + s@.take(i as int),
    {
        out.push(s[i]);
        assert(s@.take(i + 1) =~= s@.take(i as int).push(s@[i as int]));
    }
    assert(s@.take(s@.len() as int) =~= s@);
}

/// Appends every character of `s` to `out`.
pub fn copy_chars(out: &mut Vec<char>, s: &[char])
    ensures
        final(out)@ == old(out)@ + s@,
{
    let ghost start = out@;
    for i in 0..s.len()
        invariant
            out@ == start + s@.take(i as int),
    {
        out.push(s[i]);
        assert(s@.take(i + 1) =~= s@.take(i as int).push(s@[i as int]));
    }
    assert(s@.take(s@.len() as int) =~= s@);
}

/// A string with the characters of `s`.
pub fn string_of(s: &[char]) -> (r: String)
    ensures
        r@ == s@,
{
    let mut out = String::new();
    push_chars(&mut out, s);
    out
}

/// The characters of each string of a list.
pub open spec fn texts(list: Seq<String>) -> Seq<Seq<char>> {
    list.map_values(|s: String| s@)
}

/// Adds a string to a list.
pub fn push_text(list: &mut Vec<String>, s: String)
    ensures
        texts(final(list)@) == texts(old(list)@).push(s@),
{
    list.push(s);
    assert(texts(list@) =~= texts(old(list)@).push(s@));
}

/// A copy of a list of strings.
pub fn copy_strings(list: &Vec<String>) -> (r: Vec<String>)
    ensures
        texts(r@) == texts(list@),
{
    let mut out: Vec<String> = Vec::new();
    for i in 0..list.len()
        invariant
            out.len() == i,
            forall|k: int| 0 <= k < i ==> (#[trigger] out@[k])@ == list@[k]@,
    {
        out.push(list[i].clone());
    }
    assert(texts(out@) =~= texts(list@));
    out
}

// ---------------------------------------------------------------------------
// Comparing
// ---------------------------------------------------------------------------

/// Whether `s` holds exactly the characters of `t`.
pub fn is_text(s: &[char], t: &str) -> (r: bool)
    ensures
        r == (s@ == t@),
{
    let mut n: usize = 0;
    for c in it: t.chars()
        invariant
            it.seq() == t@,
            n == it.index(),
            n <= s.len(),
            s@.take(n as int) =~= t@.take(n as int),
    {
        if n >= s.len() || s[n] != c {
            assert(s@.len() < t@.len() || s@[n as int] != t@[n as int]);
            return false;
        }
        assert(s@.take(n + 1) =~= t@.take(n + 1));
        n = n + 1;
    }
    assert(t@.take(n as int) =~= t@);
    if n == s.len() {
        assert(s@.take(n as int) =~= s@);
    }
    n == s.len()
}

/// Whether two strings hold the same characters.
pub fn same_text(a: &str, b: &str) -> (r: bool)
    ensures
        r == (a@ == b@),
{
    let chars = chars_of(a);
    is_text(&chars, b)
}

pub open spec fn starts_with(s: Seq<char>, p: Seq<char>) -> bool {
    s.len() >= p.len() && s.take(p.len() as int) == p
}

pub open spec fn ends_with(s: Seq<char>, p: Seq<char>) -> bool {
    s.len() >= p.len() && s.skip(s.len() - p.len()) == p
}

/// Whether two lists hold the same texts.
pub fn same_texts(a: &Vec<String>, b: &Vec<String>) -> (r: bool)
    ensures
        r == (texts(a@) == texts(b@)),
{
    let ghost left = texts(a@);
    let ghost right = texts(b@);
    if a.len() != b.len() {
        assert(left.len() != right.len());
        return false;
    }
    for i in 0..a.len()
        invariant
            left == texts(a@),
            right == texts(b@),
            a@.len() == b@.len(),
            forall|k: int| 0 <= k < i ==> left[k] == right[k],
    {
        if !same_text(a[i].as_str(), b[i].as_str()) {
            assert(left[i as int] != right[i as int]);
            return false;
        }
    }
    assert(left =~= right);
    true
}

/// Whether `p` occurs in `s` as a run of consecutive characters.
pub open spec fn contains_text(s: Seq<char>, p: Seq<char>) -> bool {
    exists|i: int| 0 <= i <= s.len() && starts_with(#[trigger] s.skip(i), p)
}

/// Whether `s` begins with the characters of `p`.
pub fn has_prefix(s: &[char], p: &str) -> (r: bool)
    ensures
        r == starts_with(s@, p@),
{
    let n: usize = p.unicode_len();
    if s.len() < n {
        return false;
    }
    is_text(&s[0..n], p)
}

/// Whether `s` ends with the characters of `p`.
pub fn has_suffix(s: &[char], p: &str) -> (r: bool)
    ensures
        r == ends_with(s@, p@),
{
    let n: usize = p.unicode_len();
    if s.len() < n {
        return false;
    }
    let from: usize = s.len() - n;
    assert(s@.subrange(from as int, s@.len() as int) =~= s@.skip(from as int));
    is_text(&s[from..s.len()], p)
}

/// Whether `p` occurs in `s`.
pub fn has_text(s: &[char], p: &str) -> (r: bool)
    ensures
        r == contains_text(s@, p@),
{
    let mut i: usize = 0;
    while i < s.len()
        invariant
            i <= s@.len(),
            forall|k: int| 0 <= k < i ==> !starts_with(#[trigger] s@.skip(k), p@),
        decreases s@.len() - i,
    {
        assert(s@.subrange(i as int, s@.len() as int) =~= s@.skip(i as int));
        if has_prefix(&s[i..s.len()], p) {
            return true;
        }
        i = i + 1;
    }
    assert(s@.subrange(i as int, s@.len() as int) =~= s@.skip(i as int));
    has_prefix(&s[i..s.len()], p)
}

// ---------------------------------------------------------------------------
// Trimming
// ---------------------------------------------------------------------------

/// The characters with the Unicode `White_Space` property.
pub open spec fn is_space(c: char) -> bool {
    let n = c as u32;
    ||| 0x09 <= n <= 0x0d
    ||| n == 0x20
    ||| n == 0x85
    ||| n == 0xa0
    ||| n == 0x1680
    ||| 0x2000 <= n <= 0x200a
    ||| n == 0x2028
    ||| n == 0x2029
    ||| n == 0x202f
    ||| n == 0x205f
    ||| n == 0x3000
}

/// Whether `c` has the Unicode `White_Space` property.
pub fn is_whitespace(c: char) -> (r: bool)
    ensures
        r == is_space(c),
{
    let n: u32 = c as u32;
    (0x09 <= n && n <= 0x0d) || n == 0x20 || n == 0x85 || n == 0xa0 || n == 0x1680 || (0x2000 <= n
        && n <= 0x200a) || n == 0x2028 || n == 0x2029 || n == 0x202f || n == 0x205f || n == 0x3000
}

/// `s` without its leading whitespace.
pub open spec fn trimmed_start(s: Seq<char>) -> Seq<char>
    decreases s.len(),
{
    if s.len() > 0 && is_space(s[0]) {
        trimmed_start(s.drop_first())
    } else {
        s
    }
}

/// `s` without its trailing whitespace.
pub open spec fn trimmed_end(s: Seq<char>) -> Seq<char>
    decreases s.len(),
{
    if s.len() > 0 && is_space(s.last()) {
        trimmed_end(s.drop_last())
    } else {
        s
    }
}

/// `s` without leading and trailing whitespace.
pub open spec fn trimmed(s: Seq<char>) -> Seq<char> {
    trimmed_end(trimmed_start(s))
}

/// Trimming only takes away.
pub proof fn lemma_trimmed_len(s: Seq<char>)
    ensures
        trimmed(s).len() <= s.len(),
{
    lemma_trimmed_start_len(s);
    lemma_trimmed_end_len(trimmed_start(s));
}

proof fn lemma_trimmed_start_len(s: Seq<char>)
    ensures
        trimmed_start(s).len() <= s.len(),
    decreases s.len(),
{
    if s.len() > 0 && is_space(s[0]) {
        lemma_trimmed_start_len(s.drop_first());
    }
}

proof fn lemma_trimmed_end_len(s: Seq<char>)
    ensures
        trimmed_end(s).len() <= s.len(),
    decreases s.len(),
{
    if s.len() > 0 && is_space(s.last()) {
        lemma_trimmed_end_len(s.drop_last());
    }
}

pub fn trim_start(s: &[char]) -> (r: &[char])
    ensures
        r@ == trimmed_start(s@),
{
    let mut i: usize = 0;
    assert(s@.skip(0) =~= s@);
    while i < s.len() && is_whitespace(s[i])
        invariant
            i <= s@.len(),
            trimmed_start(s@.skip(i as int)) == trimmed_start(s@),
        decreases s@.len() - i,
    {
        assert(s@.skip(i as int).drop_first() =~= s@.skip(i + 1));
        i = i + 1;
    }
    assert(s@.subrange(i as int, s@.len() as int) =~= s@.skip(i as int));
    &s[i..s.len()]
}

pub fn trim_end(s: &[char]) -> (r: &[char])
    ensures
        r@ == trimmed_end(s@),
{
    let mut n: usize = s.len();
    assert(s@.take(n as int) =~= s@);
    while n > 0 && is_whitespace(s[n - 1])
        invariant
            n <= s@.len(),
            trimmed_end(s@.take(n as int)) == trimmed_end(s@),
        decreases n,
    {
        assert(s@.take(n as int).drop_last() =~= s@.take(n - 1));
        n = n - 1;
    }
    &s[0..n]
}

pub fn trim(s: &[char]) -> (r: &[char])
    ensures
        r@ == trimmed(s@),
{
    trim_end(trim_start(s))
}

/// `s` with every copy of `p` at its end taken off.
pub open spec fn without_suffixes(s: Seq<char>, p: Seq<char>) -> Seq<char>
    decreases s.len(),
{
    if p.len() > 0 && ends_with(s, p) {
        without_suffixes(s.take(s.len() - p.len()), p)
    } else {
        s
    }
}

/// Takes every copy of `p` off the end of `s`.
pub fn strip_suffixes<'a>(s: &'a [char], p: &str) -> (r: &'a [char])
    ensures
        r@ == without_suffixes(s@, p@),
{
    let step: usize = p.unicode_len();
    if step == 0 {
        return s;
    }
    let mut n: usize = s.len();
    assert(s@.take(n as int) =~= s@);
    while has_suffix(&s[0..n], p)
        invariant
            n <= s@.len(),
            step == p@.len(),
            step > 0,
            without_suffixes(s@.take(n as int), p@) == without_suffixes(s@, p@),
        decreases n,
    {
        assert(s@.subrange(0, n as int) =~= s@.take(n as int));
        assert(s@.take(n as int).take(n - step) =~= s@.take(n - step));
        n = n - step;
    }
    assert(s@.subrange(0, n as int) =~= s@.take(n as int));
    &s[0..n]
}

/// `s` without the copies of `c` at its start.
pub open spec fn without_leading(s: Seq<char>, c: char) -> Seq<char>
    decreases s.len(),
{
    if s.len() > 0 && s[0] == c {
        without_leading(s.drop_first(), c)
    } else {
        s
    }
}

/// `s` without the copies of `c` at its end.
pub open spec fn without_trailing(s: Seq<char>, c: char) -> Seq<char>
    decreases s.len(),
{
    if s.len() > 0 && s.last() == c {
        without_trailing(s.drop_last(), c)
    } else {
        s
    }
}

/// Takes every copy of `c` off both ends of `s`.
pub fn strip_char(s: &[char], c: char) -> (r: &[char])
    ensures
        r@ == without_trailing(without_leading(s@, c), c),
{
    let mut i: usize = 0;
    assert(s@.skip(0) =~= s@);
    while i < s.len() && s[i] == c
        invariant
            i <= s@.len(),
            without_leading(s@.skip(i as int), c) == without_leading(s@, c),
        decreases s@.len() - i,
    {
        assert(s@.skip(i as int).drop_first() =~= s@.skip(i + 1));
        i = i + 1;
    }
    let ghost mid = s@.skip(i as int);
    assert(mid == without_leading(s@, c));
    let mut n: usize = s.len();
    assert(s@.subrange(i as int, n as int) =~= mid);
    while n > i && s[n - 1] == c
        invariant
            i <= n <= s@.len(),
            without_trailing(s@.subrange(i as int, n as int), c) == without_trailing(mid, c),
        decreases n,
    {
        assert(s@.subrange(i as int, n as int).drop_last() =~= s@.subrange(i as int, n - 1));
        n = n - 1;
    }
    &s[i..n]
}

// ---------------------------------------------------------------------------
// Finding, splitting, joining
// ---------------------------------------------------------------------------

/// The position of the first `c` in `s`; the length of `s` where there is
/// none.
pub open spec fn first_index(s: Seq<char>, c: char) -> int
    decreases s.len(),
{
    if s.len() == 0 || s[0] == c {
        0
    } else {
        1 + first_index(s.drop_first(), c)
    }
}

/// The first `c` is within the text or at its end, and none stands before it.
pub proof fn lemma_first_index(s: Seq<char>, c: char)
    ensures
        0 <= first_index(s, c) <= s.len(),
        first_index(s, c) < s.len() ==> s[first_index(s, c)] == c,
        forall|k: int| 0 <= k < first_index(s, c) ==> s[k] != c,
    decreases s.len(),
{
    if s.len() > 0 && s[0] != c {
        let rest = s.drop_first();
        lemma_first_index(rest, c);
        assert forall|k: int| 0 <= k < first_index(s, c) implies s[k] != c by {
            if k > 0 {
                assert(s[k] == rest[k - 1]);
            }
        }
    }
}

/// A text with `c` at `i` and not before has its first `c` there.
pub proof fn lemma_first_index_is(s: Seq<char>, c: char, i: int)
    requires
        0 <= i <= s.len(),
        i < s.len() ==> s[i] == c,
        forall|k: int| 0 <= k < i ==> s[k] != c,
    ensures
        first_index(s, c) == i,
{
    lemma_first_index(s, c);
    let j = first_index(s, c);
    if j < i {
        assert(s[j] != c);
    }
    if i < j {
        assert(s[i] != c);
    }
}

/// The position of the first `c` in `s`, if there is one.
pub fn find_char(s: &[char], c: char) -> (r: Option<usize>)
    ensures
        match r {
            Some(i) => i < s@.len() && i == first_index(s@, c),
            None => first_index(s@, c) == s@.len(),
        },
{
    for i in 0..s.len()
        invariant
            forall|k: int| 0 <= k < i ==> s@[k] != c,
    {
        if s[i] == c {
            proof {
                lemma_first_index_is(s@, c, i as int);
            }
            return Some(i);
        }
    }
    proof {
        lemma_first_index_is(s@, c, s@.len() as int);
    }
    None
}

/// The pieces of `s` between the separators `sep`: one more than there are
/// separators.
pub open spec fn split_on(s: Seq<char>, sep: char) -> Seq<Seq<char>>
    decreases s.len(),
{
    if s.len() == 0 {
        seq![Seq::<char>::empty()]
    } else {
        let parts = split_on(s.drop_last(), sep);
        if s.last() == sep {
            parts.push(Seq::<char>::empty())
        } else {
            parts.drop_last().push(parts.last().push(s.last()))
        }
    }
}

/// The characters that each slice of a list holds.
pub open spec fn slices(list: Seq<&[char]>) -> Seq<Seq<char>> {
    list.map_values(|p: &[char]| p@)
}

/// Splits `s` at every `sep`.
pub fn split(s: &[char], sep: char) -> (r: Vec<&[char]>)
    ensures
        slices(r@) == split_on(s@, sep),
        r@.len() >= 1,
{
    let mut parts: Vec<&[char]> = Vec::new();
    let mut from: usize = 0;
    assert(s@.subrange(0, 0) =~= Seq::<char>::empty());
    for i in 0..s.len()
        invariant
            from <= i,
            slices(parts@).push(s@.subrange(from as int, i as int)) =~= split_on(
                s@.take(i as int),
                sep,
            ),
    {
        let ghost before = slices(parts@).push(s@.subrange(from as int, i as int));
        assert(s@.take(i + 1).drop_last() =~= s@.take(i as int));
        if s[i] == sep {
            parts.push(&s[from..i]);
            from = i + 1;
            assert(s@.subrange(from as int, i + 1) =~= Seq::<char>::empty());
            assert(slices(parts@) =~= before);
        } else {
            assert(s@.subrange(from as int, i + 1) =~= s@.subrange(from as int, i as int).push(
                s@[i as int],
            ));
            assert(before.drop_last() =~= slices(parts@));
        }
    }
    assert(s@.take(s@.len() as int) =~= s@);
    let ghost before = slices(parts@).push(s@.subrange(from as int, s@.len() as int));
    parts.push(&s[from..s.len()]);
    assert(slices(parts@) =~= before);
    parts
}

/// The pieces in order, with `sep` between neighbours.
pub open spec fn joined(parts: Seq<Seq<char>>, sep: Seq<char>) -> Seq<char>
    decreases parts.len(),
{
    if parts.len() == 0 {
        Seq::<char>::empty()
    } else if parts.len() == 1 {
        parts[0]
    } else {
        joined(parts.drop_last(), sep) + sep + parts.last()
    }
}

/// The strings of `parts` in order, with `sep` between neighbours.
pub fn join(parts: &Vec<String>, sep: &str) -> (r: String)
    ensures
        r@ == joined(texts(parts@), sep@),
{
    let mut out = String::new();
    let ghost all = texts(parts@);
    for i in 0..parts.len()
        invariant
            all == texts(parts@),
            out@ == joined(all.take(i as int), sep@),
    {
        assert(all.take(i + 1).drop_last() =~= all.take(i as int));
        if i > 0 {
            out.append(sep);
        }
        out.append(parts[i].as_str());
    }
    assert(all.take(parts@.len() as int) =~= all);
    out
}

/// A text without a separator is one piece.
pub proof fn lemma_split_bare(s: Seq<char>, sep: char)
    requires
        !s.contains(sep),
    ensures
        split_on(s, sep) == seq![s],
    decreases s.len(),
{
    if s.len() > 0 {
        let front = s.drop_last();
        assert(!front.contains(sep)) by {
            if front.contains(sep) {
                let i = choose|i: int| 0 <= i < front.len() && front[i] == sep;
                assert(s[i] == sep);
            }
        }
        assert(s.last() != sep) by {
            assert(s[s.len() - 1] == s.last());
        }
        lemma_split_bare(front, sep);
        assert(split_on(s, sep) =~= seq![s]) by {
            assert(front.push(s.last()) =~= s);
        }
    } else {
        assert(s =~= Seq::<char>::empty());
    }
}

/// There is always a piece.
pub proof fn lemma_split_nonempty(s: Seq<char>, sep: char)
    ensures
        split_on(s, sep).len() >= 1,
    decreases s.len(),
{
    if s.len() > 0 {
        lemma_split_nonempty(s.drop_last(), sep);
    }
}

/// A separator parts the pieces before it from those behind it.
pub proof fn lemma_split_at(a: Seq<char>, b: Seq<char>, sep: char)
    ensures
        split_on(a + seq![sep] + b, sep) == split_on(a, sep) + split_on(b, sep),
    decreases b.len(),
{
    let whole = a + seq![sep] + b;
    if b.len() == 0 {
        assert(whole.drop_last() =~= a);
        assert(split_on(whole, sep) =~= split_on(a, sep) + split_on(b, sep)) by {
            assert(split_on(b, sep) =~= seq![Seq::<char>::empty()]);
        }
    } else {
        lemma_split_at(a, b.drop_last(), sep);
        assert(whole.drop_last() =~= a + seq![sep] + b.drop_last());
        let left = split_on(a, sep);
        let right = split_on(b.drop_last(), sep);
        lemma_split_nonempty(b.drop_last(), sep);
        assert((left + right).last() == right.last());
        assert((left + right).drop_last() =~= left + right.drop_last());
        assert(split_on(whole, sep) =~= left + split_on(b, sep));
    }
}

/// Joining from the front is joining from the back.
pub proof fn lemma_joined_front(parts: Seq<Seq<char>>, sep: Seq<char>)
    requires
        parts.len() >= 2,
    ensures
        joined(parts, sep) == parts[0] + sep + joined(parts.drop_first(), sep),
    decreases parts.len(),
{
    let front = parts.drop_last();
    let rest = parts.drop_first();
    if parts.len() == 2 {
        assert(joined(front, sep) == parts[0]);
        assert(joined(rest, sep) == parts[1]);
        assert(joined(parts, sep) =~= parts[0] + sep + joined(rest, sep));
    } else {
        lemma_joined_front(front, sep);
        assert(front.drop_first() =~= rest.drop_last());
        assert(joined(parts, sep) =~= parts[0] + sep + joined(rest, sep));
    }
}

/// Splitting what was joined gives back the pieces, if none of them holds the
/// separator.
pub proof fn lemma_split_joined(parts: Seq<Seq<char>>, sep: char)
    requires
        parts.len() > 0,
        forall|i: int| 0 <= i < parts.len() ==> !(#[trigger] parts[i]).contains(sep),
    ensures
        split_on(joined(parts, seq![sep]), sep) == parts,
    decreases parts.len(),
{
    let last = parts.last();
    lemma_split_bare(last, sep);
    if parts.len() == 1 {
        assert(split_on(joined(parts, seq![sep]), sep) =~= parts);
    } else {
        let front = parts.drop_last();
        assert forall|i: int| 0 <= i < front.len() implies !(#[trigger] front[i]).contains(sep) by {
            assert(front[i] == parts[i]);
        }
        lemma_split_joined(front, sep);
        lemma_split_at(joined(front, seq![sep]), last, sep);
        assert(front + seq![last] =~= parts);
    }
}

// ---------------------------------------------------------------------------
// Doubling a quote character
// ---------------------------------------------------------------------------

/// `s` with every `from` replaced by `to`, from the left. An empty `from`
/// replaces nothing.
pub open spec fn replaced(s: Seq<char>, from: Seq<char>, to: Seq<char>) -> Seq<char>
    decreases s.len(),
{
    if from.len() == 0 || s.len() < from.len() {
        s
    } else if starts_with(s, from) {
        to + replaced(s.skip(from.len() as int), from, to)
    } else {
        seq![s[0]] + replaced(s.drop_first(), from, to)
    }
}

/// `s` with every `from` replaced by `to`, from the left.
pub fn replace(s: &str, from: &str, to: &str) -> (r: String)
    ensures
        r@ == replaced(s@, from@, to@),
{
    let chars = chars_of(s);
    let n: usize = from.unicode_len();
    if n == 0 {
        return s.to_string();
    }
    let mut out = String::new();
    let mut i: usize = 0;
    assert(chars@.skip(0) =~= chars@);
    while chars.len() - i >= n
        invariant
            chars@ == s@,
            n == from@.len(),
            n > 0,
            i <= chars@.len(),
            out@ + replaced(chars@.skip(i as int), from@, to@) =~= replaced(s@, from@, to@),
        decreases chars.len() - i,
    {
        let ghost before = out@;
        let rest = vstd::slice::slice_subrange(chars.as_slice(), i, chars.len());
        assert(rest@ =~= chars@.skip(i as int));
        if has_prefix(rest, from) {
            assert(chars@.skip(i as int).skip(n as int) =~= chars@.skip(i + n));
            out.append(to);
            i = i + n;
        } else {
            assert(chars@.skip(i as int).drop_first() =~= chars@.skip(i + 1));
            out.push(chars[i]);
            i = i + 1;
        }
    }
    let rest = vstd::slice::slice_subrange(chars.as_slice(), i, chars.len());
    assert(rest@ =~= chars@.skip(i as int));
    push_chars(&mut out, rest);
    out
}

/// `s` with every `c` written twice.
pub open spec fn doubled(s: Seq<char>, c: char) -> Seq<char>
    decreases s.len(),
{
    if s.len() == 0 {
        Seq::<char>::empty()
    } else if s[0] == c {
        seq![c, c] + doubled(s.drop_first(), c)
    } else {
        seq![s[0]] + doubled(s.drop_first(), c)
    }
}

/// `s` with every pair of adjacent `c`, taken from the left, written once.
pub open spec fn undoubled(s: Seq<char>, c: char) -> Seq<char>
    decreases s.len(),
{
    if s.len() == 0 {
        Seq::<char>::empty()
    } else if s.len() >= 2 && s[0] == c && s[1] == c {
        seq![c] + undoubled(s.skip(2), c)
    } else {
        seq![s[0]] + undoubled(s.drop_first(), c)
    }
}

/// Reading a doubled text gives back the text that was doubled.
pub proof fn lemma_undoubled_doubled(s: Seq<char>, c: char)
    ensures
        undoubled(doubled(s, c), c) == s,
    decreases s.len(),
{
    if s.len() > 0 {
        lemma_undoubled_doubled(s.drop_first(), c);
        let rest = doubled(s.drop_first(), c);
        if s[0] == c {
            assert(doubled(s, c).skip(2) =~= rest);
        } else {
            assert(doubled(s, c).drop_first() =~= rest);
        }
        assert(seq![s[0]] + s.drop_first() =~= s);
    }
}

/// Appends `s` to `out` with every `c` written twice.
pub fn push_doubled(out: &mut String, s: &str, c: char)
    ensures
        final(out)@ == old(out)@ + doubled(s@, c),
{
    let chars = chars_of(s);
    let ghost goal = out@ + doubled(s@, c);
    assert(chars@.skip(0) =~= chars@);
    for i in 0..chars.len()
        invariant
            chars@ == s@,
            out@ + doubled(chars@.skip(i as int), c) =~= goal,
    {
        let ch = chars[i];
        assert(chars@.skip(i as int).drop_first() =~= chars@.skip(i + 1));
        if ch == c {
            out.push(c);
        }
        out.push(ch);
    }
    assert(doubled(chars@.skip(chars@.len() as int), c) =~= Seq::<char>::empty());
}

/// `s` with every pair of adjacent `c` written once.
pub fn undouble(s: &[char], c: char) -> (r: String)
    ensures
        r@ == undoubled(s@, c),
{
    let mut out = String::new();
    let mut i: usize = 0;
    assert(s@.skip(0) =~= s@);
    while i < s.len()
        invariant
            i <= s@.len(),
            out@ + undoubled(s@.skip(i as int), c) =~= undoubled(s@, c),
        decreases s@.len() - i,
    {
        out.push(s[i]);
        assert(s@.skip(i as int).drop_first() =~= s@.skip(i + 1));
        if s.len() - i >= 2 && s[i] == c && s[i + 1] == c {
            assert(s@.skip(i as int).skip(2) =~= s@.skip(i + 2));
            i = i + 2;
        } else {
            i = i + 1;
        }
    }
    assert(undoubled(s@.skip(i as int), c) =~= Seq::<char>::empty());
    out
}

// ---------------------------------------------------------------------------
// What whitespace is
// ---------------------------------------------------------------------------

/// The code points of all whitespace.
pub open spec fn whitespace() -> Seq<u32> {
    seq![
        0x09u32,
        0x0a,
        0x0b,
        0x0c,
        0x0d,
        0x20,
        0x85,
        0xa0,
        0x1680,
        0x2000,
        0x2001,
        0x2002,
        0x2003,
        0x2004,
        0x2005,
        0x2006,
        0x2007,
        0x2008,
        0x2009,
        0x200a,
        0x2028,
        0x2029,
        0x202f,
        0x205f,
        0x3000,
    ]
}

/// A character is whitespace exactly where its code point is one of those.
#[verifier::spinoff_prover]
pub proof fn lemma_whitespace(c: char)
    ensures
        is_space(c) <==> whitespace().contains(c as u32),
{
    let n = c as u32;
    let w = whitespace();
    if w.contains(n) {
        let i = choose|i: int| 0 <= i < w.len() && w[i] == n;
        assert(w.len() == 25);
        assert(is_space(c));
    }
    if is_space(c) {
        let i: int = if 0x09 <= n <= 0x0d {
            n - 0x09
        } else if n == 0x20 {
            5
        } else if n == 0x85 {
            6
        } else if n == 0xa0 {
            7
        } else if n == 0x1680 {
            8
        } else if 0x2000 <= n <= 0x200a {
            n - 0x2000 + 9
        } else if n == 0x2028 {
            20
        } else if n == 0x2029 {
            21
        } else if n == 0x202f {
            22
        } else if n == 0x205f {
            23
        } else {
            24
        };
        assert(w[i] == n);
    }
}

/// Trimming takes whitespace off both ends, and nothing else: what is left
/// begins and ends with something, and was there between whitespace.
pub proof fn lemma_trimmed(front: Seq<char>, s: Seq<char>, back: Seq<char>)
    requires
        forall|i: int| 0 <= i < front.len() ==> is_space(#[trigger] front[i]),
        forall|i: int| 0 <= i < back.len() ==> is_space(#[trigger] back[i]),
        s.len() > 0 ==> !is_space(s[0]) && !is_space(s.last()),
    ensures
        trimmed(front + s + back) == s,
{
    lemma_trim_front(front, s + back, s.len() > 0);
    assert(front + s + back =~= front + (s + back));
    lemma_trim_back(s, back);
    if s.len() == 0 {
        assert(s + back =~= back);
        lemma_trim_front(back, s, false);
        assert(back + s =~= back);
        lemma_all_space(front + back);
        assert(front + (s + back) =~= front + back);
        assert(trimmed_start(front + back) =~= Seq::<char>::empty());
        assert(s =~= Seq::<char>::empty());
    }
}

proof fn lemma_all_space(s: Seq<char>)
    requires
        forall|i: int| 0 <= i < s.len() ==> is_space(#[trigger] s[i]),
    ensures
        trimmed_start(s) == Seq::<char>::empty(),
    decreases s.len(),
{
    if s.len() > 0 {
        assert(is_space(s[0]));
        assert forall|i: int| 0 <= i < s.drop_first().len() implies is_space(
            #[trigger] s.drop_first()[i],
        ) by {
            assert(is_space(s[i + 1]));
        }
        lemma_all_space(s.drop_first());
    } else {
        assert(s =~= Seq::<char>::empty());
    }
}

proof fn lemma_trim_front(front: Seq<char>, s: Seq<char>, solid: bool)
    requires
        forall|i: int| 0 <= i < front.len() ==> is_space(#[trigger] front[i]),
        solid ==> s.len() > 0 && !is_space(s[0]),
    ensures
        solid ==> trimmed_start(front + s) == s,
    decreases front.len(),
{
    let whole = front + s;
    if front.len() > 0 {
        let rest = front.drop_first();
        assert(is_space(front[0]));
        assert forall|i: int| 0 <= i < rest.len() implies is_space(#[trigger] rest[i]) by {
            assert(is_space(front[i + 1]));
        }
        assert(whole[0] == front[0]);
        assert(whole.drop_first() =~= rest + s);
        lemma_trim_front(rest, s, solid);
    } else {
        assert(whole =~= s);
    }
}

proof fn lemma_trim_back(s: Seq<char>, back: Seq<char>)
    requires
        forall|i: int| 0 <= i < back.len() ==> is_space(#[trigger] back[i]),
        s.len() > 0 ==> !is_space(s.last()),
    ensures
        trimmed_end(s + back) == s,
    decreases back.len(),
{
    let whole = s + back;
    if back.len() > 0 {
        let rest = back.drop_last();
        assert(is_space(back[back.len() - 1]));
        assert forall|i: int| 0 <= i < rest.len() implies is_space(#[trigger] rest[i]) by {
            assert(is_space(back[i]));
        }
        assert(whole.last() == back.last());
        assert(whole.drop_last() =~= s + rest);
        lemma_trim_back(s, rest);
    } else {
        assert(whole =~= s);
    }
}

/// Replacing changes what is there and keeps what stands around it: a text in
/// front that the word does not begin in stays, the word becomes the other, and
/// so on behind it.
pub proof fn lemma_replaced(front: Seq<char>, from: Seq<char>, to: Seq<char>, rest: Seq<char>)
    requires
        from.len() > 0,
        forall|i: int|
            0 <= i < front.len() ==> !starts_with(
                #[trigger] (front + from + rest).skip(i),
                from,
            ),
    ensures
        replaced(front + from + rest, from, to) == front + to + replaced(rest, from, to),
        !contains_text(rest, from) ==> replaced(rest, from, to) == rest,
    decreases front.len(),
{
    let s = front + from + rest;
    if front.len() == 0 {
        assert(s.take(from.len() as int) =~= from);
        assert(s.skip(from.len() as int) =~= rest);
        assert(front + to + replaced(rest, from, to) =~= to + replaced(rest, from, to));
    } else {
        let less = front.drop_first();
        assert(s.skip(0) =~= s);
        assert(!starts_with(s.skip(0), from));
        assert(s.drop_first() =~= less + from + rest);
        assert forall|i: int| 0 <= i < less.len() implies !starts_with(
            #[trigger] (less + from + rest).skip(i),
            from,
        ) by {
            assert((less + from + rest).skip(i) =~= s.skip(i + 1));
        }
        lemma_replaced(less, from, to, rest);
        assert(seq![s[0]] + (less + to + replaced(rest, from, to)) =~= front + to + replaced(
            rest,
            from,
            to,
        ));
    }
    if !contains_text(rest, from) {
        lemma_nothing_replaced(rest, from, to);
    }
}

proof fn lemma_nothing_replaced(s: Seq<char>, from: Seq<char>, to: Seq<char>)
    requires
        !contains_text(s, from),
    ensures
        replaced(s, from, to) == s,
    decreases s.len(),
{
    if from.len() > 0 && s.len() >= from.len() {
        assert(s.skip(0) =~= s);
        assert(!starts_with(s.skip(0), from));
        let rest = s.drop_first();
        assert(!contains_text(rest, from)) by {
            if contains_text(rest, from) {
                let i = choose|i: int|
                    0 <= i <= rest.len() && starts_with(#[trigger] rest.skip(i), from);
                assert(rest.skip(i) =~= s.skip(i + 1));
            }
        }
        lemma_nothing_replaced(rest, from, to);
        assert(seq![s[0]] + rest =~= s);
    }
}

} // verus!
