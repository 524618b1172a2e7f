//! Reading the numbers in an engine's type string.
use vstd::prelude::*;

use crate::number;
use crate::text;

verus! {

/// The number before the first comma of a parenthesized argument list.
pub open spec fn single_len(args: Seq<char>) -> Option<u32> {
    number::u32_value(text::trimmed(text::split_on(args, ',')[0]))
}

/// The numbers before and behind the first comma.
pub open spec fn precision_scale(args: Seq<char>) -> (Option<u32>, Option<u32>) {
    let parts = text::split_on(args, ',');
    (
        number::u32_value(text::trimmed(parts[0])),
        if parts.len() > 1 {
            number::u32_value(text::trimmed(parts[1]))
        } else {
            None
        },
    )
}

/// Reads `"255"` as a length.
pub fn parse_single_len(args: &[char]) -> (r: Option<u32>)
    ensures
        r == single_len(args@),
{
    let parts = text::split(args, ',');
    assert(text::slices(parts@)[0] == parts@[0]@);
    number::parse_u32(text::trim(parts[0]))
}

/// Reads `"10,2"` as a precision and a scale.
pub fn parse_precision_scale(args: &[char]) -> (r: (Option<u32>, Option<u32>))
    ensures
        r == precision_scale(args@),
{
    let parts = text::split(args, ',');
    assert(text::slices(parts@)[0] == parts@[0]@);
    let precision = number::parse_u32(text::trim(parts[0]));
    if parts.len() > 1 {
        assert(text::slices(parts@)[1] == parts@[1]@);
        (precision, number::parse_u32(text::trim(parts[1])))
    } else {
        (precision, None)
    }
}

} // verus!
