//! Color-analysis scalars over hex strings (`delta_e`, `contrast_ratio`,
//! `wcag_level`): the operand pairs that reach the color engine. Invalid hex is
//! treated as missing data → NULL.

use vstd::prelude::*;

use crate::color::{from_hex, parse_hex, Rgb};
use crate::scalar::convert::hex_operand;

verus! {

/// The operand pair of one row of a two-color scalar: both colors when both
/// hex operands are present and valid, `None` (a NULL result) otherwise.
pub open spec fn hex_pair_operand(a: Option<&str>, b: Option<&str>) -> Option<(Rgb, Rgb)> {
    match (hex_operand(a), hex_operand(b)) {
        (Some(ca), Some(cb)) => Some((ca, cb)),
        _ => None,
    }
}

/// Row-by-row operand pairs of `delta_e`, `contrast_ratio` and `wcag_level`.
pub fn hex_pair_operands(a: &[Option<&str>], b: &[Option<&str>]) -> (rows: Vec<
    Option<(Rgb, Rgb)>,
>)
    requires
        a@.len() == b@.len(),
    ensures
        rows@.len() == a@.len(),
        forall|i: int| 0 <= i < a@.len() ==> #[trigger] rows@[i] == hex_pair_operand(a@[i], b@[i]),
{
    let mut rows: Vec<Option<(Rgb, Rgb)>> = Vec::new();
    let mut i: usize = 0;
    while i < a.len()
        invariant
            a@.len() == b@.len(),
            i <= a@.len(),
            rows@.len() == i,
            forall|j: int| 0 <= j < i ==> #[trigger] rows@[j] == hex_pair_operand(a@[j], b@[j]),
        decreases a@.len() - i,
    {
        let ca = match a[i] {
            Some(s) => from_hex(s),
            None => None,
        };
        let cb = match b[i] {
            Some(s) => from_hex(s),
            None => None,
        };
        let row = match (ca, cb) {
            (Some(x), Some(y)) => Some((x, y)),
            _ => None,
        };
        rows.push(row);
        i = i + 1;
    }
    rows
}

/// A two-color row is present exactly when both operands are present and both
/// parse as hex colors, and it is then the pair of parsed colors: a NULL or
/// invalid operand on either side makes the row NULL.
pub proof fn lemma_hex_pair_operand_needs_both(a: Option<&str>, b: Option<&str>)
    ensures
        hex_pair_operand(a, b) is Some <==> (a is Some && parse_hex(a->0@) is Some && b is Some
            && parse_hex(b->0@) is Some),
        hex_pair_operand(a, b) is Some ==> hex_pair_operand(a, b) == Some(
            (parse_hex(a->0@)->0, parse_hex(b->0@)->0),
        ),
{
}

} // verus!
