//! Color-space conversion scalars: `to_hex`, `from_hex`, and the RGB operands
//! of `rgb_to_hsl` / `rgb_to_lab`. RGB inputs are clamped to `0..=255`; any
//! NULL operand yields a NULL result.

use vstd::prelude::*;

use crate::color::{clamp_channel, clamped, from_hex, hex_string, parse_hex, to_hex, Rgb};

verus! {

/// The clamped color of one row of RGB channel operands, or `None` when any
/// operand is NULL.
pub open spec fn rgb_operand(r: Option<i32>, g: Option<i32>, b: Option<i32>) -> Option<Rgb> {
    match (r, g, b) {
        (Some(r), Some(g), Some(b)) => Some(
            Rgb {
                r: clamped(r as int) as u8,
                g: clamped(g as int) as u8,
                b: clamped(b as int) as u8,
            },
        ),
        _ => None,
    }
}

/// The parsed color of one hex operand, or `None` when it is NULL or not a
/// valid hex color.
pub open spec fn hex_operand(s: Option<&str>) -> Option<Rgb> {
    match s {
        Some(s) => parse_hex(s@),
        None => None,
    }
}

/// Row-by-row RGB operands of `rgb_to_hsl`, `rgb_to_lab` and `to_hex`: each row
/// is the clamped color, or `None` when any of its channels is NULL.
pub fn rgb_operands(r: &[Option<i32>], g: &[Option<i32>], b: &[Option<i32>]) -> (rows: Vec<
    Option<Rgb>,
>)
    requires
        r@.len() == g@.len(),
        r@.len() == b@.len(),
    ensures
        rows@.len() == r@.len(),
        forall|i: int| 0 <= i < r@.len() ==> #[trigger] rows@[i] == rgb_operand(r@[i], g@[i], b@[i]),
{
    let mut rows: Vec<Option<Rgb>> = Vec::new();
    let mut i: usize = 0;
    while i < r.len()
        invariant
            r@.len() == g@.len(),
            r@.len() == b@.len(),
            i <= r@.len(),
            rows@.len() == i,
            forall|j: int| 0 <= j < i ==> #[trigger] rows@[j] == rgb_operand(r@[j], g@[j], b@[j]),
        decreases r@.len() - i,
    {
        let row = match (r[i], g[i], b[i]) {
            (Some(rv), Some(gv), Some(bv)) => Some(
                Rgb::new(clamp_channel(rv), clamp_channel(gv), clamp_channel(bv)),
            ),
            _ => None,
        };
        rows.push(row);
        i = i + 1;
    }
    rows
}

/// `to_hex(r, g, b) -> VARCHAR`.
pub struct ToHex;

impl ToHex {
    /// The `to_hex` result column: `#rrggbb` of the clamped channels, NULL when
    /// any operand is NULL.
    pub fn process_rows(r: &[Option<i32>], g: &[Option<i32>], b: &[Option<i32>]) -> (out: Vec<
        Option<String>,
    >)
        requires
            r@.len() == g@.len(),
            r@.len() == b@.len(),
        ensures
            out@.len() == r@.len(),
            forall|i: int|
                0 <= i < r@.len() ==> match rgb_operand(r@[i], g@[i], b@[i]) {
                    Some(c) => #[trigger] out@[i] is Some && out@[i]->0@ == hex_string(
                        c.r,
                        c.g,
                        c.b,
                    ),
                    None => out@[i] is None,
                },
    {
        let operands = rgb_operands(r, g, b);
        let mut out: Vec<Option<String>> = Vec::new();
        let mut i: usize = 0;
        while i < operands.len()
            invariant
                operands@.len() == r@.len(),
                r@.len() == g@.len(),
                r@.len() == b@.len(),
                i <= operands@.len(),
                out@.len() == i,
                forall|j: int|
                    0 <= j < r@.len() ==> #[trigger] operands@[j] == rgb_operand(
                        r@[j],
                        g@[j],
                        b@[j],
                    ),
                forall|j: int|
                    0 <= j < i ==> match operands@[j] {
                        Some(c) => #[trigger] out@[j] is Some && out@[j]->0@ == hex_string(
                            c.r,
                            c.g,
                            c.b,
                        ),
                        None => out@[j] is None,
                    },
            decreases operands@.len() - i,
        {
            let row = match operands[i] {
                Some(c) => Some(to_hex(c.r, c.g, c.b)),
                None => None,
            };
            out.push(row);
            i = i + 1;
        }
        out
    }
}

/// `from_hex(hex) -> STRUCT(r INT, g INT, b INT)`. Invalid hex → NULL row.
pub struct FromHex;

impl FromHex {
    /// The `from_hex` result rows: the parsed color, or `None` (a NULL row) when
    /// the operand is NULL or not a valid hex color.
    pub fn process_rows(hex: &[Option<&str>]) -> (rows: Vec<Option<Rgb>>)
        ensures
            rows@.len() == hex@.len(),
            forall|i: int| 0 <= i < hex@.len() ==> #[trigger] rows@[i] == hex_operand(hex@[i]),
    {
        let mut rows: Vec<Option<Rgb>> = Vec::new();
        let mut i: usize = 0;
        while i < hex.len()
            invariant
                i <= hex@.len(),
                rows@.len() == i,
                forall|j: int| 0 <= j < i ==> #[trigger] rows@[j] == hex_operand(hex@[j]),
            decreases hex@.len() - i,
        {
            let row = match hex[i] {
                Some(s) => from_hex(s),
                None => None,
            };
            rows.push(row);
            i = i + 1;
        }
        rows
    }
}

/// A row of RGB operands is present exactly when all three channels are, and
/// each channel is then its input clamped into `0..=255`: negative inputs give
/// `0`, inputs above `255` give `255`, the rest are kept
/// (`to_hex(10, 20, 300)` reads the color `(10, 20, 255)`).
pub proof fn lemma_rgb_operand_clamps(r: Option<i32>, g: Option<i32>, b: Option<i32>)
    ensures
        rgb_operand(r, g, b) is Some <==> (r is Some && g is Some && b is Some),
        rgb_operand(r, g, b) matches Some(c) ==> {
            &&& c.r as int == (if r->0 < 0 { 0 } else if r->0 > 255 { 255 } else { r->0 as int })
            &&& c.g as int == (if g->0 < 0 { 0 } else if g->0 > 255 { 255 } else { g->0 as int })
            &&& c.b as int == (if b->0 < 0 { 0 } else if b->0 > 255 { 255 } else { b->0 as int })
        },
{
}

/// A hex operand is present exactly when the input is present and parses, and
/// it is then the parsed color.
pub proof fn lemma_hex_operand_parses(s: Option<&str>)
    ensures
        hex_operand(s) is Some <==> (s is Some && parse_hex(s->0@) is Some),
        hex_operand(s) is Some ==> hex_operand(s) == parse_hex(s->0@),
{
}

} // verus!
