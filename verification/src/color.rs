//! sRGB color values, channel clamping and hex formatting/parsing.

use vstd::prelude::*;
use vstd::std_specs::iter::IteratorSpec;

verus! {

/// An 8-bit sRGB color (channels `0..=255`).
#[derive(Clone, Copy, Debug, PartialEq, Eq, Structural)]
pub struct Rgb {
    pub r: u8,
    pub g: u8,
    pub b: u8,
}

impl Rgb {
    pub fn new(r: u8, g: u8, b: u8) -> (c: Self)
        ensures
            c == (Rgb { r, g, b }),
    {
        Rgb { r, g, b }
    }
}

/// The value of `v` clamped into `0..=255`.
pub open spec fn clamped(v: int) -> int {
    if v < 0 {
        0
    } else if v > 255 {
        255
    } else {
        v
    }
}

/// Clamp an `i32` channel argument into `0..=255`: out-of-range values are
/// clamped rather than rejected.
pub fn clamp_channel(v: i32) -> (c: u8)
    ensures
        c as int == clamped(v as int),
{
    if v < 0 {
        0
    } else if v > 255 {
        255
    } else {
        v as u8
    }
}

// ---------------------------------------------------------------------------
// Hex digits
// ---------------------------------------------------------------------------

/// The lowercase hex digit for a value `d` in `0..16`.
pub open spec fn hex_char(d: int) -> char {
    if d < 10 {
        (48 + d) as char
    } else {
        (87 + d) as char
    }
}

/// `c` is an ASCII hex digit (`0-9`, `a-f`, `A-F`).
pub open spec fn is_hex_digit(c: char) -> bool {
    ('0' <= c && c <= '9') || ('a' <= c && c <= 'f') || ('A' <= c && c <= 'F')
}

/// The value of the ASCII hex digit `c`.
pub open spec fn hex_value(c: char) -> int {
    if '0' <= c && c <= '9' {
        c as int - 48
    } else if 'a' <= c && c <= 'f' {
        c as int - 87
    } else {
        c as int - 55
    }
}

/// The two lowercase hex digits of a byte.
pub open spec fn hex_byte(v: u8) -> Seq<char> {
    seq![hex_char(v as int / 16), hex_char(v as int % 16)]
}

/// `#rrggbb` in lowercase.
pub open spec fn hex_string(r: u8, g: u8, b: u8) -> Seq<char> {
    seq!['#'] + hex_byte(r) + hex_byte(g) + hex_byte(b)
}

/// `std::string::String::push` appends the given character at the end of the
/// string: the new contents are the old ones followed by `ch`.
pub assume_specification[ String::push ](s: &mut String, ch: char)
    ensures
        final(s)@ == old(s)@.push(ch),
;

fn hex_digit_char(d: u8) -> (c: char)
    requires
        d < 16,
    ensures
        c == hex_char(d as int),
{
    if d < 10 {
        (48 + d) as char
    } else {
        (87 + d) as char
    }
}

fn push_hex_byte(s: &mut String, v: u8)
    ensures
        final(s)@ == old(s)@ + hex_byte(v),
{
    s.push(hex_digit_char(v / 16));
    s.push(hex_digit_char(v % 16));
    assert(s@ =~= old(s)@ + hex_byte(v));
}

/// `to_hex`: `#rrggbb` lowercase.
pub fn to_hex(r: u8, g: u8, b: u8) -> (s: String)
    ensures
        s@ == hex_string(r, g, b),
{
    let mut s = String::new();
    s.push('#');
    push_hex_byte(&mut s, r);
    push_hex_byte(&mut s, g);
    push_hex_byte(&mut s, b);
    assert(s@ =~= hex_string(r, g, b));
    s
}

// ---------------------------------------------------------------------------
// Hex parsing
// ---------------------------------------------------------------------------

/// `c` has the Unicode `White_Space` property (what `char::is_whitespace` and
/// `str::trim` test for).
pub open spec fn is_whitespace(c: char) -> bool {
    let u = c as u32;
    ||| 0x09 <= u && u <= 0x0d
    ||| u == 0x20
    ||| u == 0x85
    ||| u == 0xa0
    ||| u == 0x1680
    ||| 0x2000 <= u && u <= 0x200a
    ||| u == 0x2028
    ||| u == 0x2029
    ||| u == 0x202f
    ||| u == 0x205f
    ||| u == 0x3000
}

/// `s` without its leading whitespace.
pub open spec fn trim_start(s: Seq<char>) -> Seq<char>
    decreases s.len(),
{
    if s.len() > 0 && is_whitespace(s[0]) {
        trim_start(s.drop_first())
    } else {
        s
    }
}

/// `s` without its trailing whitespace.
pub open spec fn trim_end(s: Seq<char>) -> Seq<char>
    decreases s.len(),
{
    if s.len() > 0 && is_whitespace(s.last()) {
        trim_end(s.drop_last())
    } else {
        s
    }
}

/// `s` without leading and trailing whitespace.
pub open spec fn trim(s: Seq<char>) -> Seq<char> {
    trim_end(trim_start(s))
}

/// `s` without one leading `#`, if it has one.
pub open spec fn strip_hash(s: Seq<char>) -> Seq<char> {
    if s.len() > 0 && s[0] == '#' {
        s.drop_first()
    } else {
        s
    }
}

/// The digits of a hex color: the input trimmed, without its optional `#`.
pub open spec fn hex_digits(s: Seq<char>) -> Seq<char> {
    strip_hash(trim(s))
}

/// Every character of `h` is an ASCII hex digit.
pub open spec fn all_hex_digits(h: Seq<char>) -> bool {
    forall|i: int| 0 <= i < h.len() ==> is_hex_digit(#[trigger] h[i])
}

/// The byte written by the two hex digits `hi`, `lo`.
pub open spec fn hex_pair_value(hi: char, lo: char) -> u8 {
    (hex_value(hi) * 16 + hex_value(lo)) as u8
}

/// What `from_hex` parses `s` to: `#rgb` (each digit doubled), `#rrggbb`, or
/// `#rrggbbaa` (alpha dropped), the `#` optional, surrounding whitespace
/// ignored; `None` for anything else.
pub open spec fn parse_hex(s: Seq<char>) -> Option<Rgb> {
    let h = hex_digits(s);
    if !all_hex_digits(h) {
        None
    } else if h.len() == 3 {
        Some(
            Rgb {
                r: hex_pair_value(h[0], h[0]),
                g: hex_pair_value(h[1], h[1]),
                b: hex_pair_value(h[2], h[2]),
            },
        )
    } else if h.len() == 6 || h.len() == 8 {
        Some(
            Rgb {
                r: hex_pair_value(h[0], h[1]),
                g: hex_pair_value(h[2], h[3]),
                b: hex_pair_value(h[4], h[5]),
            },
        )
    } else {
        None
    }
}

/// The characters of `s`, in order.
pub(crate) fn str_chars(s: &str) -> (v: Vec<char>)
    ensures
        v@ == s@,
{
    broadcast use vstd::string::group_string_axioms;

    let mut it = s.chars();
    let mut v: Vec<char> = Vec::new();
    loop
        invariant
            v@ + it.remaining() == s@,
            it.decrease() is Some,
        ensures
            v@ == s@,
        decreases it.decrease()->0,
    {
        let ghost before = it.remaining();
        match it.next() {
            Some(c) => {
                v.push(c);
                assert(v@ + it.remaining() =~= s@) by {
                    assert(before =~= seq![c] + it.remaining());
                }
            },
            None => {
                assert(v@ =~= s@);
                break ;
            },
        }
    }
    v
}

fn is_whitespace_char(c: char) -> (b: bool)
    ensures
        b == is_whitespace(c),
{
    let u = c as u32;
    (0x09 <= u && u <= 0x0d) || u == 0x20 || u == 0x85 || u == 0xa0 || u == 0x1680 || (0x2000 <= u
        && u <= 0x200a) || u == 0x2028 || u == 0x2029 || u == 0x202f || u == 0x205f || u == 0x3000
}

fn is_hex_digit_char(c: char) -> (b: bool)
    ensures
        b == is_hex_digit(c),
{
    ('0' <= c && c <= '9') || ('a' <= c && c <= 'f') || ('A' <= c && c <= 'F')
}

fn hex_digit_value(c: char) -> (v: u8)
    requires
        is_hex_digit(c),
    ensures
        v as int == hex_value(c),
        v < 16,
{
    let u = c as u32;
    if '0' <= c && c <= '9' {
        (u - 48) as u8
    } else if 'a' <= c && c <= 'f' {
        (u - 87) as u8
    } else {
        (u - 55) as u8
    }
}

fn hex_pair(hi: char, lo: char) -> (v: u8)
    requires
        is_hex_digit(hi),
        is_hex_digit(lo),
    ensures
        v == hex_pair_value(hi, lo),
{
    hex_digit_value(hi) * 16 + hex_digit_value(lo)
}

proof fn lemma_trim_start_skip(s: Seq<char>, i: int)
    requires
        0 <= i < s.len(),
        is_whitespace(s[i]),
    ensures
        trim_start(s.subrange(i, s.len() as int)) == trim_start(s.subrange(i + 1, s.len() as int)),
{
    let t = s.subrange(i, s.len() as int);
    assert(t.drop_first() =~= s.subrange(i + 1, s.len() as int));
}

proof fn lemma_trim_end_skip(s: Seq<char>, i: int, j: int)
    requires
        0 <= i < j <= s.len(),
        is_whitespace(s[j - 1]),
    ensures
        trim_end(s.subrange(i, j)) == trim_end(s.subrange(i, j - 1)),
{
    let t = s.subrange(i, j);
    assert(t.drop_last() =~= s.subrange(i, j - 1));
}

/// Parse a hex color string. Accepts `#rgb`, `#rrggbb`, and `#rrggbbaa` (alpha is
/// accepted and dropped). The leading `#` is optional and surrounding whitespace
/// is ignored. Returns `None` for any malformed input.
pub fn from_hex(s: &str) -> (res: Option<Rgb>)
    ensures
        res == parse_hex(s@),
{
    let v = str_chars(s);
    let n = v.len();
    // Leading whitespace.
    let mut i: usize = 0;
    assert(s@.subrange(0, n as int) =~= s@);
    while i < n && is_whitespace_char(v[i])
        invariant
            v@ == s@,
            n == v@.len(),
            i <= n,
            trim_start(s@) == trim_start(s@.subrange(i as int, n as int)),
        decreases n - i,
    {
        proof {
            lemma_trim_start_skip(s@, i as int);
        }
        i = i + 1;
    }
    assert(trim_start(s@) == s@.subrange(i as int, n as int)) by {
        if i == n {
            assert(s@.subrange(i as int, n as int).len() == 0);
        }
    }
    // Trailing whitespace.
    let mut j: usize = n;
    while j > i && is_whitespace_char(v[j - 1])
        invariant
            v@ == s@,
            n == v@.len(),
            i <= j <= n,
            trim_end(s@.subrange(i as int, n as int)) == trim_end(s@.subrange(i as int, j as int)),
        decreases j - i,
    {
        proof {
            lemma_trim_end_skip(s@, i as int, j as int);
        }
        j = j - 1;
    }
    assert(trim(s@) == s@.subrange(i as int, j as int)) by {
        let t = s@.subrange(i as int, j as int);
        if j > i {
            assert(t.last() == s@[j - 1]);
        }
    }
    // Optional leading `#`.
    let mut k: usize = i;
    if i < j && v[i] == '#' {
        k = i + 1;
    }
    let ghost h = hex_digits(s@);
    assert(h =~= s@.subrange(k as int, j as int));
    // Every remaining character must be a hex digit.
    let mut m: usize = k;
    while m < j
        invariant
            v@ == s@,
            n == v@.len(),
            k <= m <= j <= n,
            h == s@.subrange(k as int, j as int),
            h == hex_digits(s@),
            forall|x: int| k <= x < m ==> is_hex_digit(#[trigger] s@[x]),
        decreases j - m,
    {
        if !is_hex_digit_char(v[m]) {
            assert(!is_hex_digit(h[m - k]));
            assert(!all_hex_digits(h));
            return None;
        }
        m = m + 1;
    }
    assert(all_hex_digits(h)) by {
        assert forall|x: int| 0 <= x < h.len() implies is_hex_digit(#[trigger] h[x]) by {
            assert(h[x] == s@[k + x]);
        }
    }
    let len = j - k;
    if len == 3 {
        Some(
            Rgb::new(
                hex_pair(v[k], v[k]),
                hex_pair(v[k + 1], v[k + 1]),
                hex_pair(v[k + 2], v[k + 2]),
            ),
        )
    } else if len == 6 || len == 8 {
        Some(
            Rgb::new(
                hex_pair(v[k], v[k + 1]),
                hex_pair(v[k + 2], v[k + 3]),
                hex_pair(v[k + 4], v[k + 5]),
            ),
        )
    } else {
        None
    }
}


// ---------------------------------------------------------------------------
// CSS named colors
// ---------------------------------------------------------------------------

/// The number of CSS named colors: the 147 named-color keywords of CSS and
/// SVG, counting both the `gray` and the `grey` spelling of each gray.
pub const NAMED_COLOR_COUNT: usize = 147;

/// The CSS named-color table: `(name, r, g, b)` for each of the 147 named-color
/// keywords, in alphabetical order.
pub const NAMED_COLORS: [(&'static str, u8, u8, u8); 147] = [
    ("aliceblue", 240, 248, 255),
    ("antiquewhite", 250, 235, 215),
    ("aqua", 0, 255, 255),
    ("aquamarine", 127, 255, 212),
    ("azure", 240, 255, 255),
    ("beige", 245, 245, 220),
    ("bisque", 255, 228, 196),
    ("black", 0, 0, 0),
    ("blanchedalmond", 255, 235, 205),
    ("blue", 0, 0, 255),
    ("blueviolet", 138, 43, 226),
    ("brown", 165, 42, 42),
    ("burlywood", 222, 184, 135),
    ("cadetblue", 95, 158, 160),
    ("chartreuse", 127, 255, 0),
    ("chocolate", 210, 105, 30),
    ("coral", 255, 127, 80),
    ("cornflowerblue", 100, 149, 237),
    ("cornsilk", 255, 248, 220),
    ("crimson", 220, 20, 60),
    ("cyan", 0, 255, 255),
    ("darkblue", 0, 0, 139),
    ("darkcyan", 0, 139, 139),
    ("darkgoldenrod", 184, 134, 11),
    ("darkgray", 169, 169, 169),
    ("darkgreen", 0, 100, 0),
    ("darkgrey", 169, 169, 169),
    ("darkkhaki", 189, 183, 107),
    ("darkmagenta", 139, 0, 139),
    ("darkolivegreen", 85, 107, 47),
    ("darkorange", 255, 140, 0),
    ("darkorchid", 153, 50, 204),
    ("darkred", 139, 0, 0),
    ("darksalmon", 233, 150, 122),
    ("darkseagreen", 143, 188, 143),
    ("darkslateblue", 72, 61, 139),
    ("darkslategray", 47, 79, 79),
    ("darkslategrey", 47, 79, 79),
    ("darkturquoise", 0, 206, 209),
    ("darkviolet", 148, 0, 211),
    ("deeppink", 255, 20, 147),
    ("deepskyblue", 0, 191, 255),
    ("dimgray", 105, 105, 105),
    ("dimgrey", 105, 105, 105),
    ("dodgerblue", 30, 144, 255),
    ("firebrick", 178, 34, 34),
    ("floralwhite", 255, 250, 240),
    ("forestgreen", 34, 139, 34),
    ("fuchsia", 255, 0, 255),
    ("gainsboro", 220, 220, 220),
    ("ghostwhite", 248, 248, 255),
    ("gold", 255, 215, 0),
    ("goldenrod", 218, 165, 32),
    ("gray", 128, 128, 128),
    ("green", 0, 128, 0),
    ("greenyellow", 173, 255, 47),
    ("grey", 128, 128, 128),
    ("honeydew", 240, 255, 240),
    ("hotpink", 255, 105, 180),
    ("indianred", 205, 92, 92),
    ("indigo", 75, 0, 130),
    ("ivory", 255, 255, 240),
    ("khaki", 240, 230, 140),
    ("lavender", 230, 230, 250),
    ("lavenderblush", 255, 240, 245),
    ("lawngreen", 124, 252, 0),
    ("lemonchiffon", 255, 250, 205),
    ("lightblue", 173, 216, 230),
    ("lightcoral", 240, 128, 128),
    ("lightcyan", 224, 255, 255),
    ("lightgoldenrodyellow", 250, 250, 210),
    ("lightgray", 211, 211, 211),
    ("lightgreen", 144, 238, 144),
    ("lightgrey", 211, 211, 211),
    ("lightpink", 255, 182, 193),
    ("lightsalmon", 255, 160, 122),
    ("lightseagreen", 32, 178, 170),
    ("lightskyblue", 135, 206, 250),
    ("lightslategray", 119, 136, 153),
    ("lightslategrey", 119, 136, 153),
    ("lightsteelblue", 176, 196, 222),
    ("lightyellow", 255, 255, 224),
    ("lime", 0, 255, 0),
    ("limegreen", 50, 205, 50),
    ("linen", 250, 240, 230),
    ("magenta", 255, 0, 255),
    ("maroon", 128, 0, 0),
    ("mediumaquamarine", 102, 205, 170),
    ("mediumblue", 0, 0, 205),
    ("mediumorchid", 186, 85, 211),
    ("mediumpurple", 147, 112, 219),
    ("mediumseagreen", 60, 179, 113),
    ("mediumslateblue", 123, 104, 238),
    ("mediumspringgreen", 0, 250, 154),
    ("mediumturquoise", 72, 209, 204),
    ("mediumvioletred", 199, 21, 133),
    ("midnightblue", 25, 25, 112),
    ("mintcream", 245, 255, 250),
    ("mistyrose", 255, 228, 225),
    ("moccasin", 255, 228, 181),
    ("navajowhite", 255, 222, 173),
    ("navy", 0, 0, 128),
    ("oldlace", 253, 245, 230),
    ("olive", 128, 128, 0),
    ("olivedrab", 107, 142, 35),
    ("orange", 255, 165, 0),
    ("orangered", 255, 69, 0),
    ("orchid", 218, 112, 214),
    ("palegoldenrod", 238, 232, 170),
    ("palegreen", 152, 251, 152),
    ("paleturquoise", 175, 238, 238),
    ("palevioletred", 219, 112, 147),
    ("papayawhip", 255, 239, 213),
    ("peachpuff", 255, 218, 185),
    ("peru", 205, 133, 63),
    ("pink", 255, 192, 203),
    ("plum", 221, 160, 221),
    ("powderblue", 176, 224, 230),
    ("purple", 128, 0, 128),
    ("red", 255, 0, 0),
    ("rosybrown", 188, 143, 143),
    ("royalblue", 65, 105, 225),
    ("saddlebrown", 139, 69, 19),
    ("salmon", 250, 128, 114),
    ("sandybrown", 244, 164, 96),
    ("seagreen", 46, 139, 87),
    ("seashell", 255, 245, 238),
    ("sienna", 160, 82, 45),
    ("silver", 192, 192, 192),
    ("skyblue", 135, 206, 235),
    ("slateblue", 106, 90, 205),
    ("slategray", 112, 128, 144),
    ("slategrey", 112, 128, 144),
    ("snow", 255, 250, 250),
    ("springgreen", 0, 255, 127),
    ("steelblue", 70, 130, 180),
    ("tan", 210, 180, 140),
    ("teal", 0, 128, 128),
    ("thistle", 216, 191, 216),
    ("tomato", 255, 99, 71),
    ("turquoise", 64, 224, 208),
    ("violet", 238, 130, 238),
    ("wheat", 245, 222, 179),
    ("white", 255, 255, 255),
    ("whitesmoke", 245, 245, 245),
    ("yellow", 255, 255, 0),
    ("yellowgreen", 154, 205, 50),
];

/// The largest order key, standing for a distance that is never preferred: a
/// candidate is chosen only when its key is strictly smaller than every key
/// seen before it, starting from this bound, so a candidate with this key is
/// never chosen.
pub const UNREACHABLE_DISTANCE: u64 = 0xffff_ffff_ffff_ffff;

/// `i` is the index that the nearest-name scan settles on for the distance
/// keys `keys`: the first index of the smallest key below
/// `UNREACHABLE_DISTANCE`, or `0` when no key is below it.
pub open spec fn is_first_nearest(keys: Seq<u64>, i: int) -> bool {
    &&& 0 <= i < keys.len()
    &&& if exists|j: int| 0 <= j < keys.len() && keys[j] < UNREACHABLE_DISTANCE {
        &&& keys[i] < UNREACHABLE_DISTANCE
        &&& forall|j: int| 0 <= j < keys.len() ==> keys[i] <= #[trigger] keys[j]
        &&& forall|j: int| 0 <= j < i ==> keys[i] < #[trigger] keys[j]
    } else {
        i == 0
    }
}

/// The index of the closest candidate given one order key per candidate
/// (smaller key = closer). Ties resolve to the first in order; when no key is
/// below `UNREACHABLE_DISTANCE` the first candidate is returned.
pub fn nearest_index(keys: &[u64]) -> (i: usize)
    requires
        keys@.len() > 0,
    ensures
        is_first_nearest(keys@, i as int),
{
    let mut best: usize = 0;
    let mut best_key: u64 = UNREACHABLE_DISTANCE;
    let mut i: usize = 0;
    while i < keys.len()
        invariant
            0 < keys@.len(),
            i <= keys@.len(),
            best < keys@.len(),
            best_key == UNREACHABLE_DISTANCE ==> best == 0,
            best_key < UNREACHABLE_DISTANCE ==> best < i && keys@[best as int] == best_key,
            forall|j: int| 0 <= j < i ==> best_key <= #[trigger] keys@[j],
            forall|j: int| 0 <= j < best ==> best_key < #[trigger] keys@[j],
        decreases keys@.len() - i,
    {
        if keys[i] < best_key {
            best = i;
            best_key = keys[i];
        }
        i = i + 1;
    }
    proof {
        if exists|j: int| 0 <= j < keys@.len() && keys@[j] < UNREACHABLE_DISTANCE {
            let j = choose|j: int| 0 <= j < keys@.len() && keys@[j] < UNREACHABLE_DISTANCE;
            assert(best_key <= keys@[j]);
        }
    }
    best
}

/// The first-nearest index is unique: the scan's result is determined by
/// the keys.
pub proof fn lemma_first_nearest_unique(keys: Seq<u64>, i: int, k: int)
    requires
        is_first_nearest(keys, i),
        is_first_nearest(keys, k),
    ensures
        i == k,
{
    if exists|j: int| 0 <= j < keys.len() && keys[j] < UNREACHABLE_DISTANCE {
        if i < k {
            assert(keys[k] < keys[i]);
            assert(keys[k] <= keys[i]);
        } else if k < i {
            assert(keys[i] < keys[k]);
            assert(keys[i] <= keys[k]);
        }
    }
}

/// Closest CSS named color, given one distance order key per entry of
/// `NAMED_COLORS` (in table order). Ties resolve to the first in table order.
/// The table is never empty, so this always returns a name.
pub fn nearest_color_name(keys: &[u64]) -> (name: &'static str)
    requires
        keys@.len() == NAMED_COLOR_COUNT,
    ensures
        exists|i: int| is_first_nearest(keys@, i) && name == NAMED_COLORS@[i].0,
{
    let i = nearest_index(keys);
    NAMED_COLORS[i].0
}

// ---------------------------------------------------------------------------
// Laws of hex formatting and parsing
// ---------------------------------------------------------------------------

/// `c` is a digit that `to_hex` writes (`0-9`, `a-f`).
pub open spec fn is_lower_hex_digit(c: char) -> bool {
    ('0' <= c && c <= '9') || ('a' <= c && c <= 'f')
}

proof fn lemma_trim_no_whitespace(s: Seq<char>)
    requires
        forall|i: int| 0 <= i < s.len() ==> !is_whitespace(#[trigger] s[i]),
    ensures
        trim(s) == s,
{
    if s.len() > 0 {
        assert(!is_whitespace(s[0]));
        assert(!is_whitespace(s[s.len() - 1]));
    }
}

/// `hex_digits` of `#` followed by hex digits `h` is `h`, and so is
/// `hex_digits(h)`.
proof fn lemma_hex_digits_of_digits(h: Seq<char>)
    requires
        all_hex_digits(h),
    ensures
        hex_digits(seq!['#'] + h) == h,
        hex_digits(h) == h,
{
    let s = seq!['#'] + h;
    assert forall|i: int| 0 <= i < s.len() implies !is_whitespace(#[trigger] s[i]) by {
        if i > 0 {
            assert(s[i] == h[i - 1]);
            assert(is_hex_digit(h[i - 1]));
        }
    }
    lemma_trim_no_whitespace(s);
    assert(s.drop_first() =~= h);
    assert forall|i: int| 0 <= i < h.len() implies !is_whitespace(#[trigger] h[i]) by {
        assert(is_hex_digit(h[i]));
    }
    lemma_trim_no_whitespace(h);
}

proof fn lemma_hex_byte_value(v: u8)
    ensures
        is_hex_digit(hex_byte(v)[0]),
        is_hex_digit(hex_byte(v)[1]),
        hex_pair_value(hex_byte(v)[0], hex_byte(v)[1]) == v,
{
    let hi = v as int / 16;
    let lo = v as int % 16;
    assert(hex_value(hex_char(hi)) == hi);
    assert(hex_value(hex_char(lo)) == lo);
}

/// Parsing what `to_hex` writes gives back the color:
/// `from_hex(to_hex(r, g, b)) == Some(Rgb { r, g, b })`.
pub proof fn lemma_hex_roundtrip(r: u8, g: u8, b: u8)
    ensures
        parse_hex(hex_string(r, g, b)) == Some(Rgb { r, g, b }),
{
    let h = hex_byte(r) + hex_byte(g) + hex_byte(b);
    lemma_hex_byte_value(r);
    lemma_hex_byte_value(g);
    lemma_hex_byte_value(b);
    assert(all_hex_digits(h));
    assert(hex_string(r, g, b) =~= seq!['#'] + h);
    lemma_hex_digits_of_digits(h);
}

/// Formatting a parsed `#rrggbb` of lowercase digits gives back the input:
/// `to_hex(from_hex(s)) == s`.
pub proof fn lemma_hex_reformat(h: Seq<char>)
    requires
        h.len() == 6,
        forall|i: int| 0 <= i < 6 ==> is_lower_hex_digit(#[trigger] h[i]),
    ensures
        parse_hex(seq!['#'] + h) matches Some(c) && hex_string(c.r, c.g, c.b) == seq!['#'] + h,
{
    assert(all_hex_digits(h)) by {
        assert forall|i: int| 0 <= i < h.len() implies is_hex_digit(#[trigger] h[i]) by {
            assert(is_lower_hex_digit(h[i]));
        }
    }
    lemma_hex_digits_of_digits(h);
    assert forall|k: int| 0 <= k < 3 implies #[trigger] hex_byte(
        hex_pair_value(h[2 * k], h[2 * k + 1]),
    ) =~= seq![h[2 * k], h[2 * k + 1]] by {
        let hi = h[2 * k];
        let lo = h[2 * k + 1];
        assert(is_lower_hex_digit(hi));
        assert(is_lower_hex_digit(lo));
        let v = hex_pair_value(hi, lo);
        assert(v as int / 16 == hex_value(hi));
        assert(v as int % 16 == hex_value(lo));
        assert(hex_char(hex_value(hi)) == hi);
        assert(hex_char(hex_value(lo)) == lo);
    }
    let c = parse_hex(seq!['#'] + h)->0;
    assert(hex_byte(c.r) =~= seq![h[0], h[1]]);
    assert(hex_byte(c.g) =~= seq![h[2], h[3]]);
    assert(hex_byte(c.b) =~= seq![h[4], h[5]]);
    assert(hex_string(c.r, c.g, c.b) =~= seq!['#'] + h);
}

/// The short form `#rgb` is the long form with every digit doubled:
/// `from_hex("#f0a") == from_hex("#ff00aa")`.
pub proof fn lemma_short_form_doubles_digits(a: char, b: char, c: char)
    requires
        is_hex_digit(a),
        is_hex_digit(b),
        is_hex_digit(c),
    ensures
        parse_hex(seq!['#', a, b, c]) == parse_hex(seq!['#', a, a, b, b, c, c]),
        parse_hex(seq!['#', a, b, c]) is Some,
{
    let h3 = seq![a, b, c];
    let h6 = seq![a, a, b, b, c, c];
    assert(all_hex_digits(h3));
    assert(all_hex_digits(h6));
    lemma_hex_digits_of_digits(h3);
    lemma_hex_digits_of_digits(h6);
    assert(seq!['#', a, b, c] =~= seq!['#'] + h3);
    assert(seq!['#', a, a, b, b, c, c] =~= seq!['#'] + h6);
}

/// A trailing alpha pair is accepted and dropped:
/// `from_hex("#rrggbbaa") == from_hex("#rrggbb")`.
pub proof fn lemma_alpha_dropped(h: Seq<char>)
    requires
        h.len() == 8,
        all_hex_digits(h),
    ensures
        parse_hex(seq!['#'] + h) == parse_hex(seq!['#'] + h.take(6)),
        parse_hex(seq!['#'] + h) is Some,
{
    let h6 = h.take(6);
    assert(all_hex_digits(h6)) by {
        assert forall|i: int| 0 <= i < h6.len() implies is_hex_digit(#[trigger] h6[i]) by {
            assert(h6[i] == h[i]);
        }
    }
    lemma_hex_digits_of_digits(h);
    lemma_hex_digits_of_digits(h6);
}

/// The leading `#` is optional: `from_hex("ff0000") == from_hex("#ff0000")`.
pub proof fn lemma_hash_optional(h: Seq<char>)
    requires
        all_hex_digits(h),
    ensures
        parse_hex(h) == parse_hex(seq!['#'] + h),
{
    lemma_hex_digits_of_digits(h);
}

// ---------------------------------------------------------------------------
// Laws stated against the hex alphabet and the Unicode White_Space set
// ---------------------------------------------------------------------------

/// The sixteen lowercase hex digits, in value order.
pub open spec fn lower_hex_alphabet() -> Seq<char> {
    seq!['0', '1', '2', '3', '4', '5', '6', '7', '8', '9', 'a', 'b', 'c', 'd', 'e', 'f']
}

/// The sixteen hex digits with uppercase letters, in value order.
pub open spec fn upper_hex_alphabet() -> Seq<char> {
    seq!['0', '1', '2', '3', '4', '5', '6', '7', '8', '9', 'A', 'B', 'C', 'D', 'E', 'F']
}

proof fn lemma_hex_char_alphabet(d: int)
    requires
        0 <= d < 16,
    ensures
        hex_char(d) == lower_hex_alphabet()[d],
{
    if d == 0 {
        assert(hex_char(0) == lower_hex_alphabet()[0]);
    } else if d == 1 {
        assert(hex_char(1) == lower_hex_alphabet()[1]);
    } else if d == 2 {
        assert(hex_char(2) == lower_hex_alphabet()[2]);
    } else if d == 3 {
        assert(hex_char(3) == lower_hex_alphabet()[3]);
    } else if d == 4 {
        assert(hex_char(4) == lower_hex_alphabet()[4]);
    } else if d == 5 {
        assert(hex_char(5) == lower_hex_alphabet()[5]);
    } else if d == 6 {
        assert(hex_char(6) == lower_hex_alphabet()[6]);
    } else if d == 7 {
        assert(hex_char(7) == lower_hex_alphabet()[7]);
    } else if d == 8 {
        assert(hex_char(8) == lower_hex_alphabet()[8]);
    } else if d == 9 {
        assert(hex_char(9) == lower_hex_alphabet()[9]);
    } else if d == 10 {
        assert(hex_char(10) == lower_hex_alphabet()[10]);
    } else if d == 11 {
        assert(hex_char(11) == lower_hex_alphabet()[11]);
    } else if d == 12 {
        assert(hex_char(12) == lower_hex_alphabet()[12]);
    } else if d == 13 {
        assert(hex_char(13) == lower_hex_alphabet()[13]);
    } else if d == 14 {
        assert(hex_char(14) == lower_hex_alphabet()[14]);
    } else if d == 15 {
        assert(hex_char(15) == lower_hex_alphabet()[15]);
    }
}

proof fn lemma_lower_alphabet_value(d: int)
    requires
        0 <= d < 16,
    ensures
        is_hex_digit(lower_hex_alphabet()[d]),
        hex_value(lower_hex_alphabet()[d]) == d,
{
    if d == 0 {
        assert(hex_value(lower_hex_alphabet()[0]) == 0);
        assert(is_hex_digit(lower_hex_alphabet()[0]));
    } else if d == 1 {
        assert(hex_value(lower_hex_alphabet()[1]) == 1);
        assert(is_hex_digit(lower_hex_alphabet()[1]));
    } else if d == 2 {
        assert(hex_value(lower_hex_alphabet()[2]) == 2);
        assert(is_hex_digit(lower_hex_alphabet()[2]));
    } else if d == 3 {
        assert(hex_value(lower_hex_alphabet()[3]) == 3);
        assert(is_hex_digit(lower_hex_alphabet()[3]));
    } else if d == 4 {
        assert(hex_value(lower_hex_alphabet()[4]) == 4);
        assert(is_hex_digit(lower_hex_alphabet()[4]));
    } else if d == 5 {
        assert(hex_value(lower_hex_alphabet()[5]) == 5);
        assert(is_hex_digit(lower_hex_alphabet()[5]));
    } else if d == 6 {
        assert(hex_value(lower_hex_alphabet()[6]) == 6);
        assert(is_hex_digit(lower_hex_alphabet()[6]));
    } else if d == 7 {
        assert(hex_value(lower_hex_alphabet()[7]) == 7);
        assert(is_hex_digit(lower_hex_alphabet()[7]));
    } else if d == 8 {
        assert(hex_value(lower_hex_alphabet()[8]) == 8);
        assert(is_hex_digit(lower_hex_alphabet()[8]));
    } else if d == 9 {
        assert(hex_value(lower_hex_alphabet()[9]) == 9);
        assert(is_hex_digit(lower_hex_alphabet()[9]));
    } else if d == 10 {
        assert(hex_value(lower_hex_alphabet()[10]) == 10);
        assert(is_hex_digit(lower_hex_alphabet()[10]));
    } else if d == 11 {
        assert(hex_value(lower_hex_alphabet()[11]) == 11);
        assert(is_hex_digit(lower_hex_alphabet()[11]));
    } else if d == 12 {
        assert(hex_value(lower_hex_alphabet()[12]) == 12);
        assert(is_hex_digit(lower_hex_alphabet()[12]));
    } else if d == 13 {
        assert(hex_value(lower_hex_alphabet()[13]) == 13);
        assert(is_hex_digit(lower_hex_alphabet()[13]));
    } else if d == 14 {
        assert(hex_value(lower_hex_alphabet()[14]) == 14);
        assert(is_hex_digit(lower_hex_alphabet()[14]));
    } else if d == 15 {
        assert(hex_value(lower_hex_alphabet()[15]) == 15);
        assert(is_hex_digit(lower_hex_alphabet()[15]));
    }
}

proof fn lemma_upper_alphabet_value(d: int)
    requires
        0 <= d < 16,
    ensures
        is_hex_digit(upper_hex_alphabet()[d]),
        hex_value(upper_hex_alphabet()[d]) == d,
{
    if d == 0 {
        assert(hex_value(upper_hex_alphabet()[0]) == 0);
        assert(is_hex_digit(upper_hex_alphabet()[0]));
    } else if d == 1 {
        assert(hex_value(upper_hex_alphabet()[1]) == 1);
        assert(is_hex_digit(upper_hex_alphabet()[1]));
    } else if d == 2 {
        assert(hex_value(upper_hex_alphabet()[2]) == 2);
        assert(is_hex_digit(upper_hex_alphabet()[2]));
    } else if d == 3 {
        assert(hex_value(upper_hex_alphabet()[3]) == 3);
        assert(is_hex_digit(upper_hex_alphabet()[3]));
    } else if d == 4 {
        assert(hex_value(upper_hex_alphabet()[4]) == 4);
        assert(is_hex_digit(upper_hex_alphabet()[4]));
    } else if d == 5 {
        assert(hex_value(upper_hex_alphabet()[5]) == 5);
        assert(is_hex_digit(upper_hex_alphabet()[5]));
    } else if d == 6 {
        assert(hex_value(upper_hex_alphabet()[6]) == 6);
        assert(is_hex_digit(upper_hex_alphabet()[6]));
    } else if d == 7 {
        assert(hex_value(upper_hex_alphabet()[7]) == 7);
        assert(is_hex_digit(upper_hex_alphabet()[7]));
    } else if d == 8 {
        assert(hex_value(upper_hex_alphabet()[8]) == 8);
        assert(is_hex_digit(upper_hex_alphabet()[8]));
    } else if d == 9 {
        assert(hex_value(upper_hex_alphabet()[9]) == 9);
        assert(is_hex_digit(upper_hex_alphabet()[9]));
    } else if d == 10 {
        assert(hex_value(upper_hex_alphabet()[10]) == 10);
        assert(is_hex_digit(upper_hex_alphabet()[10]));
    } else if d == 11 {
        assert(hex_value(upper_hex_alphabet()[11]) == 11);
        assert(is_hex_digit(upper_hex_alphabet()[11]));
    } else if d == 12 {
        assert(hex_value(upper_hex_alphabet()[12]) == 12);
        assert(is_hex_digit(upper_hex_alphabet()[12]));
    } else if d == 13 {
        assert(hex_value(upper_hex_alphabet()[13]) == 13);
        assert(is_hex_digit(upper_hex_alphabet()[13]));
    } else if d == 14 {
        assert(hex_value(upper_hex_alphabet()[14]) == 14);
        assert(is_hex_digit(upper_hex_alphabet()[14]));
    } else if d == 15 {
        assert(hex_value(upper_hex_alphabet()[15]) == 15);
        assert(is_hex_digit(upper_hex_alphabet()[15]));
    }
}

/// `to_hex` writes `#`, then for each channel the digit of its high nibble
/// and the digit of its low nibble, taken from `0123456789abcdef`:
/// `to_hex(0, 0, 9) == "#000009"`, `to_hex(0, 0, 14) == "#00000e"`.
pub proof fn lemma_to_hex_digits(r: u8, g: u8, b: u8)
    ensures
        hex_string(r, g, b) == seq![
            '#',
            lower_hex_alphabet()[r as int / 16],
            lower_hex_alphabet()[r as int % 16],
            lower_hex_alphabet()[g as int / 16],
            lower_hex_alphabet()[g as int % 16],
            lower_hex_alphabet()[b as int / 16],
            lower_hex_alphabet()[b as int % 16],
        ],
{
    lemma_hex_char_alphabet(r as int / 16);
    lemma_hex_char_alphabet(r as int % 16);
    lemma_hex_char_alphabet(g as int / 16);
    lemma_hex_char_alphabet(g as int % 16);
    lemma_hex_char_alphabet(b as int / 16);
    lemma_hex_char_alphabet(b as int % 16);
    assert(hex_string(r, g, b) =~= seq![
        '#',
        lower_hex_alphabet()[r as int / 16],
        lower_hex_alphabet()[r as int % 16],
        lower_hex_alphabet()[g as int / 16],
        lower_hex_alphabet()[g as int % 16],
        lower_hex_alphabet()[b as int / 16],
        lower_hex_alphabet()[b as int % 16],
    ]);
}

/// The digit of value `d`, lowercase or uppercase.
pub open spec fn alphabet_digit(d: int, upper: bool) -> char {
    if upper {
        upper_hex_alphabet()[d]
    } else {
        lower_hex_alphabet()[d]
    }
}

proof fn lemma_alphabet_digit(d: int, upper: bool)
    requires
        0 <= d < 16,
    ensures
        is_hex_digit(alphabet_digit(d, upper)),
        hex_value(alphabet_digit(d, upper)) == d,
{
    if upper {
        lemma_upper_alphabet_value(d);
    } else {
        lemma_lower_alphabet_value(d);
    }
}

/// Each digit of `#rrggbb` stands for its position in `0123456789abcdef`
/// (either letter case), the first digit of a pair being the high nibble:
/// `from_hex("#999999") == Some(Rgb { r: 153, g: 153, b: 153 })`.
pub proof fn lemma_from_hex_long_form_values(
    r1: int,
    r0: int,
    g1: int,
    g0: int,
    b1: int,
    b0: int,
    upper: bool,
)
    requires
        0 <= r1 < 16,
        0 <= r0 < 16,
        0 <= g1 < 16,
        0 <= g0 < 16,
        0 <= b1 < 16,
        0 <= b0 < 16,
    ensures
        parse_hex(
            seq![
                '#',
                alphabet_digit(r1, upper),
                alphabet_digit(r0, upper),
                alphabet_digit(g1, upper),
                alphabet_digit(g0, upper),
                alphabet_digit(b1, upper),
                alphabet_digit(b0, upper),
            ],
        ) == Some(
            Rgb { r: (16 * r1 + r0) as u8, g: (16 * g1 + g0) as u8, b: (16 * b1 + b0) as u8 },
        ),
{
    lemma_alphabet_digit(r1, upper);
    lemma_alphabet_digit(r0, upper);
    lemma_alphabet_digit(g1, upper);
    lemma_alphabet_digit(g0, upper);
    lemma_alphabet_digit(b1, upper);
    lemma_alphabet_digit(b0, upper);
    let h = seq![
        alphabet_digit(r1, upper),
        alphabet_digit(r0, upper),
        alphabet_digit(g1, upper),
        alphabet_digit(g0, upper),
        alphabet_digit(b1, upper),
        alphabet_digit(b0, upper),
    ];
    assert(all_hex_digits(h));
    lemma_hex_digits_of_digits(h);
    assert(seq!['#'] + h =~= seq![
        '#',
        alphabet_digit(r1, upper),
        alphabet_digit(r0, upper),
        alphabet_digit(g1, upper),
        alphabet_digit(g0, upper),
        alphabet_digit(b1, upper),
        alphabet_digit(b0, upper),
    ]);
}

/// In the short form `#rgb` each digit of value `d` gives the channel
/// `17 * d`: `from_hex("#abc") == Some(Rgb { r: 170, g: 187, b: 204 })`.
pub proof fn lemma_from_hex_short_form_values(r: int, g: int, b: int, upper: bool)
    requires
        0 <= r < 16,
        0 <= g < 16,
        0 <= b < 16,
    ensures
        parse_hex(
            seq!['#', alphabet_digit(r, upper), alphabet_digit(g, upper), alphabet_digit(b, upper)],
        ) == Some(Rgb { r: (17 * r) as u8, g: (17 * g) as u8, b: (17 * b) as u8 }),
{
    lemma_alphabet_digit(r, upper);
    lemma_alphabet_digit(g, upper);
    lemma_alphabet_digit(b, upper);
    let h = seq![alphabet_digit(r, upper), alphabet_digit(g, upper), alphabet_digit(b, upper)];
    assert(all_hex_digits(h));
    lemma_hex_digits_of_digits(h);
    assert(seq!['#'] + h =~= seq![
        '#',
        alphabet_digit(r, upper),
        alphabet_digit(g, upper),
        alphabet_digit(b, upper),
    ]);
}

/// A printable ASCII string (no whitespace) that holds a character other
/// than `0-9`, `a-f`, `A-F` after its optional leading `#` is no hex color:
/// `from_hex("#gggggg")`, `from_hex("##fff")` and `from_hex("#ff 00")` are `None`.
pub proof fn lemma_from_hex_rejects_non_digits(h: Seq<char>, i: int)
    requires
        forall|k: int| 0 <= k < h.len() ==> '!' <= #[trigger] h[k] && h[k] <= '~',
        0 <= i < h.len(),
        !(('0' <= h[i] && h[i] <= '9') || ('a' <= h[i] && h[i] <= 'f') || ('A' <= h[i]
            && h[i] <= 'F')),
    ensures
        parse_hex(seq!['#'] + h) is None,
        h[0] != '#' ==> parse_hex(h) is None,
{
    let s = seq!['#'] + h;
    assert forall|k: int| 0 <= k < s.len() implies !is_whitespace(#[trigger] s[k]) by {
        if k > 0 {
            assert(s[k] == h[k - 1]);
        }
    }
    lemma_trim_no_whitespace(s);
    assert(s.drop_first() =~= h);
    assert(!is_hex_digit(h[i]));
    assert forall|k: int| 0 <= k < h.len() implies !is_whitespace(#[trigger] h[k]) by {
        assert('!' <= h[k] && h[k] <= '~');
    }
    lemma_trim_no_whitespace(h);
}

proof fn lemma_trim_start_push(s: Seq<char>, c: char)
    ensures
        trim_start(s.push(c)) == if trim_start(s).len() == 0 {
            trim_start(seq![c])
        } else {
            trim_start(s).push(c)
        },
    decreases s.len(),
{
    if s.len() == 0 {
        assert(s.push(c) =~= seq![c]);
    } else {
        let t = s.push(c);
        assert(t[0] == s[0]);
        assert(t.drop_first() =~= s.drop_first().push(c));
        if is_whitespace(s[0]) {
            lemma_trim_start_push(s.drop_first(), c);
        }
    }
}

/// Whitespace — any character with the Unicode `White_Space` property:
/// U+0009..U+000D, U+0020, U+0085, U+00A0, U+1680, U+2000..U+200A, U+2028,
/// U+2029, U+202F, U+205F, U+3000 — before or after a hex color is ignored:
/// `from_hex("#ff0000\r\n") == from_hex("#ff0000")`.
pub proof fn lemma_from_hex_ignores_surrounding_whitespace(s: Seq<char>, c: char)
    requires
        ({
            let u = c as u32;
            ||| 0x09 <= u && u <= 0x0d
            ||| u == 0x20
            ||| u == 0x85
            ||| u == 0xa0
            ||| u == 0x1680
            ||| 0x2000 <= u && u <= 0x200a
            ||| u == 0x2028
            ||| u == 0x2029
            ||| u == 0x202f
            ||| u == 0x205f
            ||| u == 0x3000
        }),
    ensures
        parse_hex(s.push(c)) == parse_hex(s),
        parse_hex(seq![c] + s) == parse_hex(s),
{
    assert(is_whitespace(c));
    let t = seq![c] + s;
    assert(t[0] == c);
    assert(t.drop_first() =~= s);
    assert(trim_start(t) == trim_start(s));
    lemma_trim_start_push(s, c);
    let e: Seq<char> = Seq::empty();
    assert(trim_start(e) == e);
    assert(trim_end(e) == e);
    assert(seq![c].drop_first() =~= e);
    assert(trim_start(seq![c]) == trim_start(e));
    let ts = trim_start(s);
    if ts.len() != 0 {
        assert(ts.push(c).drop_last() =~= ts);
        assert(ts.push(c).last() == c);
        assert(trim_end(ts.push(c)) == trim_end(ts));
    }
    assert(trim(s.push(c)) == trim(s));
}

/// A string of hex digits (either case) is a color only at three, six or
/// eight digits: `from_hex("#12")`, `from_hex("#1234")`, `from_hex("#12345")`,
/// `from_hex("#1234567")` and `from_hex("#123456789")` are `None`.
pub proof fn lemma_from_hex_digit_counts(h: Seq<char>)
    requires
        forall|k: int|
            0 <= k < h.len() ==> ('0' <= #[trigger] h[k] && h[k] <= '9') || ('a' <= h[k] && h[k]
                <= 'f') || ('A' <= h[k] && h[k] <= 'F'),
    ensures
        parse_hex(seq!['#'] + h) is Some <==> (h.len() == 3 || h.len() == 6 || h.len() == 8),
        parse_hex(h) is Some <==> (h.len() == 3 || h.len() == 6 || h.len() == 8),
{
    assert(all_hex_digits(h));
    lemma_hex_digits_of_digits(h);
}

/// `clamp_channel` keeps values in `0..=255` and sends smaller values to `0`
/// and larger ones to `255`: `clamp_channel(300) == 255`, `clamp_channel(-5) == 0`.
pub proof fn lemma_clamp_channel_bounds(v: int)
    ensures
        0 <= v <= 255 ==> clamped(v) == v,
        v < 0 ==> clamped(v) == 0,
        v > 255 ==> clamped(v) == 255,
{
}

/// The nearest-name scan settles on the first index of a smallest key: no key
/// is smaller than the chosen one, and every key before it is larger.
pub proof fn lemma_first_nearest_is_first_minimum(keys: Seq<u64>, i: int)
    requires
        is_first_nearest(keys, i),
    ensures
        0 <= i < keys.len(),
        forall|j: int| 0 <= j < keys.len() ==> keys[i] <= #[trigger] keys[j],
        forall|j: int| 0 <= j < i ==> keys[i] < #[trigger] keys[j],
{
    if !(exists|j: int| 0 <= j < keys.len() && keys[j] < UNREACHABLE_DISTANCE) {
        assert forall|j: int| 0 <= j < keys.len() implies keys[i] <= #[trigger] keys[j] by {
            assert(!(keys[j] < UNREACHABLE_DISTANCE));
        }
    }
}

} // verus!
