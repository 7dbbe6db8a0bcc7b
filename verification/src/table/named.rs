//! `named_colors() -> (name VARCHAR, hex VARCHAR)`: the CSS named-color table,
//! each name paired with its `#rrggbb` hex value.

use vstd::prelude::*;

use crate::color::{hex_string, to_hex, NAMED_COLORS, NAMED_COLOR_COUNT};

verus! {

/// The `named_colors` table function.
pub struct NamedColors;

impl NamedColors {
    /// The rows of the table, in table order: every named color with the
    /// `#rrggbb` hex value of its channels.
    pub fn rows() -> (rows: Vec<(&'static str, String)>)
        ensures
            rows@.len() == NAMED_COLOR_COUNT,
            forall|i: int|
                0 <= i < NAMED_COLOR_COUNT ==> #[trigger] rows@[i].0 == NAMED_COLORS@[i].0
                    && rows@[i].1@ == hex_string(
                    NAMED_COLORS@[i].1,
                    NAMED_COLORS@[i].2,
                    NAMED_COLORS@[i].3,
                ),
    {
        let mut rows: Vec<(&'static str, String)> = Vec::new();
        let mut i: usize = 0;
        while i < NAMED_COLOR_COUNT
            invariant
                i <= NAMED_COLOR_COUNT,
                rows@.len() == i,
                forall|j: int|
                    0 <= j < i ==> #[trigger] rows@[j].0 == NAMED_COLORS@[j].0 && rows@[j].1@
                        == hex_string(NAMED_COLORS@[j].1, NAMED_COLORS@[j].2, NAMED_COLORS@[j].3),
            decreases NAMED_COLOR_COUNT - i,
        {
            let (name, r, g, b) = NAMED_COLORS[i];
            rows.push((name, to_hex(r, g, b)));
            i = i + 1;
        }
        rows
    }
}

// ---------------------------------------------------------------------------
// The table's primary key: names are in strictly increasing order, hence unique
// ---------------------------------------------------------------------------

/// The name of the `i`-th entry of `NAMED_COLORS`.
pub open spec fn color_name(i: int) -> Seq<char> {
    NAMED_COLORS@[i].0@
}

/// `a` comes strictly before `b` in lexicographic (code point) order.
pub open spec fn lex_lt(a: Seq<char>, b: Seq<char>) -> bool
    decreases a.len(),
{
    if a.len() == 0 {
        b.len() > 0
    } else if b.len() == 0 {
        false
    } else if a[0] != b[0] {
        a[0] < b[0]
    } else {
        lex_lt(a.drop_first(), b.drop_first())
    }
}

proof fn lemma_lex_lt_irreflexive(a: Seq<char>)
    ensures
        !lex_lt(a, a),
    decreases a.len(),
{
    if a.len() > 0 {
        lemma_lex_lt_irreflexive(a.drop_first());
    }
}

proof fn lemma_lex_lt_transitive(a: Seq<char>, b: Seq<char>, c: Seq<char>)
    requires
        lex_lt(a, b),
        lex_lt(b, c),
    ensures
        lex_lt(a, c),
    decreases a.len(),
{
    if a.len() > 0 && b.len() > 0 && c.len() > 0 && a[0] == b[0] && b[0] == c[0] {
        lemma_lex_lt_transitive(a.drop_first(), b.drop_first(), c.drop_first());
    }
}

/// The first `n + 1` names are in strictly increasing order.
pub open spec fn names_ordered_upto(n: int) -> bool
    decreases n,
{
    if n <= 0 {
        true
    } else {
        names_ordered_upto(n - 1) && lex_lt(color_name(n - 1), color_name(n))
    }
}

proof fn lemma_names_ordered_0_10()
    requires
        names_ordered_upto(0),
    ensures
        names_ordered_upto(10),
{
    reveal_strlit("aliceblue");
    reveal_strlit("antiquewhite");
    reveal_strlit("aqua");
    reveal_strlit("aquamarine");
    reveal_strlit("azure");
    reveal_strlit("beige");
    reveal_strlit("bisque");
    reveal_strlit("black");
    reveal_strlit("blanchedalmond");
    reveal_strlit("blue");
    reveal_strlit("blueviolet");
    reveal_with_fuel(names_ordered_upto, 11);
    reveal_with_fuel(lex_lt, 16);
}

proof fn lemma_names_ordered_10_20()
    requires
        names_ordered_upto(10),
    ensures
        names_ordered_upto(20),
{
    reveal_strlit("blueviolet");
    reveal_strlit("brown");
    reveal_strlit("burlywood");
    reveal_strlit("cadetblue");
    reveal_strlit("chartreuse");
    reveal_strlit("chocolate");
    reveal_strlit("coral");
    reveal_strlit("cornflowerblue");
    reveal_strlit("cornsilk");
    reveal_strlit("crimson");
    reveal_strlit("cyan");
    reveal_with_fuel(names_ordered_upto, 11);
    reveal_with_fuel(lex_lt, 16);
}

proof fn lemma_names_ordered_20_30()
    requires
        names_ordered_upto(20),
    ensures
        names_ordered_upto(30),
{
    reveal_strlit("cyan");
    reveal_strlit("darkblue");
    reveal_strlit("darkcyan");
    reveal_strlit("darkgoldenrod");
    reveal_strlit("darkgray");
    reveal_strlit("darkgreen");
    reveal_strlit("darkgrey");
    reveal_strlit("darkkhaki");
    reveal_strlit("darkmagenta");
    reveal_strlit("darkolivegreen");
    reveal_strlit("darkorange");
    reveal_with_fuel(names_ordered_upto, 11);
    reveal_with_fuel(lex_lt, 16);
}

proof fn lemma_names_ordered_30_40()
    requires
        names_ordered_upto(30),
    ensures
        names_ordered_upto(40),
{
    reveal_strlit("darkorange");
    reveal_strlit("darkorchid");
    reveal_strlit("darkred");
    reveal_strlit("darksalmon");
    reveal_strlit("darkseagreen");
    reveal_strlit("darkslateblue");
    reveal_strlit("darkslategray");
    reveal_strlit("darkslategrey");
    reveal_strlit("darkturquoise");
    reveal_strlit("darkviolet");
    reveal_strlit("deeppink");
    reveal_with_fuel(names_ordered_upto, 11);
    reveal_with_fuel(lex_lt, 16);
}

proof fn lemma_names_ordered_40_50()
    requires
        names_ordered_upto(40),
    ensures
        names_ordered_upto(50),
{
    reveal_strlit("deeppink");
    reveal_strlit("deepskyblue");
    reveal_strlit("dimgray");
    reveal_strlit("dimgrey");
    reveal_strlit("dodgerblue");
    reveal_strlit("firebrick");
    reveal_strlit("floralwhite");
    reveal_strlit("forestgreen");
    reveal_strlit("fuchsia");
    reveal_strlit("gainsboro");
    reveal_strlit("ghostwhite");
    reveal_with_fuel(names_ordered_upto, 11);
    reveal_with_fuel(lex_lt, 16);
}

proof fn lemma_names_ordered_50_60()
    requires
        names_ordered_upto(50),
    ensures
        names_ordered_upto(60),
{
    reveal_strlit("ghostwhite");
    reveal_strlit("gold");
    reveal_strlit("goldenrod");
    reveal_strlit("gray");
    reveal_strlit("green");
    reveal_strlit("greenyellow");
    reveal_strlit("grey");
    reveal_strlit("honeydew");
    reveal_strlit("hotpink");
    reveal_strlit("indianred");
    reveal_strlit("indigo");
    reveal_with_fuel(names_ordered_upto, 11);
    reveal_with_fuel(lex_lt, 16);
}

proof fn lemma_names_ordered_60_70()
    requires
        names_ordered_upto(60),
    ensures
        names_ordered_upto(70),
{
    reveal_strlit("indigo");
    reveal_strlit("ivory");
    reveal_strlit("khaki");
    reveal_strlit("lavender");
    reveal_strlit("lavenderblush");
    reveal_strlit("lawngreen");
    reveal_strlit("lemonchiffon");
    reveal_strlit("lightblue");
    reveal_strlit("lightcoral");
    reveal_strlit("lightcyan");
    reveal_strlit("lightgoldenrodyellow");
    reveal_with_fuel(names_ordered_upto, 11);
    reveal_with_fuel(lex_lt, 16);
}

proof fn lemma_names_ordered_70_80()
    requires
        names_ordered_upto(70),
    ensures
        names_ordered_upto(80),
{
    reveal_strlit("lightgoldenrodyellow");
    reveal_strlit("lightgray");
    reveal_strlit("lightgreen");
    reveal_strlit("lightgrey");
    reveal_strlit("lightpink");
    reveal_strlit("lightsalmon");
    reveal_strlit("lightseagreen");
    reveal_strlit("lightskyblue");
    reveal_strlit("lightslategray");
    reveal_strlit("lightslategrey");
    reveal_strlit("lightsteelblue");
    reveal_with_fuel(names_ordered_upto, 11);
    reveal_with_fuel(lex_lt, 16);
}

proof fn lemma_names_ordered_80_90()
    requires
        names_ordered_upto(80),
    ensures
        names_ordered_upto(90),
{
    reveal_strlit("lightsteelblue");
    reveal_strlit("lightyellow");
    reveal_strlit("lime");
    reveal_strlit("limegreen");
    reveal_strlit("linen");
    reveal_strlit("magenta");
    reveal_strlit("maroon");
    reveal_strlit("mediumaquamarine");
    reveal_strlit("mediumblue");
    reveal_strlit("mediumorchid");
    reveal_strlit("mediumpurple");
    reveal_with_fuel(names_ordered_upto, 11);
    reveal_with_fuel(lex_lt, 16);
}

proof fn lemma_names_ordered_90_100()
    requires
        names_ordered_upto(90),
    ensures
        names_ordered_upto(100),
{
    reveal_strlit("mediumpurple");
    reveal_strlit("mediumseagreen");
    reveal_strlit("mediumslateblue");
    reveal_strlit("mediumspringgreen");
    reveal_strlit("mediumturquoise");
    reveal_strlit("mediumvioletred");
    reveal_strlit("midnightblue");
    reveal_strlit("mintcream");
    reveal_strlit("mistyrose");
    reveal_strlit("moccasin");
    reveal_strlit("navajowhite");
    reveal_with_fuel(names_ordered_upto, 11);
    reveal_with_fuel(lex_lt, 16);
}

proof fn lemma_names_ordered_100_110()
    requires
        names_ordered_upto(100),
    ensures
        names_ordered_upto(110),
{
    reveal_strlit("navajowhite");
    reveal_strlit("navy");
    reveal_strlit("oldlace");
    reveal_strlit("olive");
    reveal_strlit("olivedrab");
    reveal_strlit("orange");
    reveal_strlit("orangered");
    reveal_strlit("orchid");
    reveal_strlit("palegoldenrod");
    reveal_strlit("palegreen");
    reveal_strlit("paleturquoise");
    reveal_with_fuel(names_ordered_upto, 11);
    reveal_with_fuel(lex_lt, 16);
}

proof fn lemma_names_ordered_110_120()
    requires
        names_ordered_upto(110),
    ensures
        names_ordered_upto(120),
{
    reveal_strlit("paleturquoise");
    reveal_strlit("palevioletred");
    reveal_strlit("papayawhip");
    reveal_strlit("peachpuff");
    reveal_strlit("peru");
    reveal_strlit("pink");
    reveal_strlit("plum");
    reveal_strlit("powderblue");
    reveal_strlit("purple");
    reveal_strlit("red");
    reveal_strlit("rosybrown");
    reveal_with_fuel(names_ordered_upto, 11);
    reveal_with_fuel(lex_lt, 16);
}

proof fn lemma_names_ordered_120_130()
    requires
        names_ordered_upto(120),
    ensures
        names_ordered_upto(130),
{
    reveal_strlit("rosybrown");
    reveal_strlit("royalblue");
    reveal_strlit("saddlebrown");
    reveal_strlit("salmon");
    reveal_strlit("sandybrown");
    reveal_strlit("seagreen");
    reveal_strlit("seashell");
    reveal_strlit("sienna");
    reveal_strlit("silver");
    reveal_strlit("skyblue");
    reveal_strlit("slateblue");
    reveal_with_fuel(names_ordered_upto, 11);
    reveal_with_fuel(lex_lt, 16);
}

proof fn lemma_names_ordered_130_140()
    requires
        names_ordered_upto(130),
    ensures
        names_ordered_upto(140),
{
    reveal_strlit("slateblue");
    reveal_strlit("slategray");
    reveal_strlit("slategrey");
    reveal_strlit("snow");
    reveal_strlit("springgreen");
    reveal_strlit("steelblue");
    reveal_strlit("tan");
    reveal_strlit("teal");
    reveal_strlit("thistle");
    reveal_strlit("tomato");
    reveal_strlit("turquoise");
    reveal_with_fuel(names_ordered_upto, 11);
    reveal_with_fuel(lex_lt, 16);
}

proof fn lemma_names_ordered_140_146()
    requires
        names_ordered_upto(140),
    ensures
        names_ordered_upto(146),
{
    reveal_strlit("turquoise");
    reveal_strlit("violet");
    reveal_strlit("wheat");
    reveal_strlit("white");
    reveal_strlit("whitesmoke");
    reveal_strlit("yellow");
    reveal_strlit("yellowgreen");
    reveal_with_fuel(names_ordered_upto, 7);
    reveal_with_fuel(lex_lt, 16);
}

proof fn lemma_names_ordered_all()
    ensures
        names_ordered_upto(146),
{
    lemma_names_ordered_0_10();
    lemma_names_ordered_10_20();
    lemma_names_ordered_20_30();
    lemma_names_ordered_30_40();
    lemma_names_ordered_40_50();
    lemma_names_ordered_50_60();
    lemma_names_ordered_60_70();
    lemma_names_ordered_70_80();
    lemma_names_ordered_80_90();
    lemma_names_ordered_90_100();
    lemma_names_ordered_100_110();
    lemma_names_ordered_110_120();
    lemma_names_ordered_120_130();
    lemma_names_ordered_130_140();
    lemma_names_ordered_140_146();
}

proof fn lemma_names_ordered_step(n: int, i: int)
    requires
        names_ordered_upto(n),
        0 <= i < n,
    ensures
        lex_lt(color_name(i), color_name(i + 1)),
    decreases n,
{
    if i < n - 1 {
        lemma_names_ordered_step(n - 1, i);
    }
}

proof fn lemma_names_ordered_pair(i: int, j: int)
    requires
        0 <= i < j < NAMED_COLOR_COUNT,
    ensures
        lex_lt(color_name(i), color_name(j)),
    decreases j - i,
{
    lemma_names_ordered_all();
    lemma_names_ordered_step(146, j - 1);
    if i < j - 1 {
        lemma_names_ordered_pair(i, j - 1);
        lemma_lex_lt_transitive(color_name(i), color_name(j - 1), color_name(j));
    }
}

/// Every name in `NAMED_COLORS` is distinct (the `name` column of the
/// `named_colors` table is its primary key), and the table is in strictly
/// increasing name order.
pub proof fn lemma_named_colors_unique(i: int, j: int)
    requires
        0 <= i < NAMED_COLOR_COUNT,
        0 <= j < NAMED_COLOR_COUNT,
        i != j,
    ensures
        color_name(i) != color_name(j),
        i < j ==> lex_lt(color_name(i), color_name(j)),
{
    if i < j {
        lemma_names_ordered_pair(i, j);
        lemma_lex_lt_irreflexive(color_name(i));
    } else {
        lemma_names_ordered_pair(j, i);
        lemma_lex_lt_irreflexive(color_name(j));
    }
}

} // verus!
