//! Per-object discovery/description metadata: the JSON keyword arrays and the
//! standard tag list every function and table carries.

use vstd::prelude::*;

use crate::color::str_chars;

verus! {

/// The JSON string-escape of one character: `"` and `\` get a backslash.
pub open spec fn escape_char(c: char) -> Seq<char> {
    if c == '"' {
        seq!['\\', '"']
    } else if c == '\\' {
        seq!['\\', '\\']
    } else {
        seq![c]
    }
}

/// `s` with every `"` and `\` escaped by a backslash.
pub open spec fn escape(s: Seq<char>) -> Seq<char>
    decreases s.len(),
{
    if s.len() == 0 {
        Seq::empty()
    } else {
        escape(s.drop_last()) + escape_char(s.last())
    }
}

/// `s` as a JSON string literal.
pub open spec fn quoted(s: Seq<char>) -> Seq<char> {
    seq!['"'] + escape(s) + seq!['"']
}

/// The comma-separated JSON string literals of `items`.
pub open spec fn json_items(items: Seq<Seq<char>>) -> Seq<char>
    decreases items.len(),
{
    if items.len() == 0 {
        Seq::empty()
    } else if items.len() == 1 {
        quoted(items[0])
    } else {
        json_items(items.drop_last()) + seq![','] + quoted(items.last())
    }
}

/// The JSON array literal of the strings `items`.
pub open spec fn json_array(items: Seq<Seq<char>>) -> Seq<char> {
    seq!['['] + json_items(items) + seq![']']
}

/// The character sequences of a list of string slices.
pub open spec fn str_views(list: Seq<&str>) -> Seq<Seq<char>> {
    list.map_values(|k: &str| k@)
}

fn push_escaped(out: &mut String, kw: &str)
    ensures
        final(out)@ == old(out)@ + escape(kw@),
{
    let cs = str_chars(kw);
    let mut i: usize = 0;
    assert(kw@.take(0) =~= Seq::<char>::empty());
    while i < cs.len()
        invariant
            cs@ == kw@,
            i <= cs@.len(),
            out@ == old(out)@ + escape(kw@.take(i as int)),
        decreases cs@.len() - i,
    {
        let ch = cs[i];
        let ghost before = out@;
        if ch == '"' {
            out.push('\\');
            out.push('"');
        } else if ch == '\\' {
            out.push('\\');
            out.push('\\');
        } else {
            out.push(ch);
        }
        assert(out@ =~= before + escape_char(ch));
        assert(kw@.take(i + 1).drop_last() =~= kw@.take(i as int));
        assert(escape(kw@.take(i + 1)) == escape(kw@.take(i as int)) + escape_char(ch));
        i = i + 1;
    }
    assert(kw@.take(cs@.len() as int) =~= kw@);
}

/// Encode a list of keyword/synonym strings as a JSON array literal, e.g.
/// `["color","rgb to hex"]`. Each entry is escaped for `"` and `\`.
pub fn keywords_json(keywords: &[&str]) -> (out: String)
    ensures
        out@ == json_array(str_views(keywords@)),
{
    let mut out = String::new();
    out.push('[');
    let ghost items = str_views(keywords@);
    let mut i: usize = 0;
    assert(items.take(0) =~= Seq::<Seq<char>>::empty());
    while i < keywords.len()
        invariant
            items == str_views(keywords@),
            i <= keywords@.len(),
            out@ == seq!['['] + json_items(items.take(i as int)),
        decreases keywords@.len() - i,
    {
        let ghost before = out@;
        if i > 0 {
            out.push(',');
        }
        out.push('"');
        push_escaped(&mut out, keywords[i]);
        out.push('"');
        proof {
            let t = items.take(i + 1);
            assert(t.drop_last() =~= items.take(i as int));
            assert(t.last() == keywords@[i as int]@);
            if i > 0 {
                assert(out@ =~= before + seq![','] + quoted(t.last()));
            } else {
                assert(out@ =~= before + quoted(t.last()));
                assert(items.take(0).len() == 0);
            }
        }
        i = i + 1;
    }
    out.push(']');
    assert(items.take(keywords@.len() as int) =~= items);
    assert(out@ =~= json_array(items));
    out
}

/// The standard per-object discovery/description tags: title, LLM-facing and
/// Markdown descriptions, the keyword JSON array, and the navigation category.
pub fn object_tags(
    title: &str,
    description_llm: &str,
    description_md: &str,
    keywords: &[&str],
    category: &str,
) -> (tags: Vec<(String, String)>)
    ensures
        tags@.len() == 5,
        tags@[0].0@ == "vgi.title"@ && tags@[0].1@ == title@,
        tags@[1].0@ == "vgi.doc_llm"@ && tags@[1].1@ == description_llm@,
        tags@[2].0@ == "vgi.doc_md"@ && tags@[2].1@ == description_md@,
        tags@[3].0@ == "vgi.keywords"@ && tags@[3].1@ == json_array(str_views(keywords@)),
        tags@[4].0@ == "vgi.category"@ && tags@[4].1@ == category@,
{
    let mut tags: Vec<(String, String)> = Vec::new();
    tags.push(("vgi.title".to_owned(), title.to_owned()));
    tags.push(("vgi.doc_llm".to_owned(), description_llm.to_owned()));
    tags.push(("vgi.doc_md".to_owned(), description_md.to_owned()));
    tags.push(("vgi.keywords".to_owned(), keywords_json(keywords)));
    tags.push(("vgi.category".to_owned(), category.to_owned()));
    tags
}

// ---------------------------------------------------------------------------
// Decoding: every keyword array decodes back to its keywords
// ---------------------------------------------------------------------------

/// Decode the body of a string literal (after its opening `"`): a backslash
/// takes the next character literally, an unescaped `"` closes the literal.
/// Returns the decoded content and what follows the closing quote.
pub open spec fn decode_string_body(s: Seq<char>) -> Option<(Seq<char>, Seq<char>)>
    decreases s.len(),
{
    if s.len() == 0 {
        None
    } else if s[0] == '"' {
        Some((Seq::empty(), s.drop_first()))
    } else if s[0] == '\\' {
        if s.len() < 2 {
            None
        } else {
            match decode_string_body(s.skip(2)) {
                Some((content, rest)) => Some((seq![s[1]] + content, rest)),
                None => None,
            }
        }
    } else {
        match decode_string_body(s.drop_first()) {
            Some((content, rest)) => Some((seq![s[0]] + content, rest)),
            None => None,
        }
    }
}

/// Decode one string literal at the front of `s`.
pub open spec fn decode_string(s: Seq<char>) -> Option<(Seq<char>, Seq<char>)> {
    if s.len() > 0 && s[0] == '"' {
        decode_string_body(s.drop_first())
    } else {
        None
    }
}

/// Decoding a string literal consumes at least one character.
pub proof fn lemma_decode_string_body_shortens(s: Seq<char>)
    ensures
        decode_string_body(s) matches Some((c, r)) ==> r.len() < s.len(),
    decreases s.len(),
{
    if s.len() > 0 && s[0] != '"' {
        if s[0] == '\\' {
            if s.len() >= 2 {
                lemma_decode_string_body_shortens(s.skip(2));
            }
        } else {
            lemma_decode_string_body_shortens(s.drop_first());
        }
    }
}

/// Decode comma-separated string literals closed by `]`.
pub open spec fn decode_elements(s: Seq<char>) -> Option<Seq<Seq<char>>>
    decreases s.len(),
{
    match decode_string(s) {
        Some((x, rest)) => {
            proof {
                lemma_decode_string_body_shortens(s.drop_first());
            }
            if rest == seq![']'] {
                Some(seq![x])
            } else if rest.len() > 0 && rest[0] == ',' {
                match decode_elements(rest.drop_first()) {
                    Some(xs) => Some(seq![x] + xs),
                    None => None,
                }
            } else {
                None
            }
        },
        None => None,
    }
}

/// Decode a JSON array of string literals.
pub open spec fn decode_string_array(s: Seq<char>) -> Option<Seq<Seq<char>>> {
    if s.len() >= 2 && s[0] == '[' {
        if s == seq!['[', ']'] {
            Some(Seq::empty())
        } else {
            decode_elements(s.drop_first())
        }
    } else {
        None
    }
}

proof fn lemma_escape_concat(a: Seq<char>, b: Seq<char>)
    ensures
        escape(a + b) == escape(a) + escape(b),
    decreases b.len(),
{
    if b.len() == 0 {
        assert(a + b =~= a);
        assert(escape(a) + escape(b) =~= escape(a));
    } else {
        lemma_escape_concat(a, b.drop_last());
        assert((a + b).drop_last() =~= a + b.drop_last());
        assert((a + b).last() == b.last());
        assert(escape(a + b) =~= escape(a) + escape(b));
    }
}

proof fn lemma_decode_escaped(x: Seq<char>, rest: Seq<char>)
    ensures
        decode_string_body(escape(x) + seq!['"'] + rest) == Some((x, rest)),
    decreases x.len(),
{
    let s = escape(x) + seq!['"'] + rest;
    if x.len() == 0 {
        assert(escape(x) =~= Seq::<char>::empty());
        assert(s =~= seq!['"'] + rest);
        assert(s.drop_first() =~= rest);
    } else {
        let c = x[0];
        let t = x.drop_first();
        assert(x =~= seq![c] + t);
        lemma_escape_concat(seq![c], t);
        assert(escape(seq![c]) =~= escape_char(c)) by {
            assert(seq![c].drop_last() =~= Seq::<char>::empty());
            assert(seq![c].last() == c);
            assert(escape(Seq::<char>::empty()) =~= Seq::<char>::empty());
            assert(escape(seq![c]) == escape(seq![c].drop_last()) + escape_char(c));
        }
        lemma_decode_escaped(t, rest);
        let u = escape(t) + seq!['"'] + rest;
        if c == '"' || c == '\\' {
            assert(s =~= seq!['\\', c] + u);
            assert(s.skip(2) =~= u);
            assert(seq![c] + t =~= x);
        } else {
            assert(s =~= seq![c] + u);
            assert(s.drop_first() =~= u);
            assert(seq![c] + t =~= x);
        }
    }
}

proof fn lemma_json_items_front(x: Seq<char>, rest: Seq<Seq<char>>)
    requires
        rest.len() > 0,
    ensures
        json_items(seq![x] + rest) == quoted(x) + seq![','] + json_items(rest),
    decreases rest.len(),
{
    let all = seq![x] + rest;
    if rest.len() == 1 {
        assert(all.drop_last() =~= seq![x]);
        assert(all.last() == rest[0]);
        assert(json_items(seq![x]) == quoted(x));
    } else {
        lemma_json_items_front(x, rest.drop_last());
        assert(all.drop_last() =~= seq![x] + rest.drop_last());
        assert(all.last() == rest.last());
        assert(json_items(all) =~= quoted(x) + seq![','] + json_items(rest));
    }
}

proof fn lemma_decode_elements(items: Seq<Seq<char>>)
    requires
        items.len() > 0,
    ensures
        decode_elements(json_items(items) + seq![']']) == Some(items),
    decreases items.len(),
{
    let x = items[0];
    let rest = items.drop_first();
    assert(items =~= seq![x] + rest);
    let s = json_items(items) + seq![']'];
    if rest.len() == 0 {
        assert(json_items(items) == quoted(x));
        lemma_decode_escaped(x, seq![']']);
        assert(s.drop_first() =~= escape(x) + seq!['"'] + seq![']']);
    } else {
        lemma_json_items_front(x, rest);
        let tail = seq![','] + json_items(rest) + seq![']'];
        lemma_decode_escaped(x, tail);
        assert(s =~= seq!['"'] + (escape(x) + seq!['"'] + tail));
        assert(s.drop_first() =~= escape(x) + seq!['"'] + tail);
        assert(tail != seq![']']) by {
            assert(tail[0] == ',');
        }
        assert(tail.drop_first() =~= json_items(rest) + seq![']']);
        lemma_decode_elements(rest);
        assert(seq![x] + rest =~= items);
    }
}

/// A keyword array decodes back to exactly its keywords: no keyword can break
/// out of its string literal, whatever quotes or backslashes it holds.
pub proof fn lemma_keywords_json_decodes(items: Seq<Seq<char>>)
    ensures
        decode_string_array(json_array(items)) == Some(items),
{
    let s = json_array(items);
    if items.len() == 0 {
        assert(json_items(items) =~= Seq::<char>::empty());
        assert(s =~= seq!['[', ']']);
        assert(items =~= Seq::<Seq<char>>::empty());
    } else {
        lemma_decode_elements(items);
        assert(s.drop_first() =~= json_items(items) + seq![']']);
        assert(s.len() >= 2);
        assert(s != seq!['[', ']']) by {
            if s =~= seq!['[', ']'] {
                assert(s.drop_first() =~= seq![']']);
                assert(decode_elements(seq![']']) is None);
            }
        }
    }
}

// ---------------------------------------------------------------------------
// Only `"` and `\` are escaped, and every escape is a valid JSON escape
// ---------------------------------------------------------------------------

/// `t` is the body of a JSON string literal whose backslash escapes are all
/// `\"` or `\\` and which holds no unescaped `"`.
pub open spec fn valid_quote_backslash_escapes(t: Seq<char>) -> bool
    decreases t.len(),
{
    if t.len() == 0 {
        true
    } else if t[0] == '\\' {
        &&& t.len() >= 2
        &&& (t[1] == '"' || t[1] == '\\')
        &&& valid_quote_backslash_escapes(t.skip(2))
    } else {
        t[0] != '"' && valid_quote_backslash_escapes(t.drop_first())
    }
}

proof fn lemma_escape_cons(c: char, rest: Seq<char>)
    ensures
        escape(seq![c] + rest) == escape_char(c) + escape(rest),
{
    lemma_escape_concat(seq![c], rest);
    assert(seq![c].drop_last() =~= Seq::<char>::empty());
    assert(seq![c].last() == c);
    assert(escape(Seq::<char>::empty()) =~= Seq::<char>::empty());
    assert(escape(seq![c]) =~= escape_char(c));
}

/// Escaping a keyword yields a valid string body: every backslash starts a
/// `\"` or `\\` escape and no `"` is left unescaped, whatever the keyword.
pub proof fn lemma_escape_valid(k: Seq<char>)
    ensures
        valid_quote_backslash_escapes(escape(k)),
    decreases k.len(),
{
    if k.len() == 0 {
        assert(escape(k) =~= Seq::<char>::empty());
    } else {
        let c = k[0];
        let rest = k.drop_first();
        assert(k =~= seq![c] + rest);
        lemma_escape_cons(c, rest);
        lemma_escape_valid(rest);
        let t = escape(k);
        if c == '"' || c == '\\' {
            assert(t =~= seq!['\\', c] + escape(rest));
            assert(t.skip(2) =~= escape(rest));
        } else {
            assert(t =~= seq![c] + escape(rest));
            assert(t.drop_first() =~= escape(rest));
        }
    }
}

/// A keyword holding neither `"` nor `\` is written unchanged.
pub proof fn lemma_escape_plain(k: Seq<char>)
    requires
        forall|i: int| 0 <= i < k.len() ==> #[trigger] k[i] != '"' && k[i] != '\\',
    ensures
        escape(k) == k,
    decreases k.len(),
{
    if k.len() > 0 {
        let init = k.drop_last();
        assert forall|i: int| 0 <= i < init.len() implies #[trigger] init[i] != '"' && init[i]
            != '\\' by {
            assert(init[i] == k[i]);
        }
        lemma_escape_plain(init);
        assert(k.last() == k[k.len() - 1]);
        assert(escape(k) =~= init.push(k.last()));
        assert(init.push(k.last()) =~= k);
    }
}

/// One keyword without `"` or `\` is written as `["keyword"]`:
/// `keywords_json(&["to_hex"]) == "[\"to_hex\"]"`.
pub proof fn lemma_keywords_json_single_plain(k: Seq<char>)
    requires
        forall|i: int| 0 <= i < k.len() ==> #[trigger] k[i] != '"' && k[i] != '\\',
    ensures
        json_array(seq![k]) == seq!['[', '"'] + k + seq!['"', ']'],
{
    lemma_escape_plain(k);
    assert(json_items(seq![k]) == quoted(k));
    assert(json_array(seq![k]) =~= seq!['[', '"'] + k + seq!['"', ']']);
}

/// Two keywords without `"` or `\` are written as `["a","b"]`.
pub proof fn lemma_keywords_json_pair_plain(a: Seq<char>, b: Seq<char>)
    requires
        forall|i: int| 0 <= i < a.len() ==> #[trigger] a[i] != '"' && a[i] != '\\',
        forall|i: int| 0 <= i < b.len() ==> #[trigger] b[i] != '"' && b[i] != '\\',
    ensures
        json_array(seq![a, b]) == seq!['[', '"'] + a + seq!['"', ',', '"'] + b + seq!['"', ']'],
{
    lemma_escape_plain(a);
    lemma_escape_plain(b);
    let items = seq![a, b];
    assert(items.drop_last() =~= seq![a]);
    assert(items.last() == b);
    assert(json_items(seq![a]) == quoted(a));
    assert(json_items(items) == json_items(items.drop_last()) + seq![','] + quoted(b));
    assert(json_array(items) =~= seq!['[', '"'] + a + seq!['"', ',', '"'] + b + seq!['"', ']']);
}

} // verus!
