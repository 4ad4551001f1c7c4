//! Decoding of the HTML character entities that feed content uses.

use vstd::prelude::*;
use crate::text::{chars_of, replace_all, replace_chars, string_from};

verus! {

/// The entities that are decoded and the text each stands for, in the order
/// in which they are replaced. `&amp;` comes last, so that no replacement can
/// form a new entity and `&amp;lt;` reads as `&lt;`.
pub open spec fn entities() -> Seq<(Seq<char>, Seq<char>)> {
    seq![
        ("&#39;"@, "'"@),
        ("&lt;"@, "<"@),
        ("&gt;"@, ">"@),
        ("&quot;"@, "\""@),
        ("&apos;"@, "'"@),
        ("&nbsp;"@, " "@),
        ("&copy;"@, "\u{a9}"@),
        ("&reg;"@, "\u{ae}"@),
        ("&trade;"@, "\u{2122}"@),
        ("&euro;"@, "\u{20ac}"@),
        ("&pound;"@, "\u{a3}"@),
        ("&yen;"@, "\u{a5}"@),
        ("&sect;"@, "\u{a7}"@),
        ("&bull;"@, "\u{2022}"@),
        ("&hellip;"@, "\u{2026}"@),
        ("&mdash;"@, "\u{2014}"@),
        ("&ndash;"@, "\u{2013}"@),
        ("&tilde;"@, "\u{2dc}"@),
        ("&deg;"@, "\u{b0}"@),
        ("&plusmn;"@, "\u{b1}"@),
        ("&amp;"@, "&"@),
    ]
}

/// `s` after replacing, in turn, every pattern of `table` by its text.
pub open spec fn replace_each(s: Seq<char>, table: Seq<(Seq<char>, Seq<char>)>) -> Seq<char>
    decreases table.len(),
{
    if table.len() == 0 {
        s
    } else {
        replace_each(replace_all(s, table[0].0, table[0].1), table.skip(1))
    }
}

/// `s` with its HTML entities decoded.
pub open spec fn decode_entities(s: Seq<char>) -> Seq<char> {
    replace_each(s, entities())
}

fn entity(pat: &str, rep: &str) -> (r: (Vec<char>, Vec<char>))
    ensures
        r.0@ == pat@,
        r.1@ == rep@,
{
    (chars_of(pat), chars_of(rep))
}

/// The table of entities as characters.
fn entity_table() -> (t: Vec<(Vec<char>, Vec<char>)>)
    ensures
        t@.len() == entities().len(),
        forall|i: int|
            0 <= i < t@.len() ==> #[trigger] t@[i].0@ == entities()[i].0 && t@[i].1@
                == entities()[i].1 && t@[i].0@.len() > 0,
{
    let mut t: Vec<(Vec<char>, Vec<char>)> = Vec::new();
    t.push(entity("&#39;", "'"));
    t.push(entity("&lt;", "<"));
    t.push(entity("&gt;", ">"));
    t.push(entity("&quot;", "\""));
    t.push(entity("&apos;", "'"));
    t.push(entity("&nbsp;", " "));
    t.push(entity("&copy;", "\u{a9}"));
    t.push(entity("&reg;", "\u{ae}"));
    t.push(entity("&trade;", "\u{2122}"));
    t.push(entity("&euro;", "\u{20ac}"));
    t.push(entity("&pound;", "\u{a3}"));
    t.push(entity("&yen;", "\u{a5}"));
    t.push(entity("&sect;", "\u{a7}"));
    t.push(entity("&bull;", "\u{2022}"));
    t.push(entity("&hellip;", "\u{2026}"));
    t.push(entity("&mdash;", "\u{2014}"));
    t.push(entity("&ndash;", "\u{2013}"));
    t.push(entity("&tilde;", "\u{2dc}"));
    t.push(entity("&deg;", "\u{b0}"));
    t.push(entity("&plusmn;", "\u{b1}"));
    t.push(entity("&amp;", "&"));
    proof {
        reveal_strlit("&#39;");
        reveal_strlit("&lt;");
        reveal_strlit("&gt;");
        reveal_strlit("&quot;");
        reveal_strlit("&apos;");
        reveal_strlit("&nbsp;");
        reveal_strlit("&copy;");
        reveal_strlit("&reg;");
        reveal_strlit("&trade;");
        reveal_strlit("&euro;");
        reveal_strlit("&pound;");
        reveal_strlit("&yen;");
        reveal_strlit("&sect;");
        reveal_strlit("&bull;");
        reveal_strlit("&hellip;");
        reveal_strlit("&mdash;");
        reveal_strlit("&ndash;");
        reveal_strlit("&tilde;");
        reveal_strlit("&deg;");
        reveal_strlit("&plusmn;");
        reveal_strlit("&amp;");
    }
    t
}

/// The characters `s` with their HTML entities decoded.
pub fn decode_entity_chars(s: Vec<char>) -> (r: Vec<char>)
    ensures
        r@ == decode_entities(s@),
{
    let table = entity_table();
    let mut cur = s;
    let mut k: usize = 0;
    assert(entities().skip(0) =~= entities());
    while k < table.len()
        invariant
            k <= table.len(),
            table@.len() == entities().len(),
            forall|i: int|
                0 <= i < table@.len() ==> #[trigger] table@[i].0@ == entities()[i].0 && table@[i].1@
                    == entities()[i].1 && table@[i].0@.len() > 0,
            replace_each(cur@, entities().skip(k as int)) == decode_entities(s@),
        decreases table.len() - k,
    {
        let ghost rest = entities().skip(k as int);
        assert(table@[k as int].0@.len() > 0);
        assert(rest.skip(1) =~= entities().skip(k + 1));
        cur = replace_chars(&cur, &table[k].0, &table[k].1);
        k = k + 1;
    }
    assert(entities().skip(entities().len() as int) =~= Seq::<(Seq<char>, Seq<char>)>::empty());
    cur
}

/// `s` with its HTML entities decoded.
pub fn decode_entities_str(s: &str) -> (r: String)
    ensures
        r@ == decode_entities(s@),
{
    let d = decode_entity_chars(chars_of(s));
    string_from(&d)
}

/// Replacing a pattern that begins with `c` leaves a text without `c` unchanged.
pub proof fn lemma_replace_absent(s: Seq<char>, pat: Seq<char>, rep: Seq<char>, c: char)
    requires
        pat.len() > 0,
        pat[0] == c,
        !s.contains(c),
    ensures
        replace_all(s, pat, rep) == s,
    decreases s.len(),
{
    if s.len() >= pat.len() {
        assert(s.take(pat.len() as int)[0] == s[0]);
        assert(s[0] != c);
        assert(s.take(pat.len() as int) != pat);
        assert forall|i: int| 0 <= i < s.skip(1).len() implies s.skip(1)[i] != c by {
            assert(s.skip(1)[i] == s[i + 1]);
        }
        lemma_replace_absent(s.skip(1), pat, rep, c);
        assert(seq![s[0]] + s.skip(1) =~= s);
    }
}

/// Decoding leaves a text that holds no `&` unchanged: only entity text is
/// ever rewritten.
pub proof fn lemma_decode_without_ampersand(s: Seq<char>)
    requires
        !s.contains('&'),
    ensures
        decode_entities(s) == s,
{
    let t = entities();
    assert forall|i: int| 0 <= i < t.len() implies #[trigger] t[i].0.len() > 0 && t[i].0[0] == '&' by {
        reveal_strlit("&#39;");
        reveal_strlit("&lt;");
        reveal_strlit("&gt;");
        reveal_strlit("&quot;");
        reveal_strlit("&apos;");
        reveal_strlit("&nbsp;");
        reveal_strlit("&copy;");
        reveal_strlit("&reg;");
        reveal_strlit("&trade;");
        reveal_strlit("&euro;");
        reveal_strlit("&pound;");
        reveal_strlit("&yen;");
        reveal_strlit("&sect;");
        reveal_strlit("&bull;");
        reveal_strlit("&hellip;");
        reveal_strlit("&mdash;");
        reveal_strlit("&ndash;");
        reveal_strlit("&tilde;");
        reveal_strlit("&deg;");
        reveal_strlit("&plusmn;");
        reveal_strlit("&amp;");
    }
    lemma_replace_each_absent(s, t);
}

proof fn lemma_replace_each_absent(s: Seq<char>, t: Seq<(Seq<char>, Seq<char>)>)
    requires
        !s.contains('&'),
        forall|i: int| 0 <= i < t.len() ==> #[trigger] t[i].0.len() > 0 && t[i].0[0] == '&',
    ensures
        replace_each(s, t) == s,
    decreases t.len(),
{
    if t.len() > 0 {
        assert(t[0].0.len() > 0 && t[0].0[0] == '&');
        lemma_replace_absent(s, t[0].0, t[0].1, '&');
        assert forall|i: int| 0 <= i < t.skip(1).len() implies #[trigger] t.skip(1)[i].0.len() > 0
            && t.skip(1)[i].0[0] == '&' by {
            assert(t.skip(1)[i] == t[i + 1]);
        }
        lemma_replace_each_absent(s, t.skip(1));
    }
}


/// Adding a text without `&` in front of `x` adds it in front of the result
/// of replacing a pattern that begins with `&`.
proof fn lemma_replace_after_plain(a: Seq<char>, x: Seq<char>, p: Seq<char>, r: Seq<char>)
    requires
        !a.contains('&'),
        p.len() > 0,
        p[0] == '&',
    ensures
        replace_all(a + x, p, r) == a + replace_all(x, p, r),
    decreases a.len(),
{
    if a.len() > 0 {
        let s = a + x;
        assert(s[0] == a[0]);
        assert(a.contains(a[0]));
        if s.len() >= p.len() {
            assert(s.take(p.len() as int)[0] == a[0]);
            assert(s.take(p.len() as int) != p);
        }
        assert(s.skip(1) =~= a.skip(1) + x);
        assert forall|i: int| 0 <= i < a.skip(1).len() implies a.skip(1)[i] != '&' by {
            assert(a.skip(1)[i] == a[i + 1]);
            if a[i + 1] == '&' {
                assert(a.contains(a[i + 1]));
            }
        }
        lemma_replace_after_plain(a.skip(1), x, p, r);
        if s.len() < p.len() {
            assert(x.len() < p.len());
            assert(s =~= a + x);
        } else {
            assert(seq![a[0]] + (a.skip(1) + replace_all(x, p, r)) =~= a + replace_all(x, p, r));
        }
    } else {
        assert(a + x =~= x);
        assert(a + replace_all(x, p, r) =~= replace_all(x, p, r));
    }
}

/// Replacing the pattern `e` in a text that holds it once, between two texts
/// without `&`, puts `r` in its place.
proof fn lemma_replace_found(a: Seq<char>, b: Seq<char>, e: Seq<char>, r: Seq<char>)
    requires
        !a.contains('&'),
        !b.contains('&'),
        e.len() > 0,
        e[0] == '&',
    ensures
        replace_all(a + e + b, e, r) == a + r + b,
{
    assert(a + e + b =~= a + (e + b));
    lemma_replace_after_plain(a, e + b, e, r);
    let x = e + b;
    assert(x.take(e.len() as int) =~= e);
    assert(x.skip(e.len() as int) =~= b);
    lemma_replace_absent(b, e, r, '&');
    assert(a + (r + b) =~= a + r + b);
}

/// Replacing a pattern `p` that begins with `&` and differs from the entity
/// `e` in its second or third character leaves a text that holds `e` once,
/// between two texts without `&`, unchanged.
proof fn lemma_replace_missed(a: Seq<char>, b: Seq<char>, e: Seq<char>, p: Seq<char>, r: Seq<char>)
    requires
        !a.contains('&'),
        !b.contains('&'),
        e.len() >= 3,
        e[0] == '&',
        forall|m: int| 1 <= m < e.len() ==> e[m] != '&',
        p.len() >= 3,
        p[0] == '&',
        p[1] != e[1] || p[2] != e[2],
    ensures
        replace_all(a + e + b, p, r) == a + e + b,
{
    assert(a + e + b =~= a + (e + b));
    lemma_replace_after_plain(a, e + b, p, r);
    let x = e + b;
    if x.len() >= p.len() {
        assert(x.take(p.len() as int)[1] == e[1]);
        assert(x.take(p.len() as int)[2] == e[2]);
        assert(x.take(p.len() as int) != p);
        let y = x.skip(1);
        assert forall|i: int| 0 <= i < y.len() implies y[i] != '&' by {
            if i + 1 < e.len() {
                assert(y[i] == e[i + 1]);
            } else {
                assert(y[i] == b[i + 1 - e.len()]);
                if b[i + 1 - e.len()] == '&' {
                    assert(b.contains(b[i + 1 - e.len()]));
                }
            }
        }
        lemma_replace_absent(y, p, r, '&');
        assert(seq![x[0]] + y =~= x);
    }
}

/// Decoding a text that holds the `i`-th pattern of `t` once, between two
/// texts without `&`, gives the `i`-th text in its place.
proof fn lemma_decode_one(a: Seq<char>, b: Seq<char>, t: Seq<(Seq<char>, Seq<char>)>, i: int)
    requires
        !a.contains('&'),
        !b.contains('&'),
        0 <= i < t.len(),
        forall|j: int|
            0 <= j < t.len() ==> #[trigger] t[j].0.len() >= 3 && t[j].0[0] == '&' && forall|m: int|
                1 <= m < t[j].0.len() ==> t[j].0[m] != '&',
        i < t.len() - 1 ==> t[i].1.len() == 1 && t[i].1[0] != '&',
        forall|j: int| 0 <= j < i ==> #[trigger] t[j].0[1] != t[i].0[1] || t[j].0[2] != t[i].0[2],
    ensures
        replace_each(a + t[i].0 + b, t) == a + t[i].1 + b,
    decreases i,
{
    let e = t[i].0;
    assert(t[i].0.len() >= 3);
    let rest = t.skip(1);
    assert forall|j: int| 0 <= j < rest.len() implies #[trigger] rest[j].0.len() >= 3 && rest[j].0[0] == '&'
        && forall|m: int| 1 <= m < rest[j].0.len() ==> rest[j].0[m] != '&' by {
        assert(rest[j] == t[j + 1]);
        assert(t[j + 1].0.len() >= 3);
    }
    assert(replace_each(a + e + b, t) == replace_each(replace_all(a + e + b, t[0].0, t[0].1), rest));
    if i == 0 {
        lemma_replace_found(a, b, e, t[0].1);
        let out = a + t[0].1 + b;
        if t.len() == 1 {
            assert(rest.len() == 0);
            assert(replace_each(out, rest) == out);
        }
        if t.len() > 1 {
            assert(!out.contains('&')) by {
                if out.contains('&') {
                    let w = choose|w: int| 0 <= w < out.len() && out[w] == '&';
                    if w < a.len() {
                        assert(a[w] == '&');
                        assert(a.contains(a[w]));
                    } else if w == a.len() {
                    } else {
                        assert(b[w - a.len() - 1] == '&');
                        assert(b.contains(b[w - a.len() - 1]));
                    }
                }
            }
            assert forall|j: int| 0 <= j < rest.len() implies #[trigger] rest[j].0.len() > 0 && rest[j].0[0] == '&' by {
                assert(rest[j].0.len() >= 3);
            }
            lemma_replace_each_absent(out, rest);
        }
    } else {
        assert(t[0].0.len() >= 3);
        lemma_replace_missed(a, b, e, t[0].0, t[0].1);
        assert(rest[i - 1] == t[i]);
        assert forall|j: int| 0 <= j < i - 1 implies #[trigger] rest[j].0[1] != rest[i - 1].0[1] || rest[j].0[2]
            != rest[i - 1].0[2] by {
            assert(rest[j] == t[j + 1]);
        }
        lemma_decode_one(a, b, rest, i - 1);
    }
}


/// The shape of the table: every pattern is `&`, a name without `&` and at
/// least two more characters; every text but the last is one character other
/// than `&`; and any two patterns differ in their second or third character.
proof fn lemma_table_shape()
    ensures
        forall|j: int| 0 <= j < entities().len() ==> #[trigger] entities()[j].0.len() >= 3 && entities()[j].0[0] == '&'
            && forall|m: int| 1 <= m < entities()[j].0.len() ==> entities()[j].0[m] != '&',
        forall|j: int| 0 <= j < entities().len() - 1 ==> #[trigger] entities()[j].1.len() == 1 && entities()[j].1[0] != '&',
        forall|j: int, k: int| 0 <= j < entities().len() && 0 <= k < entities().len() && j != k ==>
            #[trigger] entities()[j].0[1] != #[trigger] entities()[k].0[1] || entities()[j].0[2] != entities()[k].0[2],
{
    reveal_strlit("&#39;");
    reveal_strlit("&lt;");
    reveal_strlit("&gt;");
    reveal_strlit("&quot;");
    reveal_strlit("&apos;");
    reveal_strlit("&nbsp;");
    reveal_strlit("&copy;");
    reveal_strlit("&reg;");
    reveal_strlit("&trade;");
    reveal_strlit("&euro;");
    reveal_strlit("&pound;");
    reveal_strlit("&yen;");
    reveal_strlit("&sect;");
    reveal_strlit("&bull;");
    reveal_strlit("&hellip;");
    reveal_strlit("&mdash;");
    reveal_strlit("&ndash;");
    reveal_strlit("&tilde;");
    reveal_strlit("&deg;");
    reveal_strlit("&plusmn;");
    reveal_strlit("&amp;");
    reveal_strlit("'");
    reveal_strlit("<");
    reveal_strlit(">");
    reveal_strlit("\"");
    reveal_strlit(" ");
    reveal_strlit("\u{a9}");
    reveal_strlit("\u{ae}");
    reveal_strlit("\u{2122}");
    reveal_strlit("\u{20ac}");
    reveal_strlit("\u{a3}");
    reveal_strlit("\u{a5}");
    reveal_strlit("\u{a7}");
    reveal_strlit("\u{2022}");
    reveal_strlit("\u{2026}");
    reveal_strlit("\u{2014}");
    reveal_strlit("\u{2013}");
    reveal_strlit("\u{2dc}");
    reveal_strlit("\u{b0}");
    reveal_strlit("\u{b1}");
    reveal_strlit("&");
}

/// Each entity decodes to its standard character wherever it stands, between
/// two texts that hold no `&`: `&quot;` to `"`, `&amp;` to `&`, `&lt;` to
/// `<`, `&nbsp;` to a space, and so on, with the rest of the text kept.
pub proof fn lemma_entities_decode(a: Seq<char>, b: Seq<char>)
    requires
        !a.contains('&'),
        !b.contains('&'),
    ensures
        decode_entities(a + "&#39;"@ + b) == a + seq!['\''] + b,
        decode_entities(a + "&lt;"@ + b) == a + seq!['<'] + b,
        decode_entities(a + "&gt;"@ + b) == a + seq!['>'] + b,
        decode_entities(a + "&quot;"@ + b) == a + seq!['"'] + b,
        decode_entities(a + "&apos;"@ + b) == a + seq!['\''] + b,
        decode_entities(a + "&nbsp;"@ + b) == a + seq![' '] + b,
        decode_entities(a + "&copy;"@ + b) == a + seq!['\u{a9}'] + b,
        decode_entities(a + "&reg;"@ + b) == a + seq!['\u{ae}'] + b,
        decode_entities(a + "&trade;"@ + b) == a + seq!['\u{2122}'] + b,
        decode_entities(a + "&euro;"@ + b) == a + seq!['\u{20ac}'] + b,
        decode_entities(a + "&pound;"@ + b) == a + seq!['\u{a3}'] + b,
        decode_entities(a + "&yen;"@ + b) == a + seq!['\u{a5}'] + b,
        decode_entities(a + "&sect;"@ + b) == a + seq!['\u{a7}'] + b,
        decode_entities(a + "&bull;"@ + b) == a + seq!['\u{2022}'] + b,
        decode_entities(a + "&hellip;"@ + b) == a + seq!['\u{2026}'] + b,
        decode_entities(a + "&mdash;"@ + b) == a + seq!['\u{2014}'] + b,
        decode_entities(a + "&ndash;"@ + b) == a + seq!['\u{2013}'] + b,
        decode_entities(a + "&tilde;"@ + b) == a + seq!['\u{2dc}'] + b,
        decode_entities(a + "&deg;"@ + b) == a + seq!['\u{b0}'] + b,
        decode_entities(a + "&plusmn;"@ + b) == a + seq!['\u{b1}'] + b,
        decode_entities(a + "&amp;"@ + b) == a + seq!['&'] + b,
{
    lemma_table_shape();
    lemma_decode_one(a, b, entities(), 0);
    lemma_decode_one(a, b, entities(), 1);
    lemma_decode_one(a, b, entities(), 2);
    lemma_decode_one(a, b, entities(), 3);
    lemma_decode_one(a, b, entities(), 4);
    lemma_decode_one(a, b, entities(), 5);
    lemma_decode_one(a, b, entities(), 6);
    lemma_decode_one(a, b, entities(), 7);
    lemma_decode_one(a, b, entities(), 8);
    lemma_decode_one(a, b, entities(), 9);
    lemma_decode_one(a, b, entities(), 10);
    lemma_decode_one(a, b, entities(), 11);
    lemma_decode_one(a, b, entities(), 12);
    lemma_decode_one(a, b, entities(), 13);
    lemma_decode_one(a, b, entities(), 14);
    lemma_decode_one(a, b, entities(), 15);
    lemma_decode_one(a, b, entities(), 16);
    lemma_decode_one(a, b, entities(), 17);
    lemma_decode_one(a, b, entities(), 18);
    lemma_decode_one(a, b, entities(), 19);
    lemma_decode_one(a, b, entities(), 20);
    reveal_strlit("'");
    reveal_strlit("<");
    reveal_strlit(">");
    reveal_strlit("\"");
    reveal_strlit(" ");
    reveal_strlit("\u{a9}");
    reveal_strlit("\u{ae}");
    reveal_strlit("\u{2122}");
    reveal_strlit("\u{20ac}");
    reveal_strlit("\u{a3}");
    reveal_strlit("\u{a5}");
    reveal_strlit("\u{a7}");
    reveal_strlit("\u{2022}");
    reveal_strlit("\u{2026}");
    reveal_strlit("\u{2014}");
    reveal_strlit("\u{2013}");
    reveal_strlit("\u{2dc}");
    reveal_strlit("\u{b0}");
    reveal_strlit("\u{b1}");
    reveal_strlit("&");
}

} // verus!
