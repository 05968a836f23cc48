//! What escaping and decoding of XML text undo of each other.

use vstd::prelude::*;
use crate::reading::{clear_of, lacks, lemma_clear_joined, lemma_mark_found};
use crate::text::{
    contains_text, find_char, find_from, lemma_find_char, lemma_find_char_unique, lemma_find_from,
    lemma_find_from_unique, lemma_replace_head, lemma_replace_skip, replace_all, starts_at,
    trim_spec,
};
use crate::xml::{
    decode_named, decode_refs, decode_xml_spec, ends_name, escape_html_spec, escape_xml_spec,
    html_entity, ref_char, ref_text, tag_name_end, xml_entity, xml_value_spec,
};

verus! {

broadcast use vstd::string::group_string_axioms;

/// The place of `c` in the order in which decoding treats the characters that
/// escaping writes as named references; 5 for all other characters.
spec fn rank(c: char) -> int {
    if c == '&' {
        0
    } else if c == '<' {
        1
    } else if c == '>' {
        2
    } else if c == '"' {
        3
    } else if c == '\'' {
        4
    } else {
        5
    }
}

/// The named reference of the character with this rank.
spec fn name(level: int) -> Seq<char> {
    if level == 0 {
        "&amp;"@
    } else if level == 1 {
        "&lt;"@
    } else if level == 2 {
        "&gt;"@
    } else if level == 3 {
        "&quot;"@
    } else {
        "&apos;"@
    }
}

/// The character with this rank, as text.
spec fn plain(level: int) -> Seq<char> {
    if level == 0 {
        "&"@
    } else if level == 1 {
        "<"@
    } else if level == 2 {
        ">"@
    } else if level == 3 {
        "\""@
    } else {
        "'"@
    }
}

/// How `c` is written when only characters of `level` and above are escaped.
spec fn written(c: char, level: int) -> Seq<char> {
    if level <= rank(c) < 5 {
        name(rank(c))
    } else {
        seq![c]
    }
}

/// `s` with its characters of `level` and above escaped.
spec fn escape_from(s: Seq<char>, level: int) -> Seq<char>
    decreases s.len(),
{
    if s.len() == 0 {
        seq![]
    } else {
        written(s[0], level) + escape_from(s.skip(1), level)
    }
}

proof fn lemma_names()
    ensures
        "&amp;"@ == seq!['&', 'a', 'm', 'p', ';'],
        "&lt;"@ == seq!['&', 'l', 't', ';'],
        "&gt;"@ == seq!['&', 'g', 't', ';'],
        "&quot;"@ == seq!['&', 'q', 'u', 'o', 't', ';'],
        "&apos;"@ == seq!['&', 'a', 'p', 'o', 's', ';'],
        "&"@ == seq!['&'],
        "<"@ == seq!['<'],
        ">"@ == seq!['>'],
        "\""@ == seq!['"'],
        "'"@ == seq!['\''],
{
    reveal_strlit("&amp;");
    reveal_strlit("&lt;");
    reveal_strlit("&gt;");
    reveal_strlit("&quot;");
    reveal_strlit("&apos;");
    reveal_strlit("&");
    reveal_strlit("<");
    reveal_strlit(">");
    reveal_strlit("\"");
    reveal_strlit("'");
    assert("&amp;"@ =~= seq!['&', 'a', 'm', 'p', ';']);
    assert("&lt;"@ =~= seq!['&', 'l', 't', ';']);
    assert("&gt;"@ =~= seq!['&', 'g', 't', ';']);
    assert("&quot;"@ =~= seq!['&', 'q', 'u', 'o', 't', ';']);
    assert("&apos;"@ =~= seq!['&', 'a', 'p', 'o', 's', ';']);
    assert("&"@ =~= seq!['&']);
    assert("<"@ =~= seq!['<']);
    assert(">"@ =~= seq!['>']);
    assert("\""@ =~= seq!['"']);
    assert("'"@ =~= seq!['\'']);
}

/// Text in front in which no match begins stays as it is.
proof fn lemma_replace_skips(w: Seq<char>, rest: Seq<char>, p: Seq<char>, with: Seq<char>)
    requires
        0 < p.len(),
        forall|k: int| 0 <= k < w.len() ==> !starts_at(w + rest, p, k),
    ensures
        replace_all(w + rest, p, with) == w + replace_all(rest, p, with),
    decreases w.len(),
{
    if w.len() == 0 {
        assert(w + rest =~= rest);
        assert(w + replace_all(rest, p, with) =~= replace_all(rest, p, with));
    } else {
        let s = w + rest;
        let v = w.skip(1);
        assert(!starts_at(s, p, 0));
        lemma_replace_skip(s, p, with);
        assert(s.skip(1) =~= v + rest);
        assert forall|k: int| 0 <= k < v.len() implies !starts_at(v + rest, p, k) by {
            assert(!starts_at(s, p, k + 1));
            if k + p.len() <= (v + rest).len() {
                assert((v + rest).subrange(k, k + p.len()) =~= s.subrange(
                    k + 1,
                    k + 1 + p.len(),
                ));
            }
        }
        lemma_replace_skips(v, rest, p, with);
        assert(seq![s[0]] + (v + replace_all(rest, p, with)) =~= w + replace_all(rest, p, with));
    }
}

/// Characters without a named reference stand in escaped text where they stand
/// in front of the text itself.
proof fn lemma_escape_front(t: Seq<char>, q: Seq<char>, level: int)
    requires
        0 <= level <= 5,
        forall|k: int| 0 <= k < q.len() ==> rank(#[trigger] q[k]) == 5,
    ensures
        starts_at(escape_from(t, level), q, 0) == starts_at(t, q, 0),
    decreases q.len(),
{
    let e = escape_from(t, level);
    if q.len() == 0 {
        assert(e.subrange(0, 0) =~= q);
        assert(t.subrange(0, 0) =~= q);
    } else {
        lemma_names();
        assert(rank(q[0]) == 5);
        if t.len() == 0 {
        } else {
            let w = written(t[0], level);
            let e1 = escape_from(t.skip(1), level);
            assert(e == w + e1);
            if starts_at(t, q, 0) {
                assert(t.subrange(0, q.len() as int)[0] == q[0]);
            }
            if starts_at(e, q, 0) {
                assert(e.subrange(0, q.len() as int)[0] == q[0]);
                assert(e[0] == w[0]);
            }
            if t[0] == q[0] {
                assert(w =~= seq![t[0]]);
                assert(e.skip(1) =~= e1);
                lemma_escape_front(t.skip(1), q.skip(1), level);
                lemma_front_step(e, q);
                lemma_front_step(t, q);
            }
        }
    }
}

/// A pattern stands in front when its first character and its rest do.
proof fn lemma_front_step(s: Seq<char>, q: Seq<char>)
    requires
        s.len() > 0,
        q.len() > 0,
        s[0] == q[0],
    ensures
        starts_at(s, q, 0) == starts_at(s.skip(1), q.skip(1), 0),
{
    let s1 = s.skip(1);
    let q1 = q.skip(1);
    if q.len() <= s.len() {
        if starts_at(s, q, 0) {
            assert(s1.subrange(0, q1.len() as int) =~= s.subrange(0, q.len() as int).skip(1));
        }
        if starts_at(s1, q1, 0) {
            assert(s.subrange(0, q.len() as int) =~= seq![s[0]] + s1.subrange(0, q1.len() as int));
            assert(q =~= seq![q[0]] + q1);
        }
    }
}

/// Escaped text is the escaped front followed by the escaped rest.
proof fn lemma_escape_concat(a: Seq<char>, b: Seq<char>, level: int)
    ensures
        escape_from(a + b, level) == escape_from(a, level) + escape_from(b, level),
    decreases a.len(),
{
    if a.len() == 0 {
        assert(a + b =~= b);
        assert(escape_from(a, level) + escape_from(b, level) =~= escape_from(b, level));
    } else {
        assert((a + b).skip(1) =~= a.skip(1) + b);
        lemma_escape_concat(a.skip(1), b, level);
        assert(written(a[0], level) + (escape_from(a.skip(1), level) + escape_from(b, level)) =~= (
        written(a[0], level) + escape_from(a.skip(1), level)) + escape_from(b, level));
    }
}

/// Text whose characters are not escaped at this level stays as it is.
proof fn lemma_escape_plain(a: Seq<char>, level: int)
    requires
        forall|k: int| 0 <= k < a.len() ==> rank(#[trigger] a[k]) == 5 || rank(a[k]) < level,
    ensures
        escape_from(a, level) == a,
    decreases a.len(),
{
    if a.len() > 0 {
        assert forall|k: int| 0 <= k < a.skip(1).len() implies rank(#[trigger] a.skip(1)[k]) == 5
            || rank(a.skip(1)[k]) < level by {
            assert(a.skip(1)[k] == a[k + 1]);
        }
        lemma_escape_plain(a.skip(1), level);
        assert(rank(a[0]) == 5 || rank(a[0]) < level);
        assert(seq![a[0]] + a.skip(1) =~= a);
    } else {
        assert(escape_from(a, level) =~= a);
    }
}

/// No match of one named reference begins inside another one, nor at a
/// character that is not an ampersand.
proof fn lemma_no_match_inside(c: char, rest: Seq<char>, level: int)
    requires
        0 <= level < 5,
        rank(c) != level,
        written(c, level).len() > 1 || c != '&',
    ensures
        forall|k: int|
            0 <= k < written(c, level).len() ==> !starts_at(
                written(c, level) + rest,
                name(level),
                k,
            ),
{
    lemma_names();
    let w = written(c, level);
    let p = name(level);
    let s = w + rest;
    assert forall|k: int| 0 <= k < w.len() implies !starts_at(s, p, k) by {
        if starts_at(s, p, k) {
            let m = s.subrange(k, k + p.len());
            assert(m[0] == s[k]);
            assert(m[1] == s[k + 1]);
            assert(m[2] == s[k + 2]);
            assert(s[k] == w[k]);
            assert(w[k] == '&');
            if w.len() > 1 {
                assert(k == 0);
                assert(s[1] == w[1] && s[2] == w[2]);
            }
        }
    }
}

/// One step of decoding undoes one level of escaping: it decodes in the text
/// itself the references of that kind which the text held already.
proof fn lemma_decode_level(s: Seq<char>, level: int)
    requires
        1 <= level < 5,
    ensures
        replace_all(escape_from(s, level), name(level), plain(level)) == escape_from(
            replace_all(s, name(level), plain(level)),
            level + 1,
        ),
    decreases s.len(),
{
    lemma_names();
    let p = name(level);
    let r = plain(level);
    let e = escape_from(s, level);
    if s.len() == 0 {
        assert(e =~= Seq::<char>::empty());
        assert(replace_all(e, p, r) =~= Seq::<char>::empty());
        assert(replace_all(s, p, r) =~= s);
    } else if starts_at(s, p, 0) {
        let rest = s.skip(p.len() as int);
        assert(s =~= p + rest) by {
            assert(s.subrange(0, p.len() as int) + rest =~= s);
        }
        lemma_escape_concat(p, rest, level);
        lemma_escape_plain(p, level);
        assert(e.subrange(0, p.len() as int) =~= p);
        assert(e.skip(p.len() as int) =~= escape_from(rest, level));
        lemma_replace_head(e, p, r);
        lemma_replace_head(s, p, r);
        lemma_decode_level(rest, level);
        lemma_escape_concat(r, replace_all(rest, p, r), level + 1);
        lemma_escape_plain(r, level + 1);
    } else {
        let c = s[0];
        let rest = s.skip(1);
        let w = written(c, level);
        lemma_replace_skip(s, p, r);
        lemma_decode_level(rest, level);
        lemma_escape_concat(seq![c], replace_all(rest, p, r), level + 1);
        let one = seq![c];
        assert(one.skip(1) =~= Seq::<char>::empty());
        assert(escape_from(one.skip(1), level + 1) =~= Seq::<char>::empty());
        assert(escape_from(one, level + 1) =~= written(c, level + 1));
        let er = escape_from(rest, level);
        assert(e == w + er);
        if rank(c) == level {
            assert(e.subrange(0, p.len() as int) =~= p);
            assert(e.skip(p.len() as int) =~= er);
            lemma_replace_head(e, p, r);
            assert(r =~= seq![c]);
        } else {
            if c == '&' {
                assert(w =~= seq![c]);
                let q = p.skip(1);
                assert forall|k: int| 0 <= k < q.len() implies rank(#[trigger] q[k]) == 5 by {
                    assert(q[k] == p[k + 1]);
                }
                lemma_escape_front(rest, q, level);
                lemma_front_step(s, p);
                assert(e[0] == '&');
                assert(e.skip(1) =~= er);
                lemma_front_step(e, p);
            } else {
                lemma_no_match_inside(c, er, level);
            }
            lemma_replace_skips(w, er, p, r);
            assert(w == written(c, level + 1));
        }
    }
}

/// The first step of decoding undoes the escaping of ampersands.
proof fn lemma_decode_ampersands(s: Seq<char>)
    ensures
        replace_all(escape_from(s, 0), "&amp;"@, "&"@) == escape_from(s, 1),
    decreases s.len(),
{
    lemma_names();
    let p = "&amp;"@;
    let r = "&"@;
    let e = escape_from(s, 0);
    if s.len() == 0 {
        assert(replace_all(e, p, r) =~= Seq::<char>::empty());
    } else {
        let c = s[0];
        let rest = s.skip(1);
        let w = written(c, 0);
        let er = escape_from(rest, 0);
        lemma_decode_ampersands(rest);
        assert(e == w + er);
        if c == '&' {
            assert(e.subrange(0, p.len() as int) =~= p);
            assert(e.skip(p.len() as int) =~= er);
            lemma_replace_head(e, p, r);
            assert(r =~= seq![c]);
        } else {
            lemma_no_match_inside(c, er, 0);
            lemma_replace_skips(w, er, p, r);
        }
    }
}

proof fn lemma_escape_levels(s: Seq<char>)
    ensures
        escape_from(s, 0) == escape_xml_spec(s),
        escape_from(s, 5) == s,
    decreases s.len(),
{
    if s.len() > 0 {
        lemma_escape_levels(s.skip(1));
        assert(seq![s[0]] + s.skip(1) =~= s);
    } else {
        assert(s =~= Seq::<char>::empty());
    }
}

/// Decoding escaped text yields what decoding without its first step makes of
/// the text itself: all that escaping wrote is undone, and what the text held
/// as a reference before is decoded once.
pub proof fn law_decode_of_escaped(s: Seq<char>)
    ensures
        decode_xml_spec(escape_xml_spec(s)) == decode_refs(decode_named(s)),
{
    lemma_escape_levels(s);
    lemma_decode_ampersands(s);
    let t1 = replace_all(s, "&lt;"@, "<"@);
    let t2 = replace_all(t1, "&gt;"@, ">"@);
    let t3 = replace_all(t2, "&quot;"@, "\""@);
    let t4 = replace_all(t3, "&apos;"@, "'"@);
    lemma_decode_level(s, 1);
    lemma_decode_level(t1, 2);
    lemma_decode_level(t2, 3);
    lemma_decode_level(t3, 4);
    lemma_escape_levels(t4);
}

/// Whether `s` holds a numeric reference that denotes a character, scanning
/// from left to right.
pub open spec fn has_numeric_ref(s: Seq<char>) -> bool
    decreases s.len(),
{
    match find_from(s, "&#"@, 0) {
        Some(i) => match find_char(s, ';', i + 2) {
            Some(j) => 0 <= i && i + 2 <= j < s.len() && (ref_char(s.subrange(i + 2, j)) is Some
                || has_numeric_ref(s.skip(j + 1))),
            None => false,
        },
        None => false,
    }
}

/// Whether decoding finds a reference in `s` other than `&amp;`.
pub open spec fn has_reference(s: Seq<char>) -> bool {
    ||| contains_text(s, "&lt;"@)
    ||| contains_text(s, "&gt;"@)
    ||| contains_text(s, "&quot;"@)
    ||| contains_text(s, "&apos;"@)
    ||| has_numeric_ref(s)
}

/// Replacing by something shorter shortens exactly the texts that hold a match.
proof fn lemma_replace_shortens(s: Seq<char>, p: Seq<char>, with: Seq<char>)
    requires
        with.len() < p.len(),
    ensures
        contains_text(s, p) ==> replace_all(s, p, with).len() < s.len(),
        !contains_text(s, p) ==> replace_all(s, p, with) == s,
    decreases s.len(),
{
    lemma_find_from(s, p, 0);
    match find_from(s, p, 0) {
        Some(i) => {
            lemma_replace_shortens(s.skip(i + p.len()), p, with);
        },
        None => {
            if contains_text(s, p) {
                let i = choose|i: int| starts_at(s, p, i);
                assert(0 <= i && starts_at(s, p, i));
            }
        },
    }
}

/// Decoding numeric references shortens exactly the texts that hold one.
proof fn lemma_refs_shorten(s: Seq<char>)
    ensures
        has_numeric_ref(s) ==> decode_refs(s).len() < s.len(),
        !has_numeric_ref(s) ==> decode_refs(s) == s,
    decreases s.len(),
{
    reveal_strlit("&#");
    reveal_strlit(";");
    lemma_find_from(s, "&#"@, 0);
    match find_from(s, "&#"@, 0) {
        Some(i) => {
            lemma_find_char(s, ';', i + 2);
            match find_char(s, ';', i + 2) {
                Some(j) => {
                    let content = s.subrange(i + 2, j);
                    lemma_refs_shorten(s.skip(j + 1));
                    if ref_char(content) is None {
                        assert(s.subrange(i, i + 2) =~= "&#"@);
                        assert(s.take(i) + ref_text(content) + s.skip(j + 1) =~= s) by {
                            assert(s[i] == s.subrange(i, i + 2)[0]);
                            assert(s[i + 1] == s.subrange(i, i + 2)[1]);
                        }
                    }
                },
                None => {},
            }
        },
        None => {},
    }
}

/// Escaping is undone by decoding exactly for the texts that hold no reference
/// themselves, other than `&amp;`: `&lt;` in a text comes back as `<`.
pub proof fn law_escape_round_trip(s: Seq<char>)
    ensures
        decode_xml_spec(escape_xml_spec(s)) == s <==> !has_reference(s),
{
    law_decode_of_escaped(s);
    lemma_names();
    let t1 = replace_all(s, "&lt;"@, "<"@);
    let t2 = replace_all(t1, "&gt;"@, ">"@);
    let t3 = replace_all(t2, "&quot;"@, "\""@);
    let t4 = replace_all(t3, "&apos;"@, "'"@);
    lemma_replace_shortens(s, "&lt;"@, "<"@);
    lemma_replace_shortens(t1, "&gt;"@, ">"@);
    lemma_replace_shortens(t2, "&quot;"@, "\""@);
    lemma_replace_shortens(t3, "&apos;"@, "'"@);
    lemma_refs_shorten(t4);
}

/// No character that ends a piece of text or an attribute value in XML stands in
/// escaped text.
pub proof fn law_escaped_has_no_markup(s: Seq<char>)
    ensures
        forall|i: int|
            0 <= i < escape_xml_spec(s).len() ==> {
                let c = #[trigger] escape_xml_spec(s)[i];
                c != '<' && c != '>' && c != '"' && c != '\''
            },
    decreases s.len(),
{
    if s.len() > 0 {
        lemma_names();
        law_escaped_has_no_markup(s.skip(1));
        let head = xml_entity(s[0]);
        let rest = escape_xml_spec(s.skip(1));
        assert forall|i: int| 0 <= i < escape_xml_spec(s).len() implies {
            let c = #[trigger] escape_xml_spec(s)[i];
            c != '<' && c != '>' && c != '"' && c != '\''
        } by {
            if i < head.len() {
                assert(escape_xml_spec(s)[i] == head[i]);
            } else {
                assert(escape_xml_spec(s)[i] == rest[i - head.len()]);
            }
        }
    }
}

/// No character that ends a piece of text or an attribute value in HTML stands in
/// escaped text, so that what users enter cannot change a page.
pub proof fn law_escaped_html_has_no_markup(s: Seq<char>)
    ensures
        forall|i: int|
            0 <= i < escape_html_spec(s).len() ==> {
                let c = #[trigger] escape_html_spec(s)[i];
                c != '<' && c != '>' && c != '"' && c != '\''
            },
    decreases s.len(),
{
    if s.len() > 0 {
        lemma_names();
        reveal_strlit("&#39;");
        law_escaped_html_has_no_markup(s.skip(1));
        let head = html_entity(s[0]);
        let rest = escape_html_spec(s.skip(1));
        assert forall|i: int| 0 <= i < escape_html_spec(s).len() implies {
            let c = #[trigger] escape_html_spec(s)[i];
            c != '<' && c != '>' && c != '"' && c != '\''
        } by {
            if i < head.len() {
                assert(escape_html_spec(s)[i] == head[i]);
            } else {
                assert(escape_html_spec(s)[i] == rest[i - head.len()]);
            }
        }
    }
}

/// The element `tag` with this content.
pub open spec fn element(tag: Seq<char>, content: Seq<char>) -> Seq<char> {
    "<"@ + tag + ">"@ + content + ("</"@ + tag + ">"@)
}

/// Reading an element gives back what was written into it, trimmed, whatever
/// follows the element. The content may be any text without a `<`, as escaped
/// text is.
pub proof fn law_element_is_read(tag: Seq<char>, content: Seq<char>, rest: Seq<char>)
    requires
        forall|i: int| 0 <= i < content.len() ==> content[i] != '<',
    ensures
        xml_value_spec(element(tag, content) + rest, tag) == Some(trim_spec(content)),
{
    reveal_strlit("<");
    reveal_strlit(">");
    reveal_strlit("</");
    let body = element(tag, content) + rest;
    let opening = "<"@ + tag;
    let closing = "</"@ + tag + ">"@;
    let after = opening.len() as int;
    let close = after + 1 + content.len();
    assert(body.subrange(0, after) =~= opening);
    lemma_find_from_unique(body, opening, 0, 0);
    assert(body[after] == '>');
    assert(ends_name(body[after]));
    assert(tag_name_end(body, opening, 0) == Some(after));
    lemma_find_char_unique(body, '>', after, after);
    assert(body.subrange(close, close + closing.len()) =~= closing);
    assert forall|j: int| after + 1 <= j < close implies !starts_at(body, closing, j) by {
        if starts_at(body, closing, j) {
            assert(body.subrange(j, j + closing.len())[0] == closing[0]);
            assert(body[j] == content[j - after - 1]);
        }
    }
    lemma_find_from_unique(body, closing, after + 1, close);
    assert(body.subrange(after + 1, close) =~= content);
}

/// An element is read wherever it stands, if no element of that name begins before it.
pub proof fn law_element_is_found(
    front: Seq<char>,
    tag: Seq<char>,
    content: Seq<char>,
    rest: Seq<char>,
)
    requires
        clear_of(front, "<"@ + tag),
        lacks(content, '<'),
    ensures
        xml_value_spec(front + element(tag, content) + rest, tag) == Some(trim_spec(content)),
{
    reveal_strlit("<");
    reveal_strlit(">");
    reveal_strlit("</");
    let body = front + element(tag, content) + rest;
    let opening = "<"@ + tag;
    let closing = "</"@ + tag + ">"@;
    let behind = ">"@ + content + closing + rest;
    assert(body =~= front + opening + behind);
    lemma_mark_found(front, opening, behind);
    let after = (front.len() + opening.len()) as int;
    let close = after + 1 + content.len();
    assert(body[after] == '>');
    assert(ends_name(body[after]));
    assert(tag_name_end(body, opening, 0) == Some(after));
    lemma_find_char_unique(body, '>', after, after);
    assert(body.subrange(close, close + closing.len()) =~= closing);
    assert forall|j: int| after + 1 <= j < close implies !starts_at(body, closing, j) by {
        if starts_at(body, closing, j) {
            assert(body.subrange(j, j + closing.len())[0] == closing[0]);
            assert(body[j] == content[j - after - 1]);
        }
    }
    lemma_find_from_unique(body, closing, after + 1, close);
    assert(body.subrange(after + 1, close) =~= content);
}

/// What escaped text stands for: each reference to one of the five characters that are
/// escaped is read as that character, from left to right, and all else as it stands.
pub open spec fn unescaped(s: Seq<char>) -> Seq<char>
    decreases s.len(),
{
    if s.len() == 0 {
        seq![]
    } else if starts_at(s, "&amp;"@, 0) && s.len() >= 5 {
        seq!['&'] + unescaped(s.skip(5))
    } else if starts_at(s, "&lt;"@, 0) && s.len() >= 4 {
        seq!['<'] + unescaped(s.skip(4))
    } else if starts_at(s, "&gt;"@, 0) && s.len() >= 4 {
        seq!['>'] + unescaped(s.skip(4))
    } else if starts_at(s, "&quot;"@, 0) && s.len() >= 6 {
        seq!['"'] + unescaped(s.skip(6))
    } else if starts_at(s, "&apos;"@, 0) && s.len() >= 6 {
        seq!['\''] + unescaped(s.skip(6))
    } else if starts_at(s, "&#39;"@, 0) && s.len() >= 5 {
        seq!['\''] + unescaped(s.skip(5))
    } else {
        seq![s[0]] + unescaped(s.skip(1))
    }
}

/// One escaped character in front is read as that character.
proof fn lemma_unescape_front(w: Seq<char>, c: char, rest: Seq<char>)
    requires
        w == xml_entity(c) || w == html_entity(c),
    ensures
        unescaped(w + rest) == seq![c] + unescaped(rest),
{
    lemma_names();
    reveal_strlit("&#39;");
    let s = w + rest;
    assert(s.skip(w.len() as int) =~= rest);
    assert(s.subrange(0, w.len() as int) =~= w);
    let n = s.len();
    if c == '&' || c == '<' || c == '>' || c == '"' || c == '\'' {
        assert(s[1] == w[1] && s[2] == w[2] && s[3] == w[3]);
        if n >= 5 {
            assert(s.subrange(0, 5)[1] == s[1] && s.subrange(0, 5)[2] == s[2]);
        }
        if n >= 4 {
            assert(s.subrange(0, 4)[1] == s[1]);
        }
        if n >= 6 {
            assert(s.subrange(0, 6)[1] == s[1] && s.subrange(0, 6)[2] == s[2]);
        }
    } else {
        assert(s[0] == c);
        if n >= 4 {
            assert(s.subrange(0, 4)[0] == c);
        }
        if n >= 5 {
            assert(s.subrange(0, 5)[0] == c);
        }
        if n >= 6 {
            assert(s.subrange(0, 6)[0] == c);
        }
    }
}

/// Escaped text, in XML or in HTML, stands for the text that was escaped. So two texts that
/// differ are escaped differently.
pub proof fn law_escaped_stands_for_the_text(s: Seq<char>)
    ensures
        unescaped(escape_xml_spec(s)) == s,
        unescaped(escape_html_spec(s)) == s,
    decreases s.len(),
{
    if s.len() > 0 {
        law_escaped_stands_for_the_text(s.skip(1));
        lemma_unescape_front(xml_entity(s[0]), s[0], escape_xml_spec(s.skip(1)));
        lemma_unescape_front(html_entity(s[0]), s[0], escape_html_spec(s.skip(1)));
        assert(seq![s[0]] + s.skip(1) =~= s);
    } else {
        assert(unescaped(escape_xml_spec(s)) =~= s);
    }
}

// ---------------------------------------------------------------------------
// Elements one after the other
// ---------------------------------------------------------------------------

/// The opening tag of this name.
pub open spec fn opening_tag(tag: Seq<char>) -> Seq<char> {
    "<"@ + tag + ">"@
}

/// The closing tag of this name.
pub open spec fn closing_tag(tag: Seq<char>) -> Seq<char> {
    "</"@ + tag + ">"@
}

/// These elements, one after the other.
pub open spec fn elements_text(v: Seq<(Seq<char>, Seq<char>)>) -> Seq<char>
    decreases v.len(),
{
    if v.len() == 0 {
        seq![]
    } else {
        elements_text(v.drop_last()) + element(v.last().0, v.last().1)
    }
}

/// One more element behind these.
pub proof fn lemma_next_element(
    so_far: Seq<char>,
    v: Seq<(Seq<char>, Seq<char>)>,
    tag: Seq<char>,
    content: Seq<char>,
)
    requires
        so_far == elements_text(v),
    ensures
        so_far + opening_tag(tag) + content + closing_tag(tag) == elements_text(
            v.push((tag, content)),
        ),
{
    assert(v.push((tag, content)).drop_last() =~= v);
    assert(so_far + opening_tag(tag) + content + closing_tag(tag) =~= so_far + element(
        tag,
        content,
    ));
}

/// Whether a tag can stand in front of one of the name `tag`, and not be taken for it: its
/// name does not begin with that name.
pub open spec fn no_mistaking(other: Seq<char>, tag: Seq<char>) -> bool {
    other.len() < tag.len() || exists|k: int| 0 <= k < tag.len() && #[trigger] other[k] != tag[k]
}

/// Whether these can be elements: their names are names, and their contents are text.
pub open spec fn plain_elements(v: Seq<(Seq<char>, Seq<char>)>) -> bool {
    forall|k: int|
        0 <= k < v.len() ==> plain_tag((#[trigger] v[k]).0) && lacks(v[k].1, '<')
}

/// Whether this is a name.
pub open spec fn plain_tag(tag: Seq<char>) -> bool {
    tag.len() > 0 && lacks(tag, '<') && lacks(tag, '>') && lacks(tag, '/')
}

proof fn lemma_element_clear(other: Seq<char>, content: Seq<char>, tag: Seq<char>)
    requires
        plain_tag(other),
        plain_tag(tag),
        lacks(content, '<'),
        no_mistaking(other, tag),
    ensures
        clear_of(element(other, content), "<"@ + tag),
{
    reveal_strlit("<");
    reveal_strlit(">");
    reveal_strlit("</");
    let mark = "<"@ + tag;
    let e = element(other, content);
    let n = other.len() as int;
    let close = n + 2 + content.len();
    assert forall|more: Seq<char>, j: int| 0 <= j < e.len() implies !#[trigger] starts_at(
        e + more,
        mark,
        j,
    ) by {
        let t = e + more;
        if starts_at(t, mark, j) {
            let sub = t.subrange(j, j + mark.len());
            assert(sub == mark);
            assert(sub[0] == t[j]);
            assert(t[j] == e[j] && t[j] == '<');
            if j == 0 {
                if n < tag.len() {
                    assert(sub[n + 1] == t[n + 1]);
                    assert(t[n + 1] == '>');
                    assert(mark[n + 1] == tag[n]);
                } else {
                    let k = choose|k: int| 0 <= k < tag.len() && #[trigger] other[k] != tag[k];
                    assert(sub[k + 1] == t[k + 1]);
                    assert(t[k + 1] == other[k]);
                    assert(mark[k + 1] == tag[k]);
                }
            } else if j <= n {
                assert(e[j] == other[j - 1]);
            } else if j == n + 1 {
                assert(e[j] == '>');
            } else if j < close {
                assert(e[j] == content[j - n - 2]);
            } else if j == close {
                assert(sub[1] == t[j + 1]);
                assert(t[j + 1] == '/');
                assert(mark[1] == tag[0]);
            } else if j == close + 1 {
                assert(e[j] == '/');
            } else if j < close + 2 + n {
                assert(e[j] == other[j - close - 2]);
            } else {
                assert(e[j] == '>');
            }
        }
    }
}

proof fn lemma_elements_clear(v: Seq<(Seq<char>, Seq<char>)>, tag: Seq<char>)
    requires
        plain_elements(v),
        plain_tag(tag),
        forall|k: int| 0 <= k < v.len() ==> no_mistaking((#[trigger] v[k]).0, tag),
    ensures
        clear_of(elements_text(v), "<"@ + tag),
    decreases v.len(),
{
    if v.len() > 0 {
        let front = v.drop_last();
        assert forall|k: int| 0 <= k < front.len() implies #[trigger] front[k] == v[k] by {}
        assert(plain_elements(front)) by {
            assert forall|k: int| 0 <= k < front.len() implies plain_tag((#[trigger] front[k]).0)
                && lacks(front[k].1, '<') by {
                assert(front[k] == v[k]);
            }
        }
        assert forall|k: int| 0 <= k < front.len() implies no_mistaking(
            (#[trigger] front[k]).0,
            tag,
        ) by {
            assert(front[k] == v[k]);
        }
        lemma_elements_clear(front, tag);
        let last = v[v.len() - 1];
        lemma_element_clear(last.0, last.1, tag);
        lemma_clear_joined(elements_text(front), element(last.0, last.1), "<"@ + tag);
    }
}

/// Of elements one after the other, behind a text in which no such element begins, each is
/// read back.
pub proof fn lemma_elements_are_read(
    front: Seq<char>,
    v: Seq<(Seq<char>, Seq<char>)>,
    rest: Seq<char>,
    i: int,
)
    requires
        0 <= i < v.len(),
        plain_elements(v),
        clear_of(front, "<"@ + v[i].0),
        forall|k: int| 0 <= k < i ==> no_mistaking((#[trigger] v[k]).0, v[i].0),
    ensures
        xml_value_spec(front + elements_text(v) + rest, v[i].0) == Some(trim_spec(v[i].1)),
{
    let (tag, content) = v[i];
    let before = v.take(i);
    assert forall|k: int| 0 <= k < before.len() implies no_mistaking(
        (#[trigger] before[k]).0,
        tag,
    ) && plain_tag(before[k].0) && lacks(before[k].1, '<') by {
        assert(before[k] == v[k]);
    }
    lemma_elements_clear(before, tag);
    lemma_clear_joined(front, elements_text(before), "<"@ + tag);
    let more = lemma_elements_split(v, i + 1);
    assert(v.take(i + 1).drop_last() =~= before);
    assert(v.take(i + 1).last() == v[i]);
    law_element_is_found(front + elements_text(before), tag, content, more + rest);
    assert(front + elements_text(v) + rest =~= front + elements_text(before) + element(
        tag,
        content,
    ) + (more + rest));
}

/// Elements are those in front and something behind.
proof fn lemma_elements_split(v: Seq<(Seq<char>, Seq<char>)>, i: int) -> (more: Seq<char>)
    requires
        0 <= i <= v.len(),
    ensures
        elements_text(v) == elements_text(v.take(i)) + more,
    decreases v.len() - i,
{
    if i == v.len() {
        assert(v.take(i) =~= v);
        assert(elements_text(v) + Seq::<char>::empty() =~= elements_text(v));
        Seq::empty()
    } else {
        let front = v.drop_last();
        assert(front.take(i) =~= v.take(i));
        let more = lemma_elements_split(front, i);
        let last = element(v.last().0, v.last().1);
        assert(elements_text(v.take(i)) + more + last =~= elements_text(v.take(i)) + (more + last));
        more + last
    }
}

} // verus!
