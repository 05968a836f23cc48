//! XML and HTML text: escaping, decoding of references, and the text of an
//! element.

use vstd::prelude::*;
use vstd::string::StringExecFns;
use crate::number::{parse_uint, uint_value};
use crate::text::{
    between, char_index, chars_of, find_char, find_from, find_index, lemma_find_char,
    lemma_find_char_unique, lemma_find_from, lemma_find_from_unique, opt_view, replace_all,
    replace_text, starts_at, trim_spec, trim_text,
};

verus! {

broadcast use vstd::string::group_string_axioms;

/// `char::from_u32` yields the character with that code, and `None` for the
/// codes that are no Unicode scalar value: surrogates and those past U+10FFFF.
pub assume_specification[ char::from_u32 ](code: u32) -> (r: Option<char>)
    ensures
        r == (if is_scalar_code(code as int) {
            Some(code as char)
        } else {
            None
        }),
;

/// The codes of Unicode scalar values.
pub open spec fn is_scalar_code(code: int) -> bool {
    0 <= code < 0xd800 || 0xe000 <= code <= 0x10ffff
}

// ---------------------------------------------------------------------------
// Escaping
// ---------------------------------------------------------------------------

/// How `c` is written in XML text and attribute values.
pub open spec fn xml_entity(c: char) -> Seq<char> {
    if c == '&' {
        "&amp;"@
    } else if c == '<' {
        "&lt;"@
    } else if c == '>' {
        "&gt;"@
    } else if c == '"' {
        "&quot;"@
    } else if c == '\'' {
        "&apos;"@
    } else {
        seq![c]
    }
}

/// `s` as XML text: each character as its entity.
pub open spec fn escape_xml_spec(s: Seq<char>) -> Seq<char>
    decreases s.len(),
{
    if s.len() == 0 {
        seq![]
    } else {
        xml_entity(s[0]) + escape_xml_spec(s.skip(1))
    }
}

/// How `c` is written in HTML text and attribute values.
pub open spec fn html_entity(c: char) -> Seq<char> {
    if c == '\'' {
        "&#39;"@
    } else {
        xml_entity(c)
    }
}

/// `s` as HTML text: each character as its entity.
pub open spec fn escape_html_spec(s: Seq<char>) -> Seq<char>
    decreases s.len(),
{
    if s.len() == 0 {
        seq![]
    } else {
        html_entity(s[0]) + escape_html_spec(s.skip(1))
    }
}

/// Appends to `out` how `c` is written, an apostrophe as `apostrophe`.
fn push_entity(out: &mut String, c: char, apostrophe: &str)
    ensures
        final(out)@ == old(out)@ + (if c == '\'' {
            apostrophe@
        } else {
            xml_entity(c)
        }),
{
    if c == '&' {
        out.append("&amp;");
    } else if c == '<' {
        out.append("&lt;");
    } else if c == '>' {
        out.append("&gt;");
    } else if c == '"' {
        out.append("&quot;");
    } else if c == '\'' {
        out.append(apostrophe);
    } else {
        out.push(c);
        assert(out@ =~= old(out)@ + seq![c]);
    }
}

/// `value` as XML text.
pub fn escape_xml(value: &str) -> (r: String)
    ensures
        r@ == escape_xml_spec(value@),
{
    let chars = chars_of(value);
    let mut out = String::new();
    let mut i: usize = 0;
    assert(chars@.skip(0) =~= chars@);
    assert(out@ + escape_xml_spec(value@) =~= escape_xml_spec(value@));
    while i < chars.len()
        invariant
            i <= chars.len(),
            chars@ == value@,
            escape_xml_spec(value@) == out@ + escape_xml_spec(chars@.skip(i as int)),
        decreases chars.len() - i,
    {
        let ghost before = out@;
        let ghost rest = chars@.skip(i as int);
        assert(rest.skip(1) =~= chars@.skip(i + 1));
        push_entity(&mut out, chars[i], "&apos;");
        assert(before + (xml_entity(rest[0]) + escape_xml_spec(rest.skip(1))) =~= out@
            + escape_xml_spec(rest.skip(1)));
        i = i + 1;
    }
    assert(out@ + escape_xml_spec(chars@.skip(i as int)) =~= out@);
    out
}

/// `value` as HTML text.
pub fn escape_html(value: &str) -> (r: String)
    ensures
        r@ == escape_html_spec(value@),
{
    let chars = chars_of(value);
    let mut out = String::new();
    let mut i: usize = 0;
    assert(chars@.skip(0) =~= chars@);
    assert(out@ + escape_html_spec(value@) =~= escape_html_spec(value@));
    while i < chars.len()
        invariant
            i <= chars.len(),
            chars@ == value@,
            escape_html_spec(value@) == out@ + escape_html_spec(chars@.skip(i as int)),
        decreases chars.len() - i,
    {
        let ghost before = out@;
        let ghost rest = chars@.skip(i as int);
        assert(rest.skip(1) =~= chars@.skip(i + 1));
        push_entity(&mut out, chars[i], "&#39;");
        assert(before + (html_entity(rest[0]) + escape_html_spec(rest.skip(1))) =~= out@
            + escape_html_spec(rest.skip(1)));
        i = i + 1;
    }
    assert(out@ + escape_html_spec(chars@.skip(i as int)) =~= out@);
    out
}

// ---------------------------------------------------------------------------
// Decoding
// ---------------------------------------------------------------------------

/// The character that a numeric reference with this content denotes: `x` and a
/// hexadecimal code, or a decimal code, of a Unicode scalar value.
pub open spec fn ref_char(content: Seq<char>) -> Option<char> {
    let code = if starts_at(content, "x"@, 0) {
        uint_value(content.skip(1), 16, u32::MAX as int)
    } else {
        uint_value(content, 10, u32::MAX as int)
    };
    match code {
        Some(n) => if is_scalar_code(n as int) {
            Some(n as char)
        } else {
            None
        },
        None => None,
    }
}

/// What becomes of a numeric reference: its character, or the reference as it
/// stands where it denotes none.
pub open spec fn ref_text(content: Seq<char>) -> Seq<char> {
    match ref_char(content) {
        Some(c) => seq![c],
        None => "&#"@ + content + ";"@,
    }
}

/// `s` with its numeric references decoded, from left to right. A reference
/// runs from `&#` to the next semicolon.
pub open spec fn decode_refs(s: Seq<char>) -> Seq<char>
    decreases s.len(),
{
    match find_from(s, "&#"@, 0) {
        Some(i) => match find_char(s, ';', i + 2) {
            Some(j) => if 0 <= i && i + 2 <= j < s.len() {
                s.take(i) + ref_text(s.subrange(i + 2, j)) + decode_refs(s.skip(j + 1))
            } else {
                s
            },
            None => s,
        },
        None => s,
    }
}

/// `s` with its named references but `&amp;` decoded, one kind after the other.
pub open spec fn decode_named(s: Seq<char>) -> Seq<char> {
    let t1 = replace_all(s, "&lt;"@, "<"@);
    let t2 = replace_all(t1, "&gt;"@, ">"@);
    let t3 = replace_all(t2, "&quot;"@, "\""@);
    replace_all(t3, "&apos;"@, "'"@)
}

/// `s` with `&amp;` decoded first, then the other named references, then the
/// numeric ones.
pub open spec fn decode_xml_spec(s: Seq<char>) -> Seq<char> {
    decode_refs(decode_named(replace_all(s, "&amp;"@, "&"@)))
}

/// The character that a numeric reference with this content denotes.
fn ref_code_char(content: &[char]) -> (r: Option<char>)
    ensures
        r == ref_char(content@),
{
    proof {
        reveal_strlit("x");
    }
    assert("x"@ =~= seq!['x']);
    let hex = content.len() > 0 && content[0] == 'x';
    assert(hex == starts_at(content@, "x"@, 0)) by {
        if content@.len() > 0 {
            assert(content@.subrange(0, 1) =~= seq![content@[0]]);
            assert(content@.subrange(0, 1)[0] == content@[0]);
        }
    }
    let code: Option<u64> = if hex {
        let digits = between(content, 1, content.len());
        assert(digits@ =~= content@.skip(1));
        parse_uint(&digits, 16, u32::MAX as u64)
    } else {
        let digits = between(content, 0, content.len());
        assert(digits@ =~= content@);
        parse_uint(&digits, 10, u32::MAX as u64)
    };
    match code {
        Some(n) => char::from_u32(n as u32),
        None => None,
    }
}

/// `value` with its numeric references decoded.
fn decode_numeric(value: &str) -> (r: String)
    ensures
        r@ == decode_refs(value@),
{
    let chars = chars_of(value);
    let opening = chars_of("&#");
    proof {
        reveal_strlit("&#");
    }
    let mut out = String::new();
    let mut pos: usize = 0;
    assert(chars@.skip(0) =~= chars@);
    assert(out@ + decode_refs(value@) =~= decode_refs(value@));
    loop
        invariant
            pos <= chars.len(),
            chars@ == value@,
            opening@ == "&#"@,
            "&#"@.len() == 2,
            decode_refs(value@) == out@ + decode_refs(chars@.skip(pos as int)),
        decreases chars.len() - pos,
    {
        let ghost before = out@;
        let ghost rest = chars@.skip(pos as int);
        let found = find_index(&chars, &opening, pos);
        proof {
            lemma_find_from(chars@, "&#"@, pos as int);
            lemma_find_from_skip(chars@, "&#"@, pos as int);
        }
        let start: usize = match found {
            Some(i) => i,
            None => {
                let tail = between(&chars, pos, chars.len());
                assert(tail@ =~= rest);
                out.append(&tail);
                return out;
            },
        };
        let end = char_index(&chars, ';', start + 2);
        proof {
            lemma_find_char(chars@, ';', start + 2);
            lemma_find_char(rest, ';', start - pos + 2);
        }
        match end {
            Some(j) => {
                assert forall|k: int| start - pos + 2 <= k < j - pos implies rest[k] != ';' by {
                    assert(chars[k + pos] != ';');
                }
                proof {
                    lemma_find_char_unique(rest, ';', start - pos + 2, j - pos);
                }
                let head = between(&chars, pos, start);
                assert(head@ =~= rest.take(start - pos));
                out.append(&head);
                let content = chars_of(&between(&chars, start + 2, j));
                assert(content@ =~= rest.subrange(start - pos + 2, j - pos));
                match ref_code_char(&content) {
                    Some(c) => {
                        out.push(c);
                    },
                    None => {
                        out.append("&#");
                        let text = between(&chars, start + 2, j);
                        out.append(&text);
                        out.append(";");
                    },
                }
                assert(out@ =~= before + (rest.take(start - pos) + ref_text(content@)));
                assert(rest.skip(j - pos + 1) =~= chars@.skip(j + 1));
                assert(before + (rest.take(start - pos) + ref_text(content@) + decode_refs(
                    chars@.skip(j + 1),
                )) =~= out@ + decode_refs(chars@.skip(j + 1)));
                pos = j + 1;
            },
            None => {
                proof {
                    match find_char(rest, ';', start - pos + 2) {
                        Some(k) => {
                            assert(chars[k + pos] == ';');
                        },
                        None => {},
                    }
                }
                let tail = between(&chars, pos, chars.len());
                assert(tail@ =~= rest);
                out.append(&tail);
                return out;
            },
        }
    }
}

/// Searching in a suffix is searching in the whole from where the suffix starts.
proof fn lemma_find_from_skip(s: Seq<char>, p: Seq<char>, from: int)
    requires
        0 <= from <= s.len(),
    ensures
        match find_from(s, p, from) {
            Some(i) => find_from(s.skip(from), p, 0) == Some(i - from) && from <= i,
            None => find_from(s.skip(from), p, 0) is None,
        },
{
    let t = s.skip(from);
    lemma_find_from(s, p, from);
    lemma_find_from(t, p, 0);
    assert forall|j: int| 0 <= j implies starts_at(t, p, j) == starts_at(s, p, j + from) by {
        if j + p.len() <= t.len() {
            assert(t.subrange(j, j + p.len()) =~= s.subrange(j + from, j + from + p.len()));
        }
    }
    match find_from(s, p, from) {
        Some(i) => {
            assert(starts_at(t, p, i - from));
            assert forall|j: int| 0 <= j < i - from implies !starts_at(t, p, j) by {
                assert(!starts_at(s, p, j + from));
            }
            lemma_find_from_unique(t, p, 0, i - from);
        },
        None => {
            match find_from(t, p, 0) {
                Some(j) => {
                    assert(starts_at(s, p, j + from));
                },
                None => {},
            }
        },
    }
}

/// `value` with its references decoded.
pub fn decode_xml(value: &str) -> (r: String)
    ensures
        r@ == decode_xml_spec(value@),
{
    proof {
        reveal_strlit("&amp;");
        reveal_strlit("&lt;");
        reveal_strlit("&gt;");
        reveal_strlit("&quot;");
        reveal_strlit("&apos;");
    }
    let t0 = replace_text(value, "&amp;", "&");
    let t1 = replace_text(&t0, "&lt;", "<");
    let t2 = replace_text(&t1, "&gt;", ">");
    let t3 = replace_text(&t2, "&quot;", "\"");
    let t4 = replace_text(&t3, "&apos;", "'");
    decode_numeric(&t4)
}

// ---------------------------------------------------------------------------
// The text of an element
// ---------------------------------------------------------------------------

/// The characters that end the name in an opening tag.
pub open spec fn ends_name(c: char) -> bool {
    c == '>' || c == ' ' || c == '/' || c == '\t' || c == '\r' || c == '\n'
}

/// The index behind the first `opening`, from `from` on, that a character
/// follows which ends a name.
pub open spec fn tag_name_end(body: Seq<char>, opening: Seq<char>, from: int) -> Option<int>
    decreases body.len() - from,
{
    match find_from(body, opening, from) {
        Some(i) => {
            let after = i + opening.len();
            if from < after < body.len() {
                if ends_name(body[after]) {
                    Some(after)
                } else {
                    tag_name_end(body, opening, after)
                }
            } else {
                None
            }
        },
        None => None,
    }
}

/// The trimmed text of the first element `tag` in `body`: what stands between
/// the end of its opening tag and the next closing tag of that name.
pub open spec fn xml_value_spec(body: Seq<char>, tag: Seq<char>) -> Option<Seq<char>> {
    match tag_name_end(body, "<"@ + tag, 0) {
        Some(after) => match find_char(body, '>', after) {
            Some(open_end) => match find_from(body, "</"@ + tag + ">"@, open_end + 1) {
                Some(close) => Some(trim_spec(body.subrange(open_end + 1, close))),
                None => None,
            },
            None => None,
        },
        None => None,
    }
}

/// The trimmed text of the first element `tag` in `body`.
pub fn xml_value(body: &str, tag: &str) -> (r: Option<String>)
    ensures
        opt_view(r) == xml_value_spec(body@, tag@),
{
    let chars = chars_of(body);
    let mut opening_text = "<".to_owned();
    opening_text.append(tag);
    let opening = chars_of(&opening_text);
    let mut closing_text = "</".to_owned();
    closing_text.append(tag);
    closing_text.append(">");
    let closing = chars_of(&closing_text);
    proof {
        reveal_strlit("<");
    }
    let mut offset: usize = 0;
    loop
        invariant
            offset <= chars.len(),
            chars@ == body@,
            opening@ == "<"@ + tag@,
            closing@ == "</"@ + tag@ + ">"@,
            "<"@.len() == 1,
            tag_name_end(body@, "<"@ + tag@, 0) == tag_name_end(
                body@,
                "<"@ + tag@,
                offset as int,
            ),
        decreases chars.len() - offset,
    {
        proof {
            lemma_find_from(body@, opening@, offset as int);
        }
        let start: usize = match find_index(&chars, &opening, offset) {
            Some(i) => i,
            None => {
                return None;
            },
        };
        let after = start + opening.len();
        if after >= chars.len() {
            return None;
        }
        let c = chars[after];
        if !(c == '>' || c == ' ' || c == '/' || c == '\t' || c == '\r' || c == '\n') {
            offset = after;
            continue;
        }
        let open_end: usize = match char_index(&chars, '>', after) {
            Some(i) => i,
            None => {
                return None;
            },
        };
        proof {
            lemma_find_char(body@, '>', after as int);
            lemma_find_from(body@, closing@, open_end + 1);
        }
        let close: usize = match find_index(&chars, &closing, open_end + 1) {
            Some(i) => i,
            None => {
                return None;
            },
        };
        let inner = between(&chars, open_end + 1, close);
        return Some(trim_text(&inner));
    }
}

} // verus!
