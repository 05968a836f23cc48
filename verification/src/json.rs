//! Texts in JSON.

use vstd::prelude::*;
use crate::number::{decimal, lemma_decimal_value};

verus! {

/// A hexadecimal digit.
pub open spec fn low_hex(d: int) -> char {
    if d < 10 {
        ('0' as int + d) as char
    } else {
        ('a' as int + d - 10) as char
    }
}

/// How `c` is written in a JSON string: quotation marks, backslashes and the characters
/// up to U+001F are escaped.
pub open spec fn json_char(c: char) -> Seq<char> {
    if c == '"' || c == '\\' {
        seq!['\\', c]
    } else if c == '\u{8}' {
        seq!['\\', 'b']
    } else if c == '\t' {
        seq!['\\', 't']
    } else if c == '\n' {
        seq!['\\', 'n']
    } else if c == '\u{c}' {
        seq!['\\', 'f']
    } else if c == '\r' {
        seq!['\\', 'r']
    } else if (c as int) < 0x20 {
        seq!['\\', 'u', '0', '0', low_hex(c as int / 16), low_hex(c as int % 16)]
    } else {
        seq![c]
    }
}

/// What stands between the quotation marks of a JSON string.
pub open spec fn json_chars(s: Seq<char>) -> Seq<char>
    decreases s.len(),
{
    if s.len() == 0 {
        seq![]
    } else {
        json_char(s[0]) + json_chars(s.skip(1))
    }
}

/// A text as a JSON string.
pub open spec fn json_literal(s: Seq<char>) -> Seq<char> {
    seq!['"'] + json_chars(s) + seq!['"']
}

/// Writes a JSON string by `Display` of `serde_json::Value`: between quotation marks,
/// with a short escape, or the code in four lower-case digits, for each character that
/// JSON does not take as it is, and nothing else escaped.
#[verifier::external_body]
pub(crate) fn json_string(s: &str) -> (r: String)
    ensures
        r@ == json_literal(s@),
{
    serde_json::Value::from(s).to_string()
}

/// Whether a text holds no line feed.
pub open spec fn one_line(s: Seq<char>) -> bool {
    forall|i: int| 0 <= i < s.len() ==> #[trigger] s[i] != '\n'
}

/// What is put together from texts without a line feed has none.
pub proof fn lemma_one_line_joined(a: Seq<char>, b: Seq<char>)
    requires
        one_line(a),
        one_line(b),
    ensures
        one_line(a + b),
{
    assert forall|i: int| 0 <= i < (a + b).len() implies #[trigger] (a + b)[i] != '\n' by {
        if i < a.len() {
            assert((a + b)[i] == a[i]);
        } else {
            assert((a + b)[i] == b[i - a.len()]);
        }
    }
}

/// Where a JSON string is sent in a line, it does not end the line, whatever the text.
pub proof fn law_json_string_is_one_line(s: Seq<char>)
    ensures
        one_line(json_literal(s)),
{
    lemma_json_chars(s);
    lemma_one_line_joined(seq!['"'], json_chars(s));
    lemma_one_line_joined(seq!['"'] + json_chars(s), seq!['"']);
}

proof fn lemma_json_char(c: char)
    ensures
        one_line(json_char(c)),
{
    if (c as int) < 0x20 {
        assert(low_hex(c as int / 16) as int >= '0' as int);
        assert(low_hex(c as int % 16) as int >= '0' as int);
    }
}

proof fn lemma_json_chars(s: Seq<char>)
    ensures
        one_line(json_chars(s)),
    decreases s.len(),
{
    if s.len() > 0 {
        lemma_json_chars(s.skip(1));
        lemma_json_char(s[0]);
        lemma_one_line_joined(json_char(s[0]), json_chars(s.skip(1)));
    }
}

/// The names of truth values have no line feed.
pub proof fn lemma_one_line_bool(b: bool)
    ensures
        one_line(json_bool(b)),
{
    reveal_strlit("true");
    reveal_strlit("false");
}

/// A truth value in JSON.
pub open spec fn json_bool(b: bool) -> Seq<char> {
    if b {
        "true"@
    } else {
        "false"@
    }
}

/// A truth value in JSON.
pub fn json_bool_text(b: bool) -> (r: &'static str)
    ensures
        r@ == json_bool(b),
{
    if b {
        "true"
    } else {
        "false"
    }
}

/// A number has no line feed.
pub proof fn lemma_one_line_decimal(n: nat)
    ensures
        one_line(decimal(n)),
{
    lemma_decimal_value(n);
}

} // verus!
