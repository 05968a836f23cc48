//! Texts in web addresses, in forms and in headers.

use vstd::prelude::*;
use vstd::utf8::{
    encode_utf8, encode_utf8_decode_utf8, encode_utf8_valid_utf8, is_ascii_chars,
    is_ascii_chars_encode_utf8, valid_utf8,
};
use crate::bytes::{bytes_between, utf8_text, utf8_value};
use crate::fields::Fields;
use crate::text::{
    lemma_find_char, lemma_find_char_unique, split_once, split_once_spec, split_spec, split_text,
    views,
};

verus! {

// ---------------------------------------------------------------------------
// Percent encoding
// ---------------------------------------------------------------------------

/// Whether a byte stands for itself in a web address wherever it occurs.
pub open spec fn unreserved(b: u8) -> bool {
    ||| 65 <= b <= 90
    ||| 97 <= b <= 122
    ||| 48 <= b <= 57
    ||| b == 45
    ||| b == 46
    ||| b == 95
    ||| b == 126
}

/// The hexadecimal digit for a value below 16, in upper case.
pub open spec fn hex_digit(v: int) -> char {
    if v < 10 {
        (48 + v) as char
    } else {
        (55 + v) as char
    }
}

/// How a byte is written in a web address.
pub open spec fn percent_byte(b: u8) -> Seq<char> {
    if unreserved(b) {
        seq![b as char]
    } else {
        seq!['%', hex_digit(b as int / 16), hex_digit(b as int % 16)]
    }
}

/// How bytes are written in a web address.
pub open spec fn percent_bytes(bytes: Seq<u8>) -> Seq<char>
    decreases bytes.len(),
{
    if bytes.len() == 0 {
        seq![]
    } else {
        percent_bytes(bytes.drop_last()) + percent_byte(bytes.last())
    }
}

fn hex_char(v: u8) -> (r: char)
    requires
        v < 16,
    ensures
        r == hex_digit(v as int),
{
    if v < 10 {
        (48 + v) as char
    } else {
        (55 + v) as char
    }
}

/// A text as it is written in a web address, so that it comes through unchanged.
pub fn percent_encode(input: &str) -> (r: String)
    ensures
        r@ == percent_bytes(encode_utf8(input@)),
{
    let bytes = input.as_bytes();
    let mut out = String::new();
    let mut i: usize = 0;
    assert(out@ =~= percent_bytes(bytes@.take(0)));
    while i < bytes.len()
        invariant
            i <= bytes.len(),
            out@ == percent_bytes(bytes@.take(i as int)),
        decreases bytes.len() - i,
    {
        let b: u8 = bytes[i];
        assert(bytes@.take(i + 1).drop_last() =~= bytes@.take(i as int));
        assert(bytes@.take(i + 1).last() == b);
        let ghost before = out@;
        if (65 <= b && b <= 90) || (97 <= b && b <= 122) || (48 <= b && b <= 57) || b == 45 || b
            == 46 || b == 95 || b == 126 {
            out.push(b as char);
        } else {
            out.push('%');
            out.push(hex_char(b / 16));
            out.push(hex_char(b % 16));
        }
        assert(out@ =~= before + percent_byte(b));
        i += 1;
    }
    assert(bytes@.take(bytes@.len() as int) =~= bytes@);
    out
}

// ---------------------------------------------------------------------------
// Forms
// ---------------------------------------------------------------------------

/// Why a form could not be read.
#[derive(Clone, Copy, Debug, PartialEq, Eq, Structural)]
pub enum FormError {
    /// A percent sign without two characters behind it.
    Incomplete,
    /// A percent sign without a hexadecimal number behind it.
    Invalid,
    /// Bytes that are no text, or a percent sign in front of a part of a character.
    NotText,
}

impl FormError {
    pub open spec fn text(self) -> Seq<char> {
        match self {
            FormError::Incomplete => "incomplete URL encoding"@,
            FormError::Invalid => "invalid URL encoding"@,
            FormError::NotText => "form value is not UTF-8"@,
        }
    }

    pub fn message(self) -> (r: &'static str)
        ensures
            r@ == self.text(),
    {
        match self {
            FormError::Incomplete => "incomplete URL encoding",
            FormError::Invalid => "invalid URL encoding",
            FormError::NotText => "form value is not UTF-8",
        }
    }
}

/// The value of a hexadecimal digit in either case.
pub open spec fn hex_value(b: u8) -> Option<int> {
    if 48 <= b <= 57 {
        Some(b - 48)
    } else if 65 <= b <= 70 {
        Some(b - 55)
    } else if 97 <= b <= 102 {
        Some(b - 87)
    } else {
        None
    }
}

/// The byte that two characters denote: two hexadecimal digits, or one behind a
/// plus sign.
pub open spec fn hex_pair(a: u8, b: u8) -> Option<u8> {
    match (hex_value(a), hex_value(b)) {
        (Some(x), Some(y)) => Some((16 * x + y) as u8),
        (None, Some(y)) => if a == 43 {
            Some(y as u8)
        } else {
            None
        },
        _ => None,
    }
}

/// The bytes that form-encoded bytes denote.
pub open spec fn form_bytes(s: Seq<u8>) -> Result<Seq<u8>, FormError>
    decreases s.len(),
{
    if s.len() == 0 {
        Ok(seq![])
    } else if s[0] == 37 {
        if s.len() <= 2 {
            Err(FormError::Incomplete)
        } else {
            match hex_pair(s[1], s[2]) {
                None => Err(
                    if valid_utf8(s.subrange(1, 3)) {
                        FormError::Invalid
                    } else {
                        FormError::NotText
                    },
                ),
                Some(b) => match form_bytes(s.skip(3)) {
                    Ok(rest) => Ok(seq![b] + rest),
                    Err(e) => Err(e),
                },
            }
        }
    } else {
        let b = if s[0] == 43 {
            32u8
        } else {
            s[0]
        };
        match form_bytes(s.skip(1)) {
            Ok(rest) => Ok(seq![b] + rest),
            Err(e) => Err(e),
        }
    }
}

/// The text that form-encoded text denotes.
pub open spec fn form_text(s: Seq<char>) -> Result<Seq<char>, FormError> {
    match form_bytes(encode_utf8(s)) {
        Ok(bytes) => match utf8_value(bytes) {
            Some(text) => Ok(text),
            None => Err(FormError::NotText),
        },
        Err(e) => Err(e),
    }
}

fn hex_digit_value(b: u8) -> (r: Option<u8>)
    ensures
        match r {
            Some(v) => hex_value(b) == Some(v as int) && v < 16,
            None => hex_value(b) is None,
        },
{
    if 48 <= b && b <= 57 {
        Some(b - 48)
    } else if 65 <= b && b <= 70 {
        Some(b - 55)
    } else if 97 <= b && b <= 102 {
        Some(b - 87)
    } else {
        None
    }
}

fn hex_pair_value(a: u8, b: u8) -> (r: Option<u8>)
    ensures
        r == hex_pair(a, b),
{
    match (hex_digit_value(a), hex_digit_value(b)) {
        (Some(x), Some(y)) => Some(16 * x + y),
        (None, Some(y)) => if a == 43 {
            Some(y)
        } else {
            None
        },
        _ => None,
    }
}

/// The view of a result.
pub open spec fn form_result(r: Result<String, FormError>) -> Result<Seq<char>, FormError> {
    match r {
        Ok(s) => Ok(s@),
        Err(e) => Err(e),
    }
}

/// The text that form-encoded text denotes.
pub fn url_decode(value: &str) -> (r: Result<String, FormError>)
    ensures
        form_result(r) == form_text(value@),
{
    let bytes = value.as_bytes();
    let mut out: Vec<u8> = Vec::new();
    let mut i: usize = 0;
    let ghost whole = form_bytes(bytes@);
    assert(bytes@.skip(0) =~= bytes@);
    assert(match whole {
        Ok(rest) => whole == Ok::<Seq<u8>, FormError>(out@ + rest),
        Err(_) => true,
    }) by {
        if let Ok(rest) = whole {
            assert(out@ + rest =~= rest);
        }
    }
    while i < bytes.len()
        invariant
            i <= bytes.len(),
            whole == form_bytes(encode_utf8(value@)),
            bytes@ == encode_utf8(value@),
            match form_bytes(bytes@.skip(i as int)) {
                Ok(rest) => whole == Ok::<Seq<u8>, FormError>(out@ + rest),
                Err(e) => whole == Err::<Seq<u8>, FormError>(e),
            },
        decreases bytes.len() - i,
    {
        let ghost here = bytes@.skip(i as int);
        let ghost before = out@;
        if bytes[i] == 37 {
            if bytes.len() - i <= 2 {
                return Err(FormError::Incomplete);
            }
            match hex_pair_value(bytes[i + 1], bytes[i + 2]) {
                None => {
                    assert(here.subrange(1, 3) =~= bytes@.subrange(i + 1, i + 3));
                    return match utf8_text(&bytes_between(bytes, i + 1, i + 3)) {
                        Some(_) => Err(FormError::Invalid),
                        None => Err(FormError::NotText),
                    };
                },
                Some(b) => {
                    out.push(b);
                    proof {
                        assert(here.skip(3) =~= bytes@.skip(i + 3));
                        if let Ok(rest) = form_bytes(here.skip(3)) {
                            assert(before + (seq![b] + rest) =~= out@ + rest);
                        }
                    }
                    i += 3;
                },
            }
        } else {
            let b: u8 = if bytes[i] == 43 {
                32
            } else {
                bytes[i]
            };
            out.push(b);
            proof {
                assert(here.skip(1) =~= bytes@.skip(i + 1));
                if let Ok(rest) = form_bytes(here.skip(1)) {
                    assert(before + (seq![b] + rest) =~= out@ + rest);
                }
            }
            i += 1;
        }
    }
    proof {
        assert(form_bytes(bytes@.skip(i as int)) == Ok::<Seq<u8>, FormError>(seq![]));
        assert(out@ + seq![] =~= out@);
    }
    match utf8_text(&out) {
        Some(text) => Ok(text),
        None => Err(FormError::NotText),
    }
}

/// The name and the value in a field of a form; the value is empty where there is
/// no equals sign.
pub open spec fn field_parts(field: Seq<char>) -> (Seq<char>, Seq<char>) {
    match split_once_spec(field, '=') {
        Some(parts) => parts,
        None => (field, seq![]),
    }
}

/// The values by name in the fields of a form. Empty fields are left out.
pub open spec fn form_fields(fields: Seq<Seq<char>>) -> Result<
    Map<Seq<char>, Seq<char>>,
    FormError,
>
    decreases fields.len(),
{
    if fields.len() == 0 {
        Ok(Map::empty())
    } else {
        match form_fields(fields.drop_last()) {
            Err(e) => Err(e),
            Ok(before) => if fields.last().len() == 0 {
                Ok(before)
            } else {
                let (name, value) = field_parts(fields.last());
                match (form_text(name), form_text(value)) {
                    (Err(e), _) => Err(e),
                    (_, Err(e)) => Err(e),
                    (Ok(n), Ok(v)) => Ok(before.insert(n, v)),
                }
            },
        }
    }
}

/// The view of a form that was read.
pub open spec fn fields_result(r: Result<Fields, FormError>) -> Result<
    Map<Seq<char>, Seq<char>>,
    FormError,
> {
    match r {
        Ok(fields) => Ok(fields@),
        Err(e) => Err(e),
    }
}

/// Reads a form.
pub fn parse_form(body: &str) -> (r: Result<Fields, FormError>)
    ensures
        fields_result(r) == form_fields(split_spec(body@, '&')),
{
    let parts = split_text(body, '&');
    let ghost all = views(parts@);
    let mut fields = Fields::new();
    let mut i: usize = 0;
    while i < parts.len()
        invariant
            i <= parts.len(),
            all == views(parts@),
            all == split_spec(body@, '&'),
            form_fields(all.take(i as int)) == Ok::<Map<Seq<char>, Seq<char>>, FormError>(fields@),
        decreases parts.len() - i,
    {
        assert(all.take(i + 1).drop_last() =~= all.take(i as int));
        assert(all.take(i + 1).last() == parts@[i as int]@);
        let ghost so_far = form_fields(all.take(i + 1));
        if !parts[i].as_str().is_empty() {
            let (name, value) = match split_once(&parts[i], '=') {
                Some(pair) => pair,
                None => (parts[i].clone(), String::new()),
            };
            assert((name@, value@) == field_parts(parts@[i as int]@));
            match url_decode(&name) {
                Err(e) => {
                    proof {
                        lemma_first_error(all, i + 1);
                    }
                    return Err(e);
                },
                Ok(n) => match url_decode(&value) {
                    Err(e) => {
                        proof {
                            lemma_first_error(all, i + 1);
                        }
                        return Err(e);
                    },
                    Ok(v) => {
                        fields.insert(n, v);
                    },
                },
            }
        }
        i += 1;
    }
    assert(all.take(all.len() as int) =~= all);
    Ok(fields)
}

/// The first error in the fields of a form is the error of the form.
proof fn lemma_first_error(fields: Seq<Seq<char>>, n: int)
    requires
        0 <= n <= fields.len(),
        form_fields(fields.take(n)) is Err,
    ensures
        form_fields(fields) == form_fields(fields.take(n)),
    decreases fields.len() - n,
{
    if n == fields.len() {
        assert(fields.take(n) =~= fields);
    } else {
        assert(fields.take(n + 1).drop_last() =~= fields.take(n));
        lemma_first_error(fields, n + 1);
    }
}

// ---------------------------------------------------------------------------
// Laws of percent encoding
// ---------------------------------------------------------------------------

/// These characters as bytes, each below 128.
spec fn as_bytes(s: Seq<char>) -> Seq<u8> {
    Seq::new(s.len(), |i: int| s[i] as u8)
}

proof fn lemma_percent_ascii(bytes: Seq<u8>)
    ensures
        is_ascii_chars(percent_bytes(bytes)),
    decreases bytes.len(),
{
    if bytes.len() > 0 {
        lemma_percent_ascii(bytes.drop_last());
        let a = percent_bytes(bytes.drop_last());
        let b = percent_byte(bytes.last());
        assert(forall|i: int| 0 <= i < b.len() ==> (#[trigger] b[i]) as u32 <= 127);
        assert forall|i: int| 0 <= i < (a + b).len() implies #[trigger] ((a + b)[i] as u32) <= 127 by {
            if i < a.len() {
                assert((a + b)[i] == a[i]);
            } else {
                assert((a + b)[i] == b[i - a.len()]);
            }
        }
    }
}

/// Reading one encoded byte in front of anything.
proof fn lemma_decode_one(b: u8, rest: Seq<u8>)
    ensures
        form_bytes(as_bytes(percent_byte(b)) + rest) == match form_bytes(rest) {
            Ok(more) => Ok::<Seq<u8>, FormError>(seq![b] + more),
            Err(e) => Err(e),
        },
{
    let front = as_bytes(percent_byte(b));
    let s = front + rest;
    if unreserved(b) {
        assert(s.skip(1) =~= rest);
    } else {
        assert(s.skip(3) =~= rest);
        assert(hex_pair(s[1], s[2]) == Some(b));
    }
}

proof fn lemma_decode_all(bytes: Seq<u8>, rest: Seq<u8>)
    ensures
        form_bytes(as_bytes(percent_bytes(bytes)) + rest) == match form_bytes(rest) {
            Ok(more) => Ok::<Seq<u8>, FormError>(bytes + more),
            Err(e) => Err(e),
        },
    decreases bytes.len(),
{
    if bytes.len() == 0 {
        assert(as_bytes(percent_bytes(bytes)) + rest =~= rest);
        if let Ok(more) = form_bytes(rest) {
            assert(bytes + more =~= more);
        }
    } else {
        let front = bytes.drop_last();
        let b = bytes.last();
        let tail = as_bytes(percent_byte(b)) + rest;
        lemma_decode_one(b, rest);
        lemma_decode_all(front, tail);
        assert(as_bytes(percent_bytes(bytes)) + rest =~= as_bytes(percent_bytes(front)) + tail);
        if let Ok(more) = form_bytes(rest) {
            assert(front + (seq![b] + more) =~= bytes + more);
        }
    }
}

/// A text that was percent-encoded comes back unchanged when it is decoded.
pub proof fn law_percent_encoding_survives(s: Seq<char>)
    ensures
        form_text(percent_bytes(encode_utf8(s))) == Ok::<Seq<char>, FormError>(s),
{
    let bytes = encode_utf8(s);
    let t = percent_bytes(bytes);
    lemma_percent_ascii(bytes);
    is_ascii_chars_encode_utf8(t);
    assert(encode_utf8(t) =~= as_bytes(t));
    lemma_decode_all(bytes, seq![]);
    assert(as_bytes(t) + seq![] =~= as_bytes(t));
    assert(bytes + seq![] =~= bytes);
    encode_utf8_valid_utf8(s);
    encode_utf8_decode_utf8(s);
}

// ---------------------------------------------------------------------------
// Base64
// ---------------------------------------------------------------------------

/// The character for six bits.
pub open spec fn base64_char(v: int) -> char {
    if v < 26 {
        (65 + v) as char
    } else if v < 52 {
        (71 + v) as char
    } else if v < 62 {
        (v - 4) as char
    } else if v == 62 {
        '+'
    } else {
        '/'
    }
}

/// Bytes in Base64: three bytes as four characters, and what is left of the last
/// three filled up with equals signs.
pub open spec fn base64_bytes(s: Seq<u8>) -> Seq<char>
    decreases s.len(),
{
    if s.len() == 0 {
        seq![]
    } else {
        let a = s[0] as int;
        let b = if s.len() > 1 {
            s[1] as int
        } else {
            0
        };
        let c = if s.len() > 2 {
            s[2] as int
        } else {
            0
        };
        let group = seq![
            base64_char(a / 4),
            base64_char(a % 4 * 16 + b / 16),
            if s.len() > 1 {
                base64_char(b % 16 * 4 + c / 64)
            } else {
                '='
            },
            if s.len() > 2 {
                base64_char(c % 64)
            } else {
                '='
            },
        ];
        if s.len() > 3 {
            group + base64_bytes(s.skip(3))
        } else {
            group
        }
    }
}

fn base64_digit(v: u8) -> (r: char)
    requires
        v < 64,
    ensures
        r == base64_char(v as int),
{
    if v < 26 {
        (65 + v) as char
    } else if v < 52 {
        (71 + v) as char
    } else if v < 62 {
        (v - 4) as char
    } else if v == 62 {
        '+'
    } else {
        '/'
    }
}

/// A text in Base64.
pub fn base64_encode(input: &str) -> (r: String)
    ensures
        r@ == base64_bytes(encode_utf8(input@)),
{
    let bytes = input.as_bytes();
    let mut out = String::new();
    let mut i: usize = 0;
    let ghost whole = base64_bytes(bytes@);
    assert(bytes@.skip(0) =~= bytes@);
    assert(out@ + whole =~= whole);
    while i < bytes.len()
        invariant
            i <= bytes.len(),
            whole == out@ + base64_bytes(bytes@.skip(i as int)),
        decreases bytes.len() - i,
    {
        let ghost here = bytes@.skip(i as int);
        let ghost before = out@;
        let left: usize = bytes.len() - i;
        let a: u8 = bytes[i];
        let b: u8 = if left > 1 {
            bytes[i + 1]
        } else {
            0
        };
        let c: u8 = if left > 2 {
            bytes[i + 2]
        } else {
            0
        };
        out.push(base64_digit(a / 4));
        out.push(base64_digit(a % 4 * 16 + b / 16));
        if left > 1 {
            out.push(base64_digit(b % 16 * 4 + c / 64));
        } else {
            out.push('=');
        }
        if left > 2 {
            out.push(base64_digit(c % 64));
        } else {
            out.push('=');
        }
        if left > 3 {
            assert(here.skip(3) =~= bytes@.skip(i + 3));
            assert(before + base64_bytes(here) =~= out@ + base64_bytes(bytes@.skip(i + 3)));
            i += 3;
        } else {
            assert(bytes@.skip(bytes@.len() as int) =~= seq![]);
            assert(before + base64_bytes(here) =~= out@ + base64_bytes(
                bytes@.skip(bytes@.len() as int),
            ));
            i = bytes.len();
        }
    }
    assert(base64_bytes(bytes@.skip(i as int)) =~= seq![]);
    assert(out@ + seq![] =~= out@);
    out
}

/// Base64 takes four characters for each three bytes begun.
pub proof fn law_base64_length(s: Seq<u8>)
    ensures
        base64_bytes(s).len() == (s.len() + 2) / 3 * 4,
    decreases s.len(),
{
    if s.len() > 3 {
        law_base64_length(s.skip(3));
    }
}

// ---------------------------------------------------------------------------
// Laws of forms
// ---------------------------------------------------------------------------

/// An encoded text holds no character that separates fields, or names from values.
proof fn lemma_percent_separates(bytes: Seq<u8>)
    ensures
        forall|i: int|
            0 <= i < percent_bytes(bytes).len() ==> #[trigger] percent_bytes(bytes)[i] != '&'
                && percent_bytes(bytes)[i] != '=',
    decreases bytes.len(),
{
    if bytes.len() > 0 {
        let a = percent_bytes(bytes.drop_last());
        let b = percent_byte(bytes.last());
        lemma_percent_separates(bytes.drop_last());
        assert(forall|i: int| 0 <= i < b.len() ==> #[trigger] b[i] != '&' && b[i] != '=');
        assert forall|i: int| 0 <= i < (a + b).len() implies #[trigger] (a + b)[i] != '&' && (a
            + b)[i] != '=' by {
            if i < a.len() {
                assert((a + b)[i] == a[i]);
            } else {
                assert((a + b)[i] == b[i - a.len()]);
            }
        }
    }
}

/// A form with one encoded field is read back as that field.
pub proof fn law_form_field_survives(name: Seq<char>, value: Seq<char>)
    ensures
        form_fields(
            split_spec(
                percent_bytes(encode_utf8(name)) + seq!['='] + percent_bytes(encode_utf8(value)),
                '&',
            ),
        ) == Ok::<Map<Seq<char>, Seq<char>>, FormError>(map![name => value]),
{
    let a = percent_bytes(encode_utf8(name));
    let b = percent_bytes(encode_utf8(value));
    let field = a + seq!['='] + b;
    lemma_percent_separates(encode_utf8(name));
    lemma_percent_separates(encode_utf8(value));
    lemma_find_char(field, '&', 0);
    assert forall|i: int| 0 <= i < field.len() implies field[i] != '&' by {
        if i < a.len() {
            assert(field[i] == a[i]);
        } else if i > a.len() {
            assert(field[i] == b[i - a.len() - 1]);
        }
    }
    assert(split_spec(field, '&') =~= seq![field]);
    assert forall|i: int| 0 <= i < a.len() implies field[i] != '=' by {
        assert(field[i] == a[i]);
    }
    lemma_find_char_unique(field, '=', 0, a.len() as int);
    assert(field.take(a.len() as int) =~= a);
    assert(field.skip(a.len() as int + 1) =~= b);
    assert(field_parts(field) == (a, b));
    law_percent_encoding_survives(name);
    law_percent_encoding_survives(value);
    let fields = seq![field];
    assert(fields.drop_last() =~= Seq::empty());
    assert(form_fields(fields.drop_last()) == Ok::<Map<Seq<char>, Seq<char>>, FormError>(
        Map::empty(),
    ));
    assert(Map::<Seq<char>, Seq<char>>::empty().insert(name, value) =~= map![name => value]);
}

/// The six bits that a character stands for.
pub open spec fn base64_value(c: char) -> int {
    if 'A' <= c <= 'Z' {
        c as int - 65
    } else if 'a' <= c <= 'z' {
        c as int - 71
    } else if '0' <= c <= '9' {
        c as int + 4
    } else if c == '+' {
        62
    } else {
        63
    }
}

/// The bytes that a text in Base64 stands for.
pub open spec fn base64_meaning(t: Seq<char>) -> Seq<u8>
    decreases t.len(),
{
    if t.len() < 4 {
        seq![]
    } else {
        let p = base64_value(t[0]);
        let q = base64_value(t[1]);
        let r = base64_value(t[2]);
        let s = base64_value(t[3]);
        let a = (p * 4 + q / 16) as u8;
        let b = (q % 16 * 16 + r / 4) as u8;
        let c = (r % 4 * 64 + s) as u8;
        let group = if t[2] == '=' {
            seq![a]
        } else if t[3] == '=' {
            seq![a, b]
        } else {
            seq![a, b, c]
        };
        group + base64_meaning(t.skip(4))
    }
}

/// What is written in Base64 stands for what was written.
pub proof fn law_base64_is_read_back(s: Seq<u8>)
    ensures
        base64_meaning(base64_bytes(s)) == s,
    decreases s.len(),
{
    if s.len() > 0 {
        let t = base64_bytes(s);
        assert(forall|v: int|
            0 <= v < 64 ==> base64_value(#[trigger] base64_char(v)) == v && base64_char(v) != '=');
        if s.len() > 3 {
            law_base64_is_read_back(s.skip(3));
            assert(t.skip(4) =~= base64_bytes(s.skip(3)));
            assert(seq![s[0], s[1], s[2]] + s.skip(3) =~= s);
        } else {
            assert(t.skip(4) =~= seq![]);
            assert(base64_meaning(t.skip(4)) =~= seq![]);
        }
        assert(base64_meaning(t) =~= s);
    } else {
        assert(base64_meaning(base64_bytes(s)) =~= s);
    }
}

} // verus!
