//! What reading and writing texts comes down to.

use vstd::prelude::*;
use crate::encoding::{form_bytes, hex_pair, FormError};
use crate::http::RequestError;
use crate::number::{decimal, uint_value};
use crate::reading::{clear_of, lacks, lemma_mark_found, lemma_number_is_read};
use crate::text::{
    is_control, is_white, lemma_find_char, lemma_find_char_unique, lemma_find_from, lines_spec,
    lower, starts_at, trim_end_spec, trim_spec, trim_start_spec,
};
use crate::xml::{decode_refs, ref_char};

verus! {

/// White space is trimmed away at both ends, and nothing else: what is left begins and ends
/// with something else, whatever stands between.
pub proof fn law_white_space_is_trimmed(a: Seq<char>, s: Seq<char>, b: Seq<char>)
    requires
        forall|i: int| 0 <= i < a.len() ==> is_white(#[trigger] a[i]),
        forall|i: int| 0 <= i < b.len() ==> is_white(#[trigger] b[i]),
        s.len() > 0 ==> !is_white(s[0]) && !is_white(s[s.len() - 1]),
    ensures
        trim_spec(a + s + b) == s,
{
    lemma_trim_start(a, s + b);
    assert(a + s + b =~= a + (s + b));
    if s.len() > 0 {
        assert((s + b)[0] == s[0]);
        assert(trim_start_spec(s + b) == s + b);
        lemma_trim_end(s, b);
    } else {
        let none = Seq::<char>::empty();
        assert(s + b =~= b + none);
        lemma_trim_start(b, none);
        assert(s =~= none);
    }
}

proof fn lemma_trim_start(a: Seq<char>, s: Seq<char>)
    requires
        forall|i: int| 0 <= i < a.len() ==> is_white(#[trigger] a[i]),
    ensures
        trim_start_spec(a + s) == trim_start_spec(s),
    decreases a.len(),
{
    if a.len() == 0 {
        assert(a + s =~= s);
    } else {
        let rest = a.skip(1);
        assert forall|i: int| 0 <= i < rest.len() implies is_white(#[trigger] rest[i]) by {
            assert(rest[i] == a[i + 1]);
        }
        lemma_trim_start(rest, s);
        assert((a + s)[0] == a[0]);
        assert((a + s).skip(1) =~= rest + s);
    }
}

proof fn lemma_trim_end(s: Seq<char>, b: Seq<char>)
    requires
        s.len() > 0,
        !is_white(s[s.len() - 1]),
        forall|i: int| 0 <= i < b.len() ==> is_white(#[trigger] b[i]),
    ensures
        trim_end_spec(s + b) == s,
    decreases b.len(),
{
    if b.len() == 0 {
        assert(s + b =~= s);
    } else {
        let rest = b.drop_last();
        assert forall|i: int| 0 <= i < rest.len() implies is_white(#[trigger] rest[i]) by {
            assert(rest[i] == b[i]);
        }
        lemma_trim_end(s, rest);
        assert((s + b).last() == b[b.len() - 1]);
        assert((s + b).drop_last() =~= s + rest);
    }
}

/// White space is the space, the tabulators and line ends, and the spaces beyond ASCII; letters,
/// digits and signs are none.
pub proof fn law_white_space(c: char)
    ensures
        c == ' ' || c == '\t' || c == '\n' || c == '\r' || c == '\u{b}' || c == '\u{c}' ==> is_white(
            c,
        ),
        c == '\u{85}' || c == '\u{a0}' || c == '\u{1680}' || c == '\u{2028}' || c == '\u{2029}' || c
            == '\u{202f}' || c == '\u{205f}' || c == '\u{3000}' ==> is_white(c),
        '\u{2000}' <= c <= '\u{200a}' ==> is_white(c),
        '!' <= c <= '~' ==> !is_white(c),
        is_white(c) ==> c <= ' ' || c == '\u{85}' || c == '\u{a0}' || c == '\u{1680}' || '\u{2000}'
            <= c <= '\u{200a}' || c == '\u{2028}' || c == '\u{2029}' || c == '\u{202f}' || c
            == '\u{205f}' || c == '\u{3000}',
        c <= '\u{8}' || '\u{e}' <= c <= '\u{1f}' ==> !is_white(c),
{
}

/// Control characters stand before the space and behind the tilde, up to U+009F.
pub proof fn law_control_characters(c: char)
    ensures
        c < ' ' ==> is_control(c),
        ' ' <= c <= '~' ==> !is_control(c),
        '\u{7f}' <= c <= '\u{9f}' ==> is_control(c),
        c >= '\u{a0}' ==> !is_control(c),
{
}

/// Lower case changes the capital letters of ASCII, each to its small letter, and nothing else,
/// so doing it again changes nothing.
pub proof fn law_lower_case(s: Seq<char>, i: int)
    requires
        0 <= i < s.len(),
    ensures
        lower(s).len() == s.len(),
        'A' <= s[i] <= 'Z' ==> lower(s)[i] as int - 'a' as int == s[i] as int - 'A' as int,
        !('A' <= s[i] <= 'Z') ==> lower(s)[i] == s[i],
        lower(lower(s)) == lower(s),
{
    assert(lower(lower(s)) =~= lower(s));
}

/// A line ends in a line feed, with or without a carriage return before it, and the last line
/// may go without.
pub proof fn law_lines(line: Seq<char>, rest: Seq<char>)
    requires
        lacks(line, '\n'),
        line.len() > 0 ==> line[line.len() - 1] != '\r',
    ensures
        lines_spec(line + seq!['\n'] + rest) == seq![line] + lines_spec(rest),
        lines_spec(line + seq!['\r', '\n'] + rest) == seq![line] + lines_spec(rest),
        line.len() > 0 ==> lines_spec(line) == seq![line],
        lines_spec(Seq::<char>::empty()).len() == 0,
{
    let n = line.len() as int;
    let s = line + seq!['\n'] + rest;
    assert forall|j: int| 0 <= j < n implies s[j] != '\n' by {
        assert(s[j] == line[j]);
    }
    lemma_find_char_unique(s, '\n', 0, n);
    assert(s.take(n) =~= line);
    assert(s.skip(n + 1) =~= rest);
    crate::reading::lemma_head_line(line, rest);
    lemma_find_char(line, '\n', 0);
}

/// A numeric reference stands for the character with its number, in digits or, behind an `x`, in
/// hexadecimal digits.
pub proof fn law_numeric_references(c: char, digits: Seq<char>)
    ensures
        ref_char(decimal(c as nat)) == Some(c),
        uint_value(digits, 16, u32::MAX as int) == Some(c as nat) ==> ref_char(seq!['x'] + digits)
            == Some(c),
        decode_refs("&#"@ + decimal(c as nat) + ";"@) == seq![c],
{
    let number = decimal(c as nat);
    lemma_number_is_read(c as nat, u32::MAX as int);
    assert(lacks(number, 'x') && lacks(number, ';'));
    assert("x"@ == seq!['x']) by {
        reveal_strlit("x");
        assert("x"@ =~= seq!['x']);
    }
    assert(!starts_at(number, "x"@, 0)) by {
        if starts_at(number, "x"@, 0) {
            assert(number.subrange(0, 1)[0] == number[0]);
        }
    }
    let hex = seq!['x'] + digits;
    assert(hex.subrange(0, 1) =~= seq!['x']);
    assert(hex.skip(1) =~= digits);
    let s = "&#"@ + number + ";"@;
    reveal_strlit("&#");
    reveal_strlit(";");
    let none = Seq::<char>::empty();
    let mark = "&#"@;
    assert(clear_of(none, mark));
    lemma_mark_found(none, mark, number + ";"@);
    assert(s =~= none + mark + (number + ";"@));
    let j = 2 + number.len() as int;
    assert forall|k: int| 2 <= k < j implies s[k] != ';' by {
        assert(s[k] == number[k - 2]);
    }
    lemma_find_char_unique(s, ';', 2, j);
    assert(s.subrange(2, j) =~= number);
    assert(s.skip(j + 1) =~= none);
    lemma_find_from(none, mark, 0);
    assert(decode_refs(none) =~= none);
    assert(s.take(0) + seq![c] + none =~= seq![c]);
}

/// In a form a plus sign stands for a space, and a percent sign with two hexadecimal digits for a
/// byte, in either case; a percent sign with too little behind it, or with something else, is
/// an error.
pub proof fn law_forms_are_decoded(rest: Seq<u8>, bytes: Seq<u8>, b: u8)
    requires
        form_bytes(rest) == Ok::<Seq<u8>, FormError>(bytes),
    ensures
        form_bytes(seq![43u8] + rest) == Ok::<Seq<u8>, FormError>(seq![32u8] + bytes),
        b != 37 && b != 43 ==> form_bytes(seq![b] + rest) == Ok::<Seq<u8>, FormError>(
            seq![b] + bytes,
        ),
        form_bytes(seq![37u8]) == Err::<Seq<u8>, FormError>(FormError::Incomplete),
        form_bytes(seq![37u8, b]) == Err::<Seq<u8>, FormError>(FormError::Incomplete),
        forall|x: u8, y: u8|
            48 <= x <= 57 && 48 <= y <= 57 ==> #[trigger] hex_pair(x, y) == Some(
                (16 * (x - 48) + (y - 48)) as u8,
            ),
        forall|x: u8, y: u8|
            65 <= x <= 70 && 97 <= y <= 102 ==> #[trigger] hex_pair(x, y) == Some(
                (16 * (x - 55) + (y - 87)) as u8,
            ),
        forall|x: u8, y: u8|
            97 <= x <= 102 && 65 <= y <= 70 ==> #[trigger] hex_pair(x, y) == Some(
                (16 * (x - 87) + (y - 55)) as u8,
            ),
        forall|x: u8, y: u8|
            #[trigger] hex_pair(x, y) is None ==> form_bytes(seq![37u8, x, y] + rest) is Err,
        forall|x: u8, y: u8|
            #[trigger] hex_pair(x, y) matches Some(v) ==> form_bytes(seq![37u8, x, y] + rest) == Ok::<
                Seq<u8>,
                FormError,
            >(seq![v] + bytes),
{
    assert((seq![43u8] + rest).skip(1) =~= rest);
    assert((seq![b] + rest).skip(1) =~= rest);
    assert forall|x: u8, y: u8| #[trigger] hex_pair(x, y) matches Some(v) implies form_bytes(
        seq![37u8, x, y] + rest,
    ) == Ok::<Seq<u8>, FormError>(seq![hex_pair(x, y)->0] + bytes) by {
        let s = seq![37u8, x, y] + rest;
        assert(s.skip(3) =~= rest);
        assert(s[1] == x && s[2] == y);
    }
    assert forall|x: u8, y: u8| #[trigger] hex_pair(x, y) is None implies form_bytes(
        seq![37u8, x, y] + rest,
    ) is Err by {
        let s = seq![37u8, x, y] + rest;
        assert(s[0] == 37 && s[1] == x && s[2] == y);
    }
}

/// What goes wrong with a form and with a request is said in words.
pub proof fn law_errors_are_told(form: FormError, request: RequestError)
    ensures
        form.text() == match form {
            FormError::Incomplete => "incomplete URL encoding"@,
            FormError::Invalid => "invalid URL encoding"@,
            FormError::NotText => "form value is not UTF-8"@,
        },
        request.text() == match request {
            RequestError::ClosedInHead => "connection closed before headers complete"@,
            RequestError::ClosedInBody => "connection closed before request body completed"@,
            RequestError::TooLarge => "UPnP request exceeds 1 MiB"@,
            RequestError::BadLength => "invalid Content-Length"@,
            RequestError::HeadNotText => "HTTP headers are not UTF-8"@,
            RequestError::BodyNotText => "HTTP body is not UTF-8"@,
        },
{
}

} // verus!
