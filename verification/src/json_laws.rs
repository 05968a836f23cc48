//! JSON strings, read back.

use vstd::prelude::*;
use crate::json::{json_char, json_chars, json_literal, low_hex};

verus! {

/// The value of a hexadecimal digit; none where it is none.
pub open spec fn hex_of(c: char) -> Option<int> {
    if '0' <= c <= '9' {
        Some(c as int - '0' as int)
    } else if 'a' <= c <= 'f' {
        Some(c as int - 'a' as int + 10)
    } else if 'A' <= c <= 'F' {
        Some(c as int - 'A' as int + 10)
    } else {
        None
    }
}

/// The character that an escape stands for, by the letter behind the backslash, where that
/// says it all.
pub open spec fn short_escape(letter: char) -> Option<char> {
    if letter == '"' || letter == '\\' || letter == '/' {
        Some(letter)
    } else if letter == 'b' {
        Some('\u{8}')
    } else if letter == 'f' {
        Some('\u{c}')
    } else if letter == 'n' {
        Some('\n')
    } else if letter == 'r' {
        Some('\r')
    } else if letter == 't' {
        Some('\t')
    } else {
        None
    }
}

/// What a JSON string says of which the opening quotation mark was read, and what follows its
/// closing one. Escapes of characters beyond U+00FF are not read.
pub open spec fn json_read(s: Seq<char>) -> Option<(Seq<char>, Seq<char>)>
    decreases s.len(),
{
    if s.len() == 0 {
        None
    } else if s[0] == '"' {
        Some((seq![], s.skip(1)))
    } else if s[0] != '\\' {
        match json_read(s.skip(1)) {
            Some((text, rest)) => Some((seq![s[0]] + text, rest)),
            None => None,
        }
    } else if s.len() < 2 {
        None
    } else {
        match short_escape(s[1]) {
            Some(c) => match json_read(s.skip(2)) {
                Some((text, rest)) => Some((seq![c] + text, rest)),
                None => None,
            },
            None => if s.len() >= 6 && s[1] == 'u' && s[2] == '0' && s[3] == '0' {
                match (hex_of(s[4]), hex_of(s[5]), json_read(s.skip(6))) {
                    (Some(x), Some(y), Some((text, rest))) => Some(
                        (seq![(16 * x + y) as char] + text, rest),
                    ),
                    _ => None,
                }
            } else {
                None
            },
        }
    }
}

/// One character of a JSON string is read as the character that it was written for.
proof fn lemma_char_is_read(c: char, more: Seq<char>)
    ensures
        json_read(json_char(c) + more) == match json_read(more) {
            Some((text, rest)) => Some((seq![c] + text, rest)),
            None => None,
        },
{
    let w = json_char(c);
    let s = w + more;
    assert(s.skip(w.len() as int) =~= more);
    if c == '"' || c == '\\' || (c as int) < 0x20 {
        assert(s[0] == '\\' && s[1] == w[1]);
        if w.len() == 6 {
            let n = c as int;
            assert(low_hex(n / 16) as int == '0' as int + n / 16);
            assert(hex_of(low_hex(n / 16)) == Some(n / 16));
            assert(hex_of(low_hex(n % 16)) == Some(n % 16));
            assert(16 * (n / 16) + n % 16 == n);
            assert(s[2] == w[2] && s[3] == w[3] && s[4] == w[4] && s[5] == w[5]);
        }
    } else {
        assert(s[0] == c);
    }
}

/// A text that was written as a JSON string is read back as that text, up to the end of the
/// string, whatever the text and whatever follows.
pub proof fn law_json_string_is_read_back(s: Seq<char>, rest: Seq<char>)
    ensures
        json_literal(s) + rest == seq!['"'] + (json_chars(s) + seq!['"'] + rest),
        json_read(json_chars(s) + seq!['"'] + rest) == Some((s, rest)),
    decreases s.len(),
{
    assert(json_literal(s) + rest =~= seq!['"'] + (json_chars(s) + seq!['"'] + rest));
    let end = seq!['"'] + rest;
    if s.len() == 0 {
        assert(json_chars(s) + seq!['"'] + rest =~= end);
        assert(end.skip(1) =~= rest);
        assert(s =~= seq![]);
    } else {
        let more = json_chars(s.skip(1)) + seq!['"'] + rest;
        law_json_string_is_read_back(s.skip(1), rest);
        lemma_char_is_read(s[0], more);
        assert(json_chars(s) + seq!['"'] + rest =~= json_char(s[0]) + more);
        assert(seq![s[0]] + s.skip(1) =~= s);
    }
}

} // verus!
