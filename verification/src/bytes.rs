//! Bytes, and text in UTF-8.

use vstd::prelude::*;
use vstd::utf8::{decode_utf8, encode_utf8, valid_utf8};
use crate::text::opt_view;

verus! {

/// Whether `pattern` stands in `data` at index `i`.
pub open spec fn bytes_at(data: Seq<u8>, pattern: Seq<u8>, i: int) -> bool {
    0 <= i && i + pattern.len() <= data.len() && data.subrange(i, i + pattern.len()) == pattern
}

/// The first index at which `pattern` stands in `data`, and `None` where it stands
/// nowhere.
pub open spec fn is_first_match(data: Seq<u8>, pattern: Seq<u8>, r: Option<int>) -> bool {
    match r {
        Some(i) => bytes_at(data, pattern, i) && forall|j: int|
            0 <= j < i ==> !bytes_at(data, pattern, j),
        None => forall|j: int| !bytes_at(data, pattern, j),
    }
}

/// The first index at which `pattern` stands in `data`.
pub open spec fn first_match(data: Seq<u8>, pattern: Seq<u8>) -> Option<int> {
    choose|r: Option<int>| is_first_match(data, pattern, r)
}

/// There is only one first match.
pub proof fn lemma_first_match(data: Seq<u8>, pattern: Seq<u8>, r: Option<int>)
    requires
        is_first_match(data, pattern, r),
    ensures
        first_match(data, pattern) == r,
{
    let c = first_match(data, pattern);
    assert(is_first_match(data, pattern, c));
    match (r, c) {
        (Some(i), Some(j)) => {
            if i < j {
                assert(!bytes_at(data, pattern, i));
            } else if j < i {
                assert(!bytes_at(data, pattern, j));
            }
        },
        (Some(i), None) => {
            assert(!bytes_at(data, pattern, i));
        },
        (None, Some(j)) => {
            assert(!bytes_at(data, pattern, j));
        },
        (None, None) => {},
    }
}

/// Where there is a match there is a first one.
proof fn lemma_least_match(data: Seq<u8>, pattern: Seq<u8>, i: int)
    requires
        bytes_at(data, pattern, i),
    ensures
        exists|k: int| #[trigger] is_first_match(data, pattern, Some(k)),
    decreases i,
{
    if exists|j: int| 0 <= j < i && bytes_at(data, pattern, j) {
        let j = choose|j: int| 0 <= j < i && bytes_at(data, pattern, j);
        lemma_least_match(data, pattern, j);
    } else {
        assert(is_first_match(data, pattern, Some(i)));
    }
}

/// What `first_match` finds is a first match.
pub proof fn lemma_match_found(data: Seq<u8>, pattern: Seq<u8>)
    ensures
        is_first_match(data, pattern, first_match(data, pattern)),
{
    if exists|i: int| bytes_at(data, pattern, i) {
        let i = choose|i: int| bytes_at(data, pattern, i);
        lemma_least_match(data, pattern, i);
    } else {
        assert(is_first_match(data, pattern, None));
    }
}

/// The first index at which `pattern` stands in `data`.
pub fn find_bytes(data: &[u8], pattern: &[u8]) -> (r: Option<usize>)
    ensures
        match r {
            Some(i) => first_match(data@, pattern@) == Some(i as int) && bytes_at(
                data@,
                pattern@,
                i as int,
            ),
            None => first_match(data@, pattern@) is None,
        },
{
    if pattern.len() > data.len() {
        proof {
            lemma_first_match(data@, pattern@, None);
        }
        return None;
    }
    let last: usize = data.len() - pattern.len();
    let mut i: usize = 0;
    loop
        invariant
            i <= last,
            last == data.len() - pattern.len(),
                data@.len() == data.len(),
            forall|j: int| 0 <= j < i ==> !bytes_at(data@, pattern@, j),
        decreases last - i,
    {
        let mut k: usize = 0;
        while k < pattern.len() && data[i + k] == pattern[k]
            invariant
                i <= last,
                last == data.len() - pattern.len(),
                data@.len() == data.len(),
                k <= pattern.len(),
                forall|m: int| 0 <= m < k ==> data@[i + m] == pattern@[m],
            decreases pattern.len() - k,
        {
            k += 1;
        }
        if k == pattern.len() {
            assert(data@.subrange(i as int, i + pattern@.len()) =~= pattern@);
            proof {
                lemma_first_match(data@, pattern@, Some(i as int));
            }
            return Some(i);
        }
        assert(!bytes_at(data@, pattern@, i as int)) by {
            if bytes_at(data@, pattern@, i as int) {
                assert(data@.subrange(i as int, i + pattern@.len())[k as int] == pattern@[k as int]);
            }
        }
        if i == last {
            proof {
                assert forall|j: int| !bytes_at(data@, pattern@, j) by {
                    if j > last {
                        assert(j + pattern@.len() > data@.len());
                    }
                }
                lemma_first_match(data@, pattern@, None);
            }
            return None;
        }
        i += 1;
    }
}

/// The bytes from `from` up to `to`.
pub fn bytes_between(data: &[u8], from: usize, to: usize) -> (r: Vec<u8>)
    requires
        from <= to <= data.len(),
    ensures
        r@ == data@.subrange(from as int, to as int),
{
    let mut out: Vec<u8> = Vec::new();
    let mut i: usize = from;
    while i < to
        invariant
            from <= i <= to <= data.len(),
            out@ == data@.subrange(from as int, i as int),
        decreases to - i,
    {
        out.push(data[i]);
        assert(out@ =~= data@.subrange(from as int, i + 1));
        i += 1;
    }
    out
}

/// Adds `more` at the end of `data`.
pub fn extend_bytes(data: &mut Vec<u8>, more: &[u8])
    ensures
        final(data)@ == old(data)@ + more@,
{
    let mut i: usize = 0;
    assert(data@ =~= data@ + more@.take(0));
    while i < more.len()
        invariant
            i <= more.len(),
            data@ == old(data)@ + more@.take(i as int),
        decreases more.len() - i,
    {
        data.push(more[i]);
        assert(more@.take(i + 1) =~= more@.take(i as int).push(more@[i as int]));
        assert(data@ =~= old(data)@ + more@.take(i + 1));
        i += 1;
    }
    assert(more@.take(more@.len() as int) =~= more@);
}

/// The text that bytes hold in UTF-8.
pub open spec fn utf8_value(bytes: Seq<u8>) -> Option<Seq<char>> {
    if valid_utf8(bytes) {
        Some(decode_utf8(bytes))
    } else {
        None
    }
}

/// Calls `std::str::from_utf8`: it succeeds exactly for valid UTF-8, with the
/// text that the bytes encode.
#[verifier::external_body]
fn checked_utf8(bytes: &[u8]) -> (r: Result<&str, std::str::Utf8Error>)
    ensures
        r is Ok <==> valid_utf8(bytes@),
        r matches Ok(s) ==> s@ == decode_utf8(bytes@),
{
    std::str::from_utf8(bytes)
}

/// `std::str::Utf8Error`, of which nothing is read.
#[verifier::external_type_specification]
#[verifier::external_body]
pub struct ExUtf8Error(std::str::Utf8Error);

/// The text that bytes hold in UTF-8.
pub fn utf8_text(bytes: &[u8]) -> (r: Option<String>)
    ensures
        opt_view(r) == utf8_value(bytes@),
{
    match checked_utf8(bytes) {
        Ok(s) => Some(s.to_owned()),
        Err(_) => None,
    }
}

/// The text that `String::from_utf8_lossy` makes of bytes.
pub uninterp spec fn lossy_value(bytes: Seq<u8>) -> Seq<char>;

/// Calls `String::from_utf8_lossy`. What it puts in the place of bytes that are
/// not valid UTF-8 is left to its name; valid UTF-8 it only decodes.
#[verifier::external_body]
pub(crate) fn lossy_text(bytes: &[u8]) -> (r: String)
    ensures
        r@ == lossy_value(bytes@),
        valid_utf8(bytes@) ==> r@ == decode_utf8(bytes@),
{
    String::from_utf8_lossy(bytes).into_owned()
}

/// The number of bytes of a text in UTF-8.
pub open spec fn byte_len(s: Seq<char>) -> nat {
    encode_utf8(s).len()
}

/// The number of bytes of a text in UTF-8.
pub fn byte_count(s: &str) -> (r: usize)
    ensures
        r == byte_len(s@),
{
    s.as_bytes().len()
}

} // verus!
