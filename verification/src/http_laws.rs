//! What requests and answers say to those who read them.

use vstd::prelude::*;
use vstd::utf8::{encode_utf8, encode_utf8_decode_utf8, encode_utf8_valid_utf8};
use crate::bytes::{byte_len, bytes_at, lemma_first_match};
use crate::fields::looked_up;
use crate::http::{
    before, body_end_in, fed, fed_body, head_end_mark, header_lines, header_value_in, headers_of,
    request_of, response_text, Fed, ReaderView, RequestError, ResponseView,
};
use crate::number::{decimal, uint_value};
use crate::reading::{
    head_text, header_gap, lacks, lemma_body_is_read, lemma_first_line, lemma_head_joined,
    lemma_header_behind_first, lemma_joined, lemma_lacks_joined, lemma_names_differ,
    lemma_next_header, lemma_no_headers_yet, lemma_number_is_read, lemma_trim_nothing, nameless,
    proper, rest_behind, unbroken,
};
use crate::text::{
    find_char, is_white, lemma_find_char, lemma_find_char_unique, lines_spec, lower, next_word,
    trim_spec, trim_start_spec, word_end,
};

verus! {

// ---------------------------------------------------------------------------
// Answers
// ---------------------------------------------------------------------------

/// The headers of every answer.
spec fn reply_headers(r: ResponseView) -> Seq<(Seq<char>, Seq<char>)> {
    seq![
        ("Content-Type"@, r.content_type),
        ("Content-Length"@, decimal(byte_len(r.body))),
        ("Connection"@, "close"@),
    ]
}

#[verifier::rlimit(40)]
proof fn lemma_reply_shape(r: ResponseView)
    requires
        lacks(r.status, '\n'),
        lacks(r.content_type, '\n'),
    ensures
        response_text(r) == "HTTP/1.1 "@ + r.status + seq!['\r', '\n'] + head_text(reply_headers(r)) + (header_lines(r.headers) + "\r\n"@ + r.body),
        proper(reply_headers(r)),
        lacks("HTTP/1.1 "@ + r.status, '\n'),
{
    lemma_number_is_read(byte_len(r.body), byte_len(r.body) as int);
    assert(lacks(decimal(byte_len(r.body)), '\n'));
    let e = seq!['\r', '\n'];
    let first = "HTTP/1.1 "@ + r.status;
    let tail: Seq<char> = header_lines(r.headers) + "\r\n"@ + r.body;
    let h = reply_headers(r);
    assert("\r\nContent-Type: "@ == header_gap("Content-Type"@)) by {
        reveal_strlit("\r\nContent-Type: ");
        reveal_strlit("Content-Type");
        assert("\r\nContent-Type: "@ =~= header_gap("Content-Type"@));
    }
    assert("\r\nContent-Length: "@ == header_gap("Content-Length"@)) by {
        reveal_strlit("\r\nContent-Length: ");
        reveal_strlit("Content-Length");
        assert("\r\nContent-Length: "@ =~= header_gap("Content-Length"@));
    }
    assert("\r\nConnection: close"@ == header_gap("Connection"@) + "close"@) by {
        reveal_strlit("\r\nConnection: close");
        reveal_strlit("Connection");
        reveal_strlit("close");
        assert("\r\nConnection: close"@ =~= header_gap("Connection"@) + "close"@);
    }
    let x0 = first;
    let h0 = Seq::<(Seq<char>, Seq<char>)>::empty();
    lemma_no_headers_yet(first);
    let x1 = x0 + header_gap("Content-Type"@) + r.content_type;
    let h1 = h0.push(("Content-Type"@, r.content_type));
    lemma_next_header(x0, first, h0, "Content-Type"@, r.content_type);
    let x2 = x1 + header_gap("Content-Length"@) + decimal(byte_len(r.body));
    let h2 = h1.push(("Content-Length"@, decimal(byte_len(r.body))));
    lemma_next_header(x1, first, h1, "Content-Length"@, decimal(byte_len(r.body)));
    let x3 = x2 + header_gap("Connection"@) + "close"@;
    let h3 = h2.push(("Connection"@, "close"@));
    lemma_next_header(x2, first, h2, "Connection"@, "close"@);
    assert(h3 =~= h);
    let s1 = "HTTP/1.1 "@;
    let s2 = s1 + r.status;
    let s3 = s2 + "\r\nContent-Type: "@;
    let s4 = s3 + r.content_type;
    let s5 = s4 + "\r\nContent-Length: "@;
    let s6 = s5 + decimal(byte_len(r.body));
    let s7 = s6 + "\r\nConnection: close"@;
    let f1 = "HTTP/1.1 "@;
    assert(s1 == f1);
    let f2 = f1 + r.status;
    assert(s2 == f2);
    let f3 = f2 + header_gap("Content-Type"@);
    assert(s3 == f3);
    let f4 = f3 + r.content_type;
    assert(s4 == f4);
    let f5 = f4 + header_gap("Content-Length"@);
    assert(s5 == f5);
    let f6 = f5 + decimal(byte_len(r.body));
    assert(s6 == f6);
    let f7 = f6 + header_gap("Connection"@) + "close"@;
    assert(s7 =~= f7);
    assert(f7 =~= x3);
    assert(response_text(r) == x3 + e + tail) by {
        reveal_strlit("\r\n");
        assert(s7 + "\r\n"@ + header_lines(r.headers) + "\r\n"@ + r.body =~= x3 + e + tail);
        assert("\r\nConnection: close\r\n"@ == "\r\nConnection: close"@ + "\r\n"@) by {
            reveal_strlit("\r\nConnection: close\r\n");
            reveal_strlit("\r\nConnection: close");
            reveal_strlit("\r\n");
            assert("\r\nConnection: close\r\n"@ =~= "\r\nConnection: close"@ + "\r\n"@);
        }
        lemma_joined(s6, "\r\nConnection: close"@, "\r\n"@);
        assert(response_text(r) =~= s7 + "\r\n"@ + header_lines(r.headers) + "\r\n"@ + r.body);
    }
    assert(response_text(r) == first + e + head_text(h) + tail);
    assert(proper(h)) by {
        reveal_strlit("Content-Type");
        reveal_strlit("Content-Length");
        reveal_strlit("Connection");
        reveal_strlit("close");
        assert forall|k: int| 0 <= k < h.len() implies lacks((#[trigger] h[k]).0, ':') && lacks(
            h[k].0,
            '\n',
        ) && lacks(h[k].1, '\n') by {}
    }
    assert(lacks(first, '\n')) by {
        reveal_strlit("HTTP/1.1 ");
        lemma_lacks_joined("HTTP/1.1 "@, r.status, '\n');
    }
}

#[verifier::rlimit(40)]
proof fn lemma_reply_read(r: ResponseView)
    requires
        lacks(r.status, '\n'),
        lacks(r.content_type, '\n'),
    ensures
        ({
            let lines = lines_spec(response_text(r));
            &&& lines.len() > 0 && lines[0] == "HTTP/1.1 "@ + r.status
            &&& header_value_in(lines.skip(1), "Content-Type"@) == Some(trim_spec(r.content_type))
            &&& header_value_in(lines.skip(1), "Content-Length"@) == Some(trim_spec(decimal(byte_len(r.body))))
            &&& header_value_in(lines.skip(1), "Connection"@) == Some(trim_spec("close"@))
        }),
{
    lemma_reply_shape(r);
    let first = "HTTP/1.1 "@ + r.status;
    let tail: Seq<char> = header_lines(r.headers) + "\r\n"@ + r.body;
    let h = reply_headers(r);
    lemma_first_line(first, h, tail);
    assert(nameless(h.take(0), "Content-Type"@)) by {
        reveal_strlit("Content-Type");
        assert forall|k: int| 0 <= k < h.take(0).len() implies lower((#[trigger] h.take(0)[k]).0) != lower(
            "Content-Type"@,
        ) by {
            assert(h.take(0)[k] == h[k]);
        }
    }
    lemma_header_behind_first(first, h, tail, 0, "Content-Type"@);
    assert(nameless(h.take(1), "Content-Length"@)) by {
        reveal_strlit("Content-Length");
        reveal_strlit("Content-Type");
        lemma_names_differ("Content-Type"@, "Content-Length"@, 0);
        assert forall|k: int| 0 <= k < h.take(1).len() implies lower((#[trigger] h.take(1)[k]).0) != lower(
            "Content-Length"@,
        ) by {
            assert(h.take(1)[k] == h[k]);
        }
    }
    lemma_header_behind_first(first, h, tail, 1, "Content-Length"@);
    assert(nameless(h.take(2), "Connection"@)) by {
        reveal_strlit("Connection");
        reveal_strlit("Content-Type");
        reveal_strlit("Content-Length");
        lemma_names_differ("Content-Type"@, "Connection"@, 0);
        lemma_names_differ("Content-Length"@, "Connection"@, 0);
        assert forall|k: int| 0 <= k < h.take(2).len() implies lower((#[trigger] h.take(2)[k]).0) != lower(
            "Connection"@,
        ) by {
            assert(h.take(2)[k] == h[k]);
        }
    }
    lemma_header_behind_first(first, h, tail, 2, "Connection"@);
}

/// The further headers of an answer, as lines.
proof fn lemma_header_lines(h: Seq<(Seq<char>, Seq<char>)>)
    ensures
        header_lines(h) == head_text(h),
    decreases h.len(),
{
    if h.len() > 0 {
        lemma_header_lines(h.drop_last());
        reveal_strlit(": ");
        reveal_strlit("\r\n");
        assert(header_lines(h) =~= head_text(h));
    }
}

/// All headers of an answer.
spec fn all_headers(r: ResponseView) -> Seq<(Seq<char>, Seq<char>)> {
    reply_headers(r) + r.headers
}

proof fn lemma_answer_shape(r: ResponseView)
    requires
        lacks(r.status, '\n'),
        lacks(r.content_type, '\n'),
        proper(r.headers),
    ensures
        response_text(r) == "HTTP/1.1 "@ + r.status + seq!['\r', '\n'] + head_text(all_headers(r))
            + (seq!['\r', '\n'] + r.body),
        proper(all_headers(r)),
        lacks("HTTP/1.1 "@ + r.status, '\n'),
{
    lemma_reply_shape(r);
    lemma_header_lines(r.headers);
    lemma_head_joined(reply_headers(r), r.headers);
    let all = all_headers(r);
    assert forall|k: int| 0 <= k < all.len() implies lacks((#[trigger] all[k]).0, ':') && lacks(
        all[k].0,
        '\n',
    ) && lacks(all[k].1, '\n') by {
        if k < reply_headers(r).len() {
            assert(all[k] == reply_headers(r)[k]);
        } else {
            assert(all[k] == r.headers[k - reply_headers(r).len()]);
        }
    }
    let front = "HTTP/1.1 "@ + r.status + seq!['\r', '\n'];
    let a = head_text(reply_headers(r));
    let b = head_text(r.headers);
    assert("\r\n"@ == seq!['\r', '\n']) by {
        reveal_strlit("\r\n");
        assert("\r\n"@ =~= seq!['\r', '\n']);
    }
    assert(front + a + (b + seq!['\r', '\n'] + r.body) =~= front + (a + b) + (seq!['\r', '\n']
        + r.body));
}

/// An answer, read back: its first line says the status, its headers the type and the length
/// in bytes of the body, and that the connection is closed; the body stands behind them.
pub proof fn law_answer_is_read(r: ResponseView)
    requires
        lacks(r.status, '\n'),
        lacks(r.content_type, '\n'),
        proper(r.headers),
    ensures
        ({
            let lines = lines_spec(response_text(r));
            let headers = lines.skip(1);
            &&& lines.len() > 0 && lines[0] == "HTTP/1.1 "@ + r.status
            &&& header_value_in(headers, "Content-Type"@) == Some(trim_spec(r.content_type))
            &&& header_value_in(headers, "Content-Length"@) matches Some(length) && uint_value(
                length,
                10,
                byte_len(r.body) as int,
            ) == Some(byte_len(r.body))
            &&& header_value_in(headers, "Connection"@) == Some("close"@)
        }),
        lacks(r.status, '\r') && lacks(r.content_type, '\r') && unbroken(r.headers) ==> rest_behind(
            response_text(r),
            "\r\n\r\n"@,
        ) == Some(r.body),
{
    lemma_reply_read(r);
    lemma_number_is_read(byte_len(r.body), byte_len(r.body) as int);
    assert(trim_spec("close"@) == "close"@) by {
        reveal_strlit("close");
        lemma_trim_nothing("close"@);
    }
    if lacks(r.status, '\r') && lacks(r.content_type, '\r') && unbroken(r.headers) {
        lemma_answer_shape(r);
        let h = all_headers(r);
        assert(lacks("HTTP/1.1 "@ + r.status, '\r')) by {
            reveal_strlit("HTTP/1.1 ");
            lemma_lacks_joined("HTTP/1.1 "@, r.status, '\r');
        }
        assert(unbroken(h)) by {
            assert(lacks(decimal(byte_len(r.body)), '\r'));
            reveal_strlit("Content-Type");
            reveal_strlit("Content-Length");
            reveal_strlit("Connection");
            reveal_strlit("close");
            assert forall|k: int| 0 <= k < h.len() implies lacks((#[trigger] h[k]).0, '\r')
                && lacks(h[k].1, '\r') by {
                if k < 3 {
                    assert(h[k] == reply_headers(r)[k]);
                } else {
                    assert(h[k] == r.headers[k - 3]);
                }
            }
        }
        lemma_body_is_read("HTTP/1.1 "@ + r.status, h, r.body);
    }
}

/// The further headers of an answer are read back too, each of which no other has the name of
/// before it.
pub proof fn law_further_headers_are_read(r: ResponseView, i: int)
    requires
        lacks(r.status, '\n'),
        lacks(r.content_type, '\n'),
        proper(r.headers),
        0 <= i < r.headers.len(),
        nameless(r.headers.take(i), r.headers[i].0),
        lower(r.headers[i].0) != lower("Content-Type"@),
        lower(r.headers[i].0) != lower("Content-Length"@),
        lower(r.headers[i].0) != lower("Connection"@),
    ensures
        header_value_in(lines_spec(response_text(r)).skip(1), r.headers[i].0) == Some(
            trim_spec(r.headers[i].1),
        ),
{
    lemma_answer_shape(r);
    let h = all_headers(r);
    let target = r.headers[i].0;
    assert(h[i + 3] == r.headers[i]);
    let front = h.take(i + 3);
    assert forall|k: int| 0 <= k < front.len() implies lower((#[trigger] front[k]).0) != lower(
        target,
    ) by {
        if k < 3 {
            assert(front[k] == reply_headers(r)[k]);
        } else {
            assert(front[k] == r.headers[k - 3]);
            assert(r.headers.take(i)[k - 3] == r.headers[k - 3]);
        }
    }
    lemma_header_behind_first(
        "HTTP/1.1 "@ + r.status,
        h,
        seq!['\r', '\n'] + r.body,
        i + 3,
        target,
    );
}

// ---------------------------------------------------------------------------
// Requests
// ---------------------------------------------------------------------------

/// Whether a text is one word.
pub open spec fn is_word(s: Seq<char>) -> bool {
    s.len() > 0 && forall|i: int| 0 <= i < s.len() ==> !is_white(#[trigger] s[i])
}

proof fn lemma_word_end_at(w: Seq<char>, rest: Seq<char>)
    requires
        forall|i: int| 0 <= i < w.len() ==> !is_white(#[trigger] w[i]),
        rest.len() > 0 ==> is_white(rest[0]),
    ensures
        word_end(w + rest) == w.len(),
    decreases w.len(),
{
    let s = w + rest;
    if w.len() == 0 {
        assert(s =~= rest);
    } else {
        assert(s[0] == w[0]);
        let more = w.skip(1);
        assert forall|i: int| 0 <= i < more.len() implies !is_white(#[trigger] more[i]) by {
            assert(more[i] == w[i + 1]);
        }
        lemma_word_end_at(more, rest);
        assert(s.skip(1) =~= more + rest);
    }
}

pub proof fn lemma_next_word(w: Seq<char>, rest: Seq<char>)
    requires
        is_word(w),
        rest.len() > 0 ==> is_white(rest[0]),
    ensures
        next_word(w + rest) == (w, rest),
        next_word(seq![' '] + (w + rest)) == (w, rest),
{
    let s = w + rest;
    assert(s[0] == w[0]);
    lemma_word_end_at(w, rest);
    assert(s.take(w.len() as int) =~= w);
    assert(s.skip(w.len() as int) =~= rest);
    let t = seq![' '] + s;
    assert(t.skip(1) =~= s);
    assert(trim_start_spec(t) == trim_start_spec(s));
}

/// A request, read: the first line holds the method and the address, of which what follows a
/// question mark is left out; the body is the body.
pub proof fn law_request_line_is_read(
    head: Seq<char>,
    method: Seq<char>,
    path: Seq<char>,
    query: Seq<char>,
    version: Seq<char>,
    body: Seq<char>,
)
    requires
        is_word(method),
        is_word(path),
        lacks(path, '?'),
        is_word(query),
        lines_spec(head).len() > 0,
    ensures
        lines_spec(head)[0] == method + seq![' '] + (path + (seq![' '] + version)) ==> ({
            let request = request_of(head, body);
            request.method == method && request.path == path && request.body == body
        }),
        lines_spec(head)[0] == method + seq![' '] + (path + seq!['?'] + query + (seq![' ']
            + version)) ==> ({
            let request = request_of(head, body);
            request.method == method && request.path == path && request.body == body
        }),
{
    let end = seq![' '] + version;
    let long = path + seq!['?'] + query;
    assert(is_word(long)) by {
        assert forall|i: int| 0 <= i < long.len() implies !is_white(#[trigger] long[i]) by {
            if i < path.len() {
                assert(long[i] == path[i]);
            } else if i > path.len() {
                assert(long[i] == query[i - path.len() - 1]);
            }
        }
    }
    lemma_next_word(path, end);
    lemma_next_word(long, end);
    lemma_next_word(method, seq![' '] + (path + end));
    lemma_next_word(method, seq![' '] + (long + end));
    lemma_joined(method, seq![' '], path + end);
    lemma_joined(method, seq![' '], long + end);
    lemma_find_char(path, '?', 0);
    let n = path.len() as int;
    assert forall|j: int| 0 <= j < n implies long[j] != '?' by {
        assert(long[j] == path[j]);
    }
    lemma_find_char_unique(long, '?', 0, n);
    assert(long.take(n) =~= path);
    lemma_joined(path + seq!['?'], query, end);
}

/// The name of a header as it is looked up by: in lower case, without white space round it.
pub open spec fn plain_name(name: Seq<char>) -> Seq<char> {
    lower(trim_spec(name))
}

/// The headers of a request are looked up by their names in lower case; of two headers with
/// one name the later one holds.
pub proof fn law_request_headers_are_read(
    head: Seq<char>,
    body: Seq<char>,
    i: int,
    name: Seq<char>,
    value: Seq<char>,
)
    requires
        0 < i < lines_spec(head).len(),
        lines_spec(head)[i] == name + seq![':'] + value,
        lacks(name, ':'),
        forall|k: int, n: Seq<char>, v: Seq<char>|
            i < k < lines_spec(head).len() && #[trigger] lines_spec(head)[k] == #[trigger] (n
                + seq![':'] + v) && lacks(n, ':') ==> plain_name(n) != plain_name(name),
    ensures
        looked_up(request_of(head, body).headers, plain_name(name)) == Some(trim_spec(value)),
{
    let lines = lines_spec(head).skip(1);
    assert forall|k: int, n: Seq<char>, v: Seq<char>|
        i - 1 < k < lines.len() && #[trigger] lines[k] == #[trigger] (n + seq![':'] + v) && lacks(
            n,
            ':',
        ) implies plain_name(n) != plain_name(name) by {
        assert(lines[k] == lines_spec(head)[k + 1]);
    }
    lemma_headers_of(lines, i - 1, name, value);
}

proof fn lemma_headers_of(lines: Seq<Seq<char>>, i: int, name: Seq<char>, value: Seq<char>)
    requires
        0 <= i < lines.len(),
        lines[i] == name + seq![':'] + value,
        lacks(name, ':'),
        forall|k: int, n: Seq<char>, v: Seq<char>|
            i < k < lines.len() && #[trigger] lines[k] == #[trigger] (n + seq![':'] + v) && lacks(
                n,
                ':',
            ) ==> plain_name(n) != plain_name(name),
    ensures
        looked_up(headers_of(lines), plain_name(name)) == Some(trim_spec(value)),
    decreases lines.len(),
{
    let front = lines.drop_last();
    let last = lines.last();
    if i == lines.len() - 1 {
        let n = name.len() as int;
        assert forall|j: int| 0 <= j < n implies last[j] != ':' by {
            assert(last[j] == name[j]);
        }
        lemma_find_char_unique(last, ':', 0, n);
        assert(last.take(n) =~= name);
        assert(last.skip(n + 1) =~= value);
    } else {
        assert forall|k: int, n: Seq<char>, v: Seq<char>|
            i < k < front.len() && #[trigger] front[k] == #[trigger] (n + seq![':'] + v) && lacks(
                n,
                ':',
            ) implies plain_name(n) != plain_name(name) by {
            assert(lines[k] == front[k]);
        }
        lemma_headers_of(front, i, name, value);
        lemma_find_char(last, ':', 0);
        if let Some(c) = find_char(last, ':', 0) {
            let n = last.take(c);
            let v = last.skip(c + 1);
            assert(lacks(n, ':')) by {
                assert forall|j: int| 0 <= j < n.len() implies #[trigger] n[j] != ':' by {
                    assert(n[j] == last[j]);
                }
            }
            assert(last =~= n + seq![':'] + v);
            assert(lines[lines.len() - 1] == n + seq![':'] + v);
        }
    }
}

/// The body of a request is as long as its head says, and empty where its head says nothing;
/// it begins behind the four bytes that end the head.
pub proof fn law_body_is_as_long_as_the_head_says(head: Seq<char>, head_end: int, n: nat)
    requires
        0 <= head_end,
        head_end + 4 + n <= usize::MAX,
    ensures
        header_value_in(lines_spec(head), "content-length"@) is None ==> body_end_in(head, head_end)
            == Ok::<int, RequestError>(head_end + 4),
        header_value_in(lines_spec(head), "content-length"@) == Some(decimal(n)) ==> body_end_in(
            head,
            head_end,
        ) == Ok::<int, RequestError>(head_end + 4 + n),
        forall|value: Seq<char>| #[trigger]
            uint_value(value, 10, usize::MAX as int) is None && header_value_in(
                lines_spec(head),
                "content-length"@,
            ) == Some(value) ==> body_end_in(head, head_end) == Err::<int, RequestError>(
                RequestError::BadLength,
            ),
{
    lemma_number_is_read(n, usize::MAX as int);
}

/// A request is complete once its head, the four bytes behind it and its body are there: the
/// head and the body are the texts that were sent.
pub proof fn law_request_is_complete(head: Seq<char>, body: Seq<char>, more: Seq<u8>)
    ensures
        ({
            let h = encode_utf8(head);
            let b = encode_utf8(body);
            let data = h + seq![13u8, 10u8, 13u8, 10u8] + b + more;
            let from = h.len() + 4;
            fed_body(data, h.len() as int, (from + b.len()) as int) == Fed::Complete(
                request_of(head, body),
            )
        }),
{
    let h = encode_utf8(head);
    let b = encode_utf8(body);
    let mark = seq![13u8, 10u8, 13u8, 10u8];
    let data = h + mark + b + more;
    let from = (h.len() + 4) as int;
    encode_utf8_valid_utf8(head);
    encode_utf8_decode_utf8(head);
    encode_utf8_valid_utf8(body);
    encode_utf8_decode_utf8(body);
    assert(data.take(h.len() as int) =~= h);
    assert(data.subrange(from, from + b.len()) =~= b);
}

/// A client that goes away is noticed, a request that is too large is refused, and as long as
/// bytes are missing they are waited for, with none of those that came lost.
pub proof fn law_bytes_are_taken_in(v: ReaderView, chunk: Seq<u8>)
    ensures
        chunk.len() == 0 && v.bounds is None ==> fed(v, chunk) == Fed::Failed(
            RequestError::ClosedInHead,
        ),
        chunk.len() == 0 && v.bounds is Some ==> fed(v, chunk) == Fed::Failed(
            RequestError::ClosedInBody,
        ),
        chunk.len() > 0 && v.data.len() + chunk.len() > 1048576 ==> fed(v, chunk) == Fed::Failed(
            RequestError::TooLarge,
        ),
        chunk.len() > 0 && v.data.len() + chunk.len() <= 1048576 ==> ({
            let data = v.data + chunk;
            &&& v.bounds matches Some(bounds) ==> data.len() < bounds.1 ==> fed(v, chunk)
                == Fed::More(ReaderView { data, bounds: Some(bounds) })
            &&& v.bounds matches Some(bounds) ==> data.len() >= bounds.1 ==> !(fed(v, chunk) is More)
            &&& v.bounds is None && (forall|i: int|
                !bytes_at(data, seq![13u8, 10u8, 13u8, 10u8], i)) ==> fed(v, chunk) == Fed::More(
                ReaderView { data, bounds: None },
            )
        }),
{
    let data = v.data + chunk;
    let mark = seq![13u8, 10u8, 13u8, 10u8];
    if forall|i: int| !bytes_at(data, mark, i) {
        assert(head_end_mark() == mark);
        lemma_first_match(data, mark, None);
    }
}

} // verus!
