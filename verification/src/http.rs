//! HTTP requests and answers.

use vstd::prelude::*;
use vstd::string::StringExecFns;
use crate::bytes::{
    byte_count, byte_len, bytes_at, bytes_between, extend_bytes, find_bytes, first_match,
    lemma_first_match, lemma_match_found, lossy_text, lossy_value, utf8_text, utf8_value,
};
use crate::fields::{pair_views, Fields};
use crate::number::{decimal, decimal_text, parse_uint, uint_value};
use crate::text::{
    between, char_index, chars_of, find_char, lines_of, lines_spec, lower, lower_text, next_word,
    opt_view, same_ignoring_case, split_once, split_once_spec, take_word, trim_spec, trim_text,
    views,
};

verus! {

/// A request that was read.
#[derive(Debug)]
pub struct HttpRequest {
    pub method: String,
    pub path: String,
    pub headers: Fields,
    pub body: String,
}

/// A request with its texts as sequences of characters.
#[verifier::ext_equal]
pub struct RequestView {
    pub method: Seq<char>,
    pub path: Seq<char>,
    pub headers: Map<Seq<char>, Seq<char>>,
    pub body: Seq<char>,
}

impl View for HttpRequest {
    type V = RequestView;

    open spec fn view(&self) -> RequestView {
        RequestView {
            method: self.method@,
            path: self.path@,
            headers: self.headers@,
            body: self.body@,
        }
    }
}

/// An answer to a request.
#[derive(Debug)]
pub struct HttpResponse {
    pub status: &'static str,
    pub content_type: &'static str,
    pub headers: Vec<(String, String)>,
    pub body: String,
}

/// An answer with its texts as sequences of characters.
#[verifier::ext_equal]
pub struct ResponseView {
    pub status: Seq<char>,
    pub content_type: Seq<char>,
    pub headers: Seq<(Seq<char>, Seq<char>)>,
    pub body: Seq<char>,
}

impl View for HttpResponse {
    type V = ResponseView;

    open spec fn view(&self) -> ResponseView {
        ResponseView {
            status: self.status@,
            content_type: self.content_type@,
            headers: pair_views(self.headers@),
            body: self.body@,
        }
    }
}

// ---------------------------------------------------------------------------
// Request heads
// ---------------------------------------------------------------------------

/// The header in a line: its name in lower case and its value, without white
/// space round either.
pub open spec fn header_of(line: Seq<char>) -> Option<(Seq<char>, Seq<char>)> {
    match split_once_spec(line, ':') {
        Some((name, value)) => Some((lower(trim_spec(name)), trim_spec(value))),
        None => None,
    }
}

/// The headers in these lines. Lines without a colon hold none.
pub open spec fn headers_of(lines: Seq<Seq<char>>) -> Map<Seq<char>, Seq<char>>
    decreases lines.len(),
{
    if lines.len() == 0 {
        Map::empty()
    } else {
        let before = headers_of(lines.drop_last());
        match header_of(lines.last()) {
            Some((name, value)) => before.insert(name, value),
            None => before,
        }
    }
}

/// The headers in the lines from `from` up to `to`.
pub fn read_headers(lines: &Vec<String>, from: usize, to: usize) -> (r: Fields)
    requires
        from <= to <= lines.len(),
    ensures
        r@ == headers_of(views(lines@).subrange(from as int, to as int)),
{
    let mut fields = Fields::new();
    let mut i: usize = from;
    let ghost all = views(lines@);
    while i < to
        invariant
            from <= i <= to <= lines.len(),
            all == views(lines@),
            fields@ == headers_of(all.subrange(from as int, i as int)),
        decreases to - i,
    {
        assert(all.subrange(from as int, i + 1).drop_last() =~= all.subrange(
            from as int,
            i as int,
        ));
        assert(all.subrange(from as int, i + 1).last() == lines@[i as int]@);
        match split_once(&lines[i], ':') {
            Some((name, value)) => {
                fields.insert(lower_text(&trim_text(&name)), trim_text(&value));
            },
            None => {},
        }
        i += 1;
    }
    fields
}

/// The value of the first header of this name, in any case.
pub open spec fn header_value_in(lines: Seq<Seq<char>>, target: Seq<char>) -> Option<Seq<char>>
    decreases lines.len(),
{
    if lines.len() == 0 {
        None
    } else {
        match split_once_spec(lines[0], ':') {
            Some((name, value)) => if lower(name) == lower(target) {
                Some(trim_spec(value))
            } else {
                header_value_in(lines.skip(1), target)
            },
            None => header_value_in(lines.skip(1), target),
        }
    }
}

/// The value of the first header of this name, in any case.
pub fn header_value(headers: &str, target: &str) -> (r: Option<String>)
    ensures
        opt_view(r) == header_value_in(lines_spec(headers@), target@),
{
    let lines = lines_of(headers);
    let ghost all = views(lines@);
    let mut i: usize = 0;
    assert(all.skip(0) =~= all);
    while i < lines.len()
        invariant
            i <= lines.len(),
            all == views(lines@),
            all == lines_spec(headers@),
            header_value_in(all, target@) == header_value_in(all.skip(i as int), target@),
        decreases lines.len() - i,
    {
        assert(all.skip(i as int)[0] == lines@[i as int]@);
        assert(all.skip(i as int).skip(1) =~= all.skip(i + 1));
        match split_once(&lines[i], ':') {
            Some((name, value)) => {
                if same_ignoring_case(&name, target) {
                    return Some(trim_text(&value));
                }
            },
            None => {},
        }
        i += 1;
    }
    None
}

/// What stands before the first `c`; all of the text where there is none.
pub open spec fn before(s: Seq<char>, c: char) -> Seq<char> {
    match find_char(s, c, 0) {
        Some(i) => s.take(i),
        None => s,
    }
}

/// What stands before the first `c`.
pub fn text_before(s: &str, c: char) -> (r: String)
    ensures
        r@ == before(s@, c),
{
    let chars = chars_of(s);
    match char_index(&chars, c, 0) {
        Some(i) => {
            assert(chars@.subrange(0, i as int) =~= s@.take(i as int));
            between(&chars, 0, i)
        },
        None => {
            assert(chars@.subrange(0, chars@.len() as int) =~= s@);
            between(&chars, 0, chars.len())
        },
    }
}

/// The request with this head and this body. What follows a question mark in the
/// address is left out.
pub open spec fn request_of(head: Seq<char>, body: Seq<char>) -> RequestView {
    let lines = lines_spec(head);
    if lines.len() == 0 {
        RequestView { method: seq![], path: seq![], headers: Map::empty(), body }
    } else {
        let (method, rest) = next_word(lines[0]);
        RequestView {
            method,
            path: before(next_word(rest).0, '?'),
            headers: headers_of(lines.skip(1)),
            body,
        }
    }
}

/// The request with this head and this body.
pub fn make_request(head: &str, body: String) -> (r: HttpRequest)
    ensures
        r@ == request_of(head@, body@),
{
    let lines = lines_of(head);
    assert(views(lines@).len() == lines@.len());
    if lines.len() == 0 {
        return HttpRequest {
            method: String::new(),
            path: String::new(),
            headers: Fields::new(),
            body,
        };
    }
    assert(views(lines@)[0] == lines@[0]@);
    let (method, rest) = take_word(&lines[0]);
    let (target, _) = take_word(&rest);
    assert(views(lines@).subrange(1, lines@.len() as int) =~= views(lines@).skip(1));
    let headers = read_headers(&lines, 1, lines.len());
    HttpRequest { method, path: text_before(&target, '?'), headers, body }
}

// ---------------------------------------------------------------------------
// Reading a request
// ---------------------------------------------------------------------------

/// The greatest size of a request to the renderer.
pub const MAX_REQUEST_SIZE: usize = 1048576;

/// Why a request could not be read.
#[derive(Clone, Copy, Debug, PartialEq, Eq, Structural)]
pub enum RequestError {
    ClosedInHead,
    ClosedInBody,
    TooLarge,
    BadLength,
    HeadNotText,
    BodyNotText,
}

impl RequestError {
    pub open spec fn text(self) -> Seq<char> {
        match self {
            RequestError::ClosedInHead => "connection closed before headers complete"@,
            RequestError::ClosedInBody => "connection closed before request body completed"@,
            RequestError::TooLarge => "UPnP request exceeds 1 MiB"@,
            RequestError::BadLength => "invalid Content-Length"@,
            RequestError::HeadNotText => "HTTP headers are not UTF-8"@,
            RequestError::BodyNotText => "HTTP body is not UTF-8"@,
        }
    }

    pub fn message(self) -> (r: &'static str)
        ensures
            r@ == self.text(),
    {
        match self {
            RequestError::ClosedInHead => "connection closed before headers complete",
            RequestError::ClosedInBody => "connection closed before request body completed",
            RequestError::TooLarge => "UPnP request exceeds 1 MiB",
            RequestError::BadLength => "invalid Content-Length",
            RequestError::HeadNotText => "HTTP headers are not UTF-8",
            RequestError::BodyNotText => "HTTP body is not UTF-8",
        }
    }

    /// Whether the client just went away, which is not worth a message.
    pub fn is_quiet(self) -> (r: bool)
        ensures
            r == (self is ClosedInHead || self is ClosedInBody),
    {
        match self {
            RequestError::ClosedInHead => true,
            RequestError::ClosedInBody => true,
            _ => false,
        }
    }
}

/// The bytes between the head of a request and its body.
pub open spec fn head_end_mark() -> Seq<u8> {
    seq![13u8, 10u8, 13u8, 10u8]
}

/// Where the body ends of a request with this head, which ends at `head_end`.
pub open spec fn body_end_in(head: Seq<char>, head_end: int) -> Result<int, RequestError> {
    match header_value_in(lines_spec(head), "content-length"@) {
        None => Ok(head_end + 4),
        Some(value) => match uint_value(value, 10, usize::MAX as int) {
            None => Err(RequestError::BadLength),
            Some(n) => if head_end + 4 + n > usize::MAX {
                Err(RequestError::BadLength)
            } else {
                Ok(head_end + 4 + n)
            },
        },
    }
}

/// Where the body ends of a request with this head, which ends at `head_end`.
pub fn body_end(head: &str, head_end: usize) -> (r: Result<usize, RequestError>)
    requires
        head_end + 4 <= usize::MAX,
    ensures
        match r {
            Ok(end) => body_end_in(head@, head_end as int) == Ok::<int, RequestError>(end as int),
            Err(e) => body_end_in(head@, head_end as int) == Err::<int, RequestError>(e),
        },
{
    match header_value(head, "content-length") {
        None => Ok(head_end + 4),
        Some(value) => match parse_uint(&value, 10, usize::MAX as u64) {
            None => Err(RequestError::BadLength),
            Some(n) => match (head_end + 4).checked_add(n as usize) {
                Some(end) => Ok(end),
                None => Err(RequestError::BadLength),
            },
        },
    }
}

/// What was read of a request: the bytes, and once the head is complete, where
/// the head and the body end.
#[verifier::ext_equal]
pub struct ReaderView {
    pub data: Seq<u8>,
    pub bounds: Option<(int, int)>,
}

/// What becomes of a request with the next bytes.
#[verifier::ext_equal]
pub enum Fed {
    More(ReaderView),
    Complete(RequestView),
    Failed(RequestError),
}

/// What becomes of a request of which `data` was read, with its head's end at `h`
/// and its body's end at `b`.
pub open spec fn fed_body(data: Seq<u8>, h: int, b: int) -> Fed {
    if data.len() < b {
        Fed::More(ReaderView { data, bounds: Some((h, b)) })
    } else {
        match utf8_value(data.take(h)) {
            None => Fed::Failed(RequestError::HeadNotText),
            Some(head) => match utf8_value(data.subrange(h + 4, b)) {
                None => Fed::Failed(RequestError::BodyNotText),
                Some(body) => Fed::Complete(request_of(head, body)),
            },
        }
    }
}

/// What becomes of a request with the bytes `chunk`; none come where the client
/// closed the connection.
pub open spec fn fed(v: ReaderView, chunk: Seq<u8>) -> Fed {
    let data = v.data + chunk;
    if chunk.len() == 0 {
        Fed::Failed(
            if v.bounds is Some {
                RequestError::ClosedInBody
            } else {
                RequestError::ClosedInHead
            },
        )
    } else if data.len() > MAX_REQUEST_SIZE {
        Fed::Failed(RequestError::TooLarge)
    } else {
        match v.bounds {
            Some((h, b)) => fed_body(data, h, b),
            None => match first_match(data, head_end_mark()) {
                None => Fed::More(ReaderView { data, bounds: None }),
                Some(h) => match body_end_in(lossy_value(data.take(h)), h) {
                    Err(e) => Fed::Failed(e),
                    Ok(b) => if b > MAX_REQUEST_SIZE {
                        Fed::Failed(RequestError::TooLarge)
                    } else {
                        fed_body(data, h, b)
                    },
                },
            },
        }
    }
}

/// Reads a request from the bytes that come in.
pub struct RequestReader {
    data: Vec<u8>,
    bounds: Option<(usize, usize)>,
}

impl View for RequestReader {
    type V = ReaderView;

    closed spec fn view(&self) -> ReaderView {
        ReaderView {
            data: self.data@,
            bounds: match self.bounds {
                Some((h, b)) => Some((h as int, b as int)),
                None => None,
            },
        }
    }
}

/// Whether the bytes are within the limit, and the bounds are those of the bytes.
pub open spec fn reading(v: ReaderView) -> bool {
    &&& v.data.len() <= MAX_REQUEST_SIZE
    &&& match v.bounds {
        None => first_match(v.data, head_end_mark()) is None,
        Some((h, b)) => {
            &&& first_match(v.data, head_end_mark()) == Some(h)
            &&& bytes_at(v.data, head_end_mark(), h)
            &&& body_end_in(lossy_value(v.data.take(h)), h) == Ok::<int, RequestError>(b)
            &&& h + 4 <= b <= MAX_REQUEST_SIZE
            &&& v.data.len() < b
        },
    }
}

/// The view of what a reader hands out.
pub open spec fn fed_view(r: Result<Option<HttpRequest>, RequestError>, v: ReaderView) -> Fed {
    match r {
        Ok(Some(request)) => Fed::Complete(request@),
        Ok(None) => Fed::More(v),
        Err(e) => Fed::Failed(e),
    }
}

/// No mark stands in no bytes.
proof fn lemma_no_mark_in_nothing()
    ensures
        first_match(Seq::<u8>::empty(), head_end_mark()) is None,
{
    lemma_first_match(Seq::<u8>::empty(), head_end_mark(), None);
}

impl RequestReader {
    pub fn new() -> (r: Self)
        ensures
            r@ == (ReaderView { data: Seq::empty(), bounds: None }),
            reading(r@),
    {
        proof {
            lemma_no_mark_in_nothing();
        }
        RequestReader { data: Vec::new(), bounds: None }
    }

    /// Hands out the request where it is complete, with the body's end at `b`.
    fn finish(&mut self, h: usize, b: usize) -> (r: Result<Option<HttpRequest>, RequestError>)
        requires
            h + 4 <= b <= MAX_REQUEST_SIZE,
            h + 4 <= old(self)@.data.len(),
        ensures
            fed_view(r, final(self)@) == fed_body(old(self)@.data, h as int, b as int),
            final(self)@.data == old(self)@.data,
    {
        self.bounds = Some((h, b));
        if self.data.len() < b {
            return Ok(None);
        }
        assert(self.data@.subrange(0, h as int) =~= self.data@.take(h as int));
        let head = match utf8_text(&bytes_between(&self.data, 0, h)) {
            Some(head) => head,
            None => {
                return Err(RequestError::HeadNotText);
            },
        };
        match utf8_text(&bytes_between(&self.data, h + 4, b)) {
            Some(body) => Ok(Some(make_request(&head, body))),
            None => Err(RequestError::BodyNotText),
        }
    }

    /// Takes in the bytes `chunk`, which are none where the client closed the
    /// connection, and hands out the request where it is complete.
    pub fn feed(&mut self, chunk: &[u8]) -> (r: Result<Option<HttpRequest>, RequestError>)
        requires
            reading(old(self)@),
        ensures
            fed_view(r, final(self)@) == fed(old(self)@, chunk@),
            r matches Ok(None) ==> reading(final(self)@),
    {
        if chunk.len() == 0 {
            return if self.bounds.is_some() {
                Err(RequestError::ClosedInBody)
            } else {
                Err(RequestError::ClosedInHead)
            };
        }
        if chunk.len() > MAX_REQUEST_SIZE - self.data.len() {
            return Err(RequestError::TooLarge);
        }
        let ghost before = self@;
        extend_bytes(&mut self.data, chunk);
        proof {
            lemma_pieces(before, chunk@);
        }
        match self.bounds {
            Some((h, b)) => self.finish(h, b),
            None => {
                let mark: [u8; 4] = [13, 10, 13, 10];
                assert(mark@ =~= head_end_mark());
                match find_bytes(&self.data, &mark) {
                    None => Ok(None),
                    Some(h) => {
                        assert(self.data@.subrange(0, h as int) =~= self.data@.take(h as int));
                        let head = lossy_text(&bytes_between(&self.data, 0, h));
                        match body_end(&head, h) {
                            Err(e) => Err(e),
                            Ok(b) => if b > MAX_REQUEST_SIZE {
                                Err(RequestError::TooLarge)
                            } else {
                                self.finish(h, b)
                            },
                        }
                    },
                }
            },
        }
    }
}

/// The first match of a longer piece of data is that of its front, where the front
/// has one.
proof fn lemma_match_in_front(data: Seq<u8>, more: Seq<u8>, pattern: Seq<u8>, i: int)
    requires
        first_match(data, pattern) == Some(i),
    ensures
        first_match(data + more, pattern) == Some(i),
        bytes_at(data + more, pattern, i),
{
    lemma_match_found(data, pattern);
    let whole = data + more;
    assert forall|j: int| 0 <= j < i implies !bytes_at(whole, pattern, j) by {
        assert(!bytes_at(data, pattern, j));
        assert(whole.subrange(j, j + pattern.len()) =~= data.subrange(j, j + pattern.len()));
    }
    assert(whole.subrange(i, i + pattern.len()) =~= data.subrange(i, i + pattern.len()));
    lemma_first_match(whole, pattern, Some(i));
}

/// It does not matter in which pieces the bytes of a request come: where more is
/// needed after one piece, going on with the next one is the same as taking in
/// both at once.
pub proof fn law_pieces_of_a_request(v: ReaderView, a: Seq<u8>, b: Seq<u8>)
    requires
        reading(v),
        fed(v, a) is More,
        b.len() > 0,
    ensures
        fed(fed(v, a)->More_0, b) == fed(v, a + b),
        reading(fed(v, a)->More_0),
{
    let data = v.data + a;
    let w = fed(v, a)->More_0;
    assert(w.data == data);
    assert(data + b =~= v.data + (a + b));
    lemma_pieces(v, a);
    match w.bounds {
        Some((h, end)) => {
            if v.bounds is None {
                lemma_match_in_front(data, b, head_end_mark(), h);
                assert((data + b).take(h) =~= data.take(h));
            }
        },
        None => {},
    }
}

/// While more bytes are needed the bounds stay those of the bytes.
proof fn lemma_pieces(v: ReaderView, a: Seq<u8>)
    requires
        reading(v),
    ensures
        fed(v, a) matches Fed::More(w) ==> reading(w),
{
    let data = v.data + a;
    match v.bounds {
        Some((h, b)) => {
            lemma_match_in_front(v.data, a, head_end_mark(), h);
            assert(data.take(h) =~= v.data.take(h));
        },
        None => {
            if let Some(h) = first_match(data, head_end_mark()) {
                lemma_match_found(data, head_end_mark());
            }
        },
    }
}

// ---------------------------------------------------------------------------
// Answers
// ---------------------------------------------------------------------------

/// These headers as lines.
pub open spec fn header_lines(headers: Seq<(Seq<char>, Seq<char>)>) -> Seq<char>
    decreases headers.len(),
{
    if headers.len() == 0 {
        seq![]
    } else {
        header_lines(headers.drop_last()) + headers.last().0 + ": "@ + headers.last().1 + "\r\n"@
    }
}

/// An answer as it is sent.
pub open spec fn response_text(r: ResponseView) -> Seq<char> {
    "HTTP/1.1 "@ + r.status + "\r\nContent-Type: "@ + r.content_type + "\r\nContent-Length: "@
        + decimal(byte_len(r.body)) + "\r\nConnection: close\r\n"@ + header_lines(r.headers)
        + "\r\n"@ + r.body
}

/// Writes an answer as it is sent.
pub fn write_response(response: &HttpResponse) -> (r: String)
    ensures
        r@ == response_text(response@),
{
    let mut lines = String::new();
    let mut i: usize = 0;
    let ghost all = pair_views(response.headers@);
    assert(header_lines(all.take(0)) =~= seq![]);
    while i < response.headers.len()
        invariant
            i <= response.headers.len(),
            all == pair_views(response.headers@),
            lines@ == header_lines(all.take(i as int)),
        decreases response.headers.len() - i,
    {
        assert(all.take(i + 1).drop_last() =~= all.take(i as int));
        assert(all.take(i + 1).last() == (
            response.headers@[i as int].0@,
            response.headers@[i as int].1@,
        ));
        lines.append(&response.headers[i].0);
        lines.append(": ");
        lines.append(&response.headers[i].1);
        lines.append("\r\n");
        i += 1;
    }
    assert(all.take(all.len() as int) =~= all);
    let mut s = "HTTP/1.1 ".to_owned();
    s.append(response.status);
    s.append("\r\nContent-Type: ");
    s.append(response.content_type);
    s.append("\r\nContent-Length: ");
    s.append(&decimal_text(byte_count(&response.body) as u64));
    s.append("\r\nConnection: close\r\n");
    s.append(&lines);
    s.append("\r\n");
    s.append(&response.body);
    s
}

} // verus!
