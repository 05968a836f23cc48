//! Requests to the settings server, and answers as they are sent.

use vstd::prelude::*;
use vstd::string::StringExecFns;
use crate::bytes::{
    byte_count, byte_len, bytes_between, extend_bytes, find_bytes, first_match, lossy_text,
    lossy_value, utf8_text, utf8_value,
};
use crate::fields::{looked_up, Fields};
use crate::http::{head_end_mark, headers_of, read_headers};
use crate::number::{decimal, decimal_text, parse_uint, uint_value};
use crate::text::{
    between, chars_of, find_from, find_index, lemma_find_from, lines_of, lines_spec, lower,
    next_word, same_ignoring_case, same_text, split_once, split_once_spec, take_word, trim_spec,
    trim_text, views,
};

verus! {

/// The greatest size of a request to the settings server.
pub const MAX_SETTINGS_REQUEST: usize = 65536;

// ---------------------------------------------------------------------------
// Reading a request
// ---------------------------------------------------------------------------

/// The length in a line that holds the header `Content-Length` with a number.
pub open spec fn length_in(line: Seq<char>) -> Option<nat> {
    match split_once_spec(line, ':') {
        Some((name, value)) => if lower(name) == lower("content-length"@) {
            uint_value(trim_spec(value), 10, usize::MAX as int)
        } else {
            None
        },
        None => None,
    }
}

/// The first length in these lines, and none where there is none.
pub open spec fn first_length(lines: Seq<Seq<char>>) -> nat
    decreases lines.len(),
{
    if lines.len() == 0 {
        0
    } else {
        match length_in(lines[0]) {
            Some(n) => n,
            None => first_length(lines.skip(1)),
        }
    }
}

/// The length of the body that a head announces.
pub fn body_length(head: &str) -> (r: usize)
    ensures
        r == first_length(lines_spec(head@)),
{
    let lines = lines_of(head);
    let ghost all = views(lines@);
    let mut i: usize = 0;
    assert(all.skip(0) =~= all);
    while i < lines.len()
        invariant
            i <= lines.len(),
            all == views(lines@),
            all == lines_spec(head@),
            first_length(all) == first_length(all.skip(i as int)),
        decreases lines.len() - i,
    {
        assert(all.skip(i as int)[0] == lines@[i as int]@);
        assert(all.skip(i as int).skip(1) =~= all.skip(i + 1));
        match split_once(&lines[i], ':') {
            Some((name, value)) => {
                if same_ignoring_case(&name, "content-length") {
                    match parse_uint(&trim_text(&value), 10, usize::MAX as u64) {
                        Some(n) => {
                            return n as usize;
                        },
                        None => {},
                    }
                }
            },
            None => {},
        }
        i += 1;
    }
    0
}

/// Whether these bytes are a whole request: the head has ended, and the body that it
/// announces is there.
pub open spec fn is_whole(data: Seq<u8>) -> bool {
    match first_match(data, head_end_mark()) {
        Some(h) => data.len() >= h + 4 + first_length(lines_spec(lossy_value(data.take(h)))),
        None => false,
    }
}

/// Why a request to the settings server could not be read.
#[derive(Clone, Copy, Debug, PartialEq, Eq, Structural)]
pub enum SettingsRequestError {
    TooLarge,
    NotText,
}

/// What becomes of a request with the next bytes.
#[verifier::ext_equal]
pub enum SettingsFed {
    More(Seq<u8>),
    Complete(Seq<char>),
    Failed(SettingsRequestError),
}

/// What becomes of a request that has ended.
pub open spec fn ended_request(data: Seq<u8>) -> SettingsFed {
    match utf8_value(data) {
        Some(text) => SettingsFed::Complete(text),
        None => SettingsFed::Failed(SettingsRequestError::NotText),
    }
}

/// What becomes of a request with the bytes `chunk`; none come where the client closed
/// the connection, which ends the request.
pub open spec fn settings_fed(data: Seq<u8>, chunk: Seq<u8>) -> SettingsFed {
    let all = data + chunk;
    if chunk.len() == 0 {
        ended_request(data)
    } else if all.len() > MAX_SETTINGS_REQUEST {
        SettingsFed::Failed(SettingsRequestError::TooLarge)
    } else if is_whole(all) {
        ended_request(all)
    } else {
        SettingsFed::More(all)
    }
}

/// Reads a request to the settings server from the bytes that come in.
pub struct SettingsReader {
    data: Vec<u8>,
}

impl View for SettingsReader {
    type V = Seq<u8>;

    closed spec fn view(&self) -> Seq<u8> {
        self.data@
    }
}

/// The view of what a reader hands out.
pub open spec fn settings_fed_view(
    r: Result<Option<String>, SettingsRequestError>,
    data: Seq<u8>,
) -> SettingsFed {
    match r {
        Ok(Some(text)) => SettingsFed::Complete(text@),
        Ok(None) => SettingsFed::More(data),
        Err(e) => SettingsFed::Failed(e),
    }
}

impl SettingsReader {
    pub fn new() -> (r: Self)
        ensures
            r@ == Seq::<u8>::empty(),
    {
        SettingsReader { data: Vec::new() }
    }

    fn finish(&self) -> (r: Result<Option<String>, SettingsRequestError>)
        ensures
            settings_fed_view(r, self@) == ended_request(self@),
    {
        match utf8_text(&self.data) {
            Some(text) => Ok(Some(text)),
            None => Err(SettingsRequestError::NotText),
        }
    }

    /// Takes in the bytes `chunk`, which are none where the client closed the
    /// connection, and hands out the request where it is complete.
    pub fn feed(&mut self, chunk: &[u8]) -> (r: Result<Option<String>, SettingsRequestError>)
        requires
            old(self)@.len() <= MAX_SETTINGS_REQUEST,
        ensures
            settings_fed_view(r, final(self)@) == settings_fed(old(self)@, chunk@),
            final(self)@.len() <= MAX_SETTINGS_REQUEST,
    {
        if chunk.len() == 0 {
            return self.finish();
        }
        if chunk.len() > MAX_SETTINGS_REQUEST - self.data.len() {
            return Err(SettingsRequestError::TooLarge);
        }
        extend_bytes(&mut self.data, chunk);
        let mark: [u8; 4] = [13, 10, 13, 10];
        assert(mark@ =~= head_end_mark());
        match find_bytes(&self.data, &mark) {
            None => Ok(None),
            Some(h) => {
                assert(self.data@.subrange(0, h as int) =~= self.data@.take(h as int));
                let head = lossy_text(&bytes_between(&self.data, 0, h));
                if self.data.len() - (h + 4) >= body_length(&head) {
                    self.finish()
                } else {
                    Ok(None)
                }
            },
        }
    }
}

// ---------------------------------------------------------------------------
// Parts of a request
// ---------------------------------------------------------------------------

/// The number of lines from `from` on up to the first empty one.
pub open spec fn head_lines(lines: Seq<Seq<char>>, from: int) -> int
    decreases lines.len() - from,
{
    if from < 0 || from >= lines.len() || lines[from].len() == 0 {
        0
    } else {
        1 + head_lines(lines, from + 1)
    }
}

/// The headers of a request: those in the lines behind the first, up to an empty one.
pub open spec fn request_headers(request: Seq<char>) -> Map<Seq<char>, Seq<char>> {
    let lines = lines_spec(request);
    headers_of(
        if lines.len() == 0 {
            seq![]
        } else {
            lines.subrange(1, 1 + head_lines(lines, 1))
        },
    )
}

proof fn lemma_head_lines(lines: Seq<Seq<char>>, from: int, to: int)
    requires
        0 <= from <= to <= lines.len(),
        forall|i: int| from <= i < to ==> (#[trigger] lines[i]).len() > 0,
        to == lines.len() || lines[to].len() == 0,
    ensures
        head_lines(lines, from) == to - from,
    decreases to - from,
{
    if from < to {
        lemma_head_lines(lines, from + 1, to);
    }
}

/// The headers of a request.
pub fn parse_headers(request: &str) -> (r: Fields)
    ensures
        r@ == request_headers(request@),
{
    let lines = lines_of(request);
    let ghost all = views(lines@);
    if lines.len() == 0 {
        return Fields::new();
    }
    let mut to: usize = 1;
    while to < lines.len() && !lines[to].as_str().is_empty()
        invariant
            1 <= to <= lines.len(),
            all == views(lines@),
            forall|i: int| 1 <= i < to ==> (#[trigger] all[i]).len() > 0,
        decreases lines.len() - to,
    {
        assert(all[to as int] == lines@[to as int]@);
        to += 1;
    }
    proof {
        if to < lines@.len() {
            assert(all[to as int] == lines@[to as int]@);
        }
        lemma_head_lines(all, 1, to as int);
    }
    read_headers(&lines, 1, to)
}

/// The method and the address in the first line of a request.
pub open spec fn request_line(request: Seq<char>) -> (Seq<char>, Seq<char>) {
    let lines = lines_spec(request);
    let (method, rest) = next_word(
        if lines.len() > 0 {
            lines[0]
        } else {
            seq![]
        },
    );
    (method, next_word(rest).0)
}

/// The method and the address in the first line of a request.
pub fn method_and_path(request: &str) -> (r: (String, String))
    ensures
        (r.0@, r.1@) == request_line(request@),
{
    let lines = lines_of(request);
    assert(views(lines@).len() == lines@.len());
    let first = if lines.len() > 0 {
        assert(views(lines@)[0] == lines@[0]@);
        lines[0].clone()
    } else {
        String::new()
    };
    assert(first@ == if lines_spec(request@).len() > 0 {
        lines_spec(request@)[0]
    } else {
        seq![]
    });
    let (method, rest) = take_word(&first);
    let (path, _) = take_word(&rest);
    (method, path)
}

/// What follows the head of a request.
pub open spec fn request_body(request: Seq<char>) -> Seq<char> {
    match find_from(request, "\r\n\r\n"@, 0) {
        Some(i) => request.skip(i + 4),
        None => seq![],
    }
}

/// What follows the head of a request.
pub fn body_of(request: &str) -> (r: String)
    ensures
        r@ == request_body(request@),
{
    let chars = chars_of(request);
    let mark = chars_of("\r\n\r\n");
    proof {
        reveal_strlit("\r\n\r\n");
        lemma_find_from(chars@, mark@, 0);
    }
    match find_index(&chars, &mark, 0) {
        Some(i) => {
            assert(mark@.len() == 4);
            assert(i + 4 <= chars.len());
            assert(chars@.subrange(i + 4, chars@.len() as int) =~= request@.skip(i + 4));
            between(&chars, i + 4, chars.len())
        },
        None => String::new(),
    }
}

// ---------------------------------------------------------------------------
// Origins
// ---------------------------------------------------------------------------

/// Whether a request does not come from a page of another site: its origin, where it
/// tells one, is one of these, and the browser does not call it cross-site.
pub open spec fn from_origins(
    headers: Map<Seq<char>, Seq<char>>,
    own: Seq<char>,
    other: Seq<char>,
) -> bool {
    &&& match looked_up(headers, "origin"@) {
        Some(origin) => lower(origin) == lower(own) || lower(origin) == lower(other),
        None => true,
    }
    &&& match looked_up(headers, "sec-fetch-site"@) {
        Some(site) => lower(site) != lower("cross-site"@),
        None => true,
    }
}

fn is_from_origins(headers: &Fields, own: &str, other: &str) -> (r: bool)
    ensures
        r == from_origins(headers@, own@, other@),
{
    match headers.get("origin") {
        Some(origin) => {
            if !same_ignoring_case(origin, own) && !same_ignoring_case(origin, other) {
                return false;
            }
        },
        None => {},
    }
    match headers.get("sec-fetch-site") {
        Some(site) => !same_ignoring_case(site, "cross-site"),
        None => true,
    }
}

/// Whether a request to the server at `address` does not come from a page of another
/// site. The server is known by its address and as `localhost`.
pub fn same_origin(headers: &Fields, address: &str, port: u16) -> (r: bool)
    ensures
        r == from_origins(
            headers@,
            "http://"@ + address@,
            "http://localhost:"@ + decimal(port as nat),
        ),
{
    let mut own = "http://".to_owned();
    own.append(address);
    let mut localhost = "http://localhost:".to_owned();
    localhost.append(&decimal_text(port as u64));
    is_from_origins(headers, &own, &localhost)
}

/// Whether a request to the server at `address` does not come from a page of another
/// site, where the server is known by its address alone.
pub fn same_address_origin(headers: &Fields, address: &str) -> (r: bool)
    ensures
        r == from_origins(headers@, "http://"@ + address@, "http://"@ + address@),
{
    let mut own = "http://".to_owned();
    own.append(address);
    is_from_origins(headers, &own, &own)
}

// ---------------------------------------------------------------------------
// Routes
// ---------------------------------------------------------------------------

/// Where a request to the settings server leads.
#[derive(Clone, Copy, Debug, PartialEq, Eq, Structural)]
pub enum SettingsRoute {
    Page,
    History,
    Events,
    Icon,
    Favicon,
    Save,
    Health,
    NotFound,
}

/// Where a request with this method and address leads.
pub open spec fn settings_routed(method: Seq<char>, path: Seq<char>) -> SettingsRoute {
    if method == "GET"@ && path == "/"@ {
        SettingsRoute::Page
    } else if method == "GET"@ && path == "/history"@ {
        SettingsRoute::History
    } else if method == "GET"@ && path == "/events"@ {
        SettingsRoute::Events
    } else if method == "GET"@ && path == "/icon.png"@ {
        SettingsRoute::Icon
    } else if method == "GET"@ && path == "/favicon.ico"@ {
        SettingsRoute::Favicon
    } else if method == "POST"@ && path == "/settings"@ {
        SettingsRoute::Save
    } else if method == "GET"@ && path == "/health"@ {
        SettingsRoute::Health
    } else {
        SettingsRoute::NotFound
    }
}

/// Where a request with this method and address leads.
pub fn settings_route(method: &str, path: &str) -> (r: SettingsRoute)
    ensures
        r == settings_routed(method@, path@),
{
    let get = same_text(method, "GET");
    if get && same_text(path, "/") {
        SettingsRoute::Page
    } else if get && same_text(path, "/history") {
        SettingsRoute::History
    } else if get && same_text(path, "/events") {
        SettingsRoute::Events
    } else if get && same_text(path, "/icon.png") {
        SettingsRoute::Icon
    } else if get && same_text(path, "/favicon.ico") {
        SettingsRoute::Favicon
    } else if same_text(method, "POST") && same_text(path, "/settings") {
        SettingsRoute::Save
    } else if get && same_text(path, "/health") {
        SettingsRoute::Health
    } else {
        SettingsRoute::NotFound
    }
}

// ---------------------------------------------------------------------------
// Answers
// ---------------------------------------------------------------------------

/// An answer as it is sent.
pub open spec fn answer_text(
    status: Seq<char>,
    content_type: Seq<char>,
    body: Seq<char>,
) -> Seq<char> {
    "HTTP/1.1 "@ + status + "\r\nContent-Type: "@ + content_type + "\r\nContent-Length: "@
        + decimal(byte_len(body))
        + "\r\nCache-Control: no-store\r\nX-Content-Type-Options: nosniff\r\nConnection: close\r\n\r\n"@
        + body
}

/// An answer as it is sent.
pub fn respond(status: &str, content_type: &str, body: &str) -> (r: String)
    ensures
        r@ == answer_text(status@, content_type@, body@),
{
    let mut s = "HTTP/1.1 ".to_owned();
    s.append(status);
    s.append("\r\nContent-Type: ");
    s.append(content_type);
    s.append("\r\nContent-Length: ");
    s.append(&decimal_text(byte_count(body) as u64));
    s.append(
        "\r\nCache-Control: no-store\r\nX-Content-Type-Options: nosniff\r\nConnection: close\r\n\r\n",
    );
    s.append(body);
    s
}

/// The head of an answer with a body of this many bytes.
pub open spec fn bytes_head(content_type: Seq<char>, length: nat) -> Seq<char> {
    "HTTP/1.1 200 OK\r\nContent-Type: "@ + content_type + "\r\nContent-Length: "@ + decimal(length)
        + "\r\nCache-Control: no-store\r\nConnection: close\r\n\r\n"@
}

/// The head of an answer with a body of this many bytes.
pub fn respond_bytes_head(content_type: &str, length: usize) -> (r: String)
    ensures
        r@ == bytes_head(content_type@, length as nat),
{
    let mut s = "HTTP/1.1 200 OK\r\nContent-Type: ".to_owned();
    s.append(content_type);
    s.append("\r\nContent-Length: ");
    s.append(&decimal_text(length as u64));
    s.append("\r\nCache-Control: no-store\r\nConnection: close\r\n\r\n");
    s
}

/// It does not matter in which pieces the bytes of a request to the settings server
/// come: where more is needed after one piece, going on with the next one is the same as
/// taking in both at once.
pub proof fn law_pieces_of_a_settings_request(data: Seq<u8>, a: Seq<u8>, b: Seq<u8>)
    requires
        settings_fed(data, a) is More,
        b.len() > 0,
    ensures
        settings_fed(settings_fed(data, a)->More_0, b) == settings_fed(data, a + b),
{
    assert(data + a + b =~= data + (a + b));
}

} // verus!
