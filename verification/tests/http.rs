use mini_mdr::bytes::{find_bytes, utf8_text};
use mini_mdr::fields::Fields;
use mini_mdr::http::{
    header_value, write_response, HttpResponse, RequestError, RequestReader, MAX_REQUEST_SIZE,
};

fn read_in(pieces: &[&[u8]]) -> Result<Option<mini_mdr::http::HttpRequest>, RequestError> {
    let mut reader = RequestReader::new();
    for piece in pieces {
        if let Some(request) = reader.feed(piece)? {
            return Ok(Some(request));
        }
    }
    Ok(None)
}

#[test]
fn reads_a_request_in_pieces() {
    let whole = b"POST /a?b=c HTTP/1.1\r\nHost: x\r\nContent-LENGTH: 5\r\nX: 1\r\nx: 2\r\n\r\nhello rest";
    for cut in 1..whole.len() - 5 {
        let request = read_in(&[&whole[..cut], &whole[cut..]]).unwrap().unwrap();
        assert_eq!(request.method, "POST");
        assert_eq!(request.path, "/a");
        assert_eq!(request.headers.get("host").unwrap(), "x");
        assert_eq!(request.headers.get("x").unwrap(), "2");
        assert!(request.headers.get("Host").is_none());
        assert_eq!(request.body, "hello");
    }
}

#[test]
fn waits_for_more() {
    assert!(read_in(&[b"GET / HTTP/1.1\r\n"]).unwrap().is_none());
    assert!(read_in(&[b"GET / HTTP/1.1\r\nContent-Length: 3\r\n\r\nab"]).unwrap().is_none());
    let empty = read_in(&[b"\r\n\r\n"]).unwrap().unwrap();
    assert_eq!((empty.method.as_str(), empty.path.as_str()), ("", ""));
}

#[test]
fn refuses_requests_that_cannot_be_read() {
    let failed = |pieces: &[&[u8]]| read_in(pieces).unwrap_err();
    assert_eq!(failed(&[b""]), RequestError::ClosedInHead);
    assert_eq!(failed(&[b"GET", b""]), RequestError::ClosedInHead);
    assert_eq!(failed(&[b"G / H\r\nContent-Length: 3\r\n\r\nab", b""]), RequestError::ClosedInBody);
    assert_eq!(failed(&[b"G / H\r\nContent-Length: x\r\n\r\n"]), RequestError::BadLength);
    assert_eq!(
        failed(&[b"G / H\r\nContent-Length: 18446744073709551615\r\n\r\n"]),
        RequestError::BadLength
    );
    assert_eq!(failed(&[b"G / H\r\nContent-Length: 1048576\r\n\r\n"]), RequestError::TooLarge);
    assert_eq!(failed(&[&vec![b'a'; MAX_REQUEST_SIZE + 1]]), RequestError::TooLarge);
    assert_eq!(failed(&[b"G /\xff H\r\n\r\n"]), RequestError::HeadNotText);
    assert_eq!(
        failed(&[b"G / H\r\nContent-Length: 1\r\n\r\n\xff"]),
        RequestError::BodyNotText
    );
    assert!(RequestError::ClosedInBody.is_quiet());
    assert!(!RequestError::TooLarge.is_quiet());
    assert_eq!(RequestError::TooLarge.message(), "UPnP request exceeds 1 MiB");
    assert_eq!(RequestError::ClosedInHead.message(), "connection closed before headers complete");
}

#[test]
fn looks_past_what_is_no_text_for_the_length() {
    let odd = b"G / H\r\nX: \xff\r\nContent-Length: 4\r\n\r\nabcd";
    assert_eq!(read_in(&[odd]).unwrap_err(), RequestError::HeadNotText);
    let short = b"G / H\r\nX: \xff\r\nContent-Length: 4\r\n\r\nabc";
    assert!(read_in(&[short]).unwrap().is_none());
}

#[test]
fn finds_headers_and_bytes() {
    assert_eq!(header_value("a: 1\r\nST:  x \r\nst: y", "St").as_deref(), Some("x"));
    assert_eq!(header_value("a: 1", "b"), None);
    assert_eq!(find_bytes(b"abcabc", b"ca"), Some(2));
    assert_eq!(find_bytes(b"abc", b"abcd"), None);
    assert_eq!(find_bytes(b"abc", b""), Some(0));
    assert_eq!(find_bytes(b"aab", b"ab"), Some(1));
    assert_eq!(utf8_text("é".as_bytes()).as_deref(), Some("é"));
    assert_eq!(utf8_text(&[0xc3]), None);
}

#[test]
fn keeps_the_last_of_equal_names() {
    let mut fields = Fields::new();
    fields.insert("a".to_owned(), "1".to_owned());
    fields.insert("b".to_owned(), "2".to_owned());
    fields.insert("a".to_owned(), "3".to_owned());
    assert_eq!(fields.get("a").unwrap(), "3");
    assert_eq!(fields.value("b").unwrap(), "2");
    assert!(fields.value("c").is_none());
}

#[test]
fn writes_a_response() {
    let response = HttpResponse {
        status: "200 OK",
        content_type: "text/plain",
        headers: vec![("SID".to_owned(), "s".to_owned()), ("EXT".to_owned(), String::new())],
        body: "é".to_owned(),
    };
    assert_eq!(
        write_response(&response),
        "HTTP/1.1 200 OK\r\nContent-Type: text/plain\r\nContent-Length: 2\r\nConnection: close\r\n\
         SID: s\r\nEXT: \r\n\r\né"
    );
}
