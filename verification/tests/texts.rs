use mini_mdr::encoding::{base64_encode, parse_form, percent_encode, url_decode, FormError};
use mini_mdr::number::{decimal_text, padded_text, parse_uint, wide_decimal_text};
use mini_mdr::text::{
    lines_of, replace_text, rsplit_once, split_once, split_text, take_word, trim_text,
};
use mini_mdr::upnp::description::device_xml;
use mini_mdr::xml::{decode_xml, escape_html, escape_xml, xml_value};

#[test]
fn percent_encodes_uri_specials() {
    assert_eq!(
        percent_encode("http://192.168.1.5:8200/MediaItems/1.mp3?x=1&y=2"),
        "http%3A%2F%2F192.168.1.5%3A8200%2FMediaItems%2F1.mp3%3Fx%3D1%26y%3D2"
    );
    assert_eq!(
        percent_encode("A song with spaces.flac"),
        "A%20song%20with%20spaces.flac"
    );
    assert_eq!(percent_encode("abc-._~09"), "abc-._~09");
}

#[test]
fn percent_encoding_survives_decoding() {
    for text in ["", "a b+c%d", "客厅 & <TV>", "\u{1f3b5}\n"] {
        assert_eq!(url_decode(&percent_encode(text)).unwrap(), text);
    }
    assert_eq!(percent_encode("é"), "%C3%A9");
}

#[test]
fn settings_server_decodes_form_values() {
    let form = parse_form("device_name=Living+Room%26TV&backend=mpv").unwrap();
    assert_eq!(form.get("device_name").unwrap(), "Living Room&TV");
}

#[test]
fn web_decodes_form_values() {
    let form = parse_form("device_name=Living+Room%26TV&backend=mpv").unwrap();
    assert_eq!(form.get("device_name").unwrap(), "Living Room&TV");
}

#[test]
fn decodes_odd_forms() {
    let form = parse_form("&a=1&&b&a=2&c=x=y").unwrap();
    assert_eq!(form.get("a").unwrap(), "2");
    assert_eq!(form.get("b").unwrap(), "");
    assert_eq!(form.get("c").unwrap(), "x=y");
    assert!(form.get("d").is_none());
    assert_eq!(url_decode("%2").unwrap_err(), FormError::Incomplete);
    assert_eq!(url_decode("a%").unwrap_err(), FormError::Incomplete);
    assert_eq!(url_decode("%zz").unwrap_err(), FormError::Invalid);
    assert_eq!(url_decode("%é").unwrap_err(), FormError::Invalid);
    assert_eq!(url_decode("%aé").unwrap_err(), FormError::NotText);
    assert_eq!(url_decode("%ff").unwrap_err(), FormError::NotText);
    assert_eq!(url_decode("%+f").unwrap(), "\u{f}");
    assert_eq!(parse_form("a=%zz&b=%2").unwrap_err(), FormError::Invalid);
    assert_eq!(FormError::Incomplete.message(), "incomplete URL encoding");
    assert_eq!(FormError::NotText.message(), "form value is not UTF-8");
}

#[test]
fn settings_server_escapes_html_values() {
    assert_eq!(escape_html("<a&\"'>"), "&lt;a&amp;&quot;&#39;&gt;");
}

#[test]
fn web_escapes_html_values() {
    assert_eq!(escape_html("<a&\"'>"), "&lt;a&amp;&quot;&#39;&gt;");
}

#[test]
fn encodes_base64() {
    assert_eq!(base64_encode(""), "");
    assert_eq!(base64_encode("f"), "Zg==");
    assert_eq!(base64_encode("fo"), "Zm8=");
    assert_eq!(base64_encode("foo"), "Zm9v");
    assert_eq!(base64_encode("foob"), "Zm9vYg==");
    assert_eq!(base64_encode(":mini-mdr-1"), "Om1pbmktbWRyLTE=");
    assert_eq!(base64_encode("??>~"), "Pz8+fg==");
}

#[test]
fn escapes_device_name_and_udn() {
    let xml = device_xml("TV & <Room>", "uuid:test&mini");
    assert!(xml.contains("TV &amp; &lt;Room&gt;"));
    assert!(xml.contains("<UDN>uuid:test&amp;mini</UDN>"));
    assert!(!xml.contains("{{UDN}}"));
    assert!(!xml.contains("{{DEVICE_NAME}}"));
}

#[test]
fn matches_exact_tag_boundaries() {
    let body = "<TrackDuration>00:01:00</TrackDuration><Track>1</Track>";
    assert_eq!(xml_value(body, "Track").as_deref(), Some("1"));
    assert_eq!(
        xml_value(body, "TrackDuration").as_deref(),
        Some("00:01:00")
    );
    assert_eq!(xml_value(body, "TrackURI"), None);
}

#[test]
fn reads_elements_with_attributes_and_white_space() {
    assert_eq!(xml_value("<a b=\"c\"> x </a>", "a").as_deref(), Some("x"));
    assert_eq!(xml_value("<a\n>1</a>", "a").as_deref(), Some("1"));
    assert_eq!(xml_value("<a>1", "a"), None);
    assert_eq!(xml_value("<a", "a"), None);
    assert_eq!(xml_value("<ab>1</ab><a>2</a>", "a").as_deref(), Some("2"));
}

#[test]
fn round_trips_xml_escaping() {
    let raw = "a<b>&\"'c";
    assert_eq!(decode_xml(&escape_xml(raw)), raw);
}

#[test]
fn decodes_references() {
    assert_eq!(decode_xml("&#60;&#x3C;&#x1F3B5;"), "<<\u{1f3b5}");
    assert_eq!(decode_xml("&#xD800;&#zz;&#"), "&#xD800;&#zz;&#");
    assert_eq!(decode_xml("&amp;lt;"), "<");
    assert_eq!(decode_xml("a&#65"), "a&#65");
    assert_eq!(escape_xml("&lt;"), "&amp;lt;");
    assert_eq!(decode_xml(&escape_xml("&lt;")), "<");
}

#[test]
fn reads_and_writes_numbers() {
    assert_eq!(parse_uint("+42", 10, 100), Some(42));
    assert_eq!(parse_uint("101", 10, 100), None);
    assert_eq!(parse_uint("18446744073709551615", 10, u64::MAX), Some(u64::MAX));
    assert_eq!(parse_uint("18446744073709551616", 10, u64::MAX), None);
    assert_eq!(parse_uint("", 10, 100), None);
    assert_eq!(parse_uint("+", 10, 100), None);
    assert_eq!(parse_uint("-1", 10, 100), None);
    assert_eq!(parse_uint("fF", 16, 255), Some(255));
    assert_eq!(decimal_text(0), "0");
    assert_eq!(decimal_text(u64::MAX), u64::MAX.to_string());
    assert_eq!(wide_decimal_text(u128::MAX), u128::MAX.to_string());
    assert_eq!(padded_text(7, 3), "007");
    assert_eq!(padded_text(1234, 3), "1234");
}

#[test]
fn cuts_texts() {
    assert_eq!(lines_of("a\r\nb\n\nc"), vec!["a", "b", "", "c"]);
    assert_eq!(lines_of("a\n"), vec!["a"]);
    assert!(lines_of("").is_empty());
    assert_eq!(split_text("a::b", ':'), vec!["a", "", "b"]);
    assert_eq!(split_once("a=b=c", '='), Some(("a".to_owned(), "b=c".to_owned())));
    assert_eq!(rsplit_once("a#b#c", '#'), Some(("a#b".to_owned(), "c".to_owned())));
    assert_eq!(rsplit_once("abc", '#'), None);
    assert_eq!(trim_text("\u{3000} a b\t"), "a b");
    assert_eq!(take_word("  GET /x "), ("GET".to_owned(), " /x ".to_owned()));
    assert_eq!(replace_text("aaa", "aa", "b"), "ba");
}
