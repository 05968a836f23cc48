use mini_mdr::app::CastStart;
use mini_mdr::config::{Config, ConfigFile};
use mini_mdr::encoding::{parse_form, percent_encode, FormError};
use mini_mdr::i18n::Language;
use mini_mdr::state::{CastState, HistoryEntry, RendererState};
use mini_mdr::web::events::{
    history_payload, open_stream, status_json, stream_step, SettingsEvent, StreamInput, StreamStep,
    EVENT_STREAM_HEAD, EVENT_STREAM_PING, PING_INTERVAL,
};
use mini_mdr::web::request::SettingsReader;
use mini_mdr::web::serve::{saved_answer, serve, Served, Site};

fn site() -> Site {
    Site {
        address: "127.0.0.1:7878".to_owned(),
        port: 7878,
        template: "{{DEVICE_NAME}} {{INDICATOR_TEXT}} {{VERSION}} {{CONFIG_DIR}}".to_owned(),
        config_dir: "/c".to_owned(),
        version: "9.9".to_owned(),
    }
}

fn test_config(udn: &str) -> Config {
    Config::for_host(Some("tv".to_owned()), udn.to_owned())
}

fn served(request: &str) -> Served {
    let state = RendererState { cast: CastState::Running, ..RendererState::default() };
    let entries = vec![HistoryEntry { timestamp: 1, uri: "u".to_owned(), title: None }];
    serve(
        request,
        &site(),
        &Some(Language::En),
        &test_config("uuid:1"),
        &state,
        &entries,
        &vec![None],
    )
}

fn answer(request: &str) -> String {
    match served(request) {
        Served::Answer(text) => text,
        other => panic!("{other:?}"),
    }
}

#[test]
fn serves_pages() {
    let page = answer("GET / HTTP/1.1\r\n\r\n");
    assert!(page.starts_with("HTTP/1.1 200 OK\r\nContent-Type: text/html; charset=utf-8\r\n"));
    assert!(page.ends_with("\r\n\r\nmini-mdr(tv) Running 9.9 /c"), "{page}");
    let history = answer("GET /history HTTP/1.1\r\n\r\n");
    assert!(history.ends_with(
        "{\"entries\":[{\"time\":\"1970-01-01 00:00:01\",\"title\":\"u\",\"uri\":\"u\"}]}"
    ));
    assert!(answer("GET /health HTTP/1.1\r\n\r\n").ends_with("\r\n\r\nok\n"));
    let missing = answer("GET /x HTTP/1.1\r\n\r\n");
    assert!(missing.starts_with("HTTP/1.1 404 Not Found\r\n"));
    assert!(missing.ends_with("\r\n\r\nNot found\n"));
    assert!(matches!(served("GET /events HTTP/1.1\r\n\r\n"), Served::Events));
    assert!(matches!(served("GET /icon.png HTTP/1.1\r\n\r\n"), Served::Icon));
    assert!(matches!(served("GET /favicon.ico HTTP/1.1\r\n\r\n"), Served::Favicon));
}

#[test]
fn saves_only_for_its_own_pages() {
    let form = "device_name=A&backend=mpv";
    let own = format!("POST /settings HTTP/1.1\r\nOrigin: http://localhost:7878\r\n\r\n{form}");
    match served(&own) {
        Served::Save(fields) => assert_eq!(fields.get("device_name").unwrap(), "A"),
        other => panic!("{other:?}"),
    }
    let other = format!("POST /settings HTTP/1.1\r\nOrigin: http://evil.example\r\n\r\n{form}");
    assert!(answer(&other).starts_with("HTTP/1.1 403 Forbidden\r\n"));
    let odd = "POST /settings HTTP/1.1\r\n\r\na=%";
    assert!(matches!(served(odd), Served::Dropped(FormError::Incomplete)));
    let saved = saved_answer(&Ok(()), Language::En);
    assert!(saved.ends_with("\r\n\r\n{\"message\":\"Settings saved\",\"ok\":true}"));
    let failed = saved_answer(&Err("x".to_owned()), Language::En);
    assert!(failed.ends_with("\r\n\r\n{\"message\":\"Saving failed: x\",\"ok\":false}"));
}

#[test]
fn form_fields_survive() {
    let (name, value) = ("a&b=", "50% + 客厅");
    let body = format!("{}={}", percent_encode(name), percent_encode(value));
    assert_eq!(parse_form(&body).unwrap().get(name).unwrap(), value);
}

#[test]
fn streams_events() {
    let opening = open_stream(true, None, "{}".to_owned());
    assert_eq!(
        opening,
        vec![
            EVENT_STREAM_HEAD,
            "event: status\ndata: {\"address\":null,\"running\":true}\n\n",
            "event: history\ndata: {}\n\n",
        ]
    );
    let mut ticks = 0;
    let event = StreamInput::Event(SettingsEvent::History("[]".to_owned()));
    match stream_step(event, &mut ticks) {
        StreamStep::Send(text) => assert_eq!(text, "event: history\ndata: []\n\n"),
        other => panic!("{other:?}"),
    }
    for _ in 1..PING_INTERVAL {
        assert!(matches!(stream_step(StreamInput::Waited, &mut ticks), StreamStep::Wait));
    }
    match stream_step(StreamInput::Waited, &mut ticks) {
        StreamStep::Send(text) => assert_eq!(text, EVENT_STREAM_PING),
        other => panic!("{other:?}"),
    }
    assert!(matches!(stream_step(StreamInput::Stopped, &mut ticks), StreamStep::End));
}

#[test]
fn loads_the_configuration() {
    let load = |file: &ConfigFile, parsed: Option<Config>| {
        let (config, save) =
            Config::load(file, parsed, test_config("uuid:d"), "uuid:f".to_owned());
        (config.device.udn, config.settings.max_history, save)
    };
    let default = ("uuid:d".to_owned(), 200);
    assert_eq!(load(&ConfigFile::Missing, None), (default.0.clone(), default.1, true));
    assert_eq!(load(&ConfigFile::Unreadable, None), (default.0.clone(), default.1, false));
    let broken = ConfigFile::Text("[device".to_owned());
    assert_eq!(load(&broken, None), (default.0, default.1, true));
    let text = ConfigFile::Text("[device]\nudn = \"uuid:p\"\n".to_owned());
    assert_eq!(load(&text, Some(test_config("uuid:p"))), ("uuid:p".to_owned(), 200, false));
    assert_eq!(load(&text, Some(test_config("p"))), ("uuid:f".to_owned(), 200, true));
    let mut large = test_config("uuid:p");
    large.settings.max_history = 20_000;
    assert_eq!(load(&text, Some(large)), ("uuid:p".to_owned(), 10_000, true));
    let nameless = ConfigFile::Text("[device]\nname = \"n\"\n".to_owned());
    assert_eq!(load(&nameless, Some(test_config("uuid:p"))), ("uuid:f".to_owned(), 200, true));
}

#[test]
fn casting_starts_step_by_step() {
    let run = |player: bool, server: bool, discovery: bool| {
        CastStart::Player.next(player).next(server).next(discovery)
    };
    assert_eq!(run(true, true, true), CastStart::Up);
    assert_eq!(run(true, true, false), CastStart::Abandoned { stop_server: true });
    assert_eq!(run(true, false, true), CastStart::Abandoned { stop_server: false });
    assert_eq!(run(false, true, true), CastStart::Abandoned { stop_server: false });
}

#[test]
fn payloads_are_one_line() {
    let entry = HistoryEntry {
        timestamp: 1,
        uri: "u\n\n".to_owned(),
        title: Some("event: x\r\n".to_owned()),
    };
    let payload = history_payload(&vec![entry], &vec![None], 5);
    assert!(!payload.contains('\n'));
    assert!(!status_json(true, &Some("a\nb".to_owned())).contains('\n'));
}

#[test]
fn settings_requests_come_in_pieces() {
    let whole = b"POST /settings HTTP/1.1\r\nContent-Length: 3\r\n\r\na=b";
    let mut at_once = SettingsReader::new();
    let expected = at_once.feed(whole).unwrap();
    for cut in 1..whole.len() {
        let mut reader = SettingsReader::new();
        assert_eq!(reader.feed(&whole[..cut]).unwrap(), None);
        assert_eq!(reader.feed(&whole[cut..]).unwrap(), expected);
    }
}
