use mini_mdr::app::{service_url, App, AppStep, Command};
use mini_mdr::autostart::{desktop_contents, names_executable, plist_contents, registry_value};
use mini_mdr::clock::LocalTime;
use mini_mdr::config::{
    file_has_udn, history_limit, name_at, new_udn, normalize_max_history, valid_udn, Config,
    DEFAULT_MAX_HISTORY, MAX_HISTORY_LIMIT,
};
use mini_mdr::fields::Fields;
use mini_mdr::i18n::{
    detect, lang, language_from_code, languages, resolve_language, set_lang, t, t_args,
    text_or_key, Language,
};
use mini_mdr::log::{log_line, log_now, needs_rotation, rotate, ROTATE_KEEP};
use mini_mdr::state::{CastState, HistoryEntry, Span, TransportState};
use mini_mdr::tray::{
    menu, notify_due, on_click, refresh_menu, set_casting, MenuEntry, TrayAction, TrayState,
};
use mini_mdr::web::events::{
    count_wait, event_message_text, history_payload, publish_history, publish_status, status_json,
    stream_text, EventHub, SettingsEvent, PING_INTERVAL,
};
use mini_mdr::web::page::{
    bad_request_answer, cross_origin_answer, language_options, mpv_settings_page, not_found_answer,
    render, settings_page,
};
use mini_mdr::web::request::{
    body_of, method_and_path, parse_headers, respond, respond_bytes_head, same_address_origin,
    same_origin, settings_route, SettingsReader, SettingsRequestError, SettingsRoute,
};
use mini_mdr::web::settings::{saved_json, update_config, update_mpv_config};
use mini_mdr::web::template::INDEX_HTML;

fn fields(pairs: &[(&str, &str)]) -> Fields {
    let mut fields = Fields::new();
    for (name, value) in pairs {
        fields.insert((*name).to_owned(), (*value).to_owned());
    }
    fields
}

fn pairs(list: &[(&str, &str)]) -> Vec<(String, String)> {
    list.iter().map(|(k, v)| ((*k).to_owned(), (*v).to_owned())).collect()
}

fn test_config() -> Config {
    Config::for_host(Some("laptop".to_owned()), "uuid:1".to_owned())
}

#[test]
fn normalizes_max_history_range() {
    assert_eq!(normalize_max_history(0), 1);
    assert_eq!(normalize_max_history(1), 1);
    assert_eq!(
        normalize_max_history(DEFAULT_MAX_HISTORY),
        DEFAULT_MAX_HISTORY
    );
    assert_eq!(normalize_max_history(MAX_HISTORY_LIMIT), MAX_HISTORY_LIMIT);
    assert_eq!(
        normalize_max_history(MAX_HISTORY_LIMIT + 1),
        MAX_HISTORY_LIMIT
    );
    assert_eq!(history_limit(Some(0)), 1);
    assert_eq!(history_limit(None), 200);
}

#[test]
fn default_configuration() {
    let config = test_config();
    assert_eq!(config.device.name, "mini-mdr(laptop)");
    assert_eq!(config.player.backend, "mpv");
    assert_eq!(config.player.mpv_path, "mpv");
    assert_eq!(config.player.vlc_path, "vlc");
    assert_eq!(config.settings.port, 7878);
    assert_eq!(config.settings.max_history, 200);
    assert_eq!(config.settings.language, "");
    let nameless = Config::for_host(None, String::new());
    assert_eq!(nameless.device.name, "mini-mdr(localhost)");
}

#[test]
fn names_devices() {
    assert!(valid_udn("uuid:a-B:9"));
    assert!(!valid_udn("uuid:"));
    assert!(!valid_udn("uuid:a b"));
    assert!(!valid_udn("mini-mdr"));
    assert!(!valid_udn("uuid:é"));
    assert_eq!(name_at(42, Span { secs: 1, nanos: 5 }), "uuid:mini-mdr-42-1000000005");
    let fresh = new_udn(7);
    assert!(fresh.starts_with("uuid:mini-mdr-7-1"));
    assert!(valid_udn(&fresh));
}

#[test]
fn brings_loaded_configurations_into_range() {
    assert!(file_has_udn("[device]\nname = \"a\"\nudn = \"uuid:x\"\n"));
    assert!(!file_has_udn("[device]\nname = \"a\"\n"));
    assert!(!file_has_udn("udn = 1"));
    assert!(!file_has_udn("no toml"));
    let mut fine = test_config();
    assert!(!fine.normalize(true, "uuid:2".to_owned()));
    assert_eq!(fine.device.udn, "uuid:1");
    let mut odd = test_config();
    odd.settings.max_history = 0;
    odd.device.udn = "x".to_owned();
    assert!(odd.normalize(true, "uuid:2".to_owned()));
    assert_eq!((odd.device.udn.as_str(), odd.settings.max_history), ("uuid:2", 1));
    assert!(!odd.normalize(true, "uuid:3".to_owned()));
    let mut missing = test_config();
    assert!(missing.normalize(false, "uuid:2".to_owned()));
    assert_eq!(missing.device.udn, "uuid:2");
}

#[test]
fn history_keeps_the_last_entries() {
    let entry = |n: u64| HistoryEntry { timestamp: n, uri: format!("u{n}"), title: None };
    let mut entries = Vec::new();
    for n in 0..5 {
        entries = Config::append_history(entries, entry(n), 3);
    }
    let kept: Vec<u64> = entries.iter().map(|e| e.timestamp).collect();
    assert_eq!(kept, vec![2, 3, 4]);
    assert!(Config::append_history(entries, entry(9), 0).is_empty());
}

#[test]
fn entries_show_their_time() {
    let entry = HistoryEntry { timestamp: 951_827_696, uri: "u".to_owned(), title: None };
    assert_eq!(entry.time_str(None), "2000-02-29 12:34:56");
    let local = LocalTime { year: 2000, month: 2, day: 29, hour: 13, minute: 34, second: 56 };
    assert_eq!(entry.time_str(Some(local)), "2000-02-29 13:34:56");
    let late = HistoryEntry { timestamp: 253_402_300_800, uri: "u".to_owned(), title: None };
    assert_eq!(late.time_str(None), "253402300800");
}

#[test]
fn settings_server_rejects_cross_origin_requests() {
    let address = "127.0.0.1:7878";
    let expected = format!("http://{address}");
    assert!(same_address_origin(&fields(&[]), address));
    assert!(same_address_origin(&fields(&[("origin", &expected)]), address));
    assert!(!same_address_origin(&fields(&[("origin", "http://evil.example")]), address));
    assert!(!same_address_origin(&fields(&[("sec-fetch-site", "cross-site")]), address));
}

#[test]
fn web_rejects_cross_origin_requests() {
    let address = "127.0.0.1:7878";
    let expected = format!("http://{address}");
    let localhost = format!("http://localhost:{}", 7878);
    let from = |pairs: &[(&str, &str)]| same_origin(&fields(pairs), address, 7878);
    assert!(from(&[]));
    assert!(from(&[("origin", &expected)]));
    assert!(from(&[("origin", &localhost)]));
    assert!(!from(&[("origin", "http://evil.example")]));
    assert!(!from(&[("sec-fetch-site", "cross-site")]));
    assert!(from(&[("sec-fetch-site", "same-origin")]));
    assert!(from(&[("sec-fetch-site", "none")]));
    assert!(from(&[("origin", "HTTP://LOCALHOST:7878")]));
}

#[test]
fn settings_server_render_replaces_and_escapes() {
    let out = render("a={{X}} b={{Y}}", &pairs(&[("X", "<i>"), ("Y", "ok")]));
    assert_eq!(out, "a=&lt;i&gt; b=ok");
}

#[test]
fn web_render_replaces_and_escapes() {
    let out = render("a={{X}} b={{Y}}", &pairs(&[("X", "<i>"), ("Y", "ok")]));
    assert_eq!(out, "a=&lt;i&gt; b=ok");
}

#[test]
fn subscription_removed_on_drop() {
    let mut hub = EventHub::new();
    let subscription = hub.subscribe();
    assert_eq!(hub.len(), 1);
    hub.unsubscribe(subscription);
    assert_eq!(hub.len(), 0);
}

#[test]
fn tells_every_page() {
    let mut hub = EventHub::new();
    assert!(hub.has_numbers());
    let first = hub.subscribe();
    let second = hub.subscribe();
    assert_ne!(first, second);
    publish_status(&mut hub, true, Some("http://a".to_owned()));
    publish_history(&mut hub, "{}".to_owned());
    hub.unsubscribe(first);
    assert!(hub.next_event(first).is_none());
    let status = hub.next_event(second).unwrap();
    assert_eq!(
        stream_text(&status),
        "event: status\ndata: {\"address\":\"http://a\",\"running\":true}\n\n"
    );
    let history = hub.next_event(second).unwrap();
    assert!(matches!(&history, SettingsEvent::History(payload) if payload == "{}"));
    assert_eq!(stream_text(&history), event_message_text("history", "{}"));
    assert!(hub.next_event(second).is_none());
    assert_eq!(status_json(false, &None), "{\"address\":null,\"running\":false}");
}

#[test]
fn pings_every_thirtieth_wait() {
    let mut ticks = 0;
    let pings = (0..2 * PING_INTERVAL).filter(|_| count_wait(&mut ticks)).count();
    assert_eq!(pings, 2);
}

#[test]
fn shows_the_last_of_the_history_first() {
    let entry = |n: u64, title: Option<&str>| HistoryEntry {
        timestamp: n,
        uri: format!("u{n}"),
        title: title.map(str::to_owned),
    };
    let entries = vec![entry(0, None), entry(1, Some("T\"1")), entry(2, None)];
    let local = vec![None, None, None];
    assert_eq!(
        history_payload(&entries, &local, 2),
        "{\"entries\":[{\"time\":\"1970-01-01 00:00:02\",\"title\":\"u2\",\"uri\":\"u2\"},\
         {\"time\":\"1970-01-01 00:00:01\",\"title\":\"T\\\"1\",\"uri\":\"u1\"}]}"
    );
    assert!(history_payload(&entries, &local, 0).contains("u2"));
    assert!(!history_payload(&entries, &local, 0).contains("u1"));
    assert_eq!(history_payload(&Vec::new(), &Vec::new(), 5), "{\"entries\":[]}");
    let value: serde_json::Value =
        serde_json::from_str(&history_payload(&entries, &local, 9)).unwrap();
    assert_eq!(value["entries"][2]["title"], "u0");
}

#[test]
fn saves_settings_that_are_fine() {
    let form = fields(&[
        ("device_name", " Living Room "),
        ("backend", "vlc"),
        ("mpv_path", ""),
        ("vlc_path", "/usr/bin/vlc"),
        ("max_history", "20000"),
        ("language", "zh-CN"),
    ]);
    let mut config = test_config();
    assert!(update_config(&mut config, &form, Language::En).is_ok());
    assert_eq!(config.device.name, "Living Room");
    assert_eq!(config.player.backend, "vlc");
    assert_eq!(config.player.vlc_path, "/usr/bin/vlc");
    assert_eq!(config.settings.max_history, 10_000);
    assert_eq!(config.settings.language, "zh-CN");
    assert_eq!(config.device.udn, "uuid:1");
}

#[test]
fn refuses_settings_that_are_not() {
    let fine = [("device_name", "a"), ("backend", "mpv"), ("mpv_path", "mpv")];
    let with = |name: &str, value: &str| {
        let mut form = fields(&fine);
        form.insert(name.to_owned(), value.to_owned());
        let mut config = test_config();
        let result = update_config(&mut config, &form, Language::En);
        assert_eq!(config.device.name == "mini-mdr(laptop)", result.is_err());
        result.err()
    };
    assert_eq!(with("max_history", "x"), None);
    let text = |key: &str| Some(t(Language::En, key));
    assert_eq!(with("language", "fr"), text("error-language-invalid"));
    assert_eq!(with("device_name", "  "), text("error-name-length"));
    assert_eq!(with("device_name", &"é".repeat(65)), text("error-name-length"));
    assert_eq!(with("device_name", &"é".repeat(64)), None);
    assert_eq!(with("device_name", "a\u{7}b"), text("error-name-control"));
    assert_eq!(with("backend", "gst"), text("error-unsupported-backend"));
    assert_eq!(with("backend", "vlc"), text("error-player-path-empty"));
    assert_eq!(with("mpv_path", " "), text("error-player-path-empty"));
}

#[test]
fn mpv_only_settings() {
    let mut config = test_config();
    let mut form = fields(&[
        ("device_name", "a"),
        ("backend", "mpv"),
        ("mpv_path", "m"),
        ("max_history", "0"),
    ]);
    assert!(update_mpv_config(&mut config, &form, Language::En).is_ok());
    assert_eq!((config.player.mpv_path.as_str(), config.settings.max_history), ("m", 0));
    form.insert("max_history".to_owned(), "99999".to_owned());
    assert!(update_mpv_config(&mut config, &form, Language::En).is_ok());
    assert_eq!(config.settings.max_history, 10_000);
    form.insert("mpv_path".to_owned(), String::new());
    let empty = update_mpv_config(&mut config, &form, Language::En).unwrap_err();
    assert_eq!(empty, t(Language::En, "error-mpv-path-empty"));
    form.insert("backend".to_owned(), "vlc".to_owned());
    let other = update_mpv_config(&mut config, &form, Language::Zh).unwrap_err();
    assert_eq!(other, "仅支持 mpv 播放器");
}

#[test]
fn answers_a_saved_form() {
    assert_eq!(
        saved_json(&Ok(()), Language::En),
        "{\"message\":\"Settings saved\",\"ok\":true}"
    );
    assert_eq!(
        saved_json(&Err("\"x\"".to_owned()), Language::En),
        "{\"message\":\"Saving failed: \\\"x\\\"\",\"ok\":false}"
    );
}

#[test]
fn reads_settings_requests() {
    let whole = b"POST /settings HTTP/1.1\r\nA: 1\r\ncontent-length: x\r\nContent-Length: 3\r\n\r\na=b";
    for cut in 1..whole.len() {
        let mut reader = SettingsReader::new();
        assert_eq!(reader.feed(&whole[..cut]).unwrap(), None);
        let request = reader.feed(&whole[cut..]).unwrap().unwrap();
        assert_eq!(method_and_path(&request), ("POST".to_owned(), "/settings".to_owned()));
        assert_eq!(parse_headers(&request).get("a").unwrap(), "1");
        assert_eq!(body_of(&request), "a=b");
    }
    let mut closed = SettingsReader::new();
    assert_eq!(closed.feed(b"GET / HTTP/1.1").unwrap(), None);
    assert_eq!(closed.feed(b"").unwrap().unwrap(), "GET / HTTP/1.1");
    let mut large = SettingsReader::new();
    assert_eq!(large.feed(&vec![b'a'; 65_537]).unwrap_err(), SettingsRequestError::TooLarge);
    let mut odd = SettingsReader::new();
    assert_eq!(odd.feed(b"\xff\r\n\r\n").unwrap_err(), SettingsRequestError::NotText);
    assert!(parse_headers("GET /\r\nA: 1\r\n\r\nB: 2").get("b").is_none());
    assert_eq!(body_of("GET /"), "");
}

#[test]
fn routes_settings_requests() {
    assert_eq!(settings_route("GET", "/"), SettingsRoute::Page);
    assert_eq!(settings_route("GET", "/history"), SettingsRoute::History);
    assert_eq!(settings_route("GET", "/events"), SettingsRoute::Events);
    assert_eq!(settings_route("GET", "/icon.png"), SettingsRoute::Icon);
    assert_eq!(settings_route("GET", "/favicon.ico"), SettingsRoute::Favicon);
    assert_eq!(settings_route("POST", "/settings"), SettingsRoute::Save);
    assert_eq!(settings_route("GET", "/health"), SettingsRoute::Health);
    assert_eq!(settings_route("POST", "/"), SettingsRoute::NotFound);
    assert_eq!(
        respond("200 OK", "text/plain", "é"),
        "HTTP/1.1 200 OK\r\nContent-Type: text/plain\r\nContent-Length: 2\r\n\
         Cache-Control: no-store\r\nX-Content-Type-Options: nosniff\r\nConnection: close\r\n\r\né"
    );
    assert_eq!(
        respond_bytes_head("image/png", 5),
        "HTTP/1.1 200 OK\r\nContent-Type: image/png\r\nContent-Length: 5\r\n\
         Cache-Control: no-store\r\nConnection: close\r\n\r\n"
    );
    assert!(cross_origin_answer(Language::En).starts_with("HTTP/1.1 403 Forbidden\r\n"));
    assert!(not_found_answer(Language::En).ends_with("\r\n\r\nNot found\n"));
    assert!(bad_request_answer().starts_with("HTTP/1.1 400 Bad Request\r\n"));
}

#[test]
fn fills_in_the_page() {
    let mut config = test_config();
    config.device.name = "<TV>".to_owned();
    config.settings.language = "en".to_owned();
    let page = settings_page(INDEX_HTML, Language::En, &config, true, "/home/c", "1.2.3");
    assert!(!page.contains("{{"));
    assert!(page.contains("value=\"&lt;TV&gt;\""));
    assert!(page.contains("<option value=\"mpv\" selected>mpv</option>"));
    assert!(page.contains("<option value=\"en\" selected>English</option>"));
    assert!(page.contains("background: #22c55e"));
    assert!(page.contains("<dd>1.2.3</dd>"));
    let chinese = settings_page("{{HTML_LANG}} {{TAB_ABOUT}}", Language::Zh, &config, false, "", "");
    assert_eq!(chinese, "zh-CN 关于");
    let old = mpv_settings_page("{{LANGUAGE_OPTIONS}}", Language::En, &config, false, "1");
    assert!(old.starts_with("&lt;option value="));
    assert_eq!(
        language_options(Language::En, ""),
        "<option value=\"\" selected>System language</option>\
         <option value=\"en\">English</option><option value=\"zh-CN\">中文</option>"
    );
}

#[test]
fn speaks_languages() {
    assert_eq!(language_from_code("zh-CN"), Some(Language::Zh));
    assert_eq!(language_from_code("zh"), None);
    let mut current = None;
    assert_eq!(lang(&current), Language::En);
    set_lang(&mut current, Language::Zh);
    assert_eq!(lang(&current), Language::Zh);
    assert_eq!(resolve_language("", &current), Language::Zh);
    assert_eq!(resolve_language("en", &current), Language::En);
    assert_eq!(resolve_language("xx", &current), Language::Zh);
    assert_eq!(languages().len(), 2);
    assert_eq!(t(Language::En, "tray-quit"), "Quit");
    assert_eq!(t(Language::Zh, "tray-quit"), "退出");
    assert_eq!(t(Language::En, "no-such-key"), "no-such-key");
    let args = pairs(&[("name", "x")]);
    assert_eq!(t_args(Language::En, "tray-more", &args), "More");
    assert_eq!(text_or_key(None, "k"), "k");
    assert_eq!(text_or_key(Some("v".to_owned()), "k"), "v");
}

#[test]
fn both_languages_have_all_texts() {
    for line in Language::En.ftl().lines() {
        let key = line.split(" =").next().unwrap();
        assert_ne!(t(Language::En, key), key, "{key}");
        assert_ne!(t(Language::Zh, key), key, "{key}");
    }
}

#[test]
fn detects_the_language_of_the_system() {
    let values = |list: &[Option<&str>]| -> Vec<Option<String>> {
        list.iter().map(|v| v.map(str::to_owned)).collect()
    };
    assert_eq!(detect(&values(&[None, Some("ZH_cn.UTF-8"), Some("en")])), Language::Zh);
    assert_eq!(detect(&values(&[Some(""), Some("C"), Some("POSIX"), Some("zh")])), Language::Zh);
    assert_eq!(detect(&values(&[Some("de"), Some("zh")])), Language::En);
    assert_eq!(detect(&values(&[None, None, None, None])), Language::En);
}

#[test]
fn starts_and_stops_casting() {
    let mut app = App::new(test_config());
    assert_eq!(app.state.cast, CastState::Stopped);
    assert_eq!(app.handle(Command::ToggleCast), AppStep::StartCast);
    assert_eq!(app.handle(Command::OpenSettings), AppStep::StartAndOpenSettings);
    assert_eq!(app.handle(Command::Quit), AppStep::ShutDown);
    app.cast_started(Some(service_url("10.0.0.1", 80)));
    assert_eq!(app.state.cast, CastState::Running);
    assert_eq!(app.state.upnp_address.as_deref(), Some("http://10.0.0.1:80"));
    assert_eq!(app.handle(Command::ToggleCast), AppStep::StopCast);
    app.state.uri = Some("u".to_owned());
    app.state.position = Span::from_secs(9);
    app.cast_stopped();
    assert_eq!(app.state.cast, CastState::Stopped);
    assert_eq!(app.state.transport, TransportState::Stopped);
    assert_eq!(app.state.position, Span::zero());
    assert_eq!(app.state.uri.as_deref(), Some("u"));
    app.settings_started();
    assert_eq!(app.handle(Command::OpenSettings), AppStep::OpenSettings);
    app.settings_stopped();
    assert!(!app.serving);
}

#[test]
fn shows_the_tray_menu() {
    let entries = menu(true, Language::En);
    assert_eq!(entries.len(), 4);
    assert!(matches!(
        &entries[0],
        MenuEntry::Checkbox { button, checked: true } if button.id == 1 && button.label == "Cast"
    ));
    assert!(matches!(
        &entries[2],
        MenuEntry::Submenu { label, first, second }
            if label == "More" && first.id == 2 && second.label == "Open Directory"
    ));
    assert!(matches!(&entries[3], MenuEntry::Button(button) if button.id == 4));
    let mut tray = TrayState { shown: false, casting: true };
    assert!(refresh_menu(&tray, Language::En).is_none());
    tray.shown = true;
    let shown = set_casting(&mut tray, false, Language::En).unwrap();
    assert!(!tray.casting);
    assert!(matches!(&shown[0], MenuEntry::Checkbox { checked: false, .. }));
    assert_eq!(on_click(1, false), TrayAction::Send(Command::ToggleCast));
    assert_eq!(on_click(2, false), TrayAction::Send(Command::OpenSettings));
    assert_eq!(on_click(8, false), TrayAction::OpenLogDir);
    assert_eq!(on_click(4, false), TrayAction::SendAndEnd(Command::Quit));
    assert_eq!(on_click(3, false), TrayAction::Nothing);
    assert_eq!(on_click(1, true), TrayAction::SendAndEnd(Command::Quit));
}

#[test]
fn shows_messages_at_most_once_a_second() {
    let mut last = None;
    assert!(!notify_due(&mut last, Span { secs: 5, nanos: 10 }));
    assert!(!notify_due(&mut last, Span { secs: 6, nanos: 9 }));
    assert!(notify_due(&mut last, Span { secs: 6, nanos: 10 }));
    assert!(!notify_due(&mut last, Span { secs: 6, nanos: 11 }));
    assert!(notify_due(&mut last, Span { secs: 8, nanos: 0 }));
}

#[test]
fn registers_for_login() {
    assert!(desktop_contents("/bin/x y").contains("Exec=\"/bin/x y\"\n"));
    assert!(plist_contents("/bin/x").contains("        <string>/bin/x</string>\n"));
    assert_eq!(registry_value("C:\\x"), "\"C:\\x\"");
    for found in [desktop_contents("/bin/x"), plist_contents("/bin/x"), registry_value("/bin/x")] {
        assert!(names_executable(Some(&found), "/bin/x"));
        assert!(!names_executable(Some(&found), "/bin/y"));
    }
    assert!(!names_executable(None, "/bin/x"));
}

#[test]
fn recognizes_changed_registrations() {
    let mut entry = desktop_contents("/bin/x y");
    entry.push_str("Comment=x\n");
    assert!(names_executable(Some(&entry), "/bin/x y"));
    assert!(!names_executable(Some(&entry), "/bin/x"));
    let shown = desktop_contents("/bin/x").replace("Hidden=false", "Hidden=true\r");
    assert!(names_executable(Some(&shown), "/bin/x"));
    let bare = "[Desktop Entry]\r\nName=x\r\nExec=/bin/x --quiet\r\nExec=/bin/y\r\n";
    assert!(names_executable(Some(bare), "/bin/x"));
    assert!(!names_executable(Some(bare), "/bin/y"));
    let quoted = "Exec=\"/bin/x\" --quiet";
    assert!(names_executable(Some(quoted), "/bin/x"));
    assert!(!names_executable(Some("TryExec=/bin/x\n"), "/bin/x"));

    let list = plist_contents("/bin/x").replace("<true/>", "<false/>");
    assert!(names_executable(Some(&list), "/bin/x"));
    assert!(!names_executable(Some(&list), "com.mini-mdr.app"));
    assert!(!names_executable(Some(&list), "Interactive"));
    let cut = "<key>ProgramArguments</key><array><string>/bin/x";
    assert!(!names_executable(Some(cut), "/bin/x"));
    assert!(!names_executable(Some("<string>/bin/x</string>"), "/bin/x"));

    assert!(!names_executable(Some("\"/bin/x\" --quiet"), "/bin/x"));
    assert!(!names_executable(Some("/bin/x"), "/bin/x"));
}

#[test]
fn keeps_the_log_short() {
    assert_eq!(log_line("t", "INFO", "m"), "[t] [INFO] m\n");
    assert!(log_now("WARN", "m").ends_with("] [WARN] m\n"));
    assert!(log_now("WARN", "m").starts_with("[2"));
    assert!(!needs_rotation(5 * 1024 * 1024));
    assert!(needs_rotation(5 * 1024 * 1024 + 1));
    assert_eq!(rotate(b"a\nb\n"), b"a\nb\n");
    let mut content = vec![b'x'; 100];
    content.extend_from_slice(b"first\nsecond\n");
    content.extend(vec![b'y'; ROTATE_KEEP - 10]);
    let kept = rotate(&content);
    assert_eq!(kept, content[106..]);
    let long = vec![b'z'; ROTATE_KEEP + 5];
    assert_eq!(rotate(&long).len(), ROTATE_KEEP);
}
