use mini_mdr::player::mpv::{
    is_pipe_error, mpv_plan, mpv_status, read_reply, seconds_text, MpvCommand, MpvPlan,
};
use mini_mdr::player::program::{PlayerProgram, SessionStep};
use mini_mdr::player::vlc::{
    command_path, full_sound, is_success, to_vlc_level, vlc_advance, vlc_begin, vlc_request,
    vlc_status, volume_in, xml_tag, VlcSound, VlcStep, VlcWait,
};
use mini_mdr::player::{
    create_backend, is_program_not_found, Answer, Backend, Cause, CauseKind, PlayerCall,
    PlayerError, PlayerStatus,
};
use mini_mdr::state::Span;

#[test]
fn creates_the_configured_backend() {
    match create_backend("mpv", "mpv", "") {
        Ok(Backend::Mpv(program)) => {
            assert_eq!(program.executable, "mpv");
            assert!(!program.running && !program.given_up);
        }
        other => panic!("{other:?}"),
    }
    assert!(matches!(create_backend("vlc", "", "/usr/bin/vlc"), Ok(Backend::Vlc(_))));
    let message = |r: Result<Backend, PlayerError>| r.unwrap_err().causes[0].message.clone();
    assert_eq!(message(create_backend("mpv", " ", "vlc")), "mpv executable path cannot be empty");
    assert_eq!(message(create_backend("vlc", "mpv", "")), "vlc executable path cannot be empty");
    assert_eq!(message(create_backend("gst", "m", "v")), "unsupported player backend: gst");
}

#[test]
fn tells_missing_programs() {
    let cause = |kind| Cause { kind, message: "m".to_owned() };
    let other = PlayerError { causes: vec![cause(CauseKind::Other)] };
    assert!(!is_program_not_found(&other));
    let missing = PlayerError { causes: vec![cause(CauseKind::Other), cause(CauseKind::NotFound)] };
    assert!(is_program_not_found(&missing));
    assert!(!is_program_not_found(&PlayerError { causes: Vec::new() }));
}

#[test]
fn gives_up_on_missing_programs() {
    let mut program = PlayerProgram::new("mpv", "empty").unwrap();
    assert_eq!(program.session_step(), SessionStep::Start);
    program.start_failed(false);
    assert_eq!(program.session_step(), SessionStep::Start);
    program.started();
    assert_eq!(program.session_step(), SessionStep::Ready);
    program.ended();
    program.start_failed(true);
    assert_eq!(program.session_step(), SessionStep::GivenUp);
}

#[test]
fn writes_mpv_commands() {
    let load = MpvCommand::LoadFile { uri: "a\"b".to_owned(), title: Some("T\n".to_owned()) };
    assert_eq!(
        load.line(Some(1)),
        "{\"command\":[\"loadfile\",\"a\\\"b\",\"replace\"],\
         \"options\":{\"force-media-title\":\"T\\n\"},\"request_id\":1}\n"
    );
    assert_eq!(
        MpvCommand::SetTitle("x".to_owned()).line(Some(2)),
        "{\"command\":[\"set_property\",\"title\",\"x\"],\"request_id\":2}\n"
    );
    assert_eq!(
        MpvCommand::SetPause(false).line(Some(3)),
        "{\"command\":[\"set_property\",\"pause\",false],\"request_id\":3}\n"
    );
    assert_eq!(
        MpvCommand::Seek(Span { secs: 3723, nanos: 500_000_000 }).line(Some(4)),
        "{\"command\":[\"seek\",3723.5,\"absolute\",\"exact\"],\"request_id\":4}\n"
    );
    assert_eq!(
        MpvCommand::SetVolume(40).line(Some(5)),
        "{\"command\":[\"set_property\",\"volume\",40],\"request_id\":5}\n"
    );
    assert_eq!(
        MpvCommand::SetMute(true).line(Some(6)),
        "{\"command\":[\"set_property\",\"mute\",true],\"request_id\":6}\n"
    );
    assert_eq!(
        MpvCommand::GetProperty("time-pos").line(Some(7)),
        "{\"command\":[\"get_property\",\"time-pos\"],\"request_id\":7}\n"
    );
    assert_eq!(MpvCommand::Quit.line(None), "{\"command\":[\"quit\"]}\n");
    assert_eq!(seconds_text(Span::from_secs(60)), "60.0");
    assert_eq!(seconds_text(Span { secs: 0, nanos: 1 }), "0.000000001");
    let value: serde_json::Value = serde_json::from_str(&load.line(Some(9))).unwrap();
    assert_eq!(value["command"][1], "a\"b");
    assert_eq!(value["request_id"], 9);
}

#[test]
fn reads_mpv_replies() {
    let reply = read_reply("{\"data\":12.5,\"error\":\"success\",\"request_id\":3}").unwrap();
    assert!(reply.answers(3));
    assert!(!reply.answers(4));
    assert_eq!(reply.number.as_deref(), Some("12.5"));
    assert_eq!(reply.flag, None);
    assert!(reply.failure_message().is_none());
    let failed = read_reply("{\"error\":\"invalid \\\"x\\\"\",\"request_id\":4}").unwrap();
    assert_eq!(
        failed.failure_message().as_deref(),
        Some("mpv command failed: \"invalid \\\"x\\\"\"")
    );
    let event = read_reply("{\"event\":\"pause\",\"data\":true}").unwrap();
    assert!(!event.answers(0));
    assert_eq!(event.flag, Some(true));
    assert!(read_reply("no json").is_none());
    assert!(is_pipe_error("write: Broken pipe (os error 32)"));
    assert!(is_pipe_error("mpv IPC closed while waiting for response"));
    assert!(!is_pipe_error("timed out waiting for mpv IPC response"));
}

#[test]
fn plans_calls_to_mpv() {
    let idle = mpv_plan(&PlayerCall::Status, false);
    assert!(matches!(idle, MpvPlan::Answer(Answer::Status(s)) if s == PlayerStatus::default()));
    assert!(matches!(mpv_plan(&PlayerCall::Play, false), MpvPlan::Answer(Answer::Done)));
    assert!(matches!(mpv_plan(&PlayerCall::Stop, false), MpvPlan::End));
    assert!(matches!(mpv_plan(&PlayerCall::Status, true), MpvPlan::ReadStatus));
    assert!(matches!(
        mpv_plan(&PlayerCall::SetVolume(250), true),
        MpvPlan::Send(MpvCommand::SetVolume(100))
    ));
    let load = PlayerCall::Load { uri: "u".to_owned(), title: Some("t".to_owned()) };
    assert!(matches!(mpv_plan(&load, false), MpvPlan::SendBoth(_, MpvCommand::SetTitle(_))));
    let untitled = PlayerCall::Load { uri: "u".to_owned(), title: None };
    assert!(matches!(mpv_plan(&untitled, true), MpvPlan::Send(MpvCommand::LoadFile { .. })));
}

#[test]
fn makes_up_the_status_of_mpv() {
    let none = mpv_status(None, None, None, None, None, None);
    assert_eq!(none, PlayerStatus::default());
    let paused = mpv_status(
        Some(false),
        Some(true),
        Some(Span::from_secs(3)),
        Some(Span::from_secs(9)),
        Some(130),
        Some(true),
    );
    assert!(paused.paused && !paused.playing && paused.muted);
    assert_eq!((paused.position, paused.volume), (Span::from_secs(3), 100));
}

#[test]
fn reads_and_writes_for_vlc() {
    assert_eq!(
        vlc_request("POST", "/x", 8080, "mini-mdr-1", ""),
        "POST /x HTTP/1.1\r\nHost: 127.0.0.1:8080\r\nAuthorization: Basic Om1pbmktbWRyLTE=\r\n\
         Connection: close\r\n\r\n"
    );
    assert!(vlc_request("POST", "/x", 1, "p", "é").ends_with(
        "Content-Type: application/x-www-form-urlencoded\r\nContent-Length: 2\r\n\
         Connection: close\r\n\r\né"
    ));
    assert_eq!(command_path("pl_play"), "/requests/status.xml?command=pl_play");
    assert!(is_success("HTTP/1.1 200 OK"));
    assert!(!is_success("HTTP/1.1 401 Unauthorized"));
    assert_eq!(xml_tag("<a>1</a><b>2</b>", "b").as_deref(), Some("2"));
    assert_eq!(xml_tag("</a><a>", "a"), None);
    assert_eq!(xml_tag("<a>", "a"), None);
    assert_eq!(to_vlc_level(100), 256);
    assert_eq!(to_vlc_level(255), 256);
    assert_eq!(to_vlc_level(50), 128);
    assert_eq!(volume_in("<volume>128</volume>"), 50);
    assert_eq!(volume_in("<volume>4294967295</volume>"), 100);
    assert_eq!(volume_in("<volume>x</volume>"), 100);
    let status = vlc_status(
        "<state>playing</state><volume>0</volume>",
        Some(Span::from_secs(2)),
        None,
        true,
    );
    assert!(status.playing && !status.paused && status.muted);
    assert_eq!((status.volume, status.position), (0, Span::from_secs(2)));
}

fn posted(step: VlcStep) -> (String, VlcWait) {
    match step {
        VlcStep::Post(command, wait) => (command, wait),
        other => panic!("{other:?}"),
    }
}

#[test]
fn mutes_vlc_and_goes_back() {
    let mut sound = full_sound();
    assert!(matches!(
        vlc_begin(&PlayerCall::SetMute(true), true, &mut sound),
        VlcStep::Get(VlcWait::MuteStatus)
    ));
    let status = Some("<volume>64</volume>".to_owned());
    let (command, wait) = posted(vlc_advance(VlcWait::MuteStatus, status, &mut sound));
    assert_eq!(command, "volume&val=0");
    let done = vlc_advance(wait, Some(String::new()), &mut sound);
    assert!(matches!(done, VlcStep::Finished(Answer::Done)));
    assert_eq!(sound, VlcSound { pre_mute_volume: 25, muted: true });
    let silent = vlc_begin(&PlayerCall::SetVolume(70), true, &mut sound);
    assert!(matches!(silent, VlcStep::Finished(Answer::Done)));
    let (command, wait) = posted(vlc_begin(&PlayerCall::SetMute(false), true, &mut sound));
    assert_eq!(command, "volume&val=179");
    let failed = vlc_advance(wait, None, &mut sound);
    assert!(matches!(failed, VlcStep::Finished(Answer::Failed)));
    assert!(sound.muted);
}

#[test]
fn plays_and_loads_with_vlc() {
    let mut sound = full_sound();
    let load = PlayerCall::Load { uri: "http://a/b c".to_owned(), title: None };
    let (command, wait) = posted(vlc_begin(&load, false, &mut sound));
    assert_eq!((command.as_str(), wait), ("in_play&input=http%3A%2F%2Fa%2Fb%20c", VlcWait::Last));
    sound.muted = true;
    let (_, wait) = posted(vlc_begin(&load, false, &mut sound));
    let (command, _) = posted(vlc_advance(wait, Some(String::new()), &mut sound));
    assert_eq!(command, "volume&val=0");
    let paused = Some("<state>paused</state>".to_owned());
    assert_eq!(posted(vlc_advance(VlcWait::PlayStatus, paused, &mut sound)).0, "pl_pause");
    let stopped = Some("<state>stopped</state>".to_owned());
    assert_eq!(posted(vlc_advance(VlcWait::PlayStatus, stopped, &mut sound)).0, "pl_play");
    let seek = PlayerCall::Seek(Span { secs: 61, nanos: 9 });
    assert_eq!(posted(vlc_begin(&seek, true, &mut sound)).0, "seek&val=61");
    assert!(matches!(
        vlc_begin(&PlayerCall::Play, false, &mut sound),
        VlcStep::Finished(Answer::Done)
    ));
    assert!(matches!(vlc_begin(&PlayerCall::Stop, true, &mut sound), VlcStep::End));
    let report = vlc_advance(VlcWait::Status, Some("x".to_owned()), &mut sound);
    assert!(matches!(report, VlcStep::Report(xml) if xml == "x"));
}
