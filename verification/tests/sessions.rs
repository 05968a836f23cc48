use mini_mdr::player::mpv::{
    await_reply, mpv_arguments, mpv_start_step, read_reply, retries, socket_name, socket_name_at,
    MpvCommand, MpvLink, MpvWaited,
};
use mini_mdr::player::program::StartStep;
use mini_mdr::player::vlc::{read_vlc_answer, vlc_arguments, vlc_password, vlc_start_step};
use mini_mdr::player::{perform, Answer, PlayerBackend, PlayerCall, PlayerError, PlayerStatus};
use mini_mdr::state::Span;
use mini_mdr::upnp::slots::Connections;

#[test]
fn starts_mpv() {
    assert_eq!(
        mpv_arguments("/tmp/x.sock"),
        vec![
            "--idle=yes",
            "--force-window=immediate",
            "--no-terminal",
            "--keep-open=yes",
            "--fullscreen",
            "--input-ipc-server=/tmp/x.sock",
        ]
    );
    let time = Span { secs: 2, nanos: 7 };
    assert_eq!(socket_name_at(42, time), "mini-mdr-42-2000000007.sock");
    let name = socket_name(42);
    assert!(name.starts_with("mini-mdr-42-1") && name.ends_with(".sock"));
    let almost = Span { secs: 4, nanos: 999_999_999 };
    assert_eq!(mpv_start_step(true, true, Span::from_secs(9)), StartStep::Ready);
    assert_eq!(mpv_start_step(false, true, Span::from_secs(9)), StartStep::Exited);
    assert_eq!(mpv_start_step(false, false, Span::from_secs(5)), StartStep::TimedOut);
    assert_eq!(mpv_start_step(false, false, almost), StartStep::Again);
}

#[test]
fn numbers_commands_and_waits_for_their_answers() {
    let mut link = MpvLink::new();
    let (first, line) = link.issue(&MpvCommand::SetPause(true));
    assert_eq!(first, 1);
    assert_eq!(
        line,
        "{\"command\":[\"set_property\",\"pause\",true],\"request_id\":1}\n"
    );
    assert_eq!(link.issue(&MpvCommand::SetPause(false)).0, 2);
    assert!(matches!(await_reply(None, 1), MpvWaited::More));
    let event = read_reply("{\"event\":\"idle\"}");
    assert!(matches!(await_reply(event, 1), MpvWaited::More));
    let other = read_reply("{\"request_id\":2,\"error\":\"success\"}");
    assert!(matches!(await_reply(other, 1), MpvWaited::More));
    let answer = read_reply("{\"request_id\":1,\"error\":\"success\",\"data\":true}");
    match await_reply(answer, 1) {
        MpvWaited::Answered(reply) => assert_eq!(reply.flag, Some(true)),
        MpvWaited::More => panic!("the answer was passed over"),
    }
}

#[test]
fn starts_mpv_anew_once() {
    assert!(retries("Broken pipe (os error 32)", false));
    assert!(retries("mpv IPC closed while waiting for response", false));
    assert!(!retries("Broken pipe (os error 32)", true));
    assert!(!retries("mpv command failed: \"x\"", false));
}

#[test]
fn starts_vlc() {
    assert_eq!(vlc_password(42), "mini-mdr-42");
    assert_eq!(
        vlc_arguments(8080, "secret"),
        vec![
            "--intf",
            "http",
            "--http-host",
            "127.0.0.1",
            "--http-port",
            "8080",
            "--http-password",
            "secret",
            "--no-video-title-show",
        ]
    );
    assert_eq!(vlc_start_step(true, true, Span::zero()), StartStep::Exited);
    assert_eq!(vlc_start_step(false, true, Span::from_secs(9)), StartStep::Ready);
    assert_eq!(vlc_start_step(false, false, Span::from_secs(5)), StartStep::TimedOut);
    assert_eq!(vlc_start_step(false, false, Span::from_secs(4)), StartStep::Again);
}

#[test]
fn reads_what_vlc_answers() {
    assert_eq!(
        read_vlc_answer("HTTP/1.1 200 OK\r\nA: b\r\n\r\n<root>\n\n</root>"),
        Ok("<root>\n\n</root>".to_owned())
    );
    assert_eq!(read_vlc_answer("HTTP/1.1 200 OK\nA: b"), Ok(String::new()));
    assert_eq!(read_vlc_answer("HTTP/1.1 200 OK"), Ok(String::new()));
    assert_eq!(
        read_vlc_answer("HTTP/1.1 401 Unauthorized\r\n\r\nno"),
        Err("HTTP/1.1 401 Unauthorized".to_owned())
    );
    assert_eq!(read_vlc_answer(""), Err(String::new()));
}

/// A player that notes what it was asked, and fails at seeking.
struct Noting(Vec<String>);

impl Noting {
    fn note(&mut self, text: &str) -> Result<(), PlayerError> {
        self.0.push(text.to_owned());
        Ok(())
    }
}

impl PlayerBackend for Noting {
    fn load(&mut self, uri: &str, title: Option<&str>) -> Result<(), PlayerError> {
        self.note(&format!("load {uri} {title:?}"))
    }

    fn play(&mut self) -> Result<(), PlayerError> {
        self.note("play")
    }

    fn pause(&mut self) -> Result<(), PlayerError> {
        self.note("pause")
    }

    fn stop(&mut self) -> Result<(), PlayerError> {
        self.note("stop")
    }

    fn seek(&mut self, _position: Span) -> Result<(), PlayerError> {
        Err(PlayerError { causes: Vec::new() })
    }

    fn set_volume(&mut self, volume: u8) -> Result<(), PlayerError> {
        self.note(&format!("volume {volume}"))
    }

    fn set_mute(&mut self, muted: bool) -> Result<(), PlayerError> {
        self.note(&format!("mute {muted}"))
    }

    fn status(&mut self) -> Result<PlayerStatus, PlayerError> {
        Ok(PlayerStatus::default())
    }

    fn sink_protocol_info(&self) -> &str {
        ""
    }
}

#[test]
fn hands_calls_to_the_player() {
    let mut player = Noting(Vec::new());
    let load = PlayerCall::Load { uri: "u".to_owned(), title: Some("t".to_owned()) };
    assert_eq!(perform(&mut player, &load), Answer::Done);
    assert_eq!(perform(&mut player, &PlayerCall::Play), Answer::Done);
    assert_eq!(perform(&mut player, &PlayerCall::Pause), Answer::Done);
    assert_eq!(perform(&mut player, &PlayerCall::SetVolume(3)), Answer::Done);
    assert_eq!(perform(&mut player, &PlayerCall::SetMute(true)), Answer::Done);
    assert_eq!(perform(&mut player, &PlayerCall::Stop), Answer::Done);
    assert_eq!(perform(&mut player, &PlayerCall::Seek(Span::zero())), Answer::Failed);
    let status = perform(&mut player, &PlayerCall::Status);
    assert_eq!(status.into_status(), Some(PlayerStatus::default()));
    assert_eq!(Answer::Done.into_status(), None);
    assert_eq!(
        player.0,
        vec!["load u Some(\"t\")", "play", "pause", "volume 3", "mute true", "stop"]
    );
}

#[test]
fn connections_come_and_go() {
    let mut connections = Connections::new(2);
    assert!(connections.is_idle());
    let first = connections.reserve().unwrap();
    let second = connections.reserve().unwrap();
    assert!(connections.reserve().is_none());
    assert!(connections.has_numbers());
    let one = connections.enroll(true, true);
    let two = connections.enroll(true, true);
    assert_eq!((one, two), (Some(1), Some(2)));
    assert_eq!(connections.enroll(false, true), None);
    assert_eq!(connections.enroll(true, false), None);
    connections.leave(one, first);
    assert!(!connections.is_idle());
    assert_eq!(connections.interrupt_all(), vec![2]);
    assert!(connections.interrupt_all().is_empty());
    connections.leave(two, second);
    assert!(connections.is_idle());
}

#[test]
fn commands_are_one_line() {
    let odd = "a\nb\r\t\u{8}\u{c}\u{1}\u{1f}\u{7f}\"\\/é".to_owned();
    let load = MpvCommand::LoadFile { uri: odd.clone(), title: Some(odd.clone()) };
    let line = load.line(Some(3));
    assert!(line.ends_with('\n'));
    assert_eq!(line.matches('\n').count(), 1);
    let escaped = "\"a\\nb\\r\\t\\b\\f\\u0001\\u001f\u{7f}\\\"\\\\/é\"";
    assert!(line.contains(&format!("[\"loadfile\",{escaped},\"replace\"]")));
    let value: serde_json::Value = serde_json::from_str(&line).unwrap();
    assert_eq!(value["command"][1], odd.as_str());
    assert_eq!(value["options"]["force-media-title"], odd.as_str());
    assert_eq!(value["request_id"], 3);
}
