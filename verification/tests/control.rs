use mini_mdr::fields::Fields;
use mini_mdr::http::HttpRequest;
use mini_mdr::player::{CauseKind, Cause, PlayerBackend, PlayerError, PlayerStatus};
use mini_mdr::state::{HistoryEntry, RendererState, Span, TransportState};
use mini_mdr::upnp::action::{seek_seconds, Reply};
use mini_mdr::upnp::control::{
    execute_action, execute_av_transport, execute_connection_manager, execute_rendering_control,
    refresh_player_state,
};
use mini_mdr::upnp::route::{control_response, route, Route};
use mini_mdr::upnp::slots::ConnectionSlots;
use mini_mdr::upnp::soap::{
    format_upnp_time, parse_bool, parse_timeout, parse_upnp_time, seconds_field, EventService,
    UpnpError,
};
use std::cell::Cell;
use std::rc::Rc;

/// The reading of a seconds field, as a decimal number below 60.
fn read_seconds(text: Option<String>) -> Option<Span> {
    let seconds = text?.parse::<f64>().ok()?;
    if !(0.0..60.0).contains(&seconds) {
        return None;
    }
    let duration = std::time::Duration::from_secs_f64(seconds);
    Some(Span { secs: duration.as_secs(), nanos: duration.subsec_nanos() })
}

fn parse_time(value: &str) -> Result<Span, UpnpError> {
    parse_upnp_time(value, read_seconds(seconds_field(value)))
}

struct FakeBackend {
    fail_load: bool,
    fail_status: bool,
    load_flag: Option<Rc<Cell<bool>>>,
    stop_flag: Option<Rc<Cell<bool>>>,
    calls: Vec<String>,
    status: PlayerStatus,
}

impl FakeBackend {
    fn new() -> Self {
        Self {
            fail_load: false,
            fail_status: false,
            load_flag: None,
            stop_flag: None,
            calls: Vec::new(),
            status: PlayerStatus::default(),
        }
    }
}

fn failure(message: &str) -> PlayerError {
    PlayerError { causes: vec![Cause { kind: CauseKind::Other, message: message.to_owned() }] }
}

impl PlayerBackend for FakeBackend {
    fn load(&mut self, uri: &str, title: Option<&str>) -> Result<(), PlayerError> {
        self.calls.push(format!("load {uri} {}", title.unwrap_or("-")));
        if self.fail_load {
            return Err(failure("load failed"));
        }
        if let Some(flag) = &self.load_flag {
            flag.set(true);
        }
        Ok(())
    }
    fn play(&mut self) -> Result<(), PlayerError> {
        self.calls.push("play".to_owned());
        Ok(())
    }
    fn pause(&mut self) -> Result<(), PlayerError> {
        self.calls.push("pause".to_owned());
        Ok(())
    }
    fn stop(&mut self) -> Result<(), PlayerError> {
        self.calls.push("stop".to_owned());
        if let Some(flag) = &self.stop_flag {
            flag.set(true);
        }
        Ok(())
    }
    fn seek(&mut self, position: Span) -> Result<(), PlayerError> {
        self.calls.push(format!("seek {}.{}", position.secs, position.nanos));
        Ok(())
    }
    fn set_volume(&mut self, volume: u8) -> Result<(), PlayerError> {
        self.calls.push(format!("volume {volume}"));
        Ok(())
    }
    fn set_mute(&mut self, muted: bool) -> Result<(), PlayerError> {
        self.calls.push(format!("mute {muted}"));
        Ok(())
    }
    fn status(&mut self) -> Result<PlayerStatus, PlayerError> {
        self.calls.push("status".to_owned());
        if self.fail_status {
            return Err(failure("no status"));
        }
        Ok(self.status)
    }
    fn sink_protocol_info(&self) -> &str {
        "http-get:*:a<b:*"
    }
}

fn soap_request(body: &str) -> HttpRequest {
    HttpRequest {
        method: "POST".into(),
        path: "/AVTransport/control".into(),
        headers: Fields::new(),
        body: body.into(),
    }
}

fn test_state(uri: Option<&str>, transport: TransportState) -> RendererState {
    RendererState {
        uri: uri.map(str::to_owned),
        title: uri.map(|_| "title".to_owned()),
        transport,
        ..RendererState::default()
    }
}

fn transport(
    action: &str,
    body: &str,
    player: &mut FakeBackend,
    state: &mut RendererState,
) -> Result<Reply, UpnpError> {
    let mut history = Vec::new();
    let request = soap_request(body);
    let seconds = read_seconds(seek_seconds(body));
    execute_av_transport(
        action,
        EventService::AvTransport,
        &request,
        seconds,
        player,
        state,
        &mut history,
        200,
    )
}

#[test]
fn parses_and_formats_upnp_time() {
    let value = parse_time("01:02:03.500").unwrap();
    assert_eq!(value, Span { secs: 3_723, nanos: 500_000_000 });
    assert_eq!(value.secs * 1000 + u64::from(value.nanos) / 1_000_000, 3_723_500);
    assert_eq!(format_upnp_time(value), "01:02:03");
}

#[test]
fn rejects_invalid_upnp_time() {
    assert!(parse_time("00:99:00").is_err());
}

#[test]
fn rejects_overflowing_upnp_time() {
    assert!(parse_time("18446744073709551615:00:00").is_err());
    assert!(parse_time("20000000000000000000:00:00").is_err());
}

#[test]
fn reads_times_at_their_edges() {
    assert_eq!(parse_time("0:0:0").unwrap(), Span { secs: 0, nanos: 0 });
    assert_eq!(parse_time("5124095576030431:00:15").unwrap().secs, u64::MAX);
    assert!(parse_time("5124095576030431:00:16").is_err());
    assert!(parse_time("00:00:60").is_err());
    assert!(parse_time("00:00:-1").is_err());
    let minute = Span { secs: 60, nanos: 0 };
    assert_eq!(parse_upnp_time("00:00:59.9999999999", Some(minute)).unwrap(), minute);
    let more = Span { secs: 60, nanos: 1 };
    assert_eq!(parse_upnp_time("00:00:75", Some(more)).unwrap_err().code, 402);
    assert!(parse_upnp_time("00:00:75", Some(Span { secs: 75, nanos: 0 })).is_err());
    assert!(parse_time("00:00").is_err());
    assert!(parse_time("a:00:00").is_err());
    assert!(parse_time("00:00:x").is_err());
    assert_eq!(format_upnp_time(Span { secs: 360_000, nanos: 0 }), "100:00:00");
    for secs in [0, 59, 60, 3599, 3600, 86_399, 1_234_567] {
        let text = format_upnp_time(Span { secs, nanos: 0 });
        assert_eq!(parse_time(&text).unwrap(), Span { secs, nanos: 0 });
    }
}

#[test]
fn clamps_subscription_timeouts() {
    assert_eq!(parse_timeout(Some(&"Second-1".to_owned())), 60);
    assert_eq!(parse_timeout(Some(&"Second-999999".to_owned())), 86400);
    assert_eq!(parse_timeout(None), 1800);
    assert_eq!(parse_timeout(Some(&"Second-300".to_owned())), 300);
    assert_eq!(parse_timeout(Some(&"infinite".to_owned())), 1800);
}

#[test]
fn reads_truth_values() {
    assert!(!parse_bool("0").unwrap());
    assert!(!parse_bool("false").unwrap());
    assert!(parse_bool("1").unwrap());
    assert!(parse_bool("true").unwrap());
    assert_eq!(parse_bool("yes").unwrap_err().code, 402);
}

#[test]
fn thread_permit_respects_limit() {
    let mut slots = ConnectionSlots::new(1);
    let first = slots.try_acquire().unwrap();
    assert!(slots.try_acquire().is_none());
    assert!(!slots.is_idle());
    slots.release(first);
    assert!(slots.is_idle());
    assert!(slots.try_acquire().is_some());
}

#[test]
fn rejects_seek_beyond_duration() {
    let mut player = FakeBackend::new();
    let mut state = test_state(Some("http://x/y"), TransportState::Playing);
    state.duration = Some(Span::from_secs(60));
    let result = transport(
        "Seek",
        "<InstanceID>0</InstanceID><Unit>REL_TIME</Unit><Target>01:00:01</Target>",
        &mut player,
        &mut state,
    );
    assert!(matches!(result, Err(UpnpError { code: 711, .. })));
    assert!(player.calls.is_empty());
}

#[test]
fn seeks_within_the_media() {
    let mut player = FakeBackend::new();
    let mut state = test_state(Some("http://x/y"), TransportState::Playing);
    state.duration = Some(Span::from_secs(60));
    let body = "<InstanceID>0</InstanceID><Unit>REL_TIME</Unit><Target>00:00:30.25</Target>";
    let result = transport("Seek", body, &mut player, &mut state);
    assert!(result.unwrap().changed);
    assert_eq!(player.calls, vec!["seek 30.250000000"]);
    assert_eq!(state.position, Span { secs: 30, nanos: 250_000_000 });
    let other = body.replace("REL_TIME", "TRACK_NR");
    assert_eq!(transport("Seek", &other, &mut player, &mut state).unwrap_err().code, 710);
    let wrong = body.replace("00:00:30.25", "soon");
    assert_eq!(transport("Seek", &wrong, &mut player, &mut state).unwrap_err().code, 402);
}

#[test]
fn rolls_back_transport_state_on_load_failure() {
    let mut player = FakeBackend::new();
    player.fail_load = true;
    let mut state = test_state(Some("http://old"), TransportState::Playing);
    let result = transport(
        "SetAVTransportURI",
        "<InstanceID>0</InstanceID><CurrentURI>http://new</CurrentURI>",
        &mut player,
        &mut state,
    );
    assert!(result.is_err());
    assert_eq!(state.transport, TransportState::Playing);
    assert_eq!(state.uri.as_deref(), Some("http://old"));
    assert_eq!(state.title.as_deref(), Some("title"));
}

#[test]
fn loads_media_with_its_title_and_records_it() {
    let mut player = FakeBackend::new();
    let mut state = test_state(None, TransportState::NoMediaPresent);
    let mut history: Vec<HistoryEntry> = vec![HistoryEntry::new("http://first".into(), None)];
    let request = soap_request(
        "<InstanceID>0</InstanceID><CurrentURI>http://h/a?x=1&amp;y=2</CurrentURI>\
         <CurrentURIMetaData>&lt;item&gt;&lt;dc:title&gt;A &amp;amp; B&lt;/dc:title&gt;&lt;/item&gt;</CurrentURIMetaData>",
    );
    let result = execute_av_transport(
        "SetAVTransportURI",
        EventService::AvTransport,
        &request,
        None,
        &mut player,
        &mut state,
        &mut history,
        1,
    );
    let reply = result.unwrap();
    assert!(reply.changed);
    assert_eq!(
        reply.body,
        "<u:SetAVTransportURIResponse xmlns:u=\"urn:schemas-upnp-org:service:AVTransport:1\">\
         </u:SetAVTransportURIResponse>"
    );
    assert_eq!(player.calls, vec!["load http://h/a?x=1&y=2 A & B"]);
    assert_eq!(state.uri.as_deref(), Some("http://h/a?x=1&y=2"));
    assert_eq!(state.title.as_deref(), Some("A & B"));
    assert_eq!(state.transport, TransportState::Stopped);
    assert_eq!(history.len(), 1);
    assert_eq!(history[0].uri, "http://h/a?x=1&y=2");
    assert_eq!(history[0].title.as_deref(), Some("A & B"));
    assert!(history[0].timestamp > 1_700_000_000);
}

#[test]
fn empty_uri_stops_and_clears_media() {
    let stop_flag = Rc::new(Cell::new(false));
    let mut player = FakeBackend::new();
    player.stop_flag = Some(Rc::clone(&stop_flag));
    let mut state = test_state(Some("http://old"), TransportState::Playing);
    let result = transport(
        "SetAVTransportURI",
        "<InstanceID>0</InstanceID><CurrentURI></CurrentURI>",
        &mut player,
        &mut state,
    );
    assert!(result.is_ok());
    assert!(stop_flag.get());
    assert_eq!(state.transport, TransportState::NoMediaPresent);
    assert!(state.uri.is_none());
}

#[test]
fn stop_keeps_current_uri() {
    let mut player = FakeBackend::new();
    let mut state = test_state(Some("http://x/y"), TransportState::Playing);
    state.position = Span::from_secs(5);
    let result = transport("Stop", "<InstanceID>0</InstanceID>", &mut player, &mut state);
    assert!(result.is_ok());
    assert_eq!(state.transport, TransportState::Stopped);
    assert_eq!(state.uri.as_deref(), Some("http://x/y"));
    assert_eq!(state.position, Span::zero());
}

#[test]
fn play_reloads_media_after_stop() {
    let load_flag = Rc::new(Cell::new(false));
    let mut player = FakeBackend::new();
    player.load_flag = Some(Rc::clone(&load_flag));
    let mut state = test_state(Some("http://x/y"), TransportState::Stopped);
    let result = transport("Play", "<InstanceID>0</InstanceID>", &mut player, &mut state);
    assert!(result.is_ok());
    assert!(load_flag.get());
    assert_eq!(state.transport, TransportState::Playing);
    assert_eq!(player.calls, vec!["status", "load http://x/y title", "play"]);
}

#[test]
fn play_goes_on_with_media_that_the_player_has() {
    let mut player = FakeBackend::new();
    player.status.paused = true;
    let mut state = test_state(Some("http://x/y"), TransportState::PausedPlayback);
    state.position = Span::from_secs(7);
    assert!(transport("Play", "<InstanceID>0</InstanceID>", &mut player, &mut state).is_ok());
    assert_eq!(player.calls, vec!["status", "play"]);
    assert_eq!(state.position, Span::from_secs(7));
}

#[test]
fn play_and_pause_need_media() {
    let mut player = FakeBackend::new();
    let mut state = test_state(None, TransportState::NoMediaPresent);
    for action in ["Play", "Pause"] {
        let result = transport(action, "<InstanceID>0</InstanceID>", &mut player, &mut state);
        assert_eq!(result.unwrap_err().code, 714);
    }
    assert!(player.calls.is_empty());
    state.uri = Some("http://x/y".to_owned());
    assert!(transport("Pause", "<InstanceID>0</InstanceID>", &mut player, &mut state).is_ok());
    assert_eq!(state.transport, TransportState::PausedPlayback);
}

#[test]
fn refuses_other_instances_and_unknown_actions() {
    let mut player = FakeBackend::new();
    let mut state = test_state(Some("http://x/y"), TransportState::Playing);
    let other = transport("Stop", "<InstanceID>1</InstanceID>", &mut player, &mut state);
    let error = other.unwrap_err();
    assert_eq!((error.code, error.description), (718, "Invalid InstanceID"));
    assert_eq!(transport("Stop", "", &mut player, &mut state).unwrap_err().code, 402);
    let unknown = transport("Rewind", "<InstanceID>0</InstanceID>", &mut player, &mut state);
    assert_eq!(unknown.unwrap_err().code, 401);
    assert!(player.calls.is_empty());
}

#[test]
fn answers_queries_from_the_status() {
    let mut player = FakeBackend::new();
    player.status.playing = true;
    player.status.position = Span::from_secs(61);
    player.status.duration = Some(Span::from_secs(3600));
    let mut state = test_state(Some("http://x/?a&b"), TransportState::Stopped);
    let reply = transport("GetPositionInfo", "<InstanceID>0</InstanceID>", &mut player, &mut state)
        .unwrap();
    assert!(!reply.changed);
    assert_eq!(
        reply.body,
        "<u:GetPositionInfoResponse xmlns:u=\"urn:schemas-upnp-org:service:AVTransport:1\">\
         <Track>1</Track><TrackDuration>01:00:00</TrackDuration><TrackMetaData></TrackMetaData>\
         <TrackURI>http://x/?a&amp;b</TrackURI><RelTime>00:01:01</RelTime><AbsTime>00:01:01</AbsTime>\
         <RelCount>2147483647</RelCount><AbsCount>2147483647</AbsCount></u:GetPositionInfoResponse>"
    );
    let info = transport("GetTransportInfo", "<InstanceID>0</InstanceID>", &mut player, &mut state)
        .unwrap();
    assert!(info.body.contains("<CurrentTransportState>PLAYING</CurrentTransportState>"));
    player.fail_status = true;
    state.transport = TransportState::PausedPlayback;
    let kept = transport("GetTransportInfo", "<InstanceID>0</InstanceID>", &mut player, &mut state)
        .unwrap();
    assert!(kept.body.contains("PAUSED_PLAYBACK"));
    let media = transport("GetMediaInfo", "<InstanceID>0</InstanceID>", &mut player, &mut state)
        .unwrap();
    assert!(media.body.contains("<MediaDuration>01:00:00</MediaDuration>"));
    let settings =
        transport("GetTransportSettings", "<InstanceID>0</InstanceID>", &mut player, &mut state)
            .unwrap();
    assert!(settings.body.contains("<PlayMode>NORMAL</PlayMode>"));
}

#[test]
fn rejects_out_of_range_volume() {
    let mut player = FakeBackend::new();
    let mut state = test_state(None, TransportState::NoMediaPresent);
    let request = soap_request(
        "<InstanceID>0</InstanceID><Channel>Master</Channel><DesiredVolume>101</DesiredVolume>",
    );
    let result = execute_rendering_control(
        "SetVolume",
        EventService::RenderingControl,
        &request,
        &mut player,
        &mut state,
    );
    assert!(matches!(result, Err(UpnpError { code: 402, .. })));
    assert!(player.calls.is_empty());
}

#[test]
fn sets_and_reads_volume_and_mute() {
    let mut player = FakeBackend::new();
    let mut state = test_state(None, TransportState::NoMediaPresent);
    let mut run = |action: &str, body: &str, player: &mut FakeBackend| {
        execute_rendering_control(
            action,
            EventService::RenderingControl,
            &soap_request(body),
            player,
            &mut state,
        )
    };
    let head = "<InstanceID>0</InstanceID><Channel>Master</Channel>";
    let set = format!("{head}<DesiredVolume>40</DesiredVolume>");
    assert!(run("SetVolume", &set, &mut player).unwrap().changed);
    let mute = format!("{head}<DesiredMute>1</DesiredMute>");
    assert!(run("SetMute", &mute, &mut player).unwrap().changed);
    assert_eq!(player.calls, vec!["volume 40", "mute true"]);
    player.status.volume = 55;
    player.status.muted = true;
    let volume = run("GetVolume", head, &mut player).unwrap();
    assert!(volume.body.contains("<CurrentVolume>55</CurrentVolume>"));
    let muted = run("GetMute", head, &mut player).unwrap();
    assert!(muted.body.contains("<CurrentMute>1</CurrentMute>"));
    let left = "<InstanceID>0</InstanceID><Channel>LF</Channel>";
    assert_eq!(run("GetVolume", left, &mut player).unwrap_err().code, 402);
    let loud = format!("{head}<DesiredMute>loud</DesiredMute>");
    assert_eq!(run("SetMute", &loud, &mut player).unwrap_err().code, 402);
    assert_eq!(run("GetLoudness", head, &mut player).unwrap_err().code, 401);
}

#[test]
fn maps_natural_end_to_stopped() {
    let mut player = FakeBackend::new();
    player.status = PlayerStatus {
        playing: false,
        paused: true,
        position: Span::from_secs(60),
        duration: Some(Span::from_secs(60)),
        volume: 100,
        muted: false,
    };
    let mut state = test_state(Some("http://x/y"), TransportState::Playing);
    refresh_player_state(&mut player, &mut state);
    assert_eq!(state.transport, TransportState::Stopped);
}

#[test]
fn maps_idle_player_to_no_media_present() {
    let mut player = FakeBackend::new();
    let mut state = test_state(None, TransportState::Stopped);
    refresh_player_state(&mut player, &mut state);
    assert_eq!(state.transport, TransportState::NoMediaPresent);
}

#[test]
fn maps_a_pause_to_paused_playback() {
    let mut player = FakeBackend::new();
    player.status.paused = true;
    player.status.position = Span::from_secs(59);
    player.status.duration = Some(Span::from_secs(60));
    let mut state = test_state(Some("http://x/y"), TransportState::Playing);
    refresh_player_state(&mut player, &mut state);
    assert_eq!(state.transport, TransportState::PausedPlayback);
}

fn stop_action(running: bool) -> (Result<Reply, UpnpError>, bool, TransportState) {
    let stop_flag = Rc::new(Cell::new(false));
    let mut player = FakeBackend::new();
    player.stop_flag = Some(Rc::clone(&stop_flag));
    let mut state = test_state(Some("http://x/y"), TransportState::Playing);
    let request = soap_request("<InstanceID>0</InstanceID>");
    let mut history = Vec::new();
    let result = execute_action(
        "Stop",
        EventService::AvTransport,
        &request,
        None,
        &mut player,
        &mut state,
        &mut history,
        200,
        running,
    );
    (result, stop_flag.get(), state.transport)
}

#[test]
fn stopped_server_faults_actions_without_touching_backend() {
    let (result, stopped, transport) = stop_action(false);
    assert!(matches!(result, Err(UpnpError { code: 501, .. })));
    assert!(!stopped);
    assert_eq!(transport, TransportState::Playing);
}

#[test]
fn running_server_executes_actions() {
    let (result, stopped, transport) = stop_action(true);
    assert!(result.is_ok());
    assert!(stopped);
    assert_eq!(transport, TransportState::Stopped);
}

#[test]
fn connection_manager_answers() {
    let service = EventService::ConnectionManager;
    let info = execute_connection_manager("GetProtocolInfo", service, "a&b").unwrap();
    assert_eq!(
        info.body,
        "<u:GetProtocolInfoResponse xmlns:u=\"urn:schemas-upnp-org:service:ConnectionManager:1\">\
         <Source></Source><Sink>a&amp;b</Sink></u:GetProtocolInfoResponse>"
    );
    assert!(!info.changed);
    let ids = execute_connection_manager("GetCurrentConnectionIDs", service, "").unwrap();
    assert!(ids.body.contains("<ConnectionIDs>0</ConnectionIDs>"));
    let current = execute_connection_manager("GetCurrentConnectionInfo", service, "").unwrap();
    assert!(current.body.contains("<PeerConnectionID>-1</PeerConnectionID>"));
    assert_eq!(execute_connection_manager("Nothing", service, "").unwrap_err().code, 401);
}

fn request_to(method: &str, path: &str, headers: &[(&str, &str)]) -> HttpRequest {
    let mut fields = Fields::new();
    for (name, value) in headers {
        fields.insert((*name).to_owned(), (*value).to_owned());
    }
    HttpRequest {
        method: method.to_owned(),
        path: path.to_owned(),
        headers: fields,
        body: String::new(),
    }
}

#[test]
fn routes_requests() {
    let action = "\"urn:schemas-upnp-org:service:AVTransport:1#Play\"";
    let control = request_to("POST", "/AVTransport/control", &[("soapaction", action)]);
    match route(&control, "n", "u") {
        Route::Control(service, name) => {
            assert_eq!(service, EventService::AvTransport);
            assert_eq!(name, "Play");
        }
        other => panic!("{other:?}"),
    }
    let nameless = request_to("POST", "/RenderingControl/control", &[]);
    match route(&nameless, "n", "u") {
        Route::Answer(response) => {
            assert_eq!(response.status, "500 Internal Server Error");
            assert!(response.body.contains("<errorCode>401</errorCode>"));
        }
        other => panic!("{other:?}"),
    }
    let subscribe = request_to("SUBSCRIBE", "/ConnectionManager/event", &[]);
    assert!(matches!(
        route(&subscribe, "n", "u"),
        Route::Subscribe(EventService::ConnectionManager)
    ));
    let unsubscribe = request_to("UNSUBSCRIBE", "/RenderingControl/event", &[]);
    assert!(matches!(
        route(&unsubscribe, "n", "u"),
        Route::Unsubscribe(EventService::RenderingControl)
    ));
    for path in ["/device.xml", "/connection_manager.xml", "/av_transport.xml", "/rendering_control.xml"] {
        match route(&request_to("GET", path, &[]), "Room", "uuid:1") {
            Route::Answer(response) => {
                assert_eq!(response.status, "200 OK");
                assert_eq!(response.content_type, "text/xml; charset=utf-8");
                assert!(response.body.starts_with("<?xml version=\"1.0\"?>"));
            }
            other => panic!("{other:?}"),
        }
    }
    match route(&request_to("GET", "/nowhere", &[]), "n", "u") {
        Route::Answer(response) => assert_eq!(response.status, "404 Not Found"),
        other => panic!("{other:?}"),
    }
}

#[test]
fn wraps_answers_and_faults() {
    let ok = control_response(&Ok(Reply { body: "<x/>".to_owned(), changed: false }));
    assert_eq!(ok.status, "200 OK");
    assert_eq!(ok.headers, vec![("EXT".to_owned(), String::new())]);
    assert_eq!(
        ok.body,
        "<?xml version=\"1.0\"?><s:Envelope xmlns:s=\"http://schemas.xmlsoap.org/soap/envelope/\" \
         s:encodingStyle=\"http://schemas.xmlsoap.org/soap/encoding/\"><s:Body><x/></s:Body></s:Envelope>"
    );
    let fault = control_response(&Err(UpnpError::new(711, "Illegal seek target")));
    assert_eq!(fault.status, "500 Internal Server Error");
    assert!(fault.body.contains(
        "<errorCode>711</errorCode><errorDescription>Illegal seek target</errorDescription>"
    ));
}
