//! The actions of AVTransport and RenderingControl.
//!
//! An action runs in steps. Between two steps it waits for the player, or for
//! the history to be written, so that whoever runs it need not keep the
//! renderer's state to itself meanwhile.

use vstd::prelude::*;
use vstd::string::StringExecFns;
use crate::number::{decimal, decimal_text, parse_uint, uint_value};
use crate::player::{Answer, CallView, PlayerCall, PlayerStatus};
use crate::state::{copy_text, no_time, RendererState, Span, StateView, TransportState};
use crate::text::{opt_view, same_text};
use crate::upnp::soap::{
    action_failed, action_response, answer, argument, bool_value, channel_fault, format_upnp_time,
    instance_fault, invalid_action, invalid_args, parse_bool, parse_upnp_time,
    require_instance_zero, require_master_channel, required_value, seconds_field,
    seconds_field_spec, time_text, time_value, EventService, Fault, UpnpError,
};
use crate::xml::{
    decode_xml, decode_xml_spec, escape_xml, escape_xml_spec, xml_value, xml_value_spec,
};

verus! {

// ---------------------------------------------------------------------------
// Steps
// ---------------------------------------------------------------------------

/// What an action that went well answers, and whether subscribers of the
/// service are to be told of a change.
#[derive(Clone, Debug)]
pub struct Reply {
    pub body: String,
    pub changed: bool,
}

/// How an action ends.
pub type Outcome = Result<(Seq<char>, bool), Fault>;

/// The view of how an action ended.
pub open spec fn outcome(r: Result<Reply, UpnpError>) -> Outcome {
    match r {
        Ok(reply) => Ok((reply.body@, reply.changed)),
        Err(error) => Err(error@),
    }
}

/// What an action waits for.
#[derive(Clone, Debug)]
pub enum Effect {
    /// The player's answer to a call.
    Player(PlayerCall),
    /// That loaded media was added to the history.
    Record { uri: String, title: Option<String> },
}

/// An effect with its texts as sequences of characters.
#[verifier::ext_equal]
pub enum EffectView {
    Player(CallView),
    Record { uri: Seq<char>, title: Option<Seq<char>> },
}

impl View for Effect {
    type V = EffectView;

    open spec fn view(&self) -> EffectView {
        match self {
            Effect::Player(call) => EffectView::Player(call@),
            Effect::Record { uri, title } => EffectView::Record {
                uri: uri@,
                title: opt_view(*title),
            },
        }
    }
}

/// The queries that first ask the player for its status.
#[derive(Clone, Copy, Debug, PartialEq, Eq, Structural)]
pub enum Query {
    TransportInfo,
    PositionInfo,
    MediaInfo,
    Volume,
    Mute,
}

/// Where in an action it waits.
#[derive(Clone, Debug)]
pub enum Pending {
    /// The player stops, as its media is taken away.
    Clear,
    /// The player loads new media.
    Load { uri: String, title: Option<String>, previous: TransportState },
    /// Loaded media is added to the history.
    Record { uri: String, title: Option<String> },
    /// The player is asked whether it has media.
    Inspect { uri: String, title: Option<String> },
    /// The player loads its media anew.
    Reload,
    /// The player starts.
    Start { reloaded: bool },
    Pause,
    Stop,
    Seek(Span),
    SetVolume(u8),
    SetMute(bool),
    /// The player is asked for its status, to answer a query.
    Refresh(Query),
}

/// A wait with its texts as sequences of characters.
#[verifier::ext_equal]
pub enum PendingView {
    Clear,
    Load { uri: Seq<char>, title: Option<Seq<char>>, previous: TransportState },
    Record { uri: Seq<char>, title: Option<Seq<char>> },
    Inspect { uri: Seq<char>, title: Option<Seq<char>> },
    Reload,
    Start { reloaded: bool },
    Pause,
    Stop,
    Seek(Span),
    SetVolume(u8),
    SetMute(bool),
    Refresh(Query),
}

impl View for Pending {
    type V = PendingView;

    open spec fn view(&self) -> PendingView {
        match self {
            Pending::Clear => PendingView::Clear,
            Pending::Load { uri, title, previous } => PendingView::Load {
                uri: uri@,
                title: opt_view(*title),
                previous: *previous,
            },
            Pending::Record { uri, title } => PendingView::Record {
                uri: uri@,
                title: opt_view(*title),
            },
            Pending::Inspect { uri, title } => PendingView::Inspect {
                uri: uri@,
                title: opt_view(*title),
            },
            Pending::Reload => PendingView::Reload,
            Pending::Start { reloaded } => PendingView::Start { reloaded: *reloaded },
            Pending::Pause => PendingView::Pause,
            Pending::Stop => PendingView::Stop,
            Pending::Seek(position) => PendingView::Seek(*position),
            Pending::SetVolume(volume) => PendingView::SetVolume(*volume),
            Pending::SetMute(muted) => PendingView::SetMute(*muted),
            Pending::Refresh(query) => PendingView::Refresh(*query),
        }
    }
}

/// A step of an action: it ends, or it waits for an effect.
#[derive(Debug)]
pub enum Step {
    Finished(Result<Reply, UpnpError>),
    Ask(Effect, Pending),
}

/// A step with its texts as sequences of characters.
#[verifier::ext_equal]
pub enum StepView {
    Finished(Outcome),
    Ask(EffectView, PendingView),
}

impl View for Step {
    type V = StepView;

    open spec fn view(&self) -> StepView {
        match self {
            Step::Finished(result) => StepView::Finished(outcome(*result)),
            Step::Ask(effect, pending) => StepView::Ask(effect@, pending@),
        }
    }
}

/// The step that ends an action with a fault.
pub open spec fn faults(fault: Fault) -> StepView {
    StepView::Finished(Err(fault))
}

/// The step that ends an action with these values.
pub open spec fn replies(
    service: EventService,
    action: Seq<char>,
    values: Seq<char>,
    changed: bool,
) -> StepView {
    StepView::Finished(Ok((answer(service, action, values), changed)))
}

/// The step that waits for the player.
pub open spec fn asks(call: CallView, pending: PendingView) -> StepView {
    StepView::Ask(EffectView::Player(call), pending)
}

fn fault(code: u16, description: &'static str) -> (r: Step)
    ensures
        r@ == faults(Fault { code, description: description@ }),
{
    Step::Finished(Err(UpnpError::new(code, description)))
}

fn reply(service: EventService, action: &str, values: &str, changed: bool) -> (r: Step)
    ensures
        r@ == replies(service, action@, values@, changed),
{
    Step::Finished(Ok(Reply { body: action_response(service, action, values), changed }))
}

fn ask(call: PlayerCall, pending: Pending) -> (r: Step)
    ensures
        r@ == asks(call@, pending@),
{
    Step::Ask(Effect::Player(call), pending)
}

// ---------------------------------------------------------------------------
// The renderer's state
// ---------------------------------------------------------------------------

/// The transport state that a player's status stands for. A player that pauses
/// at the end of its media has stopped.
pub open spec fn observed_transport(status: PlayerStatus, has_uri: bool) -> TransportState {
    if status.playing {
        TransportState::Playing
    } else if status.paused {
        match status.duration {
            Some(duration) => if duration.longer_than(status.position) {
                TransportState::PausedPlayback
            } else {
                TransportState::Stopped
            },
            None => TransportState::PausedPlayback,
        }
    } else if has_uri {
        TransportState::Stopped
    } else {
        TransportState::NoMediaPresent
    }
}

/// The state of the renderer after the player reported `status`.
pub open spec fn refreshed(s: StateView, status: PlayerStatus) -> StateView {
    StateView {
        position: status.position,
        duration: status.duration,
        volume: status.volume,
        muted: status.muted,
        transport: observed_transport(status, s.uri is Some),
        ..s
    }
}

/// Takes over what the player reports.
pub fn apply_status(state: &mut RendererState, status: PlayerStatus)
    ensures
        final(state)@ == refreshed(old(state)@, status),
{
    state.position = status.position;
    state.duration = status.duration;
    state.volume = status.volume;
    state.muted = status.muted;
    state.transport = if status.playing {
        TransportState::Playing
    } else if status.paused {
        match status.duration {
            Some(duration) => if duration.exceeds(status.position) {
                TransportState::PausedPlayback
            } else {
                TransportState::Stopped
            },
            None => TransportState::PausedPlayback,
        }
    } else if state.uri.is_some() {
        TransportState::Stopped
    } else {
        TransportState::NoMediaPresent
    };
}

/// The state after the media was taken away.
pub open spec fn cleared(s: StateView) -> StateView {
    StateView {
        transport: TransportState::NoMediaPresent,
        uri: None,
        title: None,
        position: no_time(),
        duration: None,
        ..s
    }
}

/// The state after new media was loaded.
pub open spec fn with_media(
    s: StateView,
    uri: Seq<char>,
    title: Option<Seq<char>>,
) -> StateView {
    StateView {
        transport: TransportState::Stopped,
        uri: Some(uri),
        title,
        position: no_time(),
        duration: None,
        ..s
    }
}

/// The state after the player started.
pub open spec fn started(s: StateView, reloaded: bool) -> StateView {
    if reloaded {
        StateView {
            transport: TransportState::Playing,
            position: no_time(),
            duration: None,
            ..s
        }
    } else {
        StateView { transport: TransportState::Playing, ..s }
    }
}

/// The state after the player stopped: the media stays, to be played again.
pub open spec fn stopped(s: StateView) -> StateView {
    StateView {
        transport: if s.uri is Some {
            TransportState::Stopped
        } else {
            TransportState::NoMediaPresent
        },
        position: no_time(),
        ..s
    }
}

// ---------------------------------------------------------------------------
// AVTransport
// ---------------------------------------------------------------------------

/// The title of the media that a request is about.
pub open spec fn media_title(body: Seq<char>) -> Option<Seq<char>> {
    match xml_value_spec(body, "CurrentURIMetaData"@) {
        Some(metadata) => match xml_value_spec(decode_xml_spec(metadata), "dc:title"@) {
            Some(title) => Some(decode_xml_spec(title)),
            None => None,
        },
        None => None,
    }
}

/// The title of the media that a request is about, from its metadata.
fn request_title(body: &str) -> (r: Option<String>)
    ensures
        opt_view(r) == media_title(body@),
{
    match xml_value(body, "CurrentURIMetaData") {
        Some(metadata) => match xml_value(&decode_xml(&metadata), "dc:title") {
            Some(title) => Some(decode_xml(&title)),
            None => None,
        },
        None => None,
    }
}

/// How `SetAVTransportURI` begins: an empty address takes the media away, any
/// other is loaded.
pub open spec fn begin_set_uri(body: Seq<char>, s: StateView) -> (StepView, StateView) {
    match argument(body, "CurrentURI"@) {
        Err(f) => (faults(f), s),
        Ok(value) => {
            let uri = decode_xml_spec(value);
            let title = media_title(body);
            if uri.len() == 0 {
                (asks(CallView::Stop, PendingView::Clear), s)
            } else {
                (
                    asks(
                        CallView::Load { uri, title },
                        PendingView::Load { uri, title, previous: s.transport },
                    ),
                    StateView { transport: TransportState::Transitioning, ..s },
                )
            }
        },
    }
}

fn start_set_uri(body: &str, state: &mut RendererState) -> (r: Step)
    ensures
        (r@, final(state)@) == begin_set_uri(body@, old(state)@),
{
    let uri = match required_value(body, "CurrentURI") {
        Ok(value) => decode_xml(&value),
        Err(error) => {
            return Step::Finished(Err(error));
        },
    };
    if uri.as_str().is_empty() {
        assert(uri@.len() == 0);
        return ask(PlayerCall::Stop, Pending::Clear);
    }
    let title = request_title(body);
    let previous = state.transport;
    state.transport = TransportState::Transitioning;
    ask(
        PlayerCall::Load { uri: uri.clone(), title: copy_text(&title) },
        Pending::Load { uri, title, previous },
    )
}

/// The fault for an action that needs media where there is none.
pub open spec fn no_media() -> Fault {
    Fault { code: 714, description: "No Such Resource"@ }
}

/// How `Seek` begins: the target is a time within the media.
pub open spec fn begin_seek(
    body: Seq<char>,
    seconds: Option<Span>,
    s: StateView,
) -> StepView {
    match argument(body, "Unit"@) {
        Err(f) => faults(f),
        Ok(unit) => if unit != "REL_TIME"@ {
            faults(Fault { code: 710, description: "Seek Mode Not Supported"@ })
        } else {
            match argument(body, "Target"@) {
                Err(f) => faults(f),
                Ok(target) => match time_value(target, seconds) {
                    None => faults(invalid_args()),
                    Some(total) => {
                        let position = span_of(total);
                        if s.duration matches Some(duration) && position.longer_than(duration) {
                            faults(Fault { code: 711, description: "Illegal seek target"@ })
                        } else {
                            asks(CallView::Seek(position), PendingView::Seek(position))
                        }
                    },
                },
            }
        },
    }
}

/// The valid length with this many nanoseconds.
pub open spec fn span_of(total: int) -> Span {
    Span { secs: (total / 1_000_000_000) as u64, nanos: (total % 1_000_000_000) as u32 }
}

fn start_seek(body: &str, seconds: Option<Span>, state: &RendererState) -> (r: Step)
    requires
        seconds matches Some(s) ==> s.valid(),
    ensures
        r@ == begin_seek(body@, seconds, state@),
{
    let unit = match required_value(body, "Unit") {
        Ok(unit) => unit,
        Err(error) => {
            return Step::Finished(Err(error));
        },
    };
    if !same_text(&unit, "REL_TIME") {
        return fault(710, "Seek Mode Not Supported");
    }
    let target = match required_value(body, "Target") {
        Ok(target) => target,
        Err(error) => {
            return Step::Finished(Err(error));
        },
    };
    let position = match parse_upnp_time(&target, seconds) {
        Ok(position) => position,
        Err(error) => {
            return Step::Finished(Err(error));
        },
    };
    assert(position == span_of(position.total_nanos()));
    match state.duration {
        Some(duration) => {
            if position.exceeds(duration) {
                return fault(711, "Illegal seek target");
            }
        },
        None => {},
    }
    ask(PlayerCall::Seek(position), Pending::Seek(position))
}

/// The text of the seconds in a request's `Target`, which `Seek` needs read as a
/// number.
pub fn seek_seconds(body: &str) -> (r: Option<String>)
    ensures
        opt_view(r) == match xml_value_spec(body@, "Target"@) {
            Some(target) => seconds_field_spec(target),
            None => None,
        },
{
    match xml_value(body, "Target") {
        Some(target) => seconds_field(&target),
        None => None,
    }
}

/// How an action of AVTransport begins in state `s`.
pub open spec fn begin_transport(
    service: EventService,
    action: Seq<char>,
    body: Seq<char>,
    seconds: Option<Span>,
    s: StateView,
) -> (StepView, StateView) {
    let known = action == "SetAVTransportURI"@ || action == "Play"@ || action == "Pause"@ || action
        == "Stop"@ || action == "Seek"@ || action == "GetTransportInfo"@ || action
        == "GetPositionInfo"@ || action == "GetMediaInfo"@ || action == "GetTransportSettings"@;
    if !known {
        (faults(invalid_action()), s)
    } else if let Some(f) = instance_fault(body) {
        (faults(f), s)
    } else if action == "SetAVTransportURI"@ {
        begin_set_uri(body, s)
    } else if action == "Play"@ {
        match s.uri {
            Some(uri) => (
                asks(CallView::Status, PendingView::Inspect { uri, title: s.title }),
                s,
            ),
            None => (faults(no_media()), s),
        }
    } else if action == "Pause"@ {
        match s.uri {
            Some(_) => (asks(CallView::Pause, PendingView::Pause), s),
            None => (faults(no_media()), s),
        }
    } else if action == "Stop"@ {
        (asks(CallView::Stop, PendingView::Stop), s)
    } else if action == "Seek"@ {
        (begin_seek(body, seconds, s), s)
    } else if action == "GetTransportInfo"@ {
        (asks(CallView::Status, PendingView::Refresh(Query::TransportInfo)), s)
    } else if action == "GetPositionInfo"@ {
        (asks(CallView::Status, PendingView::Refresh(Query::PositionInfo)), s)
    } else if action == "GetMediaInfo"@ {
        (asks(CallView::Status, PendingView::Refresh(Query::MediaInfo)), s)
    } else {
        (
            replies(
                service,
                action,
                "<PlayMode>NORMAL</PlayMode><RecQualityMode>NOT_IMPLEMENTED</RecQualityMode>"@,
                false,
            ),
            s,
        )
    }
}

/// Begins an action of AVTransport. `seconds` is what `seek_seconds` denotes,
/// where that is a number from 0 up to, and without, 60.
pub fn start_transport(
    service: EventService,
    action: &str,
    body: &str,
    seconds: Option<Span>,
    state: &mut RendererState,
) -> (r: Step)
    requires
        seconds matches Some(s) ==> s.valid(),
    ensures
        (r@, final(state)@) == begin_transport(service, action@, body@, seconds, old(state)@),
{
    let set_uri = same_text(action, "SetAVTransportURI");
    let play = same_text(action, "Play");
    let pause = same_text(action, "Pause");
    let stop = same_text(action, "Stop");
    let seek = same_text(action, "Seek");
    let transport_info = same_text(action, "GetTransportInfo");
    let position_info = same_text(action, "GetPositionInfo");
    let media_info = same_text(action, "GetMediaInfo");
    let settings = same_text(action, "GetTransportSettings");
    if !(set_uri || play || pause || stop || seek || transport_info || position_info || media_info
        || settings) {
        return fault(401, "Invalid Action");
    }
    match require_instance_zero(body) {
        Ok(_) => {},
        Err(error) => {
            return Step::Finished(Err(error));
        },
    }
    if set_uri {
        start_set_uri(body, state)
    } else if play {
        match &state.uri {
            Some(uri) => ask(
                PlayerCall::Status,
                Pending::Inspect { uri: uri.clone(), title: copy_text(&state.title) },
            ),
            None => fault(714, "No Such Resource"),
        }
    } else if pause {
        if state.uri.is_some() {
            ask(PlayerCall::Pause, Pending::Pause)
        } else {
            fault(714, "No Such Resource")
        }
    } else if stop {
        ask(PlayerCall::Stop, Pending::Stop)
    } else if seek {
        start_seek(body, seconds, state)
    } else if transport_info {
        ask(PlayerCall::Status, Pending::Refresh(Query::TransportInfo))
    } else if position_info {
        ask(PlayerCall::Status, Pending::Refresh(Query::PositionInfo))
    } else if media_info {
        ask(PlayerCall::Status, Pending::Refresh(Query::MediaInfo))
    } else {
        reply(
            service,
            action,
            "<PlayMode>NORMAL</PlayMode><RecQualityMode>NOT_IMPLEMENTED</RecQualityMode>",
            false,
        )
    }
}

// ---------------------------------------------------------------------------
// RenderingControl
// ---------------------------------------------------------------------------

/// How `SetVolume` begins: the volume is a number up to 100.
pub open spec fn begin_set_volume(body: Seq<char>) -> StepView {
    match argument(body, "DesiredVolume"@) {
        Err(f) => faults(f),
        Ok(value) => match uint_value(value, 10, u16::MAX as int) {
            Some(n) => if n <= 100 {
                asks(CallView::SetVolume(n as u8), PendingView::SetVolume(n as u8))
            } else {
                faults(invalid_args())
            },
            None => faults(invalid_args()),
        },
    }
}

fn start_set_volume(body: &str) -> (r: Step)
    ensures
        r@ == begin_set_volume(body@),
{
    let value = match required_value(body, "DesiredVolume") {
        Ok(value) => value,
        Err(error) => {
            return Step::Finished(Err(error));
        },
    };
    match parse_uint(&value, 10, u16::MAX as u64) {
        Some(n) => if n <= 100 {
            ask(PlayerCall::SetVolume(n as u8), Pending::SetVolume(n as u8))
        } else {
            fault(402, "Invalid Args")
        },
        None => fault(402, "Invalid Args"),
    }
}

/// How `SetMute` begins.
pub open spec fn begin_set_mute(body: Seq<char>) -> StepView {
    match argument(body, "DesiredMute"@) {
        Err(f) => faults(f),
        Ok(value) => match bool_value(value) {
            Some(muted) => asks(CallView::SetMute(muted), PendingView::SetMute(muted)),
            None => faults(invalid_args()),
        },
    }
}

fn start_set_mute(body: &str) -> (r: Step)
    ensures
        r@ == begin_set_mute(body@),
{
    let value = match required_value(body, "DesiredMute") {
        Ok(value) => value,
        Err(error) => {
            return Step::Finished(Err(error));
        },
    };
    match parse_bool(&value) {
        Ok(muted) => ask(PlayerCall::SetMute(muted), Pending::SetMute(muted)),
        Err(error) => Step::Finished(Err(error)),
    }
}

/// How an action of RenderingControl begins.
pub open spec fn begin_rendering(action: Seq<char>, body: Seq<char>) -> StepView {
    let known = action == "GetVolume"@ || action == "SetVolume"@ || action == "GetMute"@ || action
        == "SetMute"@;
    if !known {
        faults(invalid_action())
    } else if let Some(f) = instance_fault(body) {
        faults(f)
    } else if let Some(f) = channel_fault(body) {
        faults(f)
    } else if action == "GetVolume"@ {
        asks(CallView::Status, PendingView::Refresh(Query::Volume))
    } else if action == "SetVolume"@ {
        begin_set_volume(body)
    } else if action == "GetMute"@ {
        asks(CallView::Status, PendingView::Refresh(Query::Mute))
    } else {
        begin_set_mute(body)
    }
}

/// Begins an action of RenderingControl.
pub fn start_rendering(action: &str, body: &str) -> (r: Step)
    ensures
        r@ == begin_rendering(action@, body@),
{
    let get_volume = same_text(action, "GetVolume");
    let set_volume = same_text(action, "SetVolume");
    let get_mute = same_text(action, "GetMute");
    let set_mute = same_text(action, "SetMute");
    if !(get_volume || set_volume || get_mute || set_mute) {
        return fault(401, "Invalid Action");
    }
    match require_instance_zero(body) {
        Ok(_) => {},
        Err(error) => {
            return Step::Finished(Err(error));
        },
    }
    match require_master_channel(body) {
        Ok(_) => {},
        Err(error) => {
            return Step::Finished(Err(error));
        },
    }
    if get_volume {
        ask(PlayerCall::Status, Pending::Refresh(Query::Volume))
    } else if set_volume {
        start_set_volume(body)
    } else if get_mute {
        ask(PlayerCall::Status, Pending::Refresh(Query::Mute))
    } else {
        start_set_mute(body)
    }
}

// ---------------------------------------------------------------------------
// Going on after a wait
// ---------------------------------------------------------------------------

/// The address of the media, escaped; nothing where there is no media.
pub open spec fn escaped_uri(s: StateView) -> Seq<char> {
    escape_xml_spec(s.uri.unwrap_or(seq![]))
}

/// The address of the media, escaped; nothing where there is no media.
pub fn escaped_address(state: &RendererState) -> (r: String)
    ensures
        r@ == escaped_uri(state@),
{
    match &state.uri {
        Some(uri) => escape_xml(uri),
        None => {
            assert(escape_xml_spec(seq![]) =~= seq![]);
            String::new()
        },
    }
}

/// The length of the media as a time; no time where it is not known.
pub open spec fn duration_text(s: StateView) -> Seq<char> {
    time_text(s.duration.unwrap_or(no_time()))
}

/// The length of the media as a time; no time where it is not known.
pub fn media_length(state: &RendererState) -> (r: String)
    ensures
        r@ == duration_text(state@),
{
    match state.duration {
        Some(duration) => format_upnp_time(duration),
        None => format_upnp_time(Span::zero()),
    }
}

/// The values that answer a query in state `s`.
pub open spec fn query_values(query: Query, s: StateView) -> Seq<char> {
    match query {
        Query::TransportInfo => "<CurrentTransportState>"@ + s.transport.name()
            + "</CurrentTransportState><CurrentTransportStatus>OK</CurrentTransportStatus><CurrentSpeed>1</CurrentSpeed>"@,
        Query::PositionInfo => "<Track>1</Track><TrackDuration>"@ + duration_text(s)
            + "</TrackDuration><TrackMetaData></TrackMetaData><TrackURI>"@ + escaped_uri(s)
            + "</TrackURI><RelTime>"@ + time_text(s.position) + "</RelTime><AbsTime>"@ + time_text(
            s.position,
        )
            + "</AbsTime><RelCount>2147483647</RelCount><AbsCount>2147483647</AbsCount>"@,
        Query::MediaInfo => "<NrTracks>1</NrTracks><MediaDuration>"@ + duration_text(s)
            + "</MediaDuration><CurrentURI>"@ + escaped_uri(s)
            + "</CurrentURI><CurrentURIMetaData></CurrentURIMetaData><NextURI></NextURI><NextURIMetaData></NextURIMetaData><PlayMedium>NETWORK</PlayMedium><RecordMedium>NOT_IMPLEMENTED</RecordMedium><WriteStatus>NOT_IMPLEMENTED</WriteStatus>"@,
        Query::Volume => "<CurrentVolume>"@ + decimal(s.volume as nat) + "</CurrentVolume>"@,
        Query::Mute => "<CurrentMute>"@ + bit(s.muted) + "</CurrentMute>"@,
    }
}

/// A truth value as a digit.
pub open spec fn bit(b: bool) -> Seq<char> {
    if b {
        "1"@
    } else {
        "0"@
    }
}

/// A truth value as a digit.
pub fn bit_text(b: bool) -> (r: &'static str)
    ensures
        r@ == bit(b),
{
    if b {
        "1"
    } else {
        "0"
    }
}

/// The values that answer a query.
pub fn answer_query(query: Query, state: &RendererState) -> (r: String)
    ensures
        r@ == query_values(query, state@),
{
    match query {
        Query::TransportInfo => {
            let mut s = "<CurrentTransportState>".to_owned();
            s.append(state.transport.upnp_value());
            s.append(
                "</CurrentTransportState><CurrentTransportStatus>OK</CurrentTransportStatus><CurrentSpeed>1</CurrentSpeed>",
            );
            s
        },
        Query::PositionInfo => {
            let position = format_upnp_time(state.position);
            let mut s = "<Track>1</Track><TrackDuration>".to_owned();
            s.append(&media_length(state));
            s.append("</TrackDuration><TrackMetaData></TrackMetaData><TrackURI>");
            s.append(&escaped_address(state));
            s.append("</TrackURI><RelTime>");
            s.append(&position);
            s.append("</RelTime><AbsTime>");
            s.append(&position);
            s.append("</AbsTime><RelCount>2147483647</RelCount><AbsCount>2147483647</AbsCount>");
            s
        },
        Query::MediaInfo => {
            let mut s = "<NrTracks>1</NrTracks><MediaDuration>".to_owned();
            s.append(&media_length(state));
            s.append("</MediaDuration><CurrentURI>");
            s.append(&escaped_address(state));
            s.append(
                "</CurrentURI><CurrentURIMetaData></CurrentURIMetaData><NextURI></NextURI><NextURIMetaData></NextURIMetaData><PlayMedium>NETWORK</PlayMedium><RecordMedium>NOT_IMPLEMENTED</RecordMedium><WriteStatus>NOT_IMPLEMENTED</WriteStatus>",
            );
            s
        },
        Query::Volume => {
            let mut s = "<CurrentVolume>".to_owned();
            s.append(&decimal_text(state.volume as u64));
            s.append("</CurrentVolume>");
            s
        },
        Query::Mute => {
            let mut s = "<CurrentMute>".to_owned();
            s.append(bit_text(state.muted));
            s.append("</CurrentMute>");
            s
        },
    }
}

/// Whether a player with this status has media.
pub open spec fn has_media(status: Option<PlayerStatus>) -> bool {
    match status {
        Some(status) => status.playing || status.paused || status.duration is Some,
        None => false,
    }
}

/// The state after a query: the player's status, where there is one, is taken
/// over.
pub open spec fn after_status(s: StateView, status: Option<PlayerStatus>) -> StateView {
    match status {
        Some(status) => refreshed(s, status),
        None => s,
    }
}

/// How an action that waits at `pending` goes on with `answer`, in state `s`.
pub open spec fn continued(
    service: EventService,
    action: Seq<char>,
    pending: PendingView,
    answer: Answer,
    s: StateView,
) -> (StepView, StateView) {
    let done = replies(service, action, ""@, true);
    match pending {
        PendingView::Refresh(query) => {
            let t = after_status(s, answer.status());
            (replies(service, action, query_values(query, t), false), t)
        },
        PendingView::Inspect { uri, title } => if has_media(answer.status()) {
            (asks(CallView::Play, PendingView::Start { reloaded: false }), s)
        } else {
            (asks(CallView::Load { uri, title }, PendingView::Reload), s)
        },
        PendingView::Record { uri, title } => (done, with_media(s, uri, title)),
        PendingView::Load { uri, title, previous } => if answer is Failed {
            (faults(action_failed()), StateView { transport: previous, ..s })
        } else {
            (
                StepView::Ask(
                    EffectView::Record { uri, title },
                    PendingView::Record { uri, title },
                ),
                s,
            )
        },
        _ => if answer is Failed {
            (faults(action_failed()), s)
        } else {
            match pending {
                PendingView::Clear => (done, cleared(s)),
                PendingView::Reload => (
                    asks(CallView::Play, PendingView::Start { reloaded: true }),
                    s,
                ),
                PendingView::Start { reloaded } => (done, started(s, reloaded)),
                PendingView::Pause => (
                    done,
                    StateView { transport: TransportState::PausedPlayback, ..s },
                ),
                PendingView::Stop => (done, stopped(s)),
                PendingView::Seek(position) => (done, StateView { position, ..s }),
                PendingView::SetVolume(volume) => (done, StateView { volume, ..s }),
                PendingView::SetMute(muted) => (done, StateView { muted, ..s }),
                _ => (done, s),
            }
        },
    }
}

/// Goes on with an action that waits at `pending`, now that there is an answer.
pub fn advance(
    service: EventService,
    action: &str,
    pending: Pending,
    answer: Answer,
    state: &mut RendererState,
) -> (r: Step)
    ensures
        (r@, final(state)@) == continued(service, action@, pending@, answer, old(state)@),
{
    let failed = answer.failed();
    match pending {
        Pending::Refresh(query) => {
            match answer.into_status() {
                Some(status) => apply_status(state, status),
                None => {},
            }
            let values = answer_query(query, state);
            return reply(service, action, &values, false);
        },
        Pending::Inspect { uri, title } => {
            let loaded = match answer.into_status() {
                Some(status) => status.playing || status.paused || status.duration.is_some(),
                None => false,
            };
            return if loaded {
                ask(PlayerCall::Play, Pending::Start { reloaded: false })
            } else {
                ask(PlayerCall::Load { uri, title }, Pending::Reload)
            };
        },
        Pending::Record { uri, title } => {
            state.uri = Some(uri);
            state.title = title;
            state.position = Span::zero();
            state.duration = None;
            state.transport = TransportState::Stopped;
        },
        Pending::Load { uri, title, previous } => {
            if failed {
                state.transport = previous;
                return fault(501, "Action Failed");
            }
            let record = Effect::Record { uri: uri.clone(), title: copy_text(&title) };
            return Step::Ask(record, Pending::Record { uri, title });
        },
        Pending::Clear => {
            if failed {
                return fault(501, "Action Failed");
            }
            state.transport = TransportState::NoMediaPresent;
            state.uri = None;
            state.title = None;
            state.position = Span::zero();
            state.duration = None;
        },
        Pending::Reload => {
            if failed {
                return fault(501, "Action Failed");
            }
            return ask(PlayerCall::Play, Pending::Start { reloaded: true });
        },
        Pending::Start { reloaded } => {
            if failed {
                return fault(501, "Action Failed");
            }
            if reloaded {
                state.position = Span::zero();
                state.duration = None;
            }
            state.transport = TransportState::Playing;
        },
        Pending::Pause => {
            if failed {
                return fault(501, "Action Failed");
            }
            state.transport = TransportState::PausedPlayback;
        },
        Pending::Stop => {
            if failed {
                return fault(501, "Action Failed");
            }
            state.transport = if state.uri.is_some() {
                TransportState::Stopped
            } else {
                TransportState::NoMediaPresent
            };
            state.position = Span::zero();
        },
        Pending::Seek(position) => {
            if failed {
                return fault(501, "Action Failed");
            }
            state.position = position;
        },
        Pending::SetVolume(volume) => {
            if failed {
                return fault(501, "Action Failed");
            }
            state.volume = volume;
        },
        Pending::SetMute(muted) => {
            if failed {
                return fault(501, "Action Failed");
            }
            state.muted = muted;
        },
    }
    reply(service, action, "", true)
}

} // verus!
