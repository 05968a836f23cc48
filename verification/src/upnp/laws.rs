//! What holds of every control action.

use vstd::prelude::*;
use crate::number::{decimal, uint_value};
use crate::player::{Answer, CallView};
use crate::state::{no_time, Span, StateView, TransportState};
use crate::upnp::action::{
    after_status, bit, cleared, continued, has_media, media_title, query_values, started,
    with_media, EffectView, PendingView, Query, StepView,
};
use crate::upnp::control::{begin_action, ended, Ended};
use crate::upnp::soap::{
    action_failed, answer, argument, bool_value, channel_fault, instance_fault, EventService, Fault,
};
use crate::xml::decode_xml_spec;

verus! {

/// What holds of an action that began in state `s` and now stands at `step` in
/// state `t`. Only where `setter` holds may it change which media there is.
spec fn on_its_way(setter: bool, s: StateView, step: StepView, t: StateView) -> bool {
    match step {
        StepView::Finished(Err(_)) => t == s,
        StepView::Finished(Ok(_)) => kept(setter, s, t) && (t.uri is Some ==> t.uri == s.uri
            && t.title == s.title),
        StepView::Ask(EffectView::Record { uri, title }, pending) => {
            &&& setter
            &&& pending == PendingView::Record { uri, title }
            &&& t == StateView { transport: TransportState::Transitioning, ..s }
        },
        StepView::Ask(EffectView::Player(call), pending) => match pending {
            PendingView::Load { uri, title, previous } => {
                &&& setter
                &&& call == CallView::Load { uri, title }
                &&& previous == s.transport
                &&& t == StateView { transport: TransportState::Transitioning, ..s }
            },
            PendingView::Record { .. } => false,
            PendingView::Clear => setter && t == s,
            PendingView::SetVolume(volume) => volume <= 100 && t == s,
            _ => t == s,
        },
    }
}

/// What an action that began in state `s` and ended in `t` leaves as it was.
spec fn kept(setter: bool, s: StateView, t: StateView) -> bool {
    &&& t.cast == s.cast
    &&& t.upnp_address == s.upnp_address
    &&& t.transport == s.transport || t.transport != TransportState::Transitioning
    &&& !setter ==> t.uri == s.uri && t.title == s.title
}

/// Whether no status in these calls holds a volume above 100.
spec fn moderate(calls: Seq<(CallView, Answer)>) -> bool {
    forall|i: int|
        0 <= i < calls.len() ==> ((#[trigger] calls[i]).1.status() matches Some(status)
            ==> status.volume <= 100)
}

/// What holds of the end of an action that began in state `s`, stood at `step` and
/// made these calls from then on.
spec fn ends_well(
    setter: bool,
    s: StateView,
    step: StepView,
    calls: Seq<(CallView, Answer)>,
    end: Ended,
) -> bool {
    &&& kept(setter, s, end.state)
    &&& end.outcome is Err ==> end.state == s && end.recorded is None
    &&& match end.recorded {
        Some((uri, title)) => {
            &&& setter
            &&& end.state.uri == Some(uri)
            &&& end.state.title == title
            &&& match step {
                StepView::Ask(EffectView::Player(call), pending) => pending is Load && calls.len()
                    == 1 && calls[0].0 == call && call == CallView::Load { uri, title },
                _ => calls.len() == 0,
            }
        },
        None => end.state.uri is Some ==> end.state.uri == s.uri && end.state.title == s.title,
    }
    &&& s.volume <= 100 && moderate(calls) && (step is Finished ==> end.state.volume <= 100)
        ==> end.state.volume <= 100
}

/// One step keeps an action on its way.
proof fn lemma_next_step(
    setter: bool,
    service: EventService,
    action: Seq<char>,
    s: StateView,
    call: CallView,
    pending: PendingView,
    answer: Answer,
    t: StateView,
)
    requires
        on_its_way(setter, s, StepView::Ask(EffectView::Player(call), pending), t),
    ensures
        ({
            let (next, u) = continued(service, action, pending, answer, t);
            &&& on_its_way(setter, s, next, u)
            &&& next is Ask ==> (match next {
                StepView::Ask(EffectView::Record { uri, title }, _) => call == CallView::Load {
                    uri,
                    title,
                },
                StepView::Ask(EffectView::Player(_), p) => !(p is Load),
                _ => true,
            })
            &&& next is Finished && s.volume <= 100 && (answer.status() matches Some(status)
                ==> status.volume <= 100) ==> u.volume <= 100
        }),
{
}

/// An action that is on its way ends well.
proof fn lemma_ends_well(
    setter: bool,
    service: EventService,
    action: Seq<char>,
    s: StateView,
    step: StepView,
    t: StateView,
    calls: Seq<(CallView, Answer)>,
)
    requires
        on_its_way(setter, s, step, t),
    ensures
        ended(service, action, step, t, calls) matches Some(end) ==> ends_well(
            setter,
            s,
            step,
            calls,
            end,
        ),
    decreases calls.len(),
{
    match step {
        StepView::Ask(EffectView::Player(call), pending) => {
            if calls.len() > 0 && calls[0].0 == call {
                let (next, u) = continued(service, action, pending, calls[0].1, t);
                let rest = calls.skip(1);
                lemma_next_step(setter, service, action, s, call, pending, calls[0].1, t);
                lemma_ends_well(setter, service, action, s, next, u, rest);
                assert(moderate(calls) ==> moderate(rest)) by {
                    if moderate(calls) {
                        assert forall|i: int| 0 <= i < rest.len() implies ((
                        #[trigger] rest[i]).1.status() matches Some(status) ==> status.volume
                            <= 100) by {
                            assert(rest[i] == calls[i + 1]);
                        }
                    }
                }
                if let StepView::Finished(_) = next {
                    assert(moderate(calls) ==> (calls[0].1.status() matches Some(status)
                        ==> status.volume <= 100));
                }
            }
        },
        _ => {},
    }
}

/// Every action is on its way when it begins.
proof fn lemma_begins_well(
    running: bool,
    service: EventService,
    action: Seq<char>,
    body: Seq<char>,
    seconds: Option<Span>,
    sink: Seq<char>,
    s: StateView,
)
    ensures
        ({
            let begun = begin_action(running, service, action, body, seconds, sink, s);
            on_its_way(action == "SetAVTransportURI"@, s, begun.0, begun.1) && (begun.0 is Finished
                ==> begun.1 == s)
        }),
{
}

/// A fault leaves everything as it was: the renderer's state, to which a failed
/// load is rolled back, and the history.
pub proof fn law_fault_changes_nothing(
    running: bool,
    service: EventService,
    action: Seq<char>,
    body: Seq<char>,
    seconds: Option<Span>,
    sink: Seq<char>,
    s: StateView,
    calls: Seq<(CallView, Answer)>,
)
    ensures
        ({
            let begun = begin_action(running, service, action, body, seconds, sink, s);
            match ended(service, action, begun.0, begun.1, calls) {
                Some(end) => end.outcome is Err ==> end.state == s && end.recorded is None,
                None => true,
            }
        }),
{
    let begun = begin_action(running, service, action, body, seconds, sink, s);
    lemma_begins_well(running, service, action, body, seconds, sink, s);
    lemma_ends_well(action == "SetAVTransportURI"@, service, action, s, begun.0, begun.1, calls);
}

/// A renderer that was stopped refuses every action with fault 501, and neither
/// its player nor its state is touched.
pub proof fn law_stopped_renderer_refuses(
    service: EventService,
    action: Seq<char>,
    body: Seq<char>,
    seconds: Option<Span>,
    sink: Seq<char>,
    s: StateView,
    calls: Seq<(CallView, Answer)>,
)
    ensures
        ({
            let begun = begin_action(false, service, action, body, seconds, sink, s);
            ended(service, action, begun.0, begun.1, calls) == if calls.len() == 0 {
                Some(Ended { outcome: Err(action_failed()), state: s, recorded: None })
            } else {
                None
            }
        }),
{
}

/// No action leaves the renderer in transition, unless it was so before and the
/// action is about something else.
pub proof fn law_no_action_ends_in_transition(
    running: bool,
    service: EventService,
    action: Seq<char>,
    body: Seq<char>,
    seconds: Option<Span>,
    sink: Seq<char>,
    s: StateView,
    calls: Seq<(CallView, Answer)>,
)
    ensures
        ({
            let begun = begin_action(running, service, action, body, seconds, sink, s);
            match ended(service, action, begun.0, begun.1, calls) {
                Some(end) => end.state.transport == s.transport || end.state.transport
                    != TransportState::Transitioning,
                None => true,
            }
        }),
{
    let begun = begin_action(running, service, action, body, seconds, sink, s);
    lemma_begins_well(running, service, action, body, seconds, sink, s);
    lemma_ends_well(action == "SetAVTransportURI"@, service, action, s, begun.0, begun.1, calls);
}

/// Whether the services are up, and where they are reached, is not for control
/// points to change.
pub proof fn law_actions_keep_the_service(
    running: bool,
    service: EventService,
    action: Seq<char>,
    body: Seq<char>,
    seconds: Option<Span>,
    sink: Seq<char>,
    s: StateView,
    calls: Seq<(CallView, Answer)>,
)
    ensures
        ({
            let begun = begin_action(running, service, action, body, seconds, sink, s);
            match ended(service, action, begun.0, begun.1, calls) {
                Some(end) => end.state.cast == s.cast && end.state.upnp_address == s.upnp_address,
                None => true,
            }
        }),
{
    let begun = begin_action(running, service, action, body, seconds, sink, s);
    lemma_begins_well(running, service, action, body, seconds, sink, s);
    lemma_ends_well(action == "SetAVTransportURI"@, service, action, s, begun.0, begun.1, calls);
}

/// Only `SetAVTransportURI` changes which media there is, and only it adds to the
/// history: exactly where it loaded what it was given.
pub proof fn law_media_changes_by_set_uri_alone(
    running: bool,
    service: EventService,
    action: Seq<char>,
    body: Seq<char>,
    seconds: Option<Span>,
    sink: Seq<char>,
    s: StateView,
    calls: Seq<(CallView, Answer)>,
)
    ensures
        ({
            let begun = begin_action(running, service, action, body, seconds, sink, s);
            match ended(service, action, begun.0, begun.1, calls) {
                Some(end) => {
                    &&& end.recorded matches Some((uri, title)) ==> end.state.uri == Some(uri)
                        && end.state.title == title && calls == seq![
                        (CallView::Load { uri, title }, calls[0].1),
                    ]
                    &&& end.recorded is None && end.state.uri is Some ==> end.state.uri == s.uri
                        && end.state.title == s.title
                    &&& action != "SetAVTransportURI"@ ==> end.recorded is None && end.state.uri
                        == s.uri && end.state.title == s.title
                },
                None => true,
            }
        }),
{
    let begun = begin_action(running, service, action, body, seconds, sink, s);
    lemma_begins_well(running, service, action, body, seconds, sink, s);
    lemma_ends_well(action == "SetAVTransportURI"@, service, action, s, begun.0, begun.1, calls);
    match ended(service, action, begun.0, begun.1, calls) {
        Some(end) => {
            if let Some((uri, title)) = end.recorded {
                assert(calls =~= seq![(CallView::Load { uri, title }, calls[0].1)]);
            }
        },
        None => {},
    }
}

/// An empty address takes the media away: the player is stopped and, where it did
/// stop, nothing is left of the media.
pub proof fn law_empty_uri_clears(
    body: Seq<char>,
    seconds: Option<Span>,
    sink: Seq<char>,
    s: StateView,
    answer: Answer,
)
    requires
        instance_fault(body) is None,
        argument(body, "CurrentURI"@) matches Ok(v) && decode_xml_spec(v).len() == 0,
        !(answer is Failed),
    ensures
        ({
            let service = EventService::AvTransport;
            let action = "SetAVTransportURI"@;
            let begun = begin_action(true, service, action, body, seconds, sink, s);
            match ended(service, action, begun.0, begun.1, seq![(CallView::Stop, answer)]) {
                Some(end) => end.outcome is Ok && end.state == cleared(s) && end.recorded is None,
                None => false,
            }
        }),
{
    reveal_with_fuel(ended, 4);
}

/// Stopping keeps the media, so that it can be played again, and goes back to its
/// beginning.
pub proof fn law_stop_keeps_media(
    body: Seq<char>,
    seconds: Option<Span>,
    sink: Seq<char>,
    s: StateView,
    answer: Answer,
)
    requires
        instance_fault(body) is None,
        !(answer is Failed),
    ensures
        ({
            let service = EventService::AvTransport;
            let action = "Stop"@;
            let begun = begin_action(true, service, action, body, seconds, sink, s);
            match ended(service, action, begun.0, begun.1, seq![(CallView::Stop, answer)]) {
                Some(end) => {
                    &&& end.outcome is Ok
                    &&& end.state.uri == s.uri
                    &&& end.state.title == s.title
                    &&& end.state.duration == s.duration
                    &&& end.state.position == no_time()
                    &&& end.state.transport == if s.uri is Some {
                        TransportState::Stopped
                    } else {
                        TransportState::NoMediaPresent
                    }
                },
                None => false,
            }
        }),
{
    reveal_with_fuel(ended, 4);
    reveal_strlit("Stop");
    reveal_strlit("SetAVTransportURI");
    reveal_strlit("Play");
    reveal_strlit("Pause");
    assert("Stop"@.len() == 4);
    assert("Play"@[0] == 'P' && "Stop"@[0] == 'S');
}

/// Playing media that the player no longer has loads it anew first. What follows
/// is played from its beginning.
pub proof fn law_play_reloads(
    body: Seq<char>,
    seconds: Option<Span>,
    sink: Seq<char>,
    s: StateView,
    calls: Seq<(CallView, Answer)>,
)
    requires
        instance_fault(body) is None,
        s.uri is Some,
        calls.len() > 0,
        !has_media(calls[0].1.status()),
    ensures
        ({
            let service = EventService::AvTransport;
            let action = "Play"@;
            let begun = begin_action(true, service, action, body, seconds, sink, s);
            match ended(service, action, begun.0, begun.1, calls) {
                Some(end) => {
                    &&& calls.len() >= 2
                    &&& calls[1].0 == CallView::Load { uri: s.uri->0, title: s.title }
                    &&& end.outcome is Ok ==> calls.len() == 3 && calls[2].0 == CallView::Play
                        && end.state == started(s, true)
                },
                None => true,
            }
        }),
{
    reveal_with_fuel(ended, 4);
    reveal_strlit("SetAVTransportURI");
    reveal_strlit("Play");
    assert("Play"@.len() == 4);
    assert("SetAVTransportURI"@.len() == 17);
}

/// The volume stays within 100 percent as long as the player reports no more.
pub proof fn law_volume_is_bounded(
    running: bool,
    service: EventService,
    action: Seq<char>,
    body: Seq<char>,
    seconds: Option<Span>,
    sink: Seq<char>,
    s: StateView,
    calls: Seq<(CallView, Answer)>,
)
    requires
        s.volume <= 100,
        forall|i: int|
            0 <= i < calls.len() ==> ((#[trigger] calls[i]).1.status() matches Some(status)
                ==> status.volume <= 100),
    ensures
        ({
            let begun = begin_action(running, service, action, body, seconds, sink, s);
            match ended(service, action, begun.0, begun.1, calls) {
                Some(end) => end.state.volume <= 100,
                None => true,
            }
        }),
{
    let begun = begin_action(running, service, action, body, seconds, sink, s);
    lemma_begins_well(running, service, action, body, seconds, sink, s);
    lemma_ends_well(action == "SetAVTransportURI"@, service, action, s, begun.0, begun.1, calls);
}

/// Seeking never asks the player for a place behind the end of the media, where its
/// length is known, and the renderer is then at the place that was asked for.
pub proof fn law_seek_stays_within_media(
    body: Seq<char>,
    seconds: Option<Span>,
    sink: Seq<char>,
    s: StateView,
    calls: Seq<(CallView, Answer)>,
)
    ensures
        ({
            let service = EventService::AvTransport;
            let action = "Seek"@;
            let begun = begin_action(true, service, action, body, seconds, sink, s);
            match ended(service, action, begun.0, begun.1, calls) {
                Some(end) => end.outcome is Ok ==> {
                    &&& calls.len() == 1
                    &&& calls[0].0 == CallView::Seek(end.state.position)
                    &&& s.duration matches Some(d) ==> !end.state.position.longer_than(d)
                    &&& end.state == StateView { position: end.state.position, ..s }
                },
                None => true,
            }
        }),
{
    reveal_with_fuel(ended, 4);
    lemma_seek_differs();
}

/// `Seek` is no other action.
proof fn lemma_seek_differs()
    ensures
        "Seek"@ != "SetAVTransportURI"@,
        "Seek"@ != "Play"@,
        "Seek"@ != "Pause"@,
        "Seek"@ != "Stop"@,
{
    reveal_strlit("Seek");
    reveal_strlit("SetAVTransportURI");
    reveal_strlit("Play");
    reveal_strlit("Pause");
    reveal_strlit("Stop");
    assert("Seek"@.len() == 4 && "SetAVTransportURI"@.len() == 17 && "Pause"@.len() == 5);
    assert("Seek"@[0] == 'S' && "Play"@[0] == 'P');
    assert("Seek"@[1] == 'e' && "Stop"@[1] == 't');
}

/// How an action that runs ends where the player answers as in `calls`.
pub open spec fn end_of(
    service: EventService,
    action: Seq<char>,
    body: Seq<char>,
    s: StateView,
    calls: Seq<(CallView, Answer)>,
) -> Option<Ended> {
    let begun = begin_action(true, service, action, body, None, seq![], s);
    ended(service, action, begun.0, begun.1, calls)
}

/// The names of the actions of RenderingControl differ.
proof fn lemma_rendering_names()
    ensures
        "GetVolume"@ != "SetVolume"@,
        "GetVolume"@ != "GetMute"@,
        "GetVolume"@ != "SetMute"@,
        "SetVolume"@ != "GetMute"@,
        "SetVolume"@ != "SetMute"@,
        "GetMute"@ != "SetMute"@,
{
    reveal_strlit("GetVolume");
    reveal_strlit("SetVolume");
    reveal_strlit("GetMute");
    reveal_strlit("SetMute");
    assert("GetVolume"@[0] == 'G' && "SetVolume"@[0] == 'S');
    assert("GetMute"@[0] == 'G' && "SetMute"@[0] == 'S');
    assert("GetVolume"@.len() == 9 && "GetMute"@.len() == 7);
    assert("SetVolume"@.len() == 9 && "SetMute"@.len() == 7);
}

/// A volume that was set is the one that is reported, until the player says
/// otherwise: where the player gives a status, what it says is reported.
pub proof fn law_set_volume_is_reported(
    set: Seq<char>,
    get: Seq<char>,
    s: StateView,
    v: u8,
    done: Answer,
    status: Answer,
)
    requires
        instance_fault(set) is None,
        channel_fault(set) is None,
        argument(set, "DesiredVolume"@) matches Ok(value) && uint_value(
            value,
            10,
            u16::MAX as int,
        ) == Some(v as nat),
        v <= 100,
        !(done is Failed),
        instance_fault(get) is None,
        channel_fault(get) is None,
    ensures
        ({
            let rendering = EventService::RenderingControl;
            match end_of(rendering, "SetVolume"@, set, s, seq![(CallView::SetVolume(v), done)]) {
                Some(e) => {
                    &&& e.state == StateView { volume: v, ..s }
                    &&& match end_of(
                        rendering,
                        "GetVolume"@,
                        get,
                        e.state,
                        seq![(CallView::Status, status)],
                    ) {
                        Some(r) => r.outcome == Ok::<(Seq<char>, bool), Fault>(
                            (
                                answer(
                                    rendering,
                                    "GetVolume"@,
                                    "<CurrentVolume>"@ + decimal(
                                        match status.status() {
                                            Some(seen) => seen.volume,
                                            None => v,
                                        } as nat,
                                    ) + "</CurrentVolume>"@,
                                ),
                                false,
                            ),
                        ),
                        None => false,
                    }
                },
                None => false,
            }
        }),
{
    reveal_with_fuel(ended, 4);
    lemma_rendering_names();
}

/// What was muted, or made audible, is reported so, until the player says otherwise.
pub proof fn law_set_mute_is_reported(
    set: Seq<char>,
    get: Seq<char>,
    s: StateView,
    muted: bool,
    done: Answer,
    status: Answer,
)
    requires
        instance_fault(set) is None,
        channel_fault(set) is None,
        argument(set, "DesiredMute"@) matches Ok(value) && bool_value(value) == Some(muted),
        !(done is Failed),
        instance_fault(get) is None,
        channel_fault(get) is None,
    ensures
        ({
            let rendering = EventService::RenderingControl;
            match end_of(rendering, "SetMute"@, set, s, seq![(CallView::SetMute(muted), done)]) {
                Some(e) => {
                    &&& e.state == StateView { muted, ..s }
                    &&& match end_of(
                        rendering,
                        "GetMute"@,
                        get,
                        e.state,
                        seq![(CallView::Status, status)],
                    ) {
                        Some(r) => r.outcome == Ok::<(Seq<char>, bool), Fault>(
                            (
                                answer(
                                    rendering,
                                    "GetMute"@,
                                    "<CurrentMute>"@ + bit(
                                        match status.status() {
                                            Some(seen) => seen.muted,
                                            None => muted,
                                        },
                                    ) + "</CurrentMute>"@,
                                ),
                                false,
                            ),
                        ),
                        None => false,
                    }
                },
                None => false,
            }
        }),
{
    reveal_with_fuel(ended, 4);
    lemma_rendering_names();
}

/// Media that was loaded is the media that is reported, whatever the player says of its
/// status: its address, its place at the beginning and its length are those of a query
/// in the state after loading.
pub proof fn law_loaded_media_is_reported(
    set: Seq<char>,
    get: Seq<char>,
    s: StateView,
    done: Answer,
    status: Answer,
)
    requires
        instance_fault(set) is None,
        argument(set, "CurrentURI"@) matches Ok(value) && decode_xml_spec(value).len() > 0,
        !(done is Failed),
        instance_fault(get) is None,
    ensures
        ({
            let transport = EventService::AvTransport;
            let uri = decode_xml_spec(argument(set, "CurrentURI"@)->Ok_0);
            let title = media_title(set);
            match end_of(
                transport,
                "SetAVTransportURI"@,
                set,
                s,
                seq![(CallView::Load { uri, title }, done)],
            ) {
                Some(e) => {
                    let seen = after_status(e.state, status.status());
                    &&& e.state == with_media(s, uri, title)
                    &&& e.recorded == Some((uri, title))
                    &&& seen.uri == Some(uri)
                    &&& match end_of(
                        transport,
                        "GetMediaInfo"@,
                        get,
                        e.state,
                        seq![(CallView::Status, status)],
                    ) {
                        Some(r) => r.outcome == Ok::<(Seq<char>, bool), Fault>(
                            (
                                answer(
                                    transport,
                                    "GetMediaInfo"@,
                                    query_values(Query::MediaInfo, seen),
                                ),
                                false,
                            ),
                        ),
                        None => false,
                    }
                },
                None => false,
            }
        }),
{
    reveal_with_fuel(ended, 4);
    reveal_strlit("GetMediaInfo");
    reveal_strlit("SetAVTransportURI");
    reveal_strlit("Play");
    reveal_strlit("Pause");
    reveal_strlit("Stop");
    reveal_strlit("Seek");
    reveal_strlit("GetTransportInfo");
    reveal_strlit("GetPositionInfo");
    assert("GetMediaInfo"@.len() == 12);
    assert("SetAVTransportURI"@.len() == 17);
    assert("Play"@.len() == 4 && "Pause"@.len() == 5 && "Stop"@.len() == 4 && "Seek"@.len() == 4);
    assert("GetTransportInfo"@.len() == 16 && "GetPositionInfo"@.len() == 15);
}

/// An action that is refused, or that is answered without the player, calls the player
/// not at all.
pub proof fn law_refused_action_calls_nothing(
    running: bool,
    service: EventService,
    action: Seq<char>,
    body: Seq<char>,
    seconds: Option<Span>,
    sink: Seq<char>,
    s: StateView,
    calls: Seq<(CallView, Answer)>,
)
    requires
        begin_action(running, service, action, body, seconds, sink, s).0 is Finished,
    ensures
        ({
            let begun = begin_action(running, service, action, body, seconds, sink, s);
            ended(service, action, begun.0, begun.1, calls) is Some ==> calls.len() == 0
        }),
{
}

/// Every action but `Play` that calls the player makes exactly one call, the one that it
/// begins with. Where the player fails at it, and it is no status query, the action ends
/// with fault 501, and nothing has changed.
pub proof fn law_actions_make_one_call(
    running: bool,
    service: EventService,
    action: Seq<char>,
    body: Seq<char>,
    seconds: Option<Span>,
    sink: Seq<char>,
    s: StateView,
    calls: Seq<(CallView, Answer)>,
)
    requires
        begin_action(running, service, action, body, seconds, sink, s).0 is Ask,
        action != "Play"@,
    ensures
        ({
            let begun = begin_action(running, service, action, body, seconds, sink, s);
            &&& begun.0 matches StepView::Ask(EffectView::Player(call), _)
            &&& match ended(service, action, begun.0, begun.1, calls) {
                Some(end) => {
                    &&& calls.len() == 1
                    &&& calls[0].0 == call
                    &&& !(call is Status) ==> (calls[0].1 is Failed <==> end.outcome is Err)
                    &&& end.outcome is Err ==> end.outcome == Err::<(Seq<char>, bool), Fault>(
                        action_failed(),
                    ) && end.state == s
                },
                None => true,
            }
        }),
{
    reveal_with_fuel(ended, 3);
}

/// `Play` asks the player for its status first. Where it has media it is started; where
/// it has none the media is loaded and, if that went well, started.
pub proof fn law_calls_of_play(
    body: Seq<char>,
    seconds: Option<Span>,
    sink: Seq<char>,
    s: StateView,
    calls: Seq<(CallView, Answer)>,
)
    requires
        instance_fault(body) is None,
        s.uri is Some,
    ensures
        ({
            let service = EventService::AvTransport;
            let action = "Play"@;
            let begun = begin_action(true, service, action, body, seconds, sink, s);
            match ended(service, action, begun.0, begun.1, calls) {
                Some(end) => {
                    let load = CallView::Load { uri: s.uri->0, title: s.title };
                    &&& calls.len() >= 2
                    &&& calls[0].0 == CallView::Status
                    &&& if has_media(calls[0].1.status()) {
                        calls.len() == 2 && calls[1].0 == CallView::Play && (end.outcome is Ok
                            <==> !(calls[1].1 is Failed)) && (end.outcome is Ok ==> end.state
                            == started(s, false))
                    } else if calls[1].1 is Failed {
                        calls.len() == 2 && calls[1].0 == load && end.outcome is Err
                    } else {
                        calls.len() == 3 && calls[1].0 == load && calls[2].0 == CallView::Play && (
                        end.outcome is Ok <==> !(calls[2].1 is Failed)) && (end.outcome is Ok
                            ==> end.state == started(s, true))
                    }
                    &&& end.outcome is Err ==> end.state == s
                },
                None => true,
            }
        }),
{
    reveal_with_fuel(ended, 5);
    reveal_strlit("SetAVTransportURI");
    reveal_strlit("Play");
    assert("Play"@.len() == 4);
    assert("SetAVTransportURI"@.len() == 17);
}

} // verus!
