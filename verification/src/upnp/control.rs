//! Running control actions from begin to end.

use vstd::prelude::*;
use vstd::string::StringExecFns;
use crate::config::{kept_history, Config};
use crate::http::HttpRequest;
use crate::player::{answered, perform, Answer, CallView, PlayerBackend, PlayerCall};
use crate::state::{HistoryEntry, RendererState, Span, StateView};
use crate::text::{opt_view, same_text};
use crate::upnp::action::{
    advance, after_status, apply_status, begin_rendering, begin_transport, continued, faults,
    outcome, start_rendering, start_transport, Effect, EffectView, Outcome, PendingView, Reply,
    Step, StepView,
};
use crate::upnp::soap::{
    action_failed, action_response, answer, invalid_action, EventService, Fault, UpnpError,
};
use crate::xml::{escape_xml, escape_xml_spec};

verus! {

// ---------------------------------------------------------------------------
// ConnectionManager
// ---------------------------------------------------------------------------

/// How an action of ConnectionManager ends, where the player can play `sink`.
pub open spec fn connection_outcome(
    service: EventService,
    action: Seq<char>,
    sink: Seq<char>,
) -> Outcome {
    if action == "GetProtocolInfo"@ {
        Ok(
            (
                answer(
                    service,
                    action,
                    "<Source></Source><Sink>"@ + escape_xml_spec(sink) + "</Sink>"@,
                ),
                false,
            ),
        )
    } else if action == "GetCurrentConnectionIDs"@ {
        Ok((answer(service, action, "<ConnectionIDs>0</ConnectionIDs>"@), false))
    } else if action == "GetCurrentConnectionInfo"@ {
        Ok(
            (
                answer(
                    service,
                    action,
                    "<RcsID>0</RcsID><AVTransportID>0</AVTransportID><ProtocolInfo></ProtocolInfo><PeerConnectionManager></PeerConnectionManager><PeerConnectionID>-1</PeerConnectionID><Direction>Input</Direction><Status>OK</Status>"@,
                ),
                false,
            ),
        )
    } else {
        Err(invalid_action())
    }
}

/// Carries out an action of ConnectionManager, where the player can play `sink`.
pub fn execute_connection_manager(
    action: &str,
    service: EventService,
    sink: &str,
) -> (r: Result<Reply, UpnpError>)
    ensures
        outcome(r) == connection_outcome(service, action@, sink@),
{
    if same_text(action, "GetProtocolInfo") {
        let mut values = "<Source></Source><Sink>".to_owned();
        values.append(&escape_xml(sink));
        values.append("</Sink>");
        Ok(Reply { body: action_response(service, action, &values), changed: false })
    } else if same_text(action, "GetCurrentConnectionIDs") {
        Ok(
            Reply {
                body: action_response(service, action, "<ConnectionIDs>0</ConnectionIDs>"),
                changed: false,
            },
        )
    } else if same_text(action, "GetCurrentConnectionInfo") {
        Ok(
            Reply {
                body: action_response(
                    service,
                    action,
                    "<RcsID>0</RcsID><AVTransportID>0</AVTransportID><ProtocolInfo></ProtocolInfo><PeerConnectionManager></PeerConnectionManager><PeerConnectionID>-1</PeerConnectionID><Direction>Input</Direction><Status>OK</Status>",
                ),
                changed: false,
            },
        )
    } else {
        Err(UpnpError::new(401, "Invalid Action"))
    }
}

// ---------------------------------------------------------------------------
// Beginning any action
// ---------------------------------------------------------------------------

/// How an action begins. A renderer that is no longer running refuses all.
pub open spec fn begin_action(
    running: bool,
    service: EventService,
    action: Seq<char>,
    body: Seq<char>,
    seconds: Option<Span>,
    sink: Seq<char>,
    s: StateView,
) -> (StepView, StateView) {
    if !running {
        (faults(action_failed()), s)
    } else {
        match service {
            EventService::ConnectionManager => (
                StepView::Finished(connection_outcome(service, action, sink)),
                s,
            ),
            EventService::AvTransport => begin_transport(service, action, body, seconds, s),
            EventService::RenderingControl => (begin_rendering(action, body), s),
        }
    }
}

/// Begins an action. `seconds` is what `seek_seconds` denotes, where that is a
/// number from 0 up to, and without, 60; `sink` is what the player can play.
pub fn start_action(
    running: bool,
    service: EventService,
    action: &str,
    body: &str,
    seconds: Option<Span>,
    sink: &str,
    state: &mut RendererState,
) -> (r: Step)
    requires
        seconds matches Some(s) ==> s.valid(),
    ensures
        (r@, final(state)@) == begin_action(
            running,
            service,
            action@,
            body@,
            seconds,
            sink@,
            old(state)@,
        ),
{
    if !running {
        return Step::Finished(Err(UpnpError::new(501, "Action Failed")));
    }
    match service {
        EventService::ConnectionManager => Step::Finished(
            execute_connection_manager(action, service, sink),
        ),
        EventService::AvTransport => start_transport(service, action, body, seconds, state),
        EventService::RenderingControl => start_rendering(action, body),
    }
}

// ---------------------------------------------------------------------------
// From begin to end
// ---------------------------------------------------------------------------

/// How an action came to its end.
#[verifier::ext_equal]
pub struct Ended {
    pub outcome: Outcome,
    pub state: StateView,
    /// The media that was added to the history.
    pub recorded: Option<(Seq<char>, Option<Seq<char>>)>,
}

/// How an action ends that stands at `step` in state `s`, where `calls` are the
/// calls that the player gets from then on, with its answers. `None` where these
/// are not the calls that the action makes.
pub open spec fn ended(
    service: EventService,
    action: Seq<char>,
    step: StepView,
    s: StateView,
    calls: Seq<(CallView, Answer)>,
) -> Option<Ended>
    decreases calls.len(),
{
    match step {
        StepView::Finished(o) => if calls.len() == 0 {
            Some(Ended { outcome: o, state: s, recorded: None })
        } else {
            None
        },
        StepView::Ask(EffectView::Record { uri, title }, pending) => match continued(
            service,
            action,
            pending,
            Answer::Done,
            s,
        ) {
            (StepView::Finished(o), t) => if calls.len() == 0 {
                Some(Ended { outcome: o, state: t, recorded: Some((uri, title)) })
            } else {
                None
            },
            _ => None,
        },
        StepView::Ask(EffectView::Player(call), pending) => if calls.len() > 0 && calls[0].0
            == call {
            let (next, t) = continued(service, action, pending, calls[0].1, s);
            ended(service, action, next, t, calls.skip(1))
        } else {
            None
        },
    }
}

/// How many more waits an action has ahead of it, at most.
spec fn waits(step: StepView) -> nat {
    match step {
        StepView::Finished(_) => 0,
        StepView::Ask(_, pending) => match pending {
            PendingView::Inspect { .. } => 3,
            PendingView::Reload => 2,
            PendingView::Load { .. } => 2,
            _ => 1,
        },
    }
}

/// An action adds media to the history only as its last wait.
spec fn records_last(step: StepView) -> bool {
    match step {
        StepView::Ask(EffectView::Record { .. }, pending) => pending is Record,
        _ => true,
    }
}

/// What became of the history in an action.
pub open spec fn history_after(
    before: Seq<HistoryEntry>,
    after: Seq<HistoryEntry>,
    recorded: Option<(Seq<char>, Option<Seq<char>>)>,
    max: int,
) -> bool {
    match recorded {
        None => after == before,
        Some((uri, title)) => exists|entry: HistoryEntry|
            entry.uri@ == uri && opt_view(entry.title) == title && after == #[trigger] kept_history(
                before,
                entry,
                max,
            ),
    }
}

/// Whether an action that began so comes to this end where the player answers as in
/// `calls`.
pub open spec fn runs_to(
    service: EventService,
    action: Seq<char>,
    begun: (StepView, StateView),
    calls: Seq<(CallView, Answer)>,
    o: Outcome,
    s: StateView,
    before: Seq<HistoryEntry>,
    after: Seq<HistoryEntry>,
    max: int,
) -> bool {
    match ended(service, action, begun.0, begun.1, calls) {
        Some(end) => end.outcome == o && end.state == s && history_after(
            before,
            after,
            end.recorded,
            max,
        ),
        None => false,
    }
}

proof fn lemma_first_call(
    service: EventService,
    action: Seq<char>,
    call: CallView,
    pending: PendingView,
    s: StateView,
    answer: Answer,
    rest: Seq<(CallView, Answer)>,
)
    ensures
        ({
            let (next, t) = continued(service, action, pending, answer, s);
            ended(
                service,
                action,
                StepView::Ask(EffectView::Player(call), pending),
                s,
                seq![(call, answer)] + rest,
            ) == ended(service, action, next, t, rest)
        }),
{
    assert((seq![(call, answer)] + rest).skip(1) =~= rest);
}

/// Whether `players` are the states of a player before, between and after these calls, as
/// far as their number goes.
pub open spec fn spans<P>(calls: Seq<(CallView, Answer)>, players: Seq<P>) -> bool {
    players.len() == calls.len() + 1
}

/// Whether there is a call with this index.
pub open spec fn within(calls: Seq<(CallView, Answer)>, i: int) -> bool {
    0 <= i < calls.len()
}

/// Whether `player` was called so and gave this answer.
pub open spec fn gave<P: PlayerBackend>(player: &mut P, exchange: (CallView, Answer)) -> bool {
    answered(player, exchange.0, exchange.1)
}

/// Runs an action that stands at `first` to its end, with a player at hand. The player
/// gets the calls of the action, one after the other, and no others, and its answers are
/// those that the action goes on with.
fn run_action<P: PlayerBackend>(
    service: EventService,
    action: &str,
    first: Step,
    player: &mut P,
    state: &mut RendererState,
    history: &mut Vec<HistoryEntry>,
    max_history: usize,
) -> (r: Result<Reply, UpnpError>)
    requires
        records_last(first@),
    ensures
        exists|calls: Seq<(CallView, Answer)>, players: Seq<P>|
            {
                &&& #[trigger] spans(calls, players)
                &&& players[0] == *old(player)
                &&& players.last() == *final(player)
                &&& forall|i: int|
                    #[trigger] within(calls, i) ==> exists|p: &mut P|
                        *p == players[i] && *final(p) == players[i + 1] && #[trigger] gave(
                            p,
                            calls[i],
                        )
                &&& runs_to(
                    service,
                    action@,
                    (first@, old(state)@),
                    calls,
                    outcome(r),
                    final(state)@,
                    old(history)@,
                    final(history)@,
                    max_history as int,
                )
            },
{
    let ghost s0 = state@;
    let ghost step0 = first@;
    let ghost mut calls: Seq<(CallView, Answer)> = Seq::empty();
    let ghost mut players: Seq<P> = seq![*player];
    let mut step = first;
    assert forall|rest: Seq<(CallView, Answer)>|
        ended(service, action@, step0, s0, calls + rest) == #[trigger] ended(
            service,
            action@,
            step@,
            state@,
            rest,
        ) by {
        assert(calls + rest =~= rest);
    }
    loop
        invariant
            records_last(step@),
            forall|rest: Seq<(CallView, Answer)>|
                ended(service, action@, step0, s0, calls + rest) == #[trigger] ended(
                    service,
                    action@,
                    step@,
                    state@,
                    rest,
                ),
            step0 == first@,
            s0 == old(state)@,
            history@ == old(history)@,
            spans(calls, players),
            players[0] == *old(player),
            players.last() == *player,
            forall|i: int|
                #[trigger] within(calls, i) ==> exists|p: &mut P|
                    *p == players[i] && *final(p) == players[i + 1] && #[trigger] gave(p, calls[i]),
        decreases waits(step@),
    {
        proof {
            assert(calls + Seq::empty() =~= calls);
            let whole = ended(service, action@, step@, state@, Seq::empty());
            assert(ended(service, action@, step0, s0, calls + Seq::empty()) == whole);
        }
        match step {
            Step::Finished(result) => {
                assert(runs_to(
                    service,
                    action@,
                    (first@, old(state)@),
                    calls,
                    outcome(result),
                    state@,
                    old(history)@,
                    history@,
                    max_history as int,
                ));
                return result;
            },
            Step::Ask(Effect::Record { uri, title }, pending) => {
                let entry = HistoryEntry::new(uri, title);
                let mut entries: Vec<HistoryEntry> = Vec::new();
                std::mem::swap(history, &mut entries);
                *history = Config::append_history(entries, entry, max_history);
                match advance(service, action, pending, Answer::Done, state) {
                    Step::Finished(result) => {
                        assert(runs_to(
                            service,
                            action@,
                            (first@, old(state)@),
                            calls,
                            outcome(result),
                            state@,
                            old(history)@,
                            history@,
                            max_history as int,
                        ));
                        return result;
                    },
                    Step::Ask(_, _) => {
                        assert(false);
                        return Err(UpnpError::new(501, "Action Failed"));
                    },
                }
            },
            Step::Ask(Effect::Player(call), pending) => {
                let ghost here = state@;
                let ghost waiting = pending@;
                let ghost caller = *player;
                let answer = perform(player, &call);
                let next = advance(service, action, pending, answer, state);
                proof {
                    let calls1 = calls.push((call@, answer));
                    assert forall|rest: Seq<(CallView, Answer)>|
                        ended(service, action@, step0, s0, calls1 + rest) == #[trigger] ended(
                            service,
                            action@,
                            next@,
                            state@,
                            rest,
                        ) by {
                        let longer = seq![(call@, answer)] + rest;
                        assert(calls1 + rest =~= calls + longer);
                        lemma_first_call(
                            service,
                            action@,
                            call@,
                            waiting,
                            here,
                            answer,
                            rest,
                        );
                        assert(ended(
                            service,
                            action@,
                            StepView::Ask(EffectView::Player(call@), waiting),
                            here,
                            longer,
                        ) == ended(service, action@, step0, s0, calls + longer));
                    }
                    let players1 = players.push(*player);
                    assert forall|i: int|
                        #[trigger] within(calls1, i) implies exists|p: &mut P|
                        *p == players1[i] && *final(p) == players1[i + 1] && #[trigger] gave(
                            p,
                            calls1[i],
                        ) by {
                        if i < calls.len() {
                            assert(within(calls, i));
                            assert(calls1[i] == calls[i]);
                            assert(players1[i] == players[i] && players1[i + 1] == players[i + 1]);
                        } else {
                            let p = choose|p: &mut P|
                                *p == caller && *final(p) == *player && #[trigger] answered(
                                    p,
                                    call@,
                                    answer,
                                );
                            assert(gave(p, calls1[i]));
                        }
                    }
                    calls = calls1;
                    players = players1;
                }
                step = next;
            },
        }
    }
}

/// Carries out an action, with a player at hand.
pub fn execute_action<P: PlayerBackend>(
    action: &str,
    service: EventService,
    request: &HttpRequest,
    seconds: Option<Span>,
    player: &mut P,
    state: &mut RendererState,
    history: &mut Vec<HistoryEntry>,
    max_history: usize,
    running: bool,
) -> (r: Result<Reply, UpnpError>)
    requires
        seconds matches Some(s) ==> s.valid(),
    ensures
        exists|sink: &str, calls: Seq<(CallView, Answer)>, players: Seq<P>|
            {
                &&& #[trigger] call_ensures(P::sink_protocol_info, (&*old(player),), sink)
                &&& #[trigger] spans(calls, players)
                &&& players[0] == *old(player)
                &&& players.last() == *final(player)
                &&& forall|i: int|
                    #[trigger] within(calls, i) ==> exists|p: &mut P|
                        *p == players[i] && *final(p) == players[i + 1] && #[trigger] gave(
                            p,
                            calls[i],
                        )
                &&& runs_to(
                    service,
                    action@,
                    begin_action(
                        running,
                        service,
                        action@,
                        request.body@,
                        seconds,
                        sink@,
                        old(state)@,
                    ),
                    calls,
                    outcome(r),
                    final(state)@,
                    old(history)@,
                    final(history)@,
                    max_history as int,
                )
            },
        !running ==> outcome(r) == Err::<(Seq<char>, bool), Fault>(action_failed())
            && final(state)@ == old(state)@ && final(history)@ == old(history)@ && *final(player)
            == *old(player),
{
    let sink = player.sink_protocol_info().to_owned();
    let first = start_action(running, service, action, &request.body, seconds, &sink, state);
    run_action(service, action, first, player, state, history, max_history)
}

/// Carries out an action of AVTransport, with a player at hand.
pub fn execute_av_transport<P: PlayerBackend>(
    action: &str,
    service: EventService,
    request: &HttpRequest,
    seconds: Option<Span>,
    player: &mut P,
    state: &mut RendererState,
    history: &mut Vec<HistoryEntry>,
    max_history: usize,
) -> (r: Result<Reply, UpnpError>)
    requires
        seconds matches Some(s) ==> s.valid(),
    ensures
        exists|calls: Seq<(CallView, Answer)>, players: Seq<P>|
            {
                &&& #[trigger] spans(calls, players)
                &&& players[0] == *old(player)
                &&& players.last() == *final(player)
                &&& forall|i: int|
                    #[trigger] within(calls, i) ==> exists|p: &mut P|
                        *p == players[i] && *final(p) == players[i + 1] && #[trigger] gave(
                            p,
                            calls[i],
                        )
                &&& runs_to(
                    service,
                    action@,
                    begin_transport(service, action@, request.body@, seconds, old(state)@),
                    calls,
                    outcome(r),
                    final(state)@,
                    old(history)@,
                    final(history)@,
                    max_history as int,
                )
            },
{
    let first = start_transport(service, action, &request.body, seconds, state);
    run_action(service, action, first, player, state, history, max_history)
}

/// Carries out an action of RenderingControl, with a player at hand.
pub fn execute_rendering_control<P: PlayerBackend>(
    action: &str,
    service: EventService,
    request: &HttpRequest,
    player: &mut P,
    state: &mut RendererState,
) -> (r: Result<Reply, UpnpError>)
    ensures
        exists|calls: Seq<(CallView, Answer)>, players: Seq<P>|
            {
                &&& #[trigger] spans(calls, players)
                &&& players[0] == *old(player)
                &&& players.last() == *final(player)
                &&& forall|i: int|
                    #[trigger] within(calls, i) ==> exists|p: &mut P|
                        *p == players[i] && *final(p) == players[i + 1] && #[trigger] gave(
                            p,
                            calls[i],
                        )
                &&& ended(
                    service,
                    action@,
                    begin_rendering(action@, request.body@),
                    old(state)@,
                    calls,
                ) matches Some(end) && end.outcome == outcome(r) && end.state == final(state)@
            },
{
    let first = start_rendering(action, &request.body);
    let mut history: Vec<HistoryEntry> = Vec::new();
    run_action(service, action, first, player, state, &mut history, 0)
}

/// Takes over what the player reports, where it does.
pub fn refresh_player_state<P: PlayerBackend>(player: &mut P, state: &mut RendererState)
    ensures
        exists|p: &mut P, answer: Answer|
            *p == *old(player) && *final(p) == *final(player) && #[trigger] answered(
                p,
                CallView::Status,
                answer,
            ) && final(state)@ == after_status(old(state)@, answer.status()),
{
    let answer = perform(player, &PlayerCall::Status);
    match answer.into_status() {
        Some(status) => apply_status(state, status),
        None => {},
    }
    assert(state@ == after_status(old(state)@, answer.status()));
}

} // verus!
