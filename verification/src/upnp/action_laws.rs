//! What each control action does, from the request to its end.

use vstd::prelude::*;
use crate::number::uint_value;
use crate::player::{Answer, CallView};
use crate::state::{Span, StateView, TransportState};
use crate::text::split_spec;
use crate::upnp::action::{continued, EffectView, StepView};
use crate::upnp::control::{begin_action, ended, Ended};
use crate::upnp::soap::{EventService, Fault};
use crate::xml::{decode_xml_spec, xml_value_spec};

verus! {

/// How an action of a renderer that runs ends, where the player gets these calls and answers
/// them so; `None` where these are not the calls that it gets.
pub open spec fn run_of(
    service: EventService,
    action: Seq<char>,
    body: Seq<char>,
    seconds: Option<Span>,
    s: StateView,
    calls: Seq<(CallView, Answer)>,
) -> Option<Ended> {
    let begun = begin_action(true, service, action, body, seconds, seq![], s);
    ended(service, action, begun.0, begun.1, calls)
}

/// Whether an action went well, and told that something changed.
pub open spec fn went_well(end: Ended) -> bool {
    end.outcome matches Ok((_, changed)) && changed
}

/// Whether an action was refused with this code, and left all as it was.
pub open spec fn refused_with(end: Ended, code: u16, s: StateView) -> bool {
    (end.outcome matches Err(fault) && fault.code == code) && end.state == s && end.recorded is None
}

/// Whether a request is to the one instance that there is.
pub open spec fn to_instance_zero(body: Seq<char>) -> bool {
    xml_value_spec(body, "InstanceID"@) == Some("0"@)
}

/// Whether a request is to the master channel of the one instance that there is.
pub open spec fn to_master(body: Seq<char>) -> bool {
    to_instance_zero(body) && xml_value_spec(body, "Channel"@) == Some("Master"@)
}

/// The names of the actions of AVTransport differ.
proof fn lemma_transport_names()
    ensures
        "SetAVTransportURI"@.len() == 17,
        "Play"@.len() == 4,
        "Pause"@.len() == 5,
        "Stop"@.len() == 4,
        "Seek"@.len() == 4,
        "GetTransportInfo"@.len() == 16,
        "GetPositionInfo"@.len() == 15,
        "GetMediaInfo"@.len() == 12,
        "GetTransportSettings"@.len() == 20,
        "Play"@ != "Stop"@,
        "Play"@ != "Seek"@,
        "Stop"@ != "Seek"@,
{
    reveal_strlit("SetAVTransportURI");
    reveal_strlit("Play");
    reveal_strlit("Pause");
    reveal_strlit("Stop");
    reveal_strlit("Seek");
    reveal_strlit("GetTransportInfo");
    reveal_strlit("GetPositionInfo");
    reveal_strlit("GetMediaInfo");
    reveal_strlit("GetTransportSettings");
    assert("Play"@[0] == 'P' && "Stop"@[0] == 'S' && "Seek"@[0] == 'S');
    assert("Stop"@[1] == 't' && "Seek"@[1] == 'e');
}

/// The names of the actions of RenderingControl differ.
proof fn lemma_sound_names()
    ensures
        "GetVolume"@.len() == 9,
        "SetVolume"@.len() == 9,
        "GetMute"@.len() == 7,
        "SetMute"@.len() == 7,
        "GetVolume"@ != "SetVolume"@,
        "GetMute"@ != "SetMute"@,
{
    reveal_strlit("GetVolume");
    reveal_strlit("SetVolume");
    reveal_strlit("GetMute");
    reveal_strlit("SetMute");
    assert("GetVolume"@[0] == 'G' && "SetVolume"@[0] == 'S');
    assert("GetMute"@[0] == 'G' && "SetMute"@[0] == 'S');
}

/// `Pause` asks the player to pause, once, and for nothing else. Where the player does, the
/// renderer is paused and nothing else of its state changes; where it fails the action does.
pub proof fn law_pause_pauses_the_player(
    body: Seq<char>,
    seconds: Option<Span>,
    s: StateView,
    calls: Seq<(CallView, Answer)>,
    answer: Answer,
)
    requires
        to_instance_zero(body),
        s.uri is Some,
    ensures
        match run_of(EventService::AvTransport, "Pause"@, body, seconds, s, calls) {
            Some(end) => {
                &&& calls.len() == 1 && calls[0].0 == CallView::Pause
                &&& if calls[0].1 is Failed {
                    refused_with(end, 501, s)
                } else {
                    went_well(end) && end.recorded is None && end.state == StateView {
                        transport: TransportState::PausedPlayback,
                        ..s
                    }
                }
            },
            None => true,
        },
        run_of(
            EventService::AvTransport,
            "Pause"@,
            body,
            seconds,
            s,
            seq![(CallView::Pause, answer)],
        ) is Some,
{
    reveal_with_fuel(ended, 4);
    lemma_transport_names();
}

/// `Stop` asks the player to stop, once, and for nothing else. Where the player does, the
/// renderer is at the beginning of its media, which it keeps, or has none as before.
pub proof fn law_stop_stops_the_player(
    body: Seq<char>,
    seconds: Option<Span>,
    s: StateView,
    calls: Seq<(CallView, Answer)>,
    answer: Answer,
)
    requires
        to_instance_zero(body),
    ensures
        match run_of(EventService::AvTransport, "Stop"@, body, seconds, s, calls) {
            Some(end) => {
                &&& calls.len() == 1 && calls[0].0 == CallView::Stop
                &&& if calls[0].1 is Failed {
                    refused_with(end, 501, s)
                } else {
                    &&& went_well(end) && end.recorded is None
                    &&& s.uri is Some ==> end.state == StateView {
                        transport: TransportState::Stopped,
                        position: Span { secs: 0, nanos: 0 },
                        ..s
                    }
                    &&& s.uri is None ==> end.state == StateView {
                        transport: TransportState::NoMediaPresent,
                        position: Span { secs: 0, nanos: 0 },
                        ..s
                    }
                }
            },
            None => true,
        },
        run_of(
            EventService::AvTransport,
            "Stop"@,
            body,
            seconds,
            s,
            seq![(CallView::Stop, answer)],
        ) is Some,
{
    reveal_with_fuel(ended, 4);
    lemma_transport_names();
}

/// `Play` first asks the player for its status. A player that plays, is paused or knows how
/// long its media is has media, and is just started. Any other is handed the media of the
/// renderer first, and then started at its beginning.
pub proof fn law_play_starts_the_player(
    body: Seq<char>,
    seconds: Option<Span>,
    s: StateView,
    calls: Seq<(CallView, Answer)>,
)
    requires
        to_instance_zero(body),
        s.uri is Some,
    ensures
        match run_of(EventService::AvTransport, "Play"@, body, seconds, s, calls) {
            Some(end) => {
                let loaded = calls[0].1 matches Answer::Status(status) && (status.playing
                    || status.paused || status.duration is Some);
                let last = calls.len() - 1;
                &&& end.recorded is None
                &&& calls.len() >= 2 && calls[0].0 == CallView::Status
                &&& loaded ==> calls.len() == 2 && calls[1].0 == CallView::Play
                &&& !loaded ==> calls[1].0 == CallView::Load { uri: s.uri->0, title: s.title }
                &&& !loaded && calls[1].1 is Failed ==> calls.len() == 2
                &&& !loaded && !(calls[1].1 is Failed) ==> calls.len() == 3 && calls[2].0
                    == CallView::Play
                &&& if calls[last].1 is Failed {
                    refused_with(end, 501, s)
                } else if loaded {
                    went_well(end) && end.state == StateView {
                        transport: TransportState::Playing,
                        ..s
                    }
                } else {
                    went_well(end) && end.state == StateView {
                        transport: TransportState::Playing,
                        position: Span { secs: 0, nanos: 0 },
                        duration: None,
                        ..s
                    }
                }
            },
            None => true,
        },
{
    reveal_with_fuel(ended, 5);
    lemma_transport_names();
}

/// The calls that `Play` is shown to make are calls that it makes.
pub proof fn law_play_comes_to_an_end(
    body: Seq<char>,
    seconds: Option<Span>,
    s: StateView,
    status: Answer,
    load: Answer,
    play: Answer,
)
    requires
        to_instance_zero(body),
        s.uri is Some,
    ensures
        ({
            let loaded = status matches Answer::Status(seen) && (seen.playing || seen.paused
                || seen.duration is Some);
            let media = CallView::Load { uri: s.uri->0, title: s.title };
            let calls = if loaded {
                seq![(CallView::Status, status), (CallView::Play, play)]
            } else if load is Failed {
                seq![(CallView::Status, status), (media, load)]
            } else {
                seq![(CallView::Status, status), (media, load), (CallView::Play, play)]
            };
            run_of(EventService::AvTransport, "Play"@, body, seconds, s, calls) is Some
        }),
{
    reveal_with_fuel(ended, 5);
    lemma_transport_names();
}

/// Without media there is nothing to play or to pause: the player is not asked, and the
/// action is refused.
pub proof fn law_nothing_to_play(
    action: Seq<char>,
    body: Seq<char>,
    seconds: Option<Span>,
    s: StateView,
    calls: Seq<(CallView, Answer)>,
)
    requires
        action == "Play"@ || action == "Pause"@,
        to_instance_zero(body),
        s.uri is None,
    ensures
        match run_of(EventService::AvTransport, action, body, seconds, s, calls) {
            Some(end) => calls.len() == 0 && refused_with(end, 714, s),
            None => calls.len() > 0,
        },
{
    reveal_with_fuel(ended, 3);
    lemma_transport_names();
}

/// `SetAVTransportURI` hands the player the address in the request, once its references are
/// decoded, with the title in the metadata. Where the player takes it, that is the media of
/// the renderer, stopped at its beginning, and it is added to the history.
pub proof fn law_set_uri_loads_what_it_is_given(
    body: Seq<char>,
    seconds: Option<Span>,
    s: StateView,
    calls: Seq<(CallView, Answer)>,
    answer: Answer,
)
    requires
        to_instance_zero(body),
        xml_value_spec(body, "CurrentURI"@) matches Some(value) && decode_xml_spec(value).len() > 0,
    ensures
        ({
            let uri = decode_xml_spec(xml_value_spec(body, "CurrentURI"@)->0);
            let title = match xml_value_spec(body, "CurrentURIMetaData"@) {
                Some(data) => match xml_value_spec(decode_xml_spec(data), "dc:title"@) {
                    Some(text) => Some(decode_xml_spec(text)),
                    None => None,
                },
                None => None,
            };
            let action = "SetAVTransportURI"@;
            &&& match run_of(EventService::AvTransport, action, body, seconds, s, calls) {
                Some(end) => {
                    &&& calls.len() == 1 && calls[0].0 == CallView::Load { uri, title }
                    &&& if calls[0].1 is Failed {
                        refused_with(end, 501, s)
                    } else {
                        went_well(end) && end.recorded == Some((uri, title)) && end.state
                            == StateView {
                            transport: TransportState::Stopped,
                            uri: Some(uri),
                            title,
                            position: Span { secs: 0, nanos: 0 },
                            duration: None,
                            ..s
                        }
                    }
                },
                None => true,
            }
            &&& run_of(
                EventService::AvTransport,
                action,
                body,
                seconds,
                s,
                seq![(CallView::Load { uri, title }, answer)],
            ) is Some
        }),
{
    reveal_with_fuel(ended, 4);
    lemma_transport_names();
}

/// `SetAVTransportURI` with an empty address stops the player, and the renderer then has no
/// media.
pub proof fn law_empty_address_takes_the_media_away(
    body: Seq<char>,
    seconds: Option<Span>,
    s: StateView,
    calls: Seq<(CallView, Answer)>,
    answer: Answer,
)
    requires
        to_instance_zero(body),
        xml_value_spec(body, "CurrentURI"@) matches Some(value) && decode_xml_spec(value).len()
            == 0,
    ensures
        ({
            let action = "SetAVTransportURI"@;
            &&& match run_of(EventService::AvTransport, action, body, seconds, s, calls) {
                Some(end) => {
                    &&& calls.len() == 1 && calls[0].0 == CallView::Stop
                    &&& if calls[0].1 is Failed {
                        refused_with(end, 501, s)
                    } else {
                        went_well(end) && end.recorded is None && end.state == StateView {
                            transport: TransportState::NoMediaPresent,
                            uri: None,
                            title: None,
                            position: Span { secs: 0, nanos: 0 },
                            duration: None,
                            ..s
                        }
                    }
                },
                None => true,
            }
            &&& run_of(
                EventService::AvTransport,
                action,
                body,
                seconds,
                s,
                seq![(CallView::Stop, answer)],
            ) is Some
        }),
{
    reveal_with_fuel(ended, 4);
    lemma_transport_names();
}

/// `Seek` to a time in hours, minutes and seconds asks the player for just that time, and
/// that is where the renderer then is. A time behind the end of the media is refused.
pub proof fn law_seek_goes_to_the_time_given(
    body: Seq<char>,
    read: Span,
    s: StateView,
    calls: Seq<(CallView, Answer)>,
    answer: Answer,
    target: Seq<char>,
    hours: nat,
    minutes: nat,
    at: Span,
)
    requires
        to_instance_zero(body),
        xml_value_spec(body, "Unit"@) == Some("REL_TIME"@),
        xml_value_spec(body, "Target"@) == Some(target),
        split_spec(target, ':').len() == 3,
        uint_value(split_spec(target, ':')[0], 10, u64::MAX as int) == Some(hours),
        uint_value(split_spec(target, ':')[1], 10, u64::MAX as int) == Some(minutes),
        minutes < 60,
        read.valid(),
        read.secs < 60,
        at.valid(),
        at.secs == hours * 3600 + minutes * 60 + read.secs,
        at.nanos == read.nanos,
    ensures
        ({
            let beyond = s.duration matches Some(end) && (at.secs > end.secs || at.secs == end.secs
                && at.nanos > end.nanos);
            let transport = EventService::AvTransport;
            &&& match run_of(transport, "Seek"@, body, Some(read), s, calls) {
                Some(end) => if beyond {
                    calls.len() == 0 && refused_with(end, 711, s)
                } else {
                    &&& calls.len() == 1 && calls[0].0 == CallView::Seek(at)
                    &&& if calls[0].1 is Failed {
                        refused_with(end, 501, s)
                    } else {
                        went_well(end) && end.recorded is None && end.state == StateView {
                            position: at,
                            ..s
                        }
                    }
                },
                None => true,
            }
            &&& !beyond ==> run_of(
                transport,
                "Seek"@,
                body,
                Some(read),
                s,
                seq![(CallView::Seek(at), answer)],
            ) is Some
        }),
{
    reveal_with_fuel(ended, 4);
    lemma_transport_names();
    let total = (hours * 3600 + minutes * 60) * 1_000_000_000 + read.total_nanos();
    assert(total == at.total_nanos());
    assert(total / 1_000_000_000 == at.secs && total % 1_000_000_000 == at.nanos as int);
}

/// `Seek` by anything but a time from the beginning is refused, and so is one to what is not
/// a time.
pub proof fn law_seek_refuses_what_is_no_time(
    body: Seq<char>,
    seconds: Option<Span>,
    s: StateView,
    calls: Seq<(CallView, Answer)>,
)
    requires
        to_instance_zero(body),
    ensures
        ({
            let unit = xml_value_spec(body, "Unit"@);
            let target = xml_value_spec(body, "Target"@);
            match run_of(EventService::AvTransport, "Seek"@, body, seconds, s, calls) {
                Some(end) => {
                    &&& unit is None ==> calls.len() == 0 && refused_with(end, 402, s)
                    &&& unit is Some && unit != Some("REL_TIME"@) ==> calls.len() == 0
                        && refused_with(end, 710, s)
                    &&& unit == Some("REL_TIME"@) && (target is None || seconds is None
                        || split_spec(target->0, ':').len() != 3) ==> calls.len() == 0
                        && refused_with(end, 402, s)
                },
                None => calls.len() > 0 || unit == Some("REL_TIME"@),
            }
        }),
{
    reveal_with_fuel(ended, 4);
    lemma_transport_names();
}

/// `SetVolume` hands the player the volume in the request, and no other, where that is a
/// number up to 100. It is then the volume of the renderer.
pub proof fn law_set_volume_sets_what_it_is_given(
    body: Seq<char>,
    seconds: Option<Span>,
    s: StateView,
    calls: Seq<(CallView, Answer)>,
    answer: Answer,
    volume: u8,
)
    requires
        to_master(body),
        volume <= 100,
        xml_value_spec(body, "DesiredVolume"@) matches Some(value) && uint_value(
            value,
            10,
            u16::MAX as int,
        ) == Some(volume as nat),
    ensures
        match run_of(EventService::RenderingControl, "SetVolume"@, body, seconds, s, calls) {
            Some(end) => {
                &&& calls.len() == 1 && calls[0].0 == CallView::SetVolume(volume)
                &&& if calls[0].1 is Failed {
                    refused_with(end, 501, s)
                } else {
                    went_well(end) && end.recorded is None && end.state == StateView { volume, ..s }
                }
            },
            None => true,
        },
        run_of(
            EventService::RenderingControl,
            "SetVolume"@,
            body,
            seconds,
            s,
            seq![(CallView::SetVolume(volume), answer)],
        ) is Some,
{
    reveal_with_fuel(ended, 4);
    lemma_sound_names();
}

/// `SetVolume` to more than 100, or to what is no number, is refused.
pub proof fn law_set_volume_refuses_the_rest(
    body: Seq<char>,
    seconds: Option<Span>,
    s: StateView,
    calls: Seq<(CallView, Answer)>,
)
    requires
        to_master(body),
        xml_value_spec(body, "DesiredVolume"@) matches Some(value) ==> (uint_value(
            value,
            10,
            u16::MAX as int,
        ) matches Some(n) ==> n > 100),
    ensures
        match run_of(EventService::RenderingControl, "SetVolume"@, body, seconds, s, calls) {
            Some(end) => calls.len() == 0 && refused_with(end, 402, s),
            None => calls.len() > 0,
        },
{
    reveal_with_fuel(ended, 4);
    lemma_sound_names();
}

/// `SetMute` switches the sound of the player off for `1` and `true`, and on for `0` and
/// `false`. Anything else is refused.
pub proof fn law_set_mute_sets_what_it_is_given(
    body: Seq<char>,
    seconds: Option<Span>,
    s: StateView,
    calls: Seq<(CallView, Answer)>,
    answer: Answer,
    muted: bool,
)
    requires
        to_master(body),
    ensures
        ({
            let value = xml_value_spec(body, "DesiredMute"@);
            let wanted = value == Some("1"@) || value == Some("true"@);
            let unwanted = value == Some("0"@) || value == Some("false"@);
            let sound = EventService::RenderingControl;
            &&& match run_of(sound, "SetMute"@, body, seconds, s, calls) {
                Some(end) => if wanted || unwanted {
                    &&& calls.len() == 1 && calls[0].0 == CallView::SetMute(wanted)
                    &&& if calls[0].1 is Failed {
                        refused_with(end, 501, s)
                    } else {
                        went_well(end) && end.recorded is None && end.state == StateView {
                            muted: wanted,
                            ..s
                        }
                    }
                } else {
                    calls.len() == 0 && refused_with(end, 402, s)
                },
                None => wanted || unwanted || calls.len() > 0,
            }
            &&& wanted || unwanted ==> run_of(
                sound,
                "SetMute"@,
                body,
                seconds,
                s,
                seq![(CallView::SetMute(wanted), answer)],
            ) is Some
        }),
{
    reveal_with_fuel(ended, 4);
    lemma_sound_names();
    reveal_strlit("0");
    reveal_strlit("1");
    reveal_strlit("true");
    reveal_strlit("false");
    assert("0"@.len() == 1 && "1"@.len() == 1 && "true"@.len() == 4 && "false"@.len() == 5);
    assert("0"@[0] == '0' && "1"@[0] == '1');
}

/// A request to any other instance is refused, whatever action of AVTransport or
/// RenderingControl it asks for, and so is one that names none. The player is not asked.
pub proof fn law_other_instances_are_refused(
    service: EventService,
    action: Seq<char>,
    body: Seq<char>,
    seconds: Option<Span>,
    s: StateView,
    calls: Seq<(CallView, Answer)>,
)
    requires
        !to_instance_zero(body),
        service == EventService::AvTransport && (action == "SetAVTransportURI"@ || action
            == "Play"@ || action == "Pause"@ || action == "Stop"@ || action == "Seek"@ || action
            == "GetTransportInfo"@ || action == "GetPositionInfo"@ || action == "GetMediaInfo"@
            || action == "GetTransportSettings"@) || service == EventService::RenderingControl && (
        action == "GetVolume"@ || action == "SetVolume"@ || action == "GetMute"@ || action
            == "SetMute"@),
    ensures
        match run_of(service, action, body, seconds, s, calls) {
            Some(end) => calls.len() == 0 && refused_with(
                end,
                if xml_value_spec(body, "InstanceID"@) is Some {
                    718
                } else {
                    402
                },
                s,
            ),
            None => calls.len() > 0,
        },
{
    reveal_with_fuel(ended, 3);
}

/// A request to RenderingControl for any other channel than the master channel is refused.
pub proof fn law_other_channels_are_refused(
    action: Seq<char>,
    body: Seq<char>,
    seconds: Option<Span>,
    s: StateView,
    calls: Seq<(CallView, Answer)>,
)
    requires
        to_instance_zero(body),
        !to_master(body),
        action == "GetVolume"@ || action == "SetVolume"@ || action == "GetMute"@ || action
            == "SetMute"@,
    ensures
        match run_of(EventService::RenderingControl, action, body, seconds, s, calls) {
            Some(end) => calls.len() == 0 && refused_with(end, 402, s),
            None => calls.len() > 0,
        },
{
    reveal_with_fuel(ended, 3);
}

/// An action that a service does not have is refused, whatever the request holds.
pub proof fn law_unknown_actions_are_refused(
    service: EventService,
    action: Seq<char>,
    body: Seq<char>,
    seconds: Option<Span>,
    s: StateView,
    calls: Seq<(CallView, Answer)>,
)
    requires
        match service {
            EventService::AvTransport => action != "SetAVTransportURI"@ && action != "Play"@
                && action != "Pause"@ && action != "Stop"@ && action != "Seek"@ && action
                != "GetTransportInfo"@ && action != "GetPositionInfo"@ && action != "GetMediaInfo"@
                && action != "GetTransportSettings"@,
            EventService::RenderingControl => action != "GetVolume"@ && action != "SetVolume"@
                && action != "GetMute"@ && action != "SetMute"@,
            EventService::ConnectionManager => action != "GetProtocolInfo"@ && action
                != "GetCurrentConnectionIDs"@ && action != "GetCurrentConnectionInfo"@,
        },
    ensures
        match run_of(service, action, body, seconds, s, calls) {
            Some(end) => calls.len() == 0 && refused_with(end, 401, s),
            None => calls.len() > 0,
        },
{
    reveal_with_fuel(ended, 3);
}

/// `SetAVTransportURI` without an address is refused.
pub proof fn law_missing_address_is_refused(
    body: Seq<char>,
    seconds: Option<Span>,
    s: StateView,
    calls: Seq<(CallView, Answer)>,
)
    requires
        to_instance_zero(body),
        xml_value_spec(body, "CurrentURI"@) is None,
    ensures
        match run_of(EventService::AvTransport, "SetAVTransportURI"@, body, seconds, s, calls) {
            Some(end) => calls.len() == 0 && refused_with(end, 402, s),
            None => calls.len() > 0,
        },
{
    reveal_with_fuel(ended, 3);
}

/// `Seek` to what is no time of hours, minutes and seconds is refused: each must be a number, and
/// there are less than sixty minutes.
pub proof fn law_seek_refuses_odd_times(
    body: Seq<char>,
    seconds: Option<Span>,
    s: StateView,
    calls: Seq<(CallView, Answer)>,
    target: Seq<char>,
)
    requires
        to_instance_zero(body),
        xml_value_spec(body, "Unit"@) == Some("REL_TIME"@),
        xml_value_spec(body, "Target"@) == Some(target),
        ({
            let parts = split_spec(target, ':');
            parts.len() == 3 && (uint_value(parts[0], 10, u64::MAX as int) is None || uint_value(
                parts[1],
                10,
                u64::MAX as int,
            ) is None || uint_value(parts[1], 10, u64::MAX as int)->0 >= 60)
        }),
    ensures
        match run_of(EventService::AvTransport, "Seek"@, body, seconds, s, calls) {
            Some(end) => calls.len() == 0 && refused_with(end, 402, s),
            None => calls.len() > 0,
        },
{
    reveal_with_fuel(ended, 4);
    lemma_transport_names();
}

/// Whether a fault says in words what its code says.
pub open spec fn well_described(f: Fault) -> bool {
    ||| f.code == 401 && f.description == "Invalid Action"@
    ||| f.code == 402 && f.description == "Invalid Args"@
    ||| f.code == 501 && f.description == "Action Failed"@
    ||| f.code == 710 && f.description == "Seek Mode Not Supported"@
    ||| f.code == 711 && f.description == "Illegal seek target"@
    ||| f.code == 714 && f.description == "No Such Resource"@
    ||| f.code == 718 && f.description == "Invalid InstanceID"@
}

/// Each fault that an action ends with says in words what its code says.
pub proof fn law_faults_say_what_is_wrong(
    service: EventService,
    action: Seq<char>,
    body: Seq<char>,
    seconds: Option<Span>,
    s: StateView,
    calls: Seq<(CallView, Answer)>,
)
    ensures
        match run_of(service, action, body, seconds, s, calls) {
            Some(end) => match end.outcome {
                Err(f) => well_described(f),
                Ok(_) => true,
            },
            None => true,
        },
{
    let begun = begin_action(true, service, action, body, seconds, seq![], s);
    lemma_begins_described(service, action, body, seconds, s);
    lemma_ends_described(service, action, begun.0, begun.1, calls);
}

/// Whether a step ends with no fault, or with one that says what is wrong.
spec fn steps_described(step: StepView) -> bool {
    match step {
        StepView::Finished(Err(f)) => well_described(f),
        _ => true,
    }
}

proof fn lemma_begins_described(
    service: EventService,
    action: Seq<char>,
    body: Seq<char>,
    seconds: Option<Span>,
    s: StateView,
)
    ensures
        steps_described(begin_action(true, service, action, body, seconds, seq![], s).0),
{
}

proof fn lemma_ends_described(
    service: EventService,
    action: Seq<char>,
    step: StepView,
    s: StateView,
    calls: Seq<(CallView, Answer)>,
)
    requires
        steps_described(step),
    ensures
        match ended(service, action, step, s, calls) {
            Some(end) => match end.outcome {
                Err(f) => well_described(f),
                Ok(_) => true,
            },
            None => true,
        },
    decreases calls.len(),
{
    if let StepView::Ask(EffectView::Player(call), pending) = step {
        if calls.len() > 0 && calls[0].0 == call {
            let (next, t) = continued(service, action, pending, calls[0].1, s);
            lemma_ends_described(service, action, next, t, calls.skip(1));
        }
    }
}

} // verus!
