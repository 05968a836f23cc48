//! What the answers to queries say, read back.

use vstd::prelude::*;
use crate::number::{decimal, lemma_padded_value, padded, uint_value};
use crate::player::{Answer, CallView, PlayerStatus};
use crate::reading::{
    clear_of, differs_soon, lacks, lemma_clear_joined, lemma_clear_plain, lemma_clear_text,
    lemma_joined, lemma_lacks_joined, lemma_nothing_added, lemma_number_is_read,
    lemma_padded_plain, lemma_trim_nothing,
};
use crate::state::{no_time, Span, StateView, TransportState};
use crate::text::trim_spec;
use crate::upnp::action::{
    after_status, bit, duration_text, escaped_uri, query_values, refreshed, Query,
};
use crate::upnp::action_laws::{run_of, to_instance_zero, to_master};
use crate::upnp::control::{ended, Ended};
use crate::upnp::soap::{answer, time_text, EventService};
use crate::xml::{escape_xml_spec, xml_value_spec};
use crate::xml_laws::{
    closing_tag, elements_text, law_escaped_has_no_markup, lemma_elements_are_read,
    lemma_next_element, no_mistaking, opening_tag, plain_elements, plain_tag,
};

verus! {

/// What stands before the values in an answer.
pub open spec fn answer_front(service: EventService, action: Seq<char>) -> Seq<char> {
    "<u:"@ + action + "Response xmlns:u=\""@ + service.urn_spec() + "\">"@
}

/// An answer is its values between its opening and its closing tag, and no value begins
/// before them.
pub proof fn lemma_answer_front(
    service: EventService,
    action: Seq<char>,
    values: Seq<char>,
    tag: Seq<char>,
)
    requires
        lacks(action, '<'),
        plain_tag(tag),
        tag[0] != 'u',
    ensures
        answer(service, action, values) == answer_front(service, action) + values + ("</u:"@
            + action + "Response>"@),
        clear_of(answer_front(service, action), "<"@ + tag),
{
    let mark = "<"@ + tag;
    let urn = service.urn_spec();
    let a = "<u:"@;
    let b = "Response xmlns:u=\""@;
    let c = "\">"@;
    assert(clear_of(a, mark) && clear_of(action, mark) && clear_of(b, mark) && clear_of(urn, mark)
        && clear_of(c, mark)) by {
        reveal_strlit("<");
        reveal_strlit("<u:");
        reveal_strlit("Response xmlns:u=\"");
        reveal_strlit("\">");
        reveal_strlit("urn:schemas-upnp-org:service:AVTransport:1");
        reveal_strlit("urn:schemas-upnp-org:service:RenderingControl:1");
        reveal_strlit("urn:schemas-upnp-org:service:ConnectionManager:1");
        assert(mark[0] == '<' && mark[1] == tag[0]);
        assert forall|j: int| 0 <= j < a.len() implies #[trigger] differs_soon(a, mark, j) by {}
        lemma_clear_text(a, mark);
        lemma_clear_plain(action, mark);
        lemma_clear_plain(b, mark);
        lemma_clear_plain(urn, mark);
        lemma_clear_plain(c, mark);
    }
    lemma_clear_joined(a, action, mark);
    lemma_clear_joined(a + action, b, mark);
    lemma_clear_joined(a + action + b, urn, mark);
    lemma_clear_joined(a + action + b + urn, c, mark);
    assert(answer(service, action, values) =~= answer_front(service, action) + values + ("</u:"@
        + action + "Response>"@));
}

/// The names of the transport states are one word each.
pub proof fn lemma_transport_name(t: TransportState)
    ensures
        lacks(t.name(), '<'),
        lacks(t.name(), '"'),
        trim_spec(t.name()) == t.name(),
{
    reveal_strlit("NO_MEDIA_PRESENT");
    reveal_strlit("STOPPED");
    reveal_strlit("PLAYING");
    reveal_strlit("PAUSED_PLAYBACK");
    reveal_strlit("TRANSITIONING");
    lemma_trim_nothing(t.name());
}

/// A time is written in digits and colons.
pub proof fn lemma_time_plain(t: Span)
    ensures
        lacks(time_text(t), '<'),
        lacks(time_text(t), '"'),
        lacks(time_text(t), '\n'),
        trim_spec(time_text(t)) == time_text(t),
{
    let h = padded((t.secs / 3600) as nat, 2);
    let m = padded((t.secs % 3600 / 60) as nat, 2);
    let s = padded((t.secs % 60) as nat, 2);
    reveal_strlit(":");
    lemma_padded_value((t.secs / 3600) as nat, 2);
    lemma_padded_value((t.secs % 60) as nat, 2);
    assert forall|c: char| c == '<' || c == '"' || c == '\n' implies #[trigger] lacks(
        time_text(t),
        c,
    ) by {
        lemma_padded_plain((t.secs / 3600) as nat, 2, c);
        lemma_padded_plain((t.secs % 3600 / 60) as nat, 2, c);
        lemma_padded_plain((t.secs % 60) as nat, 2, c);
        lemma_lacks_joined(h, ":"@, c);
        lemma_lacks_joined(h + ":"@, m, c);
        lemma_lacks_joined(h + ":"@ + m, ":"@, c);
        lemma_lacks_joined(h + ":"@ + m + ":"@, s, c);
    }
    let text = time_text(t);
    assert(text[0] == h[0]);
    assert(text[text.len() - 1] == s[s.len() - 1]);
    assert('0' <= h[0] <= '9' && '0' <= s[s.len() - 1] <= '9');
    lemma_trim_nothing(text);
}

proof fn lemma_transport_info_text_1()
    ensures
        "<CurrentTransportState>"@ == opening_tag("CurrentTransportState"@),
{
    reveal_strlit("<CurrentTransportState>");
    reveal_strlit("<");
    reveal_strlit(">");
    reveal_strlit("</");
    reveal_strlit("CurrentTransportState");
    assert("<CurrentTransportState>"@ =~= opening_tag("CurrentTransportState"@));
}

proof fn lemma_transport_info_text_2a()
    ensures
        "</CurrentTransportState><CurrentTransportStatus>OK"@ == closing_tag("CurrentTransportState"@) + opening_tag("CurrentTransportStatus"@) + "OK"@,
{
    reveal_strlit("</CurrentTransportState><CurrentTransportStatus>OK");
    reveal_strlit("<");
    reveal_strlit(">");
    reveal_strlit("</");
    reveal_strlit("CurrentTransportState");
    reveal_strlit("CurrentTransportStatus");
    reveal_strlit("OK");
    assert("</CurrentTransportState><CurrentTransportStatus>OK"@ =~= closing_tag("CurrentTransportState"@) + opening_tag("CurrentTransportStatus"@) + "OK"@);
}

proof fn lemma_transport_info_text_2b()
    ensures
        "</CurrentTransportStatus><CurrentSpeed>1</CurrentSpeed>"@ == closing_tag("CurrentTransportStatus"@) + opening_tag("CurrentSpeed"@) + "1"@ + closing_tag("CurrentSpeed"@),
{
    reveal_strlit("</CurrentTransportStatus><CurrentSpeed>1</CurrentSpeed>");
    reveal_strlit("<");
    reveal_strlit(">");
    reveal_strlit("</");
    reveal_strlit("CurrentTransportStatus");
    reveal_strlit("CurrentSpeed");
    reveal_strlit("1");
    assert("</CurrentTransportStatus><CurrentSpeed>1</CurrentSpeed>"@ =~= closing_tag("CurrentTransportStatus"@) + opening_tag("CurrentSpeed"@) + "1"@ + closing_tag("CurrentSpeed"@));
}

proof fn lemma_transport_info_text_2()
    ensures
        "</CurrentTransportState><CurrentTransportStatus>OK</CurrentTransportStatus><CurrentSpeed>1</CurrentSpeed>"@ == closing_tag("CurrentTransportState"@) + opening_tag("CurrentTransportStatus"@) + "OK"@ + closing_tag("CurrentTransportStatus"@) + opening_tag("CurrentSpeed"@) + "1"@ + closing_tag("CurrentSpeed"@),
{
    lemma_transport_info_text_2a();
    lemma_transport_info_text_2b();
    assert("</CurrentTransportState><CurrentTransportStatus>OK</CurrentTransportStatus><CurrentSpeed>1</CurrentSpeed>"@ == "</CurrentTransportState><CurrentTransportStatus>OK"@ + "</CurrentTransportStatus><CurrentSpeed>1</CurrentSpeed>"@) by {
        reveal_strlit("</CurrentTransportState><CurrentTransportStatus>OK</CurrentTransportStatus><CurrentSpeed>1</CurrentSpeed>");
        reveal_strlit("</CurrentTransportState><CurrentTransportStatus>OK");
        reveal_strlit("</CurrentTransportStatus><CurrentSpeed>1</CurrentSpeed>");
        assert("</CurrentTransportState><CurrentTransportStatus>OK</CurrentTransportStatus><CurrentSpeed>1</CurrentSpeed>"@ =~= "</CurrentTransportState><CurrentTransportStatus>OK"@ + "</CurrentTransportStatus><CurrentSpeed>1</CurrentSpeed>"@);
    }
    lemma_joined(closing_tag("CurrentTransportState"@) + opening_tag("CurrentTransportStatus"@) + "OK"@, closing_tag("CurrentTransportStatus"@) + opening_tag("CurrentSpeed"@) + "1"@, closing_tag("CurrentSpeed"@));
    lemma_joined(closing_tag("CurrentTransportState"@) + opening_tag("CurrentTransportStatus"@) + "OK"@, closing_tag("CurrentTransportStatus"@) + opening_tag("CurrentSpeed"@), "1"@);
    lemma_joined(closing_tag("CurrentTransportState"@) + opening_tag("CurrentTransportStatus"@) + "OK"@, closing_tag("CurrentTransportStatus"@), opening_tag("CurrentSpeed"@));
}

/// The elements of the answer to `GetTransportInfo`.
spec fn transport_info_elements(s: StateView) -> Seq<(Seq<char>, Seq<char>)> {
    seq![
        ("CurrentTransportState"@, s.transport.name()),
        ("CurrentTransportStatus"@, "OK"@),
        ("CurrentSpeed"@, "1"@),
    ]
}

#[verifier::rlimit(40)]
proof fn lemma_transport_info_shape(s: StateView)
    ensures
        query_values(Query::TransportInfo, s) == elements_text(transport_info_elements(s)),
{
    lemma_transport_name(s.transport);
    lemma_transport_info_text_1();
    lemma_transport_info_text_2();
    let x0 = Seq::<char>::empty();
    let v0 = Seq::<(Seq<char>, Seq<char>)>::empty();
    assert(x0 =~= elements_text(v0));
    let x1 = x0 + opening_tag("CurrentTransportState"@) + s.transport.name() + closing_tag("CurrentTransportState"@);
    let v1 = v0.push(("CurrentTransportState"@, s.transport.name()));
    lemma_next_element(x0, v0, "CurrentTransportState"@, s.transport.name());
    let x2 = x1 + opening_tag("CurrentTransportStatus"@) + "OK"@ + closing_tag("CurrentTransportStatus"@);
    let v2 = v1.push(("CurrentTransportStatus"@, "OK"@));
    lemma_next_element(x1, v1, "CurrentTransportStatus"@, "OK"@);
    let x3 = x2 + opening_tag("CurrentSpeed"@) + "1"@ + closing_tag("CurrentSpeed"@);
    let v3 = v2.push(("CurrentSpeed"@, "1"@));
    lemma_next_element(x2, v2, "CurrentSpeed"@, "1"@);
    assert(v3 == transport_info_elements(s)) by {
        assert(v3 =~= transport_info_elements(s));
    }
    let s1 = "<CurrentTransportState>"@;
    let s2 = s1 + s.transport.name();
    let s3 = s2 + "</CurrentTransportState><CurrentTransportStatus>OK</CurrentTransportStatus><CurrentSpeed>1</CurrentSpeed>"@;
    let f0 = Seq::<char>::empty();
    let f1 = f0 + opening_tag("CurrentTransportState"@);
    lemma_nothing_added(s1);
    assert(f1 == f0 + s1);
    assert(s1 == f1);
    let f2 = f1 + s.transport.name();
    assert(s2 == f2);
    let f3 = f2 + closing_tag("CurrentTransportState"@) + opening_tag("CurrentTransportStatus"@) + "OK"@ + closing_tag("CurrentTransportStatus"@) + opening_tag("CurrentSpeed"@) + "1"@ + closing_tag("CurrentSpeed"@);
    lemma_joined(f2, closing_tag("CurrentTransportState"@) + opening_tag("CurrentTransportStatus"@) + "OK"@ + closing_tag("CurrentTransportStatus"@) + opening_tag("CurrentSpeed"@) + "1"@, closing_tag("CurrentSpeed"@));
    lemma_joined(f2, closing_tag("CurrentTransportState"@) + opening_tag("CurrentTransportStatus"@) + "OK"@ + closing_tag("CurrentTransportStatus"@) + opening_tag("CurrentSpeed"@), "1"@);
    lemma_joined(f2, closing_tag("CurrentTransportState"@) + opening_tag("CurrentTransportStatus"@) + "OK"@ + closing_tag("CurrentTransportStatus"@), opening_tag("CurrentSpeed"@));
    lemma_joined(f2, closing_tag("CurrentTransportState"@) + opening_tag("CurrentTransportStatus"@) + "OK"@, closing_tag("CurrentTransportStatus"@));
    lemma_joined(f2, closing_tag("CurrentTransportState"@) + opening_tag("CurrentTransportStatus"@), "OK"@);
    lemma_joined(f2, closing_tag("CurrentTransportState"@), opening_tag("CurrentTransportStatus"@));
    assert(s3 == f3);
    assert(f3 == x3);
    assert(query_values(Query::TransportInfo, s) == s3);
}

proof fn lemma_transport_info_plain(s: StateView)
    ensures
        plain_elements(transport_info_elements(s)),
{
    lemma_transport_name(s.transport);
    let v = transport_info_elements(s);
    reveal_strlit("CurrentTransportState");
    reveal_strlit("CurrentTransportStatus");
    reveal_strlit("CurrentSpeed");
    reveal_strlit("OK");
    reveal_strlit("1");
    assert forall|k: int| 0 <= k < v.len() implies plain_tag((#[trigger] v[k]).0) && lacks(
        v[k].1,
        '<',
    ) by {}
}

/// The answer to `GetTransportInfo` says the name of the transport state.
#[verifier::rlimit(40)]
pub proof fn law_transport_info_is_read(s: StateView)
    ensures
        ({
            let text = answer(EventService::AvTransport, "GetTransportInfo"@, query_values(Query::TransportInfo, s));
            &&& xml_value_spec(text, "CurrentTransportState"@) == Some(match s.transport {
                TransportState::NoMediaPresent => "NO_MEDIA_PRESENT"@,
                TransportState::Stopped => "STOPPED"@,
                TransportState::Playing => "PLAYING"@,
                TransportState::PausedPlayback => "PAUSED_PLAYBACK"@,
                TransportState::Transitioning => "TRANSITIONING"@,
            })
            &&& xml_value_spec(text, "CurrentTransportStatus"@) == Some("OK"@)
            &&& xml_value_spec(text, "CurrentSpeed"@) == Some("1"@)
        }),
{
    let action = "GetTransportInfo"@;
    assert(lacks(action, '<')) by {
        reveal_strlit("GetTransportInfo");
    }
    let values = query_values(Query::TransportInfo, s);
    let v = transport_info_elements(s);
    let front = answer_front(EventService::AvTransport, action);
    let rest = "</u:"@ + action + "Response>"@;
    lemma_transport_info_shape(s);
    lemma_transport_info_plain(s);
    lemma_transport_name(s.transport);
    assert(trim_spec("OK"@) == "OK"@) by {
        reveal_strlit("OK");
        lemma_trim_nothing("OK"@);
    }
    assert(trim_spec("1"@) == "1"@) by {
        reveal_strlit("1");
        lemma_trim_nothing("1"@);
    }
    assert forall|k: int| 0 <= k < 0 implies no_mistaking((#[trigger] v[k]).0, "CurrentTransportState"@) by {
        reveal_strlit("CurrentTransportState");
    }
    assert(plain_tag("CurrentTransportState"@) && "CurrentTransportState"@[0] != 'u') by {
        reveal_strlit("CurrentTransportState");
    }
    lemma_answer_front(EventService::AvTransport, action, values, "CurrentTransportState"@);
    lemma_elements_are_read(front, v, rest, 0);
    assert forall|k: int| 0 <= k < 1 implies no_mistaking((#[trigger] v[k]).0, "CurrentTransportStatus"@) by {
        reveal_strlit("CurrentTransportStatus");
        reveal_strlit("CurrentTransportState");
    }
    assert(plain_tag("CurrentTransportStatus"@) && "CurrentTransportStatus"@[0] != 'u') by {
        reveal_strlit("CurrentTransportStatus");
    }
    lemma_answer_front(EventService::AvTransport, action, values, "CurrentTransportStatus"@);
    lemma_elements_are_read(front, v, rest, 1);
    assert forall|k: int| 0 <= k < 2 implies no_mistaking((#[trigger] v[k]).0, "CurrentSpeed"@) by {
        reveal_strlit("CurrentSpeed");
        reveal_strlit("CurrentTransportState");
        reveal_strlit("CurrentTransportStatus");
        assert("CurrentTransportState"@[7] != "CurrentSpeed"@[7]);
        assert("CurrentTransportStatus"@[7] != "CurrentSpeed"@[7]);
    }
    assert(plain_tag("CurrentSpeed"@) && "CurrentSpeed"@[0] != 'u') by {
        reveal_strlit("CurrentSpeed");
    }
    lemma_answer_front(EventService::AvTransport, action, values, "CurrentSpeed"@);
    lemma_elements_are_read(front, v, rest, 2);
}

proof fn lemma_position_info_text_1()
    ensures
        "<Track>1</Track><TrackDuration>"@ == opening_tag("Track"@) + "1"@ + closing_tag("Track"@) + opening_tag("TrackDuration"@),
{
    reveal_strlit("<Track>1</Track><TrackDuration>");
    reveal_strlit("<");
    reveal_strlit(">");
    reveal_strlit("</");
    reveal_strlit("Track");
    reveal_strlit("1");
    reveal_strlit("TrackDuration");
    assert("<Track>1</Track><TrackDuration>"@ =~= opening_tag("Track"@) + "1"@ + closing_tag("Track"@) + opening_tag("TrackDuration"@));
}

proof fn lemma_position_info_text_2()
    ensures
        "</TrackDuration><TrackMetaData></TrackMetaData><TrackURI>"@ == closing_tag("TrackDuration"@) + opening_tag("TrackMetaData"@) + closing_tag("TrackMetaData"@) + opening_tag("TrackURI"@),
{
    reveal_strlit("</TrackDuration><TrackMetaData></TrackMetaData><TrackURI>");
    reveal_strlit("<");
    reveal_strlit(">");
    reveal_strlit("</");
    reveal_strlit("TrackDuration");
    reveal_strlit("TrackMetaData");
    reveal_strlit("TrackURI");
    assert("</TrackDuration><TrackMetaData></TrackMetaData><TrackURI>"@ =~= closing_tag("TrackDuration"@) + opening_tag("TrackMetaData"@) + closing_tag("TrackMetaData"@) + opening_tag("TrackURI"@));
}

proof fn lemma_position_info_text_3()
    ensures
        "</TrackURI><RelTime>"@ == closing_tag("TrackURI"@) + opening_tag("RelTime"@),
{
    reveal_strlit("</TrackURI><RelTime>");
    reveal_strlit("<");
    reveal_strlit(">");
    reveal_strlit("</");
    reveal_strlit("TrackURI");
    reveal_strlit("RelTime");
    assert("</TrackURI><RelTime>"@ =~= closing_tag("TrackURI"@) + opening_tag("RelTime"@));
}

proof fn lemma_position_info_text_4()
    ensures
        "</RelTime><AbsTime>"@ == closing_tag("RelTime"@) + opening_tag("AbsTime"@),
{
    reveal_strlit("</RelTime><AbsTime>");
    reveal_strlit("<");
    reveal_strlit(">");
    reveal_strlit("</");
    reveal_strlit("RelTime");
    reveal_strlit("AbsTime");
    assert("</RelTime><AbsTime>"@ =~= closing_tag("RelTime"@) + opening_tag("AbsTime"@));
}

proof fn lemma_position_info_text_5a()
    ensures
        "</AbsTime><RelCount>2147483647"@ == closing_tag("AbsTime"@) + opening_tag("RelCount"@) + "2147483647"@,
{
    reveal_strlit("</AbsTime><RelCount>2147483647");
    reveal_strlit("<");
    reveal_strlit(">");
    reveal_strlit("</");
    reveal_strlit("AbsTime");
    reveal_strlit("RelCount");
    reveal_strlit("2147483647");
    assert("</AbsTime><RelCount>2147483647"@ =~= closing_tag("AbsTime"@) + opening_tag("RelCount"@) + "2147483647"@);
}

proof fn lemma_position_info_text_5b()
    ensures
        "</RelCount><AbsCount>2147483647</AbsCount>"@ == closing_tag("RelCount"@) + opening_tag("AbsCount"@) + "2147483647"@ + closing_tag("AbsCount"@),
{
    reveal_strlit("</RelCount><AbsCount>2147483647</AbsCount>");
    reveal_strlit("<");
    reveal_strlit(">");
    reveal_strlit("</");
    reveal_strlit("RelCount");
    reveal_strlit("AbsCount");
    reveal_strlit("2147483647");
    assert("</RelCount><AbsCount>2147483647</AbsCount>"@ =~= closing_tag("RelCount"@) + opening_tag("AbsCount"@) + "2147483647"@ + closing_tag("AbsCount"@));
}

proof fn lemma_position_info_text_5()
    ensures
        "</AbsTime><RelCount>2147483647</RelCount><AbsCount>2147483647</AbsCount>"@ == closing_tag("AbsTime"@) + opening_tag("RelCount"@) + "2147483647"@ + closing_tag("RelCount"@) + opening_tag("AbsCount"@) + "2147483647"@ + closing_tag("AbsCount"@),
{
    lemma_position_info_text_5a();
    lemma_position_info_text_5b();
    assert("</AbsTime><RelCount>2147483647</RelCount><AbsCount>2147483647</AbsCount>"@ == "</AbsTime><RelCount>2147483647"@ + "</RelCount><AbsCount>2147483647</AbsCount>"@) by {
        reveal_strlit("</AbsTime><RelCount>2147483647</RelCount><AbsCount>2147483647</AbsCount>");
        reveal_strlit("</AbsTime><RelCount>2147483647");
        reveal_strlit("</RelCount><AbsCount>2147483647</AbsCount>");
        assert("</AbsTime><RelCount>2147483647</RelCount><AbsCount>2147483647</AbsCount>"@ =~= "</AbsTime><RelCount>2147483647"@ + "</RelCount><AbsCount>2147483647</AbsCount>"@);
    }
    lemma_joined(closing_tag("AbsTime"@) + opening_tag("RelCount"@) + "2147483647"@, closing_tag("RelCount"@) + opening_tag("AbsCount"@) + "2147483647"@, closing_tag("AbsCount"@));
    lemma_joined(closing_tag("AbsTime"@) + opening_tag("RelCount"@) + "2147483647"@, closing_tag("RelCount"@) + opening_tag("AbsCount"@), "2147483647"@);
    lemma_joined(closing_tag("AbsTime"@) + opening_tag("RelCount"@) + "2147483647"@, closing_tag("RelCount"@), opening_tag("AbsCount"@));
}

/// The elements of the answer to `GetPositionInfo`.
spec fn position_info_elements(s: StateView) -> Seq<(Seq<char>, Seq<char>)> {
    seq![
        ("Track"@, "1"@),
        ("TrackDuration"@, duration_text(s)),
        ("TrackMetaData"@, Seq::<char>::empty()),
        ("TrackURI"@, escaped_uri(s)),
        ("RelTime"@, time_text(s.position)),
        ("AbsTime"@, time_text(s.position)),
        ("RelCount"@, "2147483647"@),
        ("AbsCount"@, "2147483647"@),
    ]
}

#[verifier::rlimit(40)]
proof fn lemma_position_info_shape(s: StateView)
    ensures
        query_values(Query::PositionInfo, s) == elements_text(position_info_elements(s)),
{
    lemma_time_plain(s.position);
    lemma_time_plain(s.duration.unwrap_or(no_time()));
    law_escaped_has_no_markup(s.uri.unwrap_or(seq![]));
    assert(lacks(escaped_uri(s), '<'));
    lemma_position_info_text_1();
    lemma_position_info_text_2();
    lemma_position_info_text_3();
    lemma_position_info_text_4();
    lemma_position_info_text_5();
    let x0 = Seq::<char>::empty();
    let v0 = Seq::<(Seq<char>, Seq<char>)>::empty();
    assert(x0 =~= elements_text(v0));
    let x1 = x0 + opening_tag("Track"@) + "1"@ + closing_tag("Track"@);
    let v1 = v0.push(("Track"@, "1"@));
    lemma_next_element(x0, v0, "Track"@, "1"@);
    let x2 = x1 + opening_tag("TrackDuration"@) + duration_text(s) + closing_tag("TrackDuration"@);
    let v2 = v1.push(("TrackDuration"@, duration_text(s)));
    lemma_next_element(x1, v1, "TrackDuration"@, duration_text(s));
    let x3 = x2 + opening_tag("TrackMetaData"@) + Seq::<char>::empty() + closing_tag("TrackMetaData"@);
    let v3 = v2.push(("TrackMetaData"@, Seq::<char>::empty()));
    lemma_next_element(x2, v2, "TrackMetaData"@, Seq::<char>::empty());
    let x4 = x3 + opening_tag("TrackURI"@) + escaped_uri(s) + closing_tag("TrackURI"@);
    let v4 = v3.push(("TrackURI"@, escaped_uri(s)));
    lemma_next_element(x3, v3, "TrackURI"@, escaped_uri(s));
    let x5 = x4 + opening_tag("RelTime"@) + time_text(s.position) + closing_tag("RelTime"@);
    let v5 = v4.push(("RelTime"@, time_text(s.position)));
    lemma_next_element(x4, v4, "RelTime"@, time_text(s.position));
    let x6 = x5 + opening_tag("AbsTime"@) + time_text(s.position) + closing_tag("AbsTime"@);
    let v6 = v5.push(("AbsTime"@, time_text(s.position)));
    lemma_next_element(x5, v5, "AbsTime"@, time_text(s.position));
    let x7 = x6 + opening_tag("RelCount"@) + "2147483647"@ + closing_tag("RelCount"@);
    let v7 = v6.push(("RelCount"@, "2147483647"@));
    lemma_next_element(x6, v6, "RelCount"@, "2147483647"@);
    let x8 = x7 + opening_tag("AbsCount"@) + "2147483647"@ + closing_tag("AbsCount"@);
    let v8 = v7.push(("AbsCount"@, "2147483647"@));
    lemma_next_element(x7, v7, "AbsCount"@, "2147483647"@);
    assert(v8 == position_info_elements(s)) by {
        assert(v8 =~= position_info_elements(s));
    }
    let s1 = "<Track>1</Track><TrackDuration>"@;
    let s2 = s1 + duration_text(s);
    let s3 = s2 + "</TrackDuration><TrackMetaData></TrackMetaData><TrackURI>"@;
    let s4 = s3 + escaped_uri(s);
    let s5 = s4 + "</TrackURI><RelTime>"@;
    let s6 = s5 + time_text(s.position);
    let s7 = s6 + "</RelTime><AbsTime>"@;
    let s8 = s7 + time_text(s.position);
    let s9 = s8 + "</AbsTime><RelCount>2147483647</RelCount><AbsCount>2147483647</AbsCount>"@;
    let f0 = Seq::<char>::empty();
    let f1 = f0 + opening_tag("Track"@) + "1"@ + closing_tag("Track"@) + opening_tag("TrackDuration"@);
    lemma_nothing_added(s1);
    lemma_joined(f0, opening_tag("Track"@) + "1"@ + closing_tag("Track"@), opening_tag("TrackDuration"@));
    lemma_joined(f0, opening_tag("Track"@) + "1"@, closing_tag("Track"@));
    lemma_joined(f0, opening_tag("Track"@), "1"@);
    assert(f1 == f0 + s1);
    assert(s1 == f1);
    let f2 = f1 + duration_text(s);
    assert(s2 == f2);
    let f3 = f2 + closing_tag("TrackDuration"@) + opening_tag("TrackMetaData"@) + closing_tag("TrackMetaData"@) + opening_tag("TrackURI"@);
    lemma_joined(f2, closing_tag("TrackDuration"@) + opening_tag("TrackMetaData"@) + closing_tag("TrackMetaData"@), opening_tag("TrackURI"@));
    lemma_joined(f2, closing_tag("TrackDuration"@) + opening_tag("TrackMetaData"@), closing_tag("TrackMetaData"@));
    lemma_joined(f2, closing_tag("TrackDuration"@), opening_tag("TrackMetaData"@));
    assert(s3 == f3);
    let f4 = f3 + escaped_uri(s);
    assert(s4 == f4);
    let f5 = f4 + closing_tag("TrackURI"@) + opening_tag("RelTime"@);
    lemma_joined(f4, closing_tag("TrackURI"@), opening_tag("RelTime"@));
    assert(s5 == f5);
    let f6 = f5 + time_text(s.position);
    assert(s6 == f6);
    let f7 = f6 + closing_tag("RelTime"@) + opening_tag("AbsTime"@);
    lemma_joined(f6, closing_tag("RelTime"@), opening_tag("AbsTime"@));
    assert(s7 == f7);
    let f8 = f7 + time_text(s.position);
    assert(s8 == f8);
    let f9 = f8 + closing_tag("AbsTime"@) + opening_tag("RelCount"@) + "2147483647"@ + closing_tag("RelCount"@) + opening_tag("AbsCount"@) + "2147483647"@ + closing_tag("AbsCount"@);
    lemma_joined(f8, closing_tag("AbsTime"@) + opening_tag("RelCount"@) + "2147483647"@ + closing_tag("RelCount"@) + opening_tag("AbsCount"@) + "2147483647"@, closing_tag("AbsCount"@));
    lemma_joined(f8, closing_tag("AbsTime"@) + opening_tag("RelCount"@) + "2147483647"@ + closing_tag("RelCount"@) + opening_tag("AbsCount"@), "2147483647"@);
    lemma_joined(f8, closing_tag("AbsTime"@) + opening_tag("RelCount"@) + "2147483647"@ + closing_tag("RelCount"@), opening_tag("AbsCount"@));
    lemma_joined(f8, closing_tag("AbsTime"@) + opening_tag("RelCount"@) + "2147483647"@, closing_tag("RelCount"@));
    lemma_joined(f8, closing_tag("AbsTime"@) + opening_tag("RelCount"@), "2147483647"@);
    lemma_joined(f8, closing_tag("AbsTime"@), opening_tag("RelCount"@));
    assert(s9 == f9);
    lemma_nothing_added(x2 + opening_tag("TrackMetaData"@));
    assert(f9 == x8);
    assert(query_values(Query::PositionInfo, s) == s9);
}

proof fn lemma_position_info_plain(s: StateView)
    ensures
        plain_elements(position_info_elements(s)),
{
    lemma_time_plain(s.position);
    lemma_time_plain(s.duration.unwrap_or(no_time()));
    law_escaped_has_no_markup(s.uri.unwrap_or(seq![]));
    assert(lacks(escaped_uri(s), '<'));
    let v = position_info_elements(s);
    reveal_strlit("Track");
    reveal_strlit("TrackDuration");
    reveal_strlit("TrackMetaData");
    reveal_strlit("TrackURI");
    reveal_strlit("RelTime");
    reveal_strlit("AbsTime");
    reveal_strlit("RelCount");
    reveal_strlit("AbsCount");
    reveal_strlit("1");
    reveal_strlit("2147483647");
    assert forall|k: int| 0 <= k < v.len() implies plain_tag((#[trigger] v[k]).0) && lacks(
        v[k].1,
        '<',
    ) by {}
}

/// The answer to `GetPositionInfo` says the address and the length of the media, and the place
/// in it.
#[verifier::rlimit(40)]
pub proof fn law_position_info_is_read(s: StateView)
    ensures
        ({
            let text = answer(EventService::AvTransport, "GetPositionInfo"@, query_values(Query::PositionInfo, s));
            &&& xml_value_spec(text, "Track"@) == Some("1"@)
            &&& xml_value_spec(text, "TrackDuration"@) == Some(time_text(s.duration.unwrap_or(Span { secs: 0, nanos: 0 })))
            &&& xml_value_spec(text, "TrackURI"@) == Some(trim_spec(escape_xml_spec(s.uri.unwrap_or(seq![]))))
            &&& xml_value_spec(text, "RelTime"@) == Some(time_text(s.position))
            &&& xml_value_spec(text, "AbsTime"@) == Some(time_text(s.position))
        }),
{
    let action = "GetPositionInfo"@;
    assert(lacks(action, '<')) by {
        reveal_strlit("GetPositionInfo");
    }
    let values = query_values(Query::PositionInfo, s);
    let v = position_info_elements(s);
    let front = answer_front(EventService::AvTransport, action);
    let rest = "</u:"@ + action + "Response>"@;
    lemma_position_info_shape(s);
    lemma_position_info_plain(s);
    lemma_time_plain(s.position);
    lemma_time_plain(s.duration.unwrap_or(no_time()));
    law_escaped_has_no_markup(s.uri.unwrap_or(seq![]));
    assert(lacks(escaped_uri(s), '<'));
    assert(trim_spec("1"@) == "1"@) by {
        reveal_strlit("1");
        lemma_trim_nothing("1"@);
    }
    assert forall|k: int| 0 <= k < 0 implies no_mistaking((#[trigger] v[k]).0, "Track"@) by {
        reveal_strlit("Track");
    }
    assert(plain_tag("Track"@) && "Track"@[0] != 'u') by {
        reveal_strlit("Track");
    }
    lemma_answer_front(EventService::AvTransport, action, values, "Track"@);
    lemma_elements_are_read(front, v, rest, 0);
    assert forall|k: int| 0 <= k < 1 implies no_mistaking((#[trigger] v[k]).0, "TrackDuration"@) by {
        reveal_strlit("TrackDuration");
        reveal_strlit("Track");
    }
    assert(plain_tag("TrackDuration"@) && "TrackDuration"@[0] != 'u') by {
        reveal_strlit("TrackDuration");
    }
    lemma_answer_front(EventService::AvTransport, action, values, "TrackDuration"@);
    lemma_elements_are_read(front, v, rest, 1);
    assert forall|k: int| 0 <= k < 3 implies no_mistaking((#[trigger] v[k]).0, "TrackURI"@) by {
        reveal_strlit("TrackURI");
        reveal_strlit("Track");
        reveal_strlit("TrackDuration");
        reveal_strlit("TrackMetaData");
        assert("TrackDuration"@[5] != "TrackURI"@[5]);
        assert("TrackMetaData"@[5] != "TrackURI"@[5]);
    }
    assert(plain_tag("TrackURI"@) && "TrackURI"@[0] != 'u') by {
        reveal_strlit("TrackURI");
    }
    lemma_answer_front(EventService::AvTransport, action, values, "TrackURI"@);
    lemma_elements_are_read(front, v, rest, 3);
    assert forall|k: int| 0 <= k < 4 implies no_mistaking((#[trigger] v[k]).0, "RelTime"@) by {
        reveal_strlit("RelTime");
        reveal_strlit("Track");
        reveal_strlit("TrackDuration");
        reveal_strlit("TrackMetaData");
        reveal_strlit("TrackURI");
        assert("TrackDuration"@[0] != "RelTime"@[0]);
        assert("TrackMetaData"@[0] != "RelTime"@[0]);
        assert("TrackURI"@[0] != "RelTime"@[0]);
    }
    assert(plain_tag("RelTime"@) && "RelTime"@[0] != 'u') by {
        reveal_strlit("RelTime");
    }
    lemma_answer_front(EventService::AvTransport, action, values, "RelTime"@);
    lemma_elements_are_read(front, v, rest, 4);
    assert forall|k: int| 0 <= k < 5 implies no_mistaking((#[trigger] v[k]).0, "AbsTime"@) by {
        reveal_strlit("AbsTime");
        reveal_strlit("Track");
        reveal_strlit("TrackDuration");
        reveal_strlit("TrackMetaData");
        reveal_strlit("TrackURI");
        reveal_strlit("RelTime");
        assert("TrackDuration"@[0] != "AbsTime"@[0]);
        assert("TrackMetaData"@[0] != "AbsTime"@[0]);
        assert("TrackURI"@[0] != "AbsTime"@[0]);
        assert("RelTime"@[0] != "AbsTime"@[0]);
    }
    assert(plain_tag("AbsTime"@) && "AbsTime"@[0] != 'u') by {
        reveal_strlit("AbsTime");
    }
    lemma_answer_front(EventService::AvTransport, action, values, "AbsTime"@);
    lemma_elements_are_read(front, v, rest, 5);
}

proof fn lemma_media_info_text_1()
    ensures
        "<NrTracks>1</NrTracks><MediaDuration>"@ == opening_tag("NrTracks"@) + "1"@ + closing_tag("NrTracks"@) + opening_tag("MediaDuration"@),
{
    reveal_strlit("<NrTracks>1</NrTracks><MediaDuration>");
    reveal_strlit("<");
    reveal_strlit(">");
    reveal_strlit("</");
    reveal_strlit("NrTracks");
    reveal_strlit("1");
    reveal_strlit("MediaDuration");
    assert("<NrTracks>1</NrTracks><MediaDuration>"@ =~= opening_tag("NrTracks"@) + "1"@ + closing_tag("NrTracks"@) + opening_tag("MediaDuration"@));
}

proof fn lemma_media_info_text_2()
    ensures
        "</MediaDuration><CurrentURI>"@ == closing_tag("MediaDuration"@) + opening_tag("CurrentURI"@),
{
    reveal_strlit("</MediaDuration><CurrentURI>");
    reveal_strlit("<");
    reveal_strlit(">");
    reveal_strlit("</");
    reveal_strlit("MediaDuration");
    reveal_strlit("CurrentURI");
    assert("</MediaDuration><CurrentURI>"@ =~= closing_tag("MediaDuration"@) + opening_tag("CurrentURI"@));
}

proof fn lemma_media_info_text_3aa()
    ensures
        "</CurrentURI><CurrentURIMetaData></CurrentURIMetaData><NextURI>"@ == closing_tag("CurrentURI"@) + opening_tag("CurrentURIMetaData"@) + closing_tag("CurrentURIMetaData"@) + opening_tag("NextURI"@),
{
    reveal_strlit("</CurrentURI><CurrentURIMetaData></CurrentURIMetaData><NextURI>");
    reveal_strlit("<");
    reveal_strlit(">");
    reveal_strlit("</");
    reveal_strlit("CurrentURI");
    reveal_strlit("CurrentURIMetaData");
    reveal_strlit("NextURI");
    assert("</CurrentURI><CurrentURIMetaData></CurrentURIMetaData><NextURI>"@ =~= closing_tag("CurrentURI"@) + opening_tag("CurrentURIMetaData"@) + closing_tag("CurrentURIMetaData"@) + opening_tag("NextURI"@));
}

proof fn lemma_media_info_text_3ab()
    ensures
        "</NextURI><NextURIMetaData></NextURIMetaData><PlayMedium>"@ == closing_tag("NextURI"@) + opening_tag("NextURIMetaData"@) + closing_tag("NextURIMetaData"@) + opening_tag("PlayMedium"@),
{
    reveal_strlit("</NextURI><NextURIMetaData></NextURIMetaData><PlayMedium>");
    reveal_strlit("<");
    reveal_strlit(">");
    reveal_strlit("</");
    reveal_strlit("NextURI");
    reveal_strlit("NextURIMetaData");
    reveal_strlit("PlayMedium");
    assert("</NextURI><NextURIMetaData></NextURIMetaData><PlayMedium>"@ =~= closing_tag("NextURI"@) + opening_tag("NextURIMetaData"@) + closing_tag("NextURIMetaData"@) + opening_tag("PlayMedium"@));
}

proof fn lemma_media_info_text_3a()
    ensures
        "</CurrentURI><CurrentURIMetaData></CurrentURIMetaData><NextURI></NextURI><NextURIMetaData></NextURIMetaData><PlayMedium>"@ == closing_tag("CurrentURI"@) + opening_tag("CurrentURIMetaData"@) + closing_tag("CurrentURIMetaData"@) + opening_tag("NextURI"@) + closing_tag("NextURI"@) + opening_tag("NextURIMetaData"@) + closing_tag("NextURIMetaData"@) + opening_tag("PlayMedium"@),
{
    lemma_media_info_text_3aa();
    lemma_media_info_text_3ab();
    assert("</CurrentURI><CurrentURIMetaData></CurrentURIMetaData><NextURI></NextURI><NextURIMetaData></NextURIMetaData><PlayMedium>"@ == "</CurrentURI><CurrentURIMetaData></CurrentURIMetaData><NextURI>"@ + "</NextURI><NextURIMetaData></NextURIMetaData><PlayMedium>"@) by {
        reveal_strlit("</CurrentURI><CurrentURIMetaData></CurrentURIMetaData><NextURI></NextURI><NextURIMetaData></NextURIMetaData><PlayMedium>");
        reveal_strlit("</CurrentURI><CurrentURIMetaData></CurrentURIMetaData><NextURI>");
        reveal_strlit("</NextURI><NextURIMetaData></NextURIMetaData><PlayMedium>");
        assert("</CurrentURI><CurrentURIMetaData></CurrentURIMetaData><NextURI></NextURI><NextURIMetaData></NextURIMetaData><PlayMedium>"@ =~= "</CurrentURI><CurrentURIMetaData></CurrentURIMetaData><NextURI>"@ + "</NextURI><NextURIMetaData></NextURIMetaData><PlayMedium>"@);
    }
    lemma_joined(closing_tag("CurrentURI"@) + opening_tag("CurrentURIMetaData"@) + closing_tag("CurrentURIMetaData"@) + opening_tag("NextURI"@), closing_tag("NextURI"@) + opening_tag("NextURIMetaData"@) + closing_tag("NextURIMetaData"@), opening_tag("PlayMedium"@));
    lemma_joined(closing_tag("CurrentURI"@) + opening_tag("CurrentURIMetaData"@) + closing_tag("CurrentURIMetaData"@) + opening_tag("NextURI"@), closing_tag("NextURI"@) + opening_tag("NextURIMetaData"@), closing_tag("NextURIMetaData"@));
    lemma_joined(closing_tag("CurrentURI"@) + opening_tag("CurrentURIMetaData"@) + closing_tag("CurrentURIMetaData"@) + opening_tag("NextURI"@), closing_tag("NextURI"@), opening_tag("NextURIMetaData"@));
}

proof fn lemma_media_info_text_3ba()
    ensures
        "NETWORK</PlayMedium><RecordMedium>NOT_IMPLEMENTED"@ == "NETWORK"@ + closing_tag("PlayMedium"@) + opening_tag("RecordMedium"@) + "NOT_IMPLEMENTED"@,
{
    reveal_strlit("NETWORK</PlayMedium><RecordMedium>NOT_IMPLEMENTED");
    reveal_strlit("<");
    reveal_strlit(">");
    reveal_strlit("</");
    reveal_strlit("NETWORK");
    reveal_strlit("PlayMedium");
    reveal_strlit("RecordMedium");
    reveal_strlit("NOT_IMPLEMENTED");
    assert("NETWORK</PlayMedium><RecordMedium>NOT_IMPLEMENTED"@ =~= "NETWORK"@ + closing_tag("PlayMedium"@) + opening_tag("RecordMedium"@) + "NOT_IMPLEMENTED"@);
}

proof fn lemma_media_info_text_3bb()
    ensures
        "</RecordMedium><WriteStatus>NOT_IMPLEMENTED</WriteStatus>"@ == closing_tag("RecordMedium"@) + opening_tag("WriteStatus"@) + "NOT_IMPLEMENTED"@ + closing_tag("WriteStatus"@),
{
    reveal_strlit("</RecordMedium><WriteStatus>NOT_IMPLEMENTED</WriteStatus>");
    reveal_strlit("<");
    reveal_strlit(">");
    reveal_strlit("</");
    reveal_strlit("RecordMedium");
    reveal_strlit("WriteStatus");
    reveal_strlit("NOT_IMPLEMENTED");
    assert("</RecordMedium><WriteStatus>NOT_IMPLEMENTED</WriteStatus>"@ =~= closing_tag("RecordMedium"@) + opening_tag("WriteStatus"@) + "NOT_IMPLEMENTED"@ + closing_tag("WriteStatus"@));
}

proof fn lemma_media_info_text_3b()
    ensures
        "NETWORK</PlayMedium><RecordMedium>NOT_IMPLEMENTED</RecordMedium><WriteStatus>NOT_IMPLEMENTED</WriteStatus>"@ == "NETWORK"@ + closing_tag("PlayMedium"@) + opening_tag("RecordMedium"@) + "NOT_IMPLEMENTED"@ + closing_tag("RecordMedium"@) + opening_tag("WriteStatus"@) + "NOT_IMPLEMENTED"@ + closing_tag("WriteStatus"@),
{
    lemma_media_info_text_3ba();
    lemma_media_info_text_3bb();
    assert("NETWORK</PlayMedium><RecordMedium>NOT_IMPLEMENTED</RecordMedium><WriteStatus>NOT_IMPLEMENTED</WriteStatus>"@ == "NETWORK</PlayMedium><RecordMedium>NOT_IMPLEMENTED"@ + "</RecordMedium><WriteStatus>NOT_IMPLEMENTED</WriteStatus>"@) by {
        reveal_strlit("NETWORK</PlayMedium><RecordMedium>NOT_IMPLEMENTED</RecordMedium><WriteStatus>NOT_IMPLEMENTED</WriteStatus>");
        reveal_strlit("NETWORK</PlayMedium><RecordMedium>NOT_IMPLEMENTED");
        reveal_strlit("</RecordMedium><WriteStatus>NOT_IMPLEMENTED</WriteStatus>");
        assert("NETWORK</PlayMedium><RecordMedium>NOT_IMPLEMENTED</RecordMedium><WriteStatus>NOT_IMPLEMENTED</WriteStatus>"@ =~= "NETWORK</PlayMedium><RecordMedium>NOT_IMPLEMENTED"@ + "</RecordMedium><WriteStatus>NOT_IMPLEMENTED</WriteStatus>"@);
    }
    lemma_joined("NETWORK"@ + closing_tag("PlayMedium"@) + opening_tag("RecordMedium"@) + "NOT_IMPLEMENTED"@, closing_tag("RecordMedium"@) + opening_tag("WriteStatus"@) + "NOT_IMPLEMENTED"@, closing_tag("WriteStatus"@));
    lemma_joined("NETWORK"@ + closing_tag("PlayMedium"@) + opening_tag("RecordMedium"@) + "NOT_IMPLEMENTED"@, closing_tag("RecordMedium"@) + opening_tag("WriteStatus"@), "NOT_IMPLEMENTED"@);
    lemma_joined("NETWORK"@ + closing_tag("PlayMedium"@) + opening_tag("RecordMedium"@) + "NOT_IMPLEMENTED"@, closing_tag("RecordMedium"@), opening_tag("WriteStatus"@));
}

proof fn lemma_media_info_text_3()
    ensures
        "</CurrentURI><CurrentURIMetaData></CurrentURIMetaData><NextURI></NextURI><NextURIMetaData></NextURIMetaData><PlayMedium>NETWORK</PlayMedium><RecordMedium>NOT_IMPLEMENTED</RecordMedium><WriteStatus>NOT_IMPLEMENTED</WriteStatus>"@ == closing_tag("CurrentURI"@) + opening_tag("CurrentURIMetaData"@) + closing_tag("CurrentURIMetaData"@) + opening_tag("NextURI"@) + closing_tag("NextURI"@) + opening_tag("NextURIMetaData"@) + closing_tag("NextURIMetaData"@) + opening_tag("PlayMedium"@) + "NETWORK"@ + closing_tag("PlayMedium"@) + opening_tag("RecordMedium"@) + "NOT_IMPLEMENTED"@ + closing_tag("RecordMedium"@) + opening_tag("WriteStatus"@) + "NOT_IMPLEMENTED"@ + closing_tag("WriteStatus"@),
{
    lemma_media_info_text_3a();
    lemma_media_info_text_3b();
    assert("</CurrentURI><CurrentURIMetaData></CurrentURIMetaData><NextURI></NextURI><NextURIMetaData></NextURIMetaData><PlayMedium>NETWORK</PlayMedium><RecordMedium>NOT_IMPLEMENTED</RecordMedium><WriteStatus>NOT_IMPLEMENTED</WriteStatus>"@ == "</CurrentURI><CurrentURIMetaData></CurrentURIMetaData><NextURI></NextURI><NextURIMetaData></NextURIMetaData><PlayMedium>"@ + "NETWORK</PlayMedium><RecordMedium>NOT_IMPLEMENTED</RecordMedium><WriteStatus>NOT_IMPLEMENTED</WriteStatus>"@) by {
        reveal_strlit("</CurrentURI><CurrentURIMetaData></CurrentURIMetaData><NextURI></NextURI><NextURIMetaData></NextURIMetaData><PlayMedium>NETWORK</PlayMedium><RecordMedium>NOT_IMPLEMENTED</RecordMedium><WriteStatus>NOT_IMPLEMENTED</WriteStatus>");
        reveal_strlit("</CurrentURI><CurrentURIMetaData></CurrentURIMetaData><NextURI></NextURI><NextURIMetaData></NextURIMetaData><PlayMedium>");
        reveal_strlit("NETWORK</PlayMedium><RecordMedium>NOT_IMPLEMENTED</RecordMedium><WriteStatus>NOT_IMPLEMENTED</WriteStatus>");
        assert("</CurrentURI><CurrentURIMetaData></CurrentURIMetaData><NextURI></NextURI><NextURIMetaData></NextURIMetaData><PlayMedium>NETWORK</PlayMedium><RecordMedium>NOT_IMPLEMENTED</RecordMedium><WriteStatus>NOT_IMPLEMENTED</WriteStatus>"@ =~= "</CurrentURI><CurrentURIMetaData></CurrentURIMetaData><NextURI></NextURI><NextURIMetaData></NextURIMetaData><PlayMedium>"@ + "NETWORK</PlayMedium><RecordMedium>NOT_IMPLEMENTED</RecordMedium><WriteStatus>NOT_IMPLEMENTED</WriteStatus>"@);
    }
    lemma_joined(closing_tag("CurrentURI"@) + opening_tag("CurrentURIMetaData"@) + closing_tag("CurrentURIMetaData"@) + opening_tag("NextURI"@) + closing_tag("NextURI"@) + opening_tag("NextURIMetaData"@) + closing_tag("NextURIMetaData"@) + opening_tag("PlayMedium"@), "NETWORK"@ + closing_tag("PlayMedium"@) + opening_tag("RecordMedium"@) + "NOT_IMPLEMENTED"@ + closing_tag("RecordMedium"@) + opening_tag("WriteStatus"@) + "NOT_IMPLEMENTED"@, closing_tag("WriteStatus"@));
    lemma_joined(closing_tag("CurrentURI"@) + opening_tag("CurrentURIMetaData"@) + closing_tag("CurrentURIMetaData"@) + opening_tag("NextURI"@) + closing_tag("NextURI"@) + opening_tag("NextURIMetaData"@) + closing_tag("NextURIMetaData"@) + opening_tag("PlayMedium"@), "NETWORK"@ + closing_tag("PlayMedium"@) + opening_tag("RecordMedium"@) + "NOT_IMPLEMENTED"@ + closing_tag("RecordMedium"@) + opening_tag("WriteStatus"@), "NOT_IMPLEMENTED"@);
    lemma_joined(closing_tag("CurrentURI"@) + opening_tag("CurrentURIMetaData"@) + closing_tag("CurrentURIMetaData"@) + opening_tag("NextURI"@) + closing_tag("NextURI"@) + opening_tag("NextURIMetaData"@) + closing_tag("NextURIMetaData"@) + opening_tag("PlayMedium"@), "NETWORK"@ + closing_tag("PlayMedium"@) + opening_tag("RecordMedium"@) + "NOT_IMPLEMENTED"@ + closing_tag("RecordMedium"@), opening_tag("WriteStatus"@));
    lemma_joined(closing_tag("CurrentURI"@) + opening_tag("CurrentURIMetaData"@) + closing_tag("CurrentURIMetaData"@) + opening_tag("NextURI"@) + closing_tag("NextURI"@) + opening_tag("NextURIMetaData"@) + closing_tag("NextURIMetaData"@) + opening_tag("PlayMedium"@), "NETWORK"@ + closing_tag("PlayMedium"@) + opening_tag("RecordMedium"@) + "NOT_IMPLEMENTED"@, closing_tag("RecordMedium"@));
    lemma_joined(closing_tag("CurrentURI"@) + opening_tag("CurrentURIMetaData"@) + closing_tag("CurrentURIMetaData"@) + opening_tag("NextURI"@) + closing_tag("NextURI"@) + opening_tag("NextURIMetaData"@) + closing_tag("NextURIMetaData"@) + opening_tag("PlayMedium"@), "NETWORK"@ + closing_tag("PlayMedium"@) + opening_tag("RecordMedium"@), "NOT_IMPLEMENTED"@);
    lemma_joined(closing_tag("CurrentURI"@) + opening_tag("CurrentURIMetaData"@) + closing_tag("CurrentURIMetaData"@) + opening_tag("NextURI"@) + closing_tag("NextURI"@) + opening_tag("NextURIMetaData"@) + closing_tag("NextURIMetaData"@) + opening_tag("PlayMedium"@), "NETWORK"@ + closing_tag("PlayMedium"@), opening_tag("RecordMedium"@));
    lemma_joined(closing_tag("CurrentURI"@) + opening_tag("CurrentURIMetaData"@) + closing_tag("CurrentURIMetaData"@) + opening_tag("NextURI"@) + closing_tag("NextURI"@) + opening_tag("NextURIMetaData"@) + closing_tag("NextURIMetaData"@) + opening_tag("PlayMedium"@), "NETWORK"@, closing_tag("PlayMedium"@));
}

/// The elements of the answer to `GetMediaInfo`.
spec fn media_info_elements(s: StateView) -> Seq<(Seq<char>, Seq<char>)> {
    seq![
        ("NrTracks"@, "1"@),
        ("MediaDuration"@, duration_text(s)),
        ("CurrentURI"@, escaped_uri(s)),
        ("CurrentURIMetaData"@, Seq::<char>::empty()),
        ("NextURI"@, Seq::<char>::empty()),
        ("NextURIMetaData"@, Seq::<char>::empty()),
        ("PlayMedium"@, "NETWORK"@),
        ("RecordMedium"@, "NOT_IMPLEMENTED"@),
        ("WriteStatus"@, "NOT_IMPLEMENTED"@),
    ]
}

#[verifier::rlimit(40)]
proof fn lemma_media_info_shape(s: StateView)
    ensures
        query_values(Query::MediaInfo, s) == elements_text(media_info_elements(s)),
{
    lemma_time_plain(s.position);
    lemma_time_plain(s.duration.unwrap_or(no_time()));
    law_escaped_has_no_markup(s.uri.unwrap_or(seq![]));
    assert(lacks(escaped_uri(s), '<'));
    lemma_media_info_text_1();
    lemma_media_info_text_2();
    lemma_media_info_text_3();
    let x0 = Seq::<char>::empty();
    let v0 = Seq::<(Seq<char>, Seq<char>)>::empty();
    assert(x0 =~= elements_text(v0));
    let x1 = x0 + opening_tag("NrTracks"@) + "1"@ + closing_tag("NrTracks"@);
    let v1 = v0.push(("NrTracks"@, "1"@));
    lemma_next_element(x0, v0, "NrTracks"@, "1"@);
    let x2 = x1 + opening_tag("MediaDuration"@) + duration_text(s) + closing_tag("MediaDuration"@);
    let v2 = v1.push(("MediaDuration"@, duration_text(s)));
    lemma_next_element(x1, v1, "MediaDuration"@, duration_text(s));
    let x3 = x2 + opening_tag("CurrentURI"@) + escaped_uri(s) + closing_tag("CurrentURI"@);
    let v3 = v2.push(("CurrentURI"@, escaped_uri(s)));
    lemma_next_element(x2, v2, "CurrentURI"@, escaped_uri(s));
    let x4 = x3 + opening_tag("CurrentURIMetaData"@) + Seq::<char>::empty() + closing_tag("CurrentURIMetaData"@);
    let v4 = v3.push(("CurrentURIMetaData"@, Seq::<char>::empty()));
    lemma_next_element(x3, v3, "CurrentURIMetaData"@, Seq::<char>::empty());
    let x5 = x4 + opening_tag("NextURI"@) + Seq::<char>::empty() + closing_tag("NextURI"@);
    let v5 = v4.push(("NextURI"@, Seq::<char>::empty()));
    lemma_next_element(x4, v4, "NextURI"@, Seq::<char>::empty());
    let x6 = x5 + opening_tag("NextURIMetaData"@) + Seq::<char>::empty() + closing_tag("NextURIMetaData"@);
    let v6 = v5.push(("NextURIMetaData"@, Seq::<char>::empty()));
    lemma_next_element(x5, v5, "NextURIMetaData"@, Seq::<char>::empty());
    let x7 = x6 + opening_tag("PlayMedium"@) + "NETWORK"@ + closing_tag("PlayMedium"@);
    let v7 = v6.push(("PlayMedium"@, "NETWORK"@));
    lemma_next_element(x6, v6, "PlayMedium"@, "NETWORK"@);
    let x8 = x7 + opening_tag("RecordMedium"@) + "NOT_IMPLEMENTED"@ + closing_tag("RecordMedium"@);
    let v8 = v7.push(("RecordMedium"@, "NOT_IMPLEMENTED"@));
    lemma_next_element(x7, v7, "RecordMedium"@, "NOT_IMPLEMENTED"@);
    let x9 = x8 + opening_tag("WriteStatus"@) + "NOT_IMPLEMENTED"@ + closing_tag("WriteStatus"@);
    let v9 = v8.push(("WriteStatus"@, "NOT_IMPLEMENTED"@));
    lemma_next_element(x8, v8, "WriteStatus"@, "NOT_IMPLEMENTED"@);
    assert(v9 == media_info_elements(s)) by {
        assert(v9 =~= media_info_elements(s));
    }
    let s1 = "<NrTracks>1</NrTracks><MediaDuration>"@;
    let s2 = s1 + duration_text(s);
    let s3 = s2 + "</MediaDuration><CurrentURI>"@;
    let s4 = s3 + escaped_uri(s);
    let s5 = s4 + "</CurrentURI><CurrentURIMetaData></CurrentURIMetaData><NextURI></NextURI><NextURIMetaData></NextURIMetaData><PlayMedium>NETWORK</PlayMedium><RecordMedium>NOT_IMPLEMENTED</RecordMedium><WriteStatus>NOT_IMPLEMENTED</WriteStatus>"@;
    let f0 = Seq::<char>::empty();
    let f1 = f0 + opening_tag("NrTracks"@) + "1"@ + closing_tag("NrTracks"@) + opening_tag("MediaDuration"@);
    lemma_nothing_added(s1);
    lemma_joined(f0, opening_tag("NrTracks"@) + "1"@ + closing_tag("NrTracks"@), opening_tag("MediaDuration"@));
    lemma_joined(f0, opening_tag("NrTracks"@) + "1"@, closing_tag("NrTracks"@));
    lemma_joined(f0, opening_tag("NrTracks"@), "1"@);
    assert(f1 == f0 + s1);
    assert(s1 == f1);
    let f2 = f1 + duration_text(s);
    assert(s2 == f2);
    let f3 = f2 + closing_tag("MediaDuration"@) + opening_tag("CurrentURI"@);
    lemma_joined(f2, closing_tag("MediaDuration"@), opening_tag("CurrentURI"@));
    assert(s3 == f3);
    let f4 = f3 + escaped_uri(s);
    assert(s4 == f4);
    let f5 = f4 + closing_tag("CurrentURI"@) + opening_tag("CurrentURIMetaData"@) + closing_tag("CurrentURIMetaData"@) + opening_tag("NextURI"@) + closing_tag("NextURI"@) + opening_tag("NextURIMetaData"@) + closing_tag("NextURIMetaData"@) + opening_tag("PlayMedium"@) + "NETWORK"@ + closing_tag("PlayMedium"@) + opening_tag("RecordMedium"@) + "NOT_IMPLEMENTED"@ + closing_tag("RecordMedium"@) + opening_tag("WriteStatus"@) + "NOT_IMPLEMENTED"@ + closing_tag("WriteStatus"@);
    lemma_joined(f4, closing_tag("CurrentURI"@) + opening_tag("CurrentURIMetaData"@) + closing_tag("CurrentURIMetaData"@) + opening_tag("NextURI"@) + closing_tag("NextURI"@) + opening_tag("NextURIMetaData"@) + closing_tag("NextURIMetaData"@) + opening_tag("PlayMedium"@) + "NETWORK"@ + closing_tag("PlayMedium"@) + opening_tag("RecordMedium"@) + "NOT_IMPLEMENTED"@ + closing_tag("RecordMedium"@) + opening_tag("WriteStatus"@) + "NOT_IMPLEMENTED"@, closing_tag("WriteStatus"@));
    lemma_joined(f4, closing_tag("CurrentURI"@) + opening_tag("CurrentURIMetaData"@) + closing_tag("CurrentURIMetaData"@) + opening_tag("NextURI"@) + closing_tag("NextURI"@) + opening_tag("NextURIMetaData"@) + closing_tag("NextURIMetaData"@) + opening_tag("PlayMedium"@) + "NETWORK"@ + closing_tag("PlayMedium"@) + opening_tag("RecordMedium"@) + "NOT_IMPLEMENTED"@ + closing_tag("RecordMedium"@) + opening_tag("WriteStatus"@), "NOT_IMPLEMENTED"@);
    lemma_joined(f4, closing_tag("CurrentURI"@) + opening_tag("CurrentURIMetaData"@) + closing_tag("CurrentURIMetaData"@) + opening_tag("NextURI"@) + closing_tag("NextURI"@) + opening_tag("NextURIMetaData"@) + closing_tag("NextURIMetaData"@) + opening_tag("PlayMedium"@) + "NETWORK"@ + closing_tag("PlayMedium"@) + opening_tag("RecordMedium"@) + "NOT_IMPLEMENTED"@ + closing_tag("RecordMedium"@), opening_tag("WriteStatus"@));
    lemma_joined(f4, closing_tag("CurrentURI"@) + opening_tag("CurrentURIMetaData"@) + closing_tag("CurrentURIMetaData"@) + opening_tag("NextURI"@) + closing_tag("NextURI"@) + opening_tag("NextURIMetaData"@) + closing_tag("NextURIMetaData"@) + opening_tag("PlayMedium"@) + "NETWORK"@ + closing_tag("PlayMedium"@) + opening_tag("RecordMedium"@) + "NOT_IMPLEMENTED"@, closing_tag("RecordMedium"@));
    lemma_joined(f4, closing_tag("CurrentURI"@) + opening_tag("CurrentURIMetaData"@) + closing_tag("CurrentURIMetaData"@) + opening_tag("NextURI"@) + closing_tag("NextURI"@) + opening_tag("NextURIMetaData"@) + closing_tag("NextURIMetaData"@) + opening_tag("PlayMedium"@) + "NETWORK"@ + closing_tag("PlayMedium"@) + opening_tag("RecordMedium"@), "NOT_IMPLEMENTED"@);
    lemma_joined(f4, closing_tag("CurrentURI"@) + opening_tag("CurrentURIMetaData"@) + closing_tag("CurrentURIMetaData"@) + opening_tag("NextURI"@) + closing_tag("NextURI"@) + opening_tag("NextURIMetaData"@) + closing_tag("NextURIMetaData"@) + opening_tag("PlayMedium"@) + "NETWORK"@ + closing_tag("PlayMedium"@), opening_tag("RecordMedium"@));
    lemma_joined(f4, closing_tag("CurrentURI"@) + opening_tag("CurrentURIMetaData"@) + closing_tag("CurrentURIMetaData"@) + opening_tag("NextURI"@) + closing_tag("NextURI"@) + opening_tag("NextURIMetaData"@) + closing_tag("NextURIMetaData"@) + opening_tag("PlayMedium"@) + "NETWORK"@, closing_tag("PlayMedium"@));
    lemma_joined(f4, closing_tag("CurrentURI"@) + opening_tag("CurrentURIMetaData"@) + closing_tag("CurrentURIMetaData"@) + opening_tag("NextURI"@) + closing_tag("NextURI"@) + opening_tag("NextURIMetaData"@) + closing_tag("NextURIMetaData"@) + opening_tag("PlayMedium"@), "NETWORK"@);
    lemma_joined(f4, closing_tag("CurrentURI"@) + opening_tag("CurrentURIMetaData"@) + closing_tag("CurrentURIMetaData"@) + opening_tag("NextURI"@) + closing_tag("NextURI"@) + opening_tag("NextURIMetaData"@) + closing_tag("NextURIMetaData"@), opening_tag("PlayMedium"@));
    lemma_joined(f4, closing_tag("CurrentURI"@) + opening_tag("CurrentURIMetaData"@) + closing_tag("CurrentURIMetaData"@) + opening_tag("NextURI"@) + closing_tag("NextURI"@) + opening_tag("NextURIMetaData"@), closing_tag("NextURIMetaData"@));
    lemma_joined(f4, closing_tag("CurrentURI"@) + opening_tag("CurrentURIMetaData"@) + closing_tag("CurrentURIMetaData"@) + opening_tag("NextURI"@) + closing_tag("NextURI"@), opening_tag("NextURIMetaData"@));
    lemma_joined(f4, closing_tag("CurrentURI"@) + opening_tag("CurrentURIMetaData"@) + closing_tag("CurrentURIMetaData"@) + opening_tag("NextURI"@), closing_tag("NextURI"@));
    lemma_joined(f4, closing_tag("CurrentURI"@) + opening_tag("CurrentURIMetaData"@) + closing_tag("CurrentURIMetaData"@), opening_tag("NextURI"@));
    lemma_joined(f4, closing_tag("CurrentURI"@) + opening_tag("CurrentURIMetaData"@), closing_tag("CurrentURIMetaData"@));
    lemma_joined(f4, closing_tag("CurrentURI"@), opening_tag("CurrentURIMetaData"@));
    assert(s5 == f5);
    lemma_nothing_added(x3 + opening_tag("CurrentURIMetaData"@));
    lemma_nothing_added(x4 + opening_tag("NextURI"@));
    lemma_nothing_added(x5 + opening_tag("NextURIMetaData"@));
    assert(f5 == x9);
    assert(query_values(Query::MediaInfo, s) == s5);
}

proof fn lemma_media_info_plain(s: StateView)
    ensures
        plain_elements(media_info_elements(s)),
{
    lemma_time_plain(s.position);
    lemma_time_plain(s.duration.unwrap_or(no_time()));
    law_escaped_has_no_markup(s.uri.unwrap_or(seq![]));
    assert(lacks(escaped_uri(s), '<'));
    let v = media_info_elements(s);
    reveal_strlit("NrTracks");
    reveal_strlit("MediaDuration");
    reveal_strlit("CurrentURI");
    reveal_strlit("CurrentURIMetaData");
    reveal_strlit("NextURI");
    reveal_strlit("NextURIMetaData");
    reveal_strlit("PlayMedium");
    reveal_strlit("RecordMedium");
    reveal_strlit("WriteStatus");
    reveal_strlit("1");
    reveal_strlit("NETWORK");
    reveal_strlit("NOT_IMPLEMENTED");
    assert forall|k: int| 0 <= k < v.len() implies plain_tag((#[trigger] v[k]).0) && lacks(
        v[k].1,
        '<',
    ) by {}
}

/// The answer to `GetMediaInfo` says the address and the length of the media.
#[verifier::rlimit(40)]
pub proof fn law_media_info_is_read(s: StateView)
    ensures
        ({
            let text = answer(EventService::AvTransport, "GetMediaInfo"@, query_values(Query::MediaInfo, s));
            &&& xml_value_spec(text, "NrTracks"@) == Some("1"@)
            &&& xml_value_spec(text, "MediaDuration"@) == Some(time_text(s.duration.unwrap_or(Span { secs: 0, nanos: 0 })))
            &&& xml_value_spec(text, "CurrentURI"@) == Some(trim_spec(escape_xml_spec(s.uri.unwrap_or(seq![]))))
        }),
{
    let action = "GetMediaInfo"@;
    assert(lacks(action, '<')) by {
        reveal_strlit("GetMediaInfo");
    }
    let values = query_values(Query::MediaInfo, s);
    let v = media_info_elements(s);
    let front = answer_front(EventService::AvTransport, action);
    let rest = "</u:"@ + action + "Response>"@;
    lemma_media_info_shape(s);
    lemma_media_info_plain(s);
    lemma_time_plain(s.position);
    lemma_time_plain(s.duration.unwrap_or(no_time()));
    law_escaped_has_no_markup(s.uri.unwrap_or(seq![]));
    assert(lacks(escaped_uri(s), '<'));
    assert(trim_spec("1"@) == "1"@) by {
        reveal_strlit("1");
        lemma_trim_nothing("1"@);
    }
    assert forall|k: int| 0 <= k < 0 implies no_mistaking((#[trigger] v[k]).0, "NrTracks"@) by {
        reveal_strlit("NrTracks");
    }
    assert(plain_tag("NrTracks"@) && "NrTracks"@[0] != 'u') by {
        reveal_strlit("NrTracks");
    }
    lemma_answer_front(EventService::AvTransport, action, values, "NrTracks"@);
    lemma_elements_are_read(front, v, rest, 0);
    assert forall|k: int| 0 <= k < 1 implies no_mistaking((#[trigger] v[k]).0, "MediaDuration"@) by {
        reveal_strlit("MediaDuration");
        reveal_strlit("NrTracks");
    }
    assert(plain_tag("MediaDuration"@) && "MediaDuration"@[0] != 'u') by {
        reveal_strlit("MediaDuration");
    }
    lemma_answer_front(EventService::AvTransport, action, values, "MediaDuration"@);
    lemma_elements_are_read(front, v, rest, 1);
    assert forall|k: int| 0 <= k < 2 implies no_mistaking((#[trigger] v[k]).0, "CurrentURI"@) by {
        reveal_strlit("CurrentURI");
        reveal_strlit("NrTracks");
        reveal_strlit("MediaDuration");
        assert("MediaDuration"@[0] != "CurrentURI"@[0]);
    }
    assert(plain_tag("CurrentURI"@) && "CurrentURI"@[0] != 'u') by {
        reveal_strlit("CurrentURI");
    }
    lemma_answer_front(EventService::AvTransport, action, values, "CurrentURI"@);
    lemma_elements_are_read(front, v, rest, 2);
}

proof fn lemma_volume_answer_text_1()
    ensures
        "<CurrentVolume>"@ == opening_tag("CurrentVolume"@),
{
    reveal_strlit("<CurrentVolume>");
    reveal_strlit("<");
    reveal_strlit(">");
    reveal_strlit("</");
    reveal_strlit("CurrentVolume");
    assert("<CurrentVolume>"@ =~= opening_tag("CurrentVolume"@));
}

proof fn lemma_volume_answer_text_2()
    ensures
        "</CurrentVolume>"@ == closing_tag("CurrentVolume"@),
{
    reveal_strlit("</CurrentVolume>");
    reveal_strlit("<");
    reveal_strlit(">");
    reveal_strlit("</");
    reveal_strlit("CurrentVolume");
    assert("</CurrentVolume>"@ =~= closing_tag("CurrentVolume"@));
}

/// The elements of the answer to `GetVolume`.
spec fn volume_answer_elements(s: StateView) -> Seq<(Seq<char>, Seq<char>)> {
    seq![
        ("CurrentVolume"@, decimal(s.volume as nat)),
    ]
}

#[verifier::rlimit(40)]
proof fn lemma_volume_answer_shape(s: StateView)
    ensures
        query_values(Query::Volume, s) == elements_text(volume_answer_elements(s)),
{
    lemma_number_is_read(s.volume as nat, u16::MAX as int);
    assert(lacks(decimal(s.volume as nat), '<'));
    lemma_volume_answer_text_1();
    lemma_volume_answer_text_2();
    let x0 = Seq::<char>::empty();
    let v0 = Seq::<(Seq<char>, Seq<char>)>::empty();
    assert(x0 =~= elements_text(v0));
    let x1 = x0 + opening_tag("CurrentVolume"@) + decimal(s.volume as nat) + closing_tag("CurrentVolume"@);
    let v1 = v0.push(("CurrentVolume"@, decimal(s.volume as nat)));
    lemma_next_element(x0, v0, "CurrentVolume"@, decimal(s.volume as nat));
    assert(v1 == volume_answer_elements(s)) by {
        assert(v1 =~= volume_answer_elements(s));
    }
    let s1 = "<CurrentVolume>"@;
    let s2 = s1 + decimal(s.volume as nat);
    let s3 = s2 + "</CurrentVolume>"@;
    let f0 = Seq::<char>::empty();
    let f1 = f0 + opening_tag("CurrentVolume"@);
    lemma_nothing_added(s1);
    assert(f1 == f0 + s1);
    assert(s1 == f1);
    let f2 = f1 + decimal(s.volume as nat);
    assert(s2 == f2);
    let f3 = f2 + closing_tag("CurrentVolume"@);
    assert(s3 == f3);
    assert(f3 == x1);
    assert(query_values(Query::Volume, s) == s3);
}

proof fn lemma_volume_answer_plain(s: StateView)
    ensures
        plain_elements(volume_answer_elements(s)),
{
    lemma_number_is_read(s.volume as nat, u16::MAX as int);
    assert(lacks(decimal(s.volume as nat), '<'));
    let v = volume_answer_elements(s);
    reveal_strlit("CurrentVolume");
    assert forall|k: int| 0 <= k < v.len() implies plain_tag((#[trigger] v[k]).0) && lacks(
        v[k].1,
        '<',
    ) by {}
}

/// The answer to `GetVolume` says the volume.
#[verifier::rlimit(40)]
pub proof fn law_volume_is_read(s: StateView)
    ensures
        ({
            let text = answer(EventService::RenderingControl, "GetVolume"@, query_values(Query::Volume, s));
            &&& xml_value_spec(text, "CurrentVolume"@) == Some(decimal(s.volume as nat))
            &&& uint_value(xml_value_spec(text, "CurrentVolume"@)->0, 10, u16::MAX as int) == Some(
                s.volume as nat,
            )
        }),
{
    let action = "GetVolume"@;
    assert(lacks(action, '<')) by {
        reveal_strlit("GetVolume");
    }
    let values = query_values(Query::Volume, s);
    let v = volume_answer_elements(s);
    let front = answer_front(EventService::RenderingControl, action);
    let rest = "</u:"@ + action + "Response>"@;
    lemma_volume_answer_shape(s);
    lemma_volume_answer_plain(s);
    lemma_number_is_read(s.volume as nat, u16::MAX as int);
    assert(lacks(decimal(s.volume as nat), '<'));
    assert forall|k: int| 0 <= k < 0 implies no_mistaking((#[trigger] v[k]).0, "CurrentVolume"@) by {
        reveal_strlit("CurrentVolume");
    }
    assert(plain_tag("CurrentVolume"@) && "CurrentVolume"@[0] != 'u') by {
        reveal_strlit("CurrentVolume");
    }
    lemma_answer_front(EventService::RenderingControl, action, values, "CurrentVolume"@);
    lemma_elements_are_read(front, v, rest, 0);
}

proof fn lemma_mute_answer_text_1()
    ensures
        "<CurrentMute>"@ == opening_tag("CurrentMute"@),
{
    reveal_strlit("<CurrentMute>");
    reveal_strlit("<");
    reveal_strlit(">");
    reveal_strlit("</");
    reveal_strlit("CurrentMute");
    assert("<CurrentMute>"@ =~= opening_tag("CurrentMute"@));
}

proof fn lemma_mute_answer_text_2()
    ensures
        "</CurrentMute>"@ == closing_tag("CurrentMute"@),
{
    reveal_strlit("</CurrentMute>");
    reveal_strlit("<");
    reveal_strlit(">");
    reveal_strlit("</");
    reveal_strlit("CurrentMute");
    assert("</CurrentMute>"@ =~= closing_tag("CurrentMute"@));
}

/// The elements of the answer to `GetMute`.
spec fn mute_answer_elements(s: StateView) -> Seq<(Seq<char>, Seq<char>)> {
    seq![
        ("CurrentMute"@, bit(s.muted)),
    ]
}

#[verifier::rlimit(40)]
proof fn lemma_mute_answer_shape(s: StateView)
    ensures
        query_values(Query::Mute, s) == elements_text(mute_answer_elements(s)),
{
    assert(lacks(bit(s.muted), '<') && trim_spec(bit(s.muted)) == bit(s.muted)) by {
        reveal_strlit("0");
        reveal_strlit("1");
        lemma_trim_nothing(bit(s.muted));
    }
    lemma_mute_answer_text_1();
    lemma_mute_answer_text_2();
    let x0 = Seq::<char>::empty();
    let v0 = Seq::<(Seq<char>, Seq<char>)>::empty();
    assert(x0 =~= elements_text(v0));
    let x1 = x0 + opening_tag("CurrentMute"@) + bit(s.muted) + closing_tag("CurrentMute"@);
    let v1 = v0.push(("CurrentMute"@, bit(s.muted)));
    lemma_next_element(x0, v0, "CurrentMute"@, bit(s.muted));
    assert(v1 == mute_answer_elements(s)) by {
        assert(v1 =~= mute_answer_elements(s));
    }
    let s1 = "<CurrentMute>"@;
    let s2 = s1 + bit(s.muted);
    let s3 = s2 + "</CurrentMute>"@;
    let f0 = Seq::<char>::empty();
    let f1 = f0 + opening_tag("CurrentMute"@);
    lemma_nothing_added(s1);
    assert(f1 == f0 + s1);
    assert(s1 == f1);
    let f2 = f1 + bit(s.muted);
    assert(s2 == f2);
    let f3 = f2 + closing_tag("CurrentMute"@);
    assert(s3 == f3);
    assert(f3 == x1);
    assert(query_values(Query::Mute, s) == s3);
}

proof fn lemma_mute_answer_plain(s: StateView)
    ensures
        plain_elements(mute_answer_elements(s)),
{
    assert(lacks(bit(s.muted), '<') && trim_spec(bit(s.muted)) == bit(s.muted)) by {
        reveal_strlit("0");
        reveal_strlit("1");
        lemma_trim_nothing(bit(s.muted));
    }
    let v = mute_answer_elements(s);
    reveal_strlit("CurrentMute");
    assert forall|k: int| 0 <= k < v.len() implies plain_tag((#[trigger] v[k]).0) && lacks(
        v[k].1,
        '<',
    ) by {}
}

/// The answer to `GetMute` says whether the sound is off.
#[verifier::rlimit(40)]
pub proof fn law_mute_is_read(s: StateView)
    ensures
        ({
            let text = answer(EventService::RenderingControl, "GetMute"@, query_values(Query::Mute, s));
            &&& xml_value_spec(text, "CurrentMute"@) == Some(if s.muted { "1"@ } else { "0"@ })
        }),
{
    let action = "GetMute"@;
    assert(lacks(action, '<')) by {
        reveal_strlit("GetMute");
    }
    let values = query_values(Query::Mute, s);
    let v = mute_answer_elements(s);
    let front = answer_front(EventService::RenderingControl, action);
    let rest = "</u:"@ + action + "Response>"@;
    lemma_mute_answer_shape(s);
    lemma_mute_answer_plain(s);
    assert(lacks(bit(s.muted), '<') && trim_spec(bit(s.muted)) == bit(s.muted)) by {
        reveal_strlit("0");
        reveal_strlit("1");
        lemma_trim_nothing(bit(s.muted));
    }
    assert forall|k: int| 0 <= k < 0 implies no_mistaking((#[trigger] v[k]).0, "CurrentMute"@) by {
        reveal_strlit("CurrentMute");
    }
    assert(plain_tag("CurrentMute"@) && "CurrentMute"@[0] != 'u') by {
        reveal_strlit("CurrentMute");
    }
    lemma_answer_front(EventService::RenderingControl, action, values, "CurrentMute"@);
    lemma_elements_are_read(front, v, rest, 0);
}

/// What the renderer knows of the player after the player gave this status: all that the
/// status says, and the transport state that it stands for. It plays exactly where the
/// status says so. A player that neither plays nor is paused has stopped, if the renderer
/// has media, and so has one that is paused at the end of its media.
pub open spec fn follows(s: StateView, status: PlayerStatus, after: StateView) -> bool {
    let at_end = status.duration matches Some(end) && (status.position.secs > end.secs
        || status.position.secs == end.secs && status.position.nanos >= end.nanos);
    &&& after.position == status.position
    &&& after.duration == status.duration
    &&& after.volume == status.volume
    &&& after.muted == status.muted
    &&& after.uri == s.uri
    &&& after.title == s.title
    &&& after.cast == s.cast
    &&& after.upnp_address == s.upnp_address
    &&& after.transport == TransportState::Playing <==> status.playing
    &&& after.transport == TransportState::PausedPlayback <==> !status.playing && status.paused
        && !at_end
    &&& after.transport == TransportState::Stopped <==> !status.playing && (status.paused && at_end
        || !status.paused && s.uri is Some)
    &&& after.transport == TransportState::NoMediaPresent <==> !status.playing && !status.paused
        && s.uri is None
}

/// The text of an answer that went well.
pub open spec fn said(end: Ended) -> Seq<char> {
    end.outcome->Ok_0.0
}

/// A query asks the player for its status, once, and for nothing else. The renderer takes
/// over the status, where the player gives one, and keeps what it knew where it does not. It
/// goes well either way, and nobody is told of a change.
pub proof fn law_queries_follow_the_player(
    service: EventService,
    action: Seq<char>,
    body: Seq<char>,
    seconds: Option<Span>,
    s: StateView,
    calls: Seq<(CallView, Answer)>,
    answer: Answer,
)
    requires
        service == EventService::AvTransport && to_instance_zero(body) && (action
            == "GetTransportInfo"@ || action == "GetPositionInfo"@ || action == "GetMediaInfo"@)
            || service == EventService::RenderingControl && to_master(body) && (action
            == "GetVolume"@ || action == "GetMute"@),
    ensures
        match run_of(service, action, body, seconds, s, calls) {
            Some(end) => {
                &&& calls.len() == 1 && calls[0].0 == CallView::Status
                &&& end.outcome is Ok && !end.outcome->Ok_0.1 && end.recorded is None
                &&& match calls[0].1 {
                    Answer::Status(status) => follows(s, status, end.state),
                    _ => end.state == s,
                }
            },
            None => true,
        },
        run_of(service, action, body, seconds, s, seq![(CallView::Status, answer)]) is Some,
{
    reveal_with_fuel(ended, 4);
    lemma_query_names();
}

/// The names of the queries differ from those of the other actions.
proof fn lemma_query_names()
    ensures
        "SetAVTransportURI"@.len() == 17,
        "Play"@.len() == 4,
        "Pause"@.len() == 5,
        "Stop"@.len() == 4,
        "Seek"@.len() == 4,
        "GetTransportInfo"@.len() == 16,
        "GetPositionInfo"@.len() == 15,
        "GetMediaInfo"@.len() == 12,
        "GetVolume"@.len() == 9,
        "SetVolume"@.len() == 9,
        "GetMute"@.len() == 7,
        "SetMute"@.len() == 7,
        "GetVolume"@ != "SetVolume"@,
        "GetMute"@ != "SetMute"@,
{
    reveal_strlit("SetAVTransportURI");
    reveal_strlit("Play");
    reveal_strlit("Pause");
    reveal_strlit("Stop");
    reveal_strlit("Seek");
    reveal_strlit("GetTransportInfo");
    reveal_strlit("GetPositionInfo");
    reveal_strlit("GetMediaInfo");
    reveal_strlit("GetVolume");
    reveal_strlit("SetVolume");
    reveal_strlit("GetMute");
    reveal_strlit("SetMute");
    assert("GetVolume"@[0] == 'G' && "SetVolume"@[0] == 'S');
    assert("GetMute"@[0] == 'G' && "SetMute"@[0] == 'S');
}

/// What a query of AVTransport is answered is what the renderer knows once it has asked the
/// player: the transport state, the address and the length of the media, and the place in it.
pub proof fn law_transport_queries_say_what_is_known(
    body: Seq<char>,
    seconds: Option<Span>,
    s: StateView,
    answer: Answer,
)
    requires
        to_instance_zero(body),
    ensures
        ({
            let calls = seq![(CallView::Status, answer)];
            let transport = EventService::AvTransport;
            let info = run_of(transport, "GetTransportInfo"@, body, seconds, s, calls)->0;
            let place = run_of(transport, "GetPositionInfo"@, body, seconds, s, calls)->0;
            let media = run_of(transport, "GetMediaInfo"@, body, seconds, s, calls)->0;
            let now = info.state;
            let uri = now.uri.unwrap_or(seq![]);
            let length = now.duration.unwrap_or(Span { secs: 0, nanos: 0 });
            &&& place.state == now && media.state == now
            &&& xml_value_spec(said(info), "CurrentTransportState"@) == Some(
                match now.transport {
                    TransportState::NoMediaPresent => "NO_MEDIA_PRESENT"@,
                    TransportState::Stopped => "STOPPED"@,
                    TransportState::Playing => "PLAYING"@,
                    TransportState::PausedPlayback => "PAUSED_PLAYBACK"@,
                    TransportState::Transitioning => "TRANSITIONING"@,
                },
            )
            &&& xml_value_spec(said(place), "TrackURI"@) == Some(trim_spec(escape_xml_spec(uri)))
            &&& xml_value_spec(said(place), "TrackDuration"@) == Some(time_text(length))
            &&& xml_value_spec(said(place), "RelTime"@) == Some(time_text(now.position))
            &&& xml_value_spec(said(place), "AbsTime"@) == Some(time_text(now.position))
            &&& xml_value_spec(said(media), "CurrentURI"@) == Some(trim_spec(escape_xml_spec(uri)))
            &&& xml_value_spec(said(media), "MediaDuration"@) == Some(time_text(length))
        }),
{
    reveal_with_fuel(ended, 4);
    lemma_query_names();
    let calls = seq![(CallView::Status, answer)];
    let now = run_of(
        EventService::AvTransport,
        "GetTransportInfo"@,
        body,
        seconds,
        s,
        calls,
    )->0.state;
    law_transport_info_is_read(now);
    law_position_info_is_read(now);
    law_media_info_is_read(now);
}

/// What a query of RenderingControl is answered is what the renderer knows once it has asked
/// the player: the volume, and whether the sound is off.
pub proof fn law_sound_queries_say_what_is_known(
    body: Seq<char>,
    seconds: Option<Span>,
    s: StateView,
    answer: Answer,
)
    requires
        to_master(body),
    ensures
        ({
            let calls = seq![(CallView::Status, answer)];
            let sound = EventService::RenderingControl;
            let volume = run_of(sound, "GetVolume"@, body, seconds, s, calls)->0;
            let mute = run_of(sound, "GetMute"@, body, seconds, s, calls)->0;
            let level = xml_value_spec(said(volume), "CurrentVolume"@);
            &&& volume.state == mute.state
            &&& level is Some && uint_value(level->0, 10, u16::MAX as int) == Some(
                volume.state.volume as nat,
            )
            &&& xml_value_spec(said(mute), "CurrentMute"@) == Some(
                if mute.state.muted {
                    "1"@
                } else {
                    "0"@
                },
            )
        }),
{
    reveal_with_fuel(ended, 4);
    lemma_query_names();
    let calls = seq![(CallView::Status, answer)];
    let now = run_of(
        EventService::RenderingControl,
        "GetVolume"@,
        body,
        seconds,
        s,
        calls,
    )->0.state;
    law_volume_is_read(now);
    law_mute_is_read(now);
}

/// Taking over a status as it stands, outside any action, follows the player too.
pub proof fn law_refreshing_follows_the_player(s: StateView, status: PlayerStatus)
    ensures
        follows(s, status, refreshed(s, status)),
        after_status(s, Some(status)) == refreshed(s, status),
        after_status(s, None) == s,
{
}

} // verus!
