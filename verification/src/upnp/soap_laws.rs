//! Where requests lead, and what the answers to them say.

use vstd::prelude::*;
use crate::fields::looked_up;
use crate::http::RequestView;
use crate::number::{decimal, uint_value};
use crate::player::{Answer, CallView};
use crate::reading::{
    clear_of, differs_soon, lacks, lemma_clear_joined, lemma_clear_plain, lemma_clear_text,
    lemma_joined, lemma_mark_found, lemma_nothing_added, lemma_number_is_read, lemma_trim_nothing,
    lemma_value_behind, rest_behind, value_behind,
};
use crate::state::{Span, StateView};
use crate::text::{lemma_rsplit_once, trim_spec};
use crate::upnp::action::Outcome;
use crate::upnp::action_laws::{run_of, to_instance_zero};
use crate::upnp::control::{connection_outcome, ended};
use crate::upnp::description::{SERVICE_AVTRANSPORT, SERVICE_CONNECTION, SERVICE_RENDERING};
use crate::upnp::query_laws::{answer_front, lemma_answer_front, said};
use crate::upnp::route::{
    control_answer, fault_answer, is_quote, routed, unquoted_end, unquoted_front, RouteView,
};
use crate::upnp::soap::{answer, bool_value, envelope, fault_text, EventService, Fault};
use crate::xml::{escape_xml_spec, xml_value_spec};
use crate::xml_laws::{
    closing_tag, elements_text, law_escaped_has_no_markup, law_escaped_stands_for_the_text,
    lemma_elements_are_read, lemma_next_element, no_mistaking, opening_tag, plain_elements,
    plain_tag, unescaped,
};

verus! {

// ---------------------------------------------------------------------------
// Answers
// ---------------------------------------------------------------------------

/// The names of the actions of ConnectionManager differ.
proof fn lemma_connection_names()
    ensures
        "GetProtocolInfo"@.len() == 15,
        "GetCurrentConnectionIDs"@.len() == 23,
        "GetCurrentConnectionInfo"@.len() == 24,
{
    reveal_strlit("GetProtocolInfo");
    reveal_strlit("GetCurrentConnectionIDs");
    reveal_strlit("GetCurrentConnectionInfo");
}

/// The name of `GetTransportSettings` differs from those of the other actions.
proof fn lemma_settings_name()
    ensures
        "GetTransportSettings"@.len() == 20,
        "SetAVTransportURI"@.len() == 17,
        "Play"@.len() == 4,
        "Pause"@.len() == 5,
        "Stop"@.len() == 4,
        "Seek"@.len() == 4,
        "GetTransportInfo"@.len() == 16,
        "GetPositionInfo"@.len() == 15,
        "GetMediaInfo"@.len() == 12,
{
    reveal_strlit("GetTransportSettings");
    reveal_strlit("SetAVTransportURI");
    reveal_strlit("Play");
    reveal_strlit("Pause");
    reveal_strlit("Stop");
    reveal_strlit("Seek");
    reveal_strlit("GetTransportInfo");
    reveal_strlit("GetPositionInfo");
    reveal_strlit("GetMediaInfo");
}

proof fn lemma_protocol_info_text_1()
    ensures
        "<Source></Source><Sink>"@ == opening_tag("Source"@) + closing_tag("Source"@) + opening_tag("Sink"@),
{
    reveal_strlit("<Source></Source><Sink>");
    reveal_strlit("<");
    reveal_strlit(">");
    reveal_strlit("</");
    reveal_strlit("Source");
    reveal_strlit("Sink");
    assert("<Source></Source><Sink>"@ =~= opening_tag("Source"@) + closing_tag("Source"@) + opening_tag("Sink"@));
}

proof fn lemma_protocol_info_text_2()
    ensures
        "</Sink>"@ == closing_tag("Sink"@),
{
    reveal_strlit("</Sink>");
    reveal_strlit("<");
    reveal_strlit(">");
    reveal_strlit("</");
    reveal_strlit("Sink");
    assert("</Sink>"@ =~= closing_tag("Sink"@));
}

/// The elements of the answer to `GetProtocolInfo`.
spec fn protocol_info_elements(sink: Seq<char>) -> Seq<(Seq<char>, Seq<char>)> {
    seq![
        ("Source"@, Seq::<char>::empty()),
        ("Sink"@, escape_xml_spec(sink)),
    ]
}

#[verifier::rlimit(40)]
proof fn lemma_protocol_info_shape(sink: Seq<char>)
    ensures
        "<Source></Source><Sink>"@ + escape_xml_spec(sink) + "</Sink>"@ == elements_text(protocol_info_elements(sink)),
{
    law_escaped_has_no_markup(sink);
    assert(lacks(escape_xml_spec(sink), '<'));
    lemma_protocol_info_text_1();
    lemma_protocol_info_text_2();
    let x0 = Seq::<char>::empty();
    let v0 = Seq::<(Seq<char>, Seq<char>)>::empty();
    assert(x0 =~= elements_text(v0));
    let x1 = x0 + opening_tag("Source"@) + Seq::<char>::empty() + closing_tag("Source"@);
    let v1 = v0.push(("Source"@, Seq::<char>::empty()));
    lemma_next_element(x0, v0, "Source"@, Seq::<char>::empty());
    let x2 = x1 + opening_tag("Sink"@) + escape_xml_spec(sink) + closing_tag("Sink"@);
    let v2 = v1.push(("Sink"@, escape_xml_spec(sink)));
    lemma_next_element(x1, v1, "Sink"@, escape_xml_spec(sink));
    assert(v2 == protocol_info_elements(sink)) by {
        assert(v2 =~= protocol_info_elements(sink));
    }
    let s1 = "<Source></Source><Sink>"@;
    let s2 = s1 + escape_xml_spec(sink);
    let s3 = s2 + "</Sink>"@;
    let f0 = Seq::<char>::empty();
    let f1 = f0 + opening_tag("Source"@) + closing_tag("Source"@) + opening_tag("Sink"@);
    lemma_nothing_added(s1);
    lemma_joined(f0, opening_tag("Source"@) + closing_tag("Source"@), opening_tag("Sink"@));
    lemma_joined(f0, opening_tag("Source"@), closing_tag("Source"@));
    assert(f1 == f0 + s1);
    assert(s1 == f1);
    let f2 = f1 + escape_xml_spec(sink);
    assert(s2 == f2);
    let f3 = f2 + closing_tag("Sink"@);
    assert(s3 == f3);
    lemma_nothing_added(x0 + opening_tag("Source"@));
    assert(f3 == x2);
    assert("<Source></Source><Sink>"@ + escape_xml_spec(sink) + "</Sink>"@ == s3);
}

proof fn lemma_protocol_info_plain(sink: Seq<char>)
    ensures
        plain_elements(protocol_info_elements(sink)),
{
    law_escaped_has_no_markup(sink);
    assert(lacks(escape_xml_spec(sink), '<'));
    let v = protocol_info_elements(sink);
    reveal_strlit("Source");
    reveal_strlit("Sink");
    assert forall|k: int| 0 <= k < v.len() implies plain_tag((#[trigger] v[k]).0) && lacks(
        v[k].1,
        '<',
    ) by {}
}

/// The answer to `GetProtocolInfo` says what the player can play, and that nothing is sent.
#[verifier::rlimit(40)]
pub proof fn law_protocols_are_read(service: EventService, sink: Seq<char>)
    ensures
        match connection_outcome(service, "GetProtocolInfo"@, sink) {
            Ok((text, changed)) => {
                &&& !changed
                &&& xml_value_spec(text, "Source"@) == Some(Seq::<char>::empty())
                &&& xml_value_spec(text, "Sink"@) == Some(trim_spec(escape_xml_spec(sink)))
            },
            Err(_) => false,
        },
{
    let action = "GetProtocolInfo"@;
    assert(lacks(action, '<')) by {
        reveal_strlit("GetProtocolInfo");
    }
    lemma_connection_names();
    let values = "<Source></Source><Sink>"@ + escape_xml_spec(sink) + "</Sink>"@;
    let v = protocol_info_elements(sink);
    let front = answer_front(service, action);
    let rest = "</u:"@ + action + "Response>"@;
    lemma_protocol_info_shape(sink);
    lemma_protocol_info_plain(sink);
    law_escaped_has_no_markup(sink);
    assert(lacks(escape_xml_spec(sink), '<'));
    assert(trim_spec(Seq::<char>::empty()) == Seq::<char>::empty()) by {
        lemma_trim_nothing(Seq::<char>::empty());
    }
    assert forall|k: int| 0 <= k < 0 implies no_mistaking((#[trigger] v[k]).0, "Source"@) by {
        reveal_strlit("Source");
    }
    assert(plain_tag("Source"@) && "Source"@[0] != 'u') by {
        reveal_strlit("Source");
    }
    lemma_answer_front(service, action, values, "Source"@);
    lemma_elements_are_read(front, v, rest, 0);
    assert forall|k: int| 0 <= k < 1 implies no_mistaking((#[trigger] v[k]).0, "Sink"@) by {
        reveal_strlit("Sink");
        reveal_strlit("Source");
        assert("Source"@[1] != "Sink"@[1]);
    }
    assert(plain_tag("Sink"@) && "Sink"@[0] != 'u') by {
        reveal_strlit("Sink");
    }
    lemma_answer_front(service, action, values, "Sink"@);
    lemma_elements_are_read(front, v, rest, 1);
}

proof fn lemma_connection_ids_text_1()
    ensures
        "<ConnectionIDs>0</ConnectionIDs>"@ == opening_tag("ConnectionIDs"@) + "0"@ + closing_tag("ConnectionIDs"@),
{
    reveal_strlit("<ConnectionIDs>0</ConnectionIDs>");
    reveal_strlit("<");
    reveal_strlit(">");
    reveal_strlit("</");
    reveal_strlit("ConnectionIDs");
    reveal_strlit("0");
    assert("<ConnectionIDs>0</ConnectionIDs>"@ =~= opening_tag("ConnectionIDs"@) + "0"@ + closing_tag("ConnectionIDs"@));
}

/// The elements of the answer to `GetCurrentConnectionIDs`.
spec fn connection_ids_elements() -> Seq<(Seq<char>, Seq<char>)> {
    seq![
        ("ConnectionIDs"@, "0"@),
    ]
}

#[verifier::rlimit(40)]
proof fn lemma_connection_ids_shape()
    ensures
        "<ConnectionIDs>0</ConnectionIDs>"@ == elements_text(connection_ids_elements()),
{
    lemma_connection_ids_text_1();
    let x0 = Seq::<char>::empty();
    let v0 = Seq::<(Seq<char>, Seq<char>)>::empty();
    assert(x0 =~= elements_text(v0));
    let x1 = x0 + opening_tag("ConnectionIDs"@) + "0"@ + closing_tag("ConnectionIDs"@);
    let v1 = v0.push(("ConnectionIDs"@, "0"@));
    lemma_next_element(x0, v0, "ConnectionIDs"@, "0"@);
    assert(v1 == connection_ids_elements()) by {
        assert(v1 =~= connection_ids_elements());
    }
    let s1 = "<ConnectionIDs>0</ConnectionIDs>"@;
    let f0 = Seq::<char>::empty();
    let f1 = f0 + opening_tag("ConnectionIDs"@) + "0"@ + closing_tag("ConnectionIDs"@);
    lemma_nothing_added(s1);
    lemma_joined(f0, opening_tag("ConnectionIDs"@) + "0"@, closing_tag("ConnectionIDs"@));
    lemma_joined(f0, opening_tag("ConnectionIDs"@), "0"@);
    assert(f1 == f0 + s1);
    assert(s1 == f1);
    assert(f1 == x1);
    assert("<ConnectionIDs>0</ConnectionIDs>"@ == s1);
}

proof fn lemma_connection_ids_plain()
    ensures
        plain_elements(connection_ids_elements()),
{
    let v = connection_ids_elements();
    reveal_strlit("ConnectionIDs");
    reveal_strlit("0");
    assert forall|k: int| 0 <= k < v.len() implies plain_tag((#[trigger] v[k]).0) && lacks(
        v[k].1,
        '<',
    ) by {}
}

/// The answer to `GetCurrentConnectionIDs` says that there is connection 0.
#[verifier::rlimit(40)]
pub proof fn law_connections_are_read(service: EventService, sink: Seq<char>)
    ensures
        match connection_outcome(service, "GetCurrentConnectionIDs"@, sink) {
            Ok((text, changed)) => {
                &&& !changed
                &&& xml_value_spec(text, "ConnectionIDs"@) == Some("0"@)
            },
            Err(_) => false,
        },
{
    let action = "GetCurrentConnectionIDs"@;
    assert(lacks(action, '<')) by {
        reveal_strlit("GetCurrentConnectionIDs");
    }
    lemma_connection_names();
    let values = "<ConnectionIDs>0</ConnectionIDs>"@;
    let v = connection_ids_elements();
    let front = answer_front(service, action);
    let rest = "</u:"@ + action + "Response>"@;
    lemma_connection_ids_shape();
    lemma_connection_ids_plain();
    assert(trim_spec("0"@) == "0"@) by {
        reveal_strlit("0");
        lemma_trim_nothing("0"@);
    }
    assert forall|k: int| 0 <= k < 0 implies no_mistaking((#[trigger] v[k]).0, "ConnectionIDs"@) by {
        reveal_strlit("ConnectionIDs");
    }
    assert(plain_tag("ConnectionIDs"@) && "ConnectionIDs"@[0] != 'u') by {
        reveal_strlit("ConnectionIDs");
    }
    lemma_answer_front(service, action, values, "ConnectionIDs"@);
    lemma_elements_are_read(front, v, rest, 0);
}

proof fn lemma_connection_info_text_1aa()
    ensures
        "<RcsID>0</RcsID><AVTransportID>"@ == opening_tag("RcsID"@) + "0"@ + closing_tag("RcsID"@) + opening_tag("AVTransportID"@),
{
    reveal_strlit("<RcsID>0</RcsID><AVTransportID>");
    reveal_strlit("<");
    reveal_strlit(">");
    reveal_strlit("</");
    reveal_strlit("RcsID");
    reveal_strlit("0");
    reveal_strlit("AVTransportID");
    assert("<RcsID>0</RcsID><AVTransportID>"@ =~= opening_tag("RcsID"@) + "0"@ + closing_tag("RcsID"@) + opening_tag("AVTransportID"@));
}

proof fn lemma_connection_info_text_1ab()
    ensures
        "0</AVTransportID><ProtocolInfo></ProtocolInfo><PeerConnectionManager>"@ == "0"@ + closing_tag("AVTransportID"@) + opening_tag("ProtocolInfo"@) + closing_tag("ProtocolInfo"@) + opening_tag("PeerConnectionManager"@),
{
    reveal_strlit("0</AVTransportID><ProtocolInfo></ProtocolInfo><PeerConnectionManager>");
    reveal_strlit("<");
    reveal_strlit(">");
    reveal_strlit("</");
    reveal_strlit("0");
    reveal_strlit("AVTransportID");
    reveal_strlit("ProtocolInfo");
    reveal_strlit("PeerConnectionManager");
    assert("0</AVTransportID><ProtocolInfo></ProtocolInfo><PeerConnectionManager>"@ =~= "0"@ + closing_tag("AVTransportID"@) + opening_tag("ProtocolInfo"@) + closing_tag("ProtocolInfo"@) + opening_tag("PeerConnectionManager"@));
}

proof fn lemma_connection_info_text_1a()
    ensures
        "<RcsID>0</RcsID><AVTransportID>0</AVTransportID><ProtocolInfo></ProtocolInfo><PeerConnectionManager>"@ == opening_tag("RcsID"@) + "0"@ + closing_tag("RcsID"@) + opening_tag("AVTransportID"@) + "0"@ + closing_tag("AVTransportID"@) + opening_tag("ProtocolInfo"@) + closing_tag("ProtocolInfo"@) + opening_tag("PeerConnectionManager"@),
{
    lemma_connection_info_text_1aa();
    lemma_connection_info_text_1ab();
    assert("<RcsID>0</RcsID><AVTransportID>0</AVTransportID><ProtocolInfo></ProtocolInfo><PeerConnectionManager>"@ == "<RcsID>0</RcsID><AVTransportID>"@ + "0</AVTransportID><ProtocolInfo></ProtocolInfo><PeerConnectionManager>"@) by {
        reveal_strlit("<RcsID>0</RcsID><AVTransportID>0</AVTransportID><ProtocolInfo></ProtocolInfo><PeerConnectionManager>");
        reveal_strlit("<RcsID>0</RcsID><AVTransportID>");
        reveal_strlit("0</AVTransportID><ProtocolInfo></ProtocolInfo><PeerConnectionManager>");
        assert("<RcsID>0</RcsID><AVTransportID>0</AVTransportID><ProtocolInfo></ProtocolInfo><PeerConnectionManager>"@ =~= "<RcsID>0</RcsID><AVTransportID>"@ + "0</AVTransportID><ProtocolInfo></ProtocolInfo><PeerConnectionManager>"@);
    }
    lemma_joined(opening_tag("RcsID"@) + "0"@ + closing_tag("RcsID"@) + opening_tag("AVTransportID"@), "0"@ + closing_tag("AVTransportID"@) + opening_tag("ProtocolInfo"@) + closing_tag("ProtocolInfo"@), opening_tag("PeerConnectionManager"@));
    lemma_joined(opening_tag("RcsID"@) + "0"@ + closing_tag("RcsID"@) + opening_tag("AVTransportID"@), "0"@ + closing_tag("AVTransportID"@) + opening_tag("ProtocolInfo"@), closing_tag("ProtocolInfo"@));
    lemma_joined(opening_tag("RcsID"@) + "0"@ + closing_tag("RcsID"@) + opening_tag("AVTransportID"@), "0"@ + closing_tag("AVTransportID"@), opening_tag("ProtocolInfo"@));
    lemma_joined(opening_tag("RcsID"@) + "0"@ + closing_tag("RcsID"@) + opening_tag("AVTransportID"@), "0"@, closing_tag("AVTransportID"@));
}

proof fn lemma_connection_info_text_1ba()
    ensures
        "</PeerConnectionManager><PeerConnectionID>-1</PeerConnectionID><Direction>"@ == closing_tag("PeerConnectionManager"@) + opening_tag("PeerConnectionID"@) + "-1"@ + closing_tag("PeerConnectionID"@) + opening_tag("Direction"@),
{
    reveal_strlit("</PeerConnectionManager><PeerConnectionID>-1</PeerConnectionID><Direction>");
    reveal_strlit("<");
    reveal_strlit(">");
    reveal_strlit("</");
    reveal_strlit("PeerConnectionManager");
    reveal_strlit("PeerConnectionID");
    reveal_strlit("-1");
    reveal_strlit("Direction");
    assert("</PeerConnectionManager><PeerConnectionID>-1</PeerConnectionID><Direction>"@ =~= closing_tag("PeerConnectionManager"@) + opening_tag("PeerConnectionID"@) + "-1"@ + closing_tag("PeerConnectionID"@) + opening_tag("Direction"@));
}

proof fn lemma_connection_info_text_1bb()
    ensures
        "Input</Direction><Status>OK</Status>"@ == "Input"@ + closing_tag("Direction"@) + opening_tag("Status"@) + "OK"@ + closing_tag("Status"@),
{
    reveal_strlit("Input</Direction><Status>OK</Status>");
    reveal_strlit("<");
    reveal_strlit(">");
    reveal_strlit("</");
    reveal_strlit("Input");
    reveal_strlit("Direction");
    reveal_strlit("Status");
    reveal_strlit("OK");
    assert("Input</Direction><Status>OK</Status>"@ =~= "Input"@ + closing_tag("Direction"@) + opening_tag("Status"@) + "OK"@ + closing_tag("Status"@));
}

proof fn lemma_connection_info_text_1b()
    ensures
        "</PeerConnectionManager><PeerConnectionID>-1</PeerConnectionID><Direction>Input</Direction><Status>OK</Status>"@ == closing_tag("PeerConnectionManager"@) + opening_tag("PeerConnectionID"@) + "-1"@ + closing_tag("PeerConnectionID"@) + opening_tag("Direction"@) + "Input"@ + closing_tag("Direction"@) + opening_tag("Status"@) + "OK"@ + closing_tag("Status"@),
{
    lemma_connection_info_text_1ba();
    lemma_connection_info_text_1bb();
    assert("</PeerConnectionManager><PeerConnectionID>-1</PeerConnectionID><Direction>Input</Direction><Status>OK</Status>"@ == "</PeerConnectionManager><PeerConnectionID>-1</PeerConnectionID><Direction>"@ + "Input</Direction><Status>OK</Status>"@) by {
        reveal_strlit("</PeerConnectionManager><PeerConnectionID>-1</PeerConnectionID><Direction>Input</Direction><Status>OK</Status>");
        reveal_strlit("</PeerConnectionManager><PeerConnectionID>-1</PeerConnectionID><Direction>");
        reveal_strlit("Input</Direction><Status>OK</Status>");
        assert("</PeerConnectionManager><PeerConnectionID>-1</PeerConnectionID><Direction>Input</Direction><Status>OK</Status>"@ =~= "</PeerConnectionManager><PeerConnectionID>-1</PeerConnectionID><Direction>"@ + "Input</Direction><Status>OK</Status>"@);
    }
    lemma_joined(closing_tag("PeerConnectionManager"@) + opening_tag("PeerConnectionID"@) + "-1"@ + closing_tag("PeerConnectionID"@) + opening_tag("Direction"@), "Input"@ + closing_tag("Direction"@) + opening_tag("Status"@) + "OK"@, closing_tag("Status"@));
    lemma_joined(closing_tag("PeerConnectionManager"@) + opening_tag("PeerConnectionID"@) + "-1"@ + closing_tag("PeerConnectionID"@) + opening_tag("Direction"@), "Input"@ + closing_tag("Direction"@) + opening_tag("Status"@), "OK"@);
    lemma_joined(closing_tag("PeerConnectionManager"@) + opening_tag("PeerConnectionID"@) + "-1"@ + closing_tag("PeerConnectionID"@) + opening_tag("Direction"@), "Input"@ + closing_tag("Direction"@), opening_tag("Status"@));
    lemma_joined(closing_tag("PeerConnectionManager"@) + opening_tag("PeerConnectionID"@) + "-1"@ + closing_tag("PeerConnectionID"@) + opening_tag("Direction"@), "Input"@, closing_tag("Direction"@));
}

proof fn lemma_connection_info_text_1()
    ensures
        "<RcsID>0</RcsID><AVTransportID>0</AVTransportID><ProtocolInfo></ProtocolInfo><PeerConnectionManager></PeerConnectionManager><PeerConnectionID>-1</PeerConnectionID><Direction>Input</Direction><Status>OK</Status>"@ == opening_tag("RcsID"@) + "0"@ + closing_tag("RcsID"@) + opening_tag("AVTransportID"@) + "0"@ + closing_tag("AVTransportID"@) + opening_tag("ProtocolInfo"@) + closing_tag("ProtocolInfo"@) + opening_tag("PeerConnectionManager"@) + closing_tag("PeerConnectionManager"@) + opening_tag("PeerConnectionID"@) + "-1"@ + closing_tag("PeerConnectionID"@) + opening_tag("Direction"@) + "Input"@ + closing_tag("Direction"@) + opening_tag("Status"@) + "OK"@ + closing_tag("Status"@),
{
    lemma_connection_info_text_1a();
    lemma_connection_info_text_1b();
    assert("<RcsID>0</RcsID><AVTransportID>0</AVTransportID><ProtocolInfo></ProtocolInfo><PeerConnectionManager></PeerConnectionManager><PeerConnectionID>-1</PeerConnectionID><Direction>Input</Direction><Status>OK</Status>"@ == "<RcsID>0</RcsID><AVTransportID>0</AVTransportID><ProtocolInfo></ProtocolInfo><PeerConnectionManager>"@ + "</PeerConnectionManager><PeerConnectionID>-1</PeerConnectionID><Direction>Input</Direction><Status>OK</Status>"@) by {
        reveal_strlit("<RcsID>0</RcsID><AVTransportID>0</AVTransportID><ProtocolInfo></ProtocolInfo><PeerConnectionManager></PeerConnectionManager><PeerConnectionID>-1</PeerConnectionID><Direction>Input</Direction><Status>OK</Status>");
        reveal_strlit("<RcsID>0</RcsID><AVTransportID>0</AVTransportID><ProtocolInfo></ProtocolInfo><PeerConnectionManager>");
        reveal_strlit("</PeerConnectionManager><PeerConnectionID>-1</PeerConnectionID><Direction>Input</Direction><Status>OK</Status>");
        assert("<RcsID>0</RcsID><AVTransportID>0</AVTransportID><ProtocolInfo></ProtocolInfo><PeerConnectionManager></PeerConnectionManager><PeerConnectionID>-1</PeerConnectionID><Direction>Input</Direction><Status>OK</Status>"@ =~= "<RcsID>0</RcsID><AVTransportID>0</AVTransportID><ProtocolInfo></ProtocolInfo><PeerConnectionManager>"@ + "</PeerConnectionManager><PeerConnectionID>-1</PeerConnectionID><Direction>Input</Direction><Status>OK</Status>"@);
    }
    lemma_joined(opening_tag("RcsID"@) + "0"@ + closing_tag("RcsID"@) + opening_tag("AVTransportID"@) + "0"@ + closing_tag("AVTransportID"@) + opening_tag("ProtocolInfo"@) + closing_tag("ProtocolInfo"@) + opening_tag("PeerConnectionManager"@), closing_tag("PeerConnectionManager"@) + opening_tag("PeerConnectionID"@) + "-1"@ + closing_tag("PeerConnectionID"@) + opening_tag("Direction"@) + "Input"@ + closing_tag("Direction"@) + opening_tag("Status"@) + "OK"@, closing_tag("Status"@));
    lemma_joined(opening_tag("RcsID"@) + "0"@ + closing_tag("RcsID"@) + opening_tag("AVTransportID"@) + "0"@ + closing_tag("AVTransportID"@) + opening_tag("ProtocolInfo"@) + closing_tag("ProtocolInfo"@) + opening_tag("PeerConnectionManager"@), closing_tag("PeerConnectionManager"@) + opening_tag("PeerConnectionID"@) + "-1"@ + closing_tag("PeerConnectionID"@) + opening_tag("Direction"@) + "Input"@ + closing_tag("Direction"@) + opening_tag("Status"@), "OK"@);
    lemma_joined(opening_tag("RcsID"@) + "0"@ + closing_tag("RcsID"@) + opening_tag("AVTransportID"@) + "0"@ + closing_tag("AVTransportID"@) + opening_tag("ProtocolInfo"@) + closing_tag("ProtocolInfo"@) + opening_tag("PeerConnectionManager"@), closing_tag("PeerConnectionManager"@) + opening_tag("PeerConnectionID"@) + "-1"@ + closing_tag("PeerConnectionID"@) + opening_tag("Direction"@) + "Input"@ + closing_tag("Direction"@), opening_tag("Status"@));
    lemma_joined(opening_tag("RcsID"@) + "0"@ + closing_tag("RcsID"@) + opening_tag("AVTransportID"@) + "0"@ + closing_tag("AVTransportID"@) + opening_tag("ProtocolInfo"@) + closing_tag("ProtocolInfo"@) + opening_tag("PeerConnectionManager"@), closing_tag("PeerConnectionManager"@) + opening_tag("PeerConnectionID"@) + "-1"@ + closing_tag("PeerConnectionID"@) + opening_tag("Direction"@) + "Input"@, closing_tag("Direction"@));
    lemma_joined(opening_tag("RcsID"@) + "0"@ + closing_tag("RcsID"@) + opening_tag("AVTransportID"@) + "0"@ + closing_tag("AVTransportID"@) + opening_tag("ProtocolInfo"@) + closing_tag("ProtocolInfo"@) + opening_tag("PeerConnectionManager"@), closing_tag("PeerConnectionManager"@) + opening_tag("PeerConnectionID"@) + "-1"@ + closing_tag("PeerConnectionID"@) + opening_tag("Direction"@), "Input"@);
    lemma_joined(opening_tag("RcsID"@) + "0"@ + closing_tag("RcsID"@) + opening_tag("AVTransportID"@) + "0"@ + closing_tag("AVTransportID"@) + opening_tag("ProtocolInfo"@) + closing_tag("ProtocolInfo"@) + opening_tag("PeerConnectionManager"@), closing_tag("PeerConnectionManager"@) + opening_tag("PeerConnectionID"@) + "-1"@ + closing_tag("PeerConnectionID"@), opening_tag("Direction"@));
    lemma_joined(opening_tag("RcsID"@) + "0"@ + closing_tag("RcsID"@) + opening_tag("AVTransportID"@) + "0"@ + closing_tag("AVTransportID"@) + opening_tag("ProtocolInfo"@) + closing_tag("ProtocolInfo"@) + opening_tag("PeerConnectionManager"@), closing_tag("PeerConnectionManager"@) + opening_tag("PeerConnectionID"@) + "-1"@, closing_tag("PeerConnectionID"@));
    lemma_joined(opening_tag("RcsID"@) + "0"@ + closing_tag("RcsID"@) + opening_tag("AVTransportID"@) + "0"@ + closing_tag("AVTransportID"@) + opening_tag("ProtocolInfo"@) + closing_tag("ProtocolInfo"@) + opening_tag("PeerConnectionManager"@), closing_tag("PeerConnectionManager"@) + opening_tag("PeerConnectionID"@), "-1"@);
    lemma_joined(opening_tag("RcsID"@) + "0"@ + closing_tag("RcsID"@) + opening_tag("AVTransportID"@) + "0"@ + closing_tag("AVTransportID"@) + opening_tag("ProtocolInfo"@) + closing_tag("ProtocolInfo"@) + opening_tag("PeerConnectionManager"@), closing_tag("PeerConnectionManager"@), opening_tag("PeerConnectionID"@));
}

/// The elements of the answer to `GetCurrentConnectionInfo`.
spec fn connection_info_elements() -> Seq<(Seq<char>, Seq<char>)> {
    seq![
        ("RcsID"@, "0"@),
        ("AVTransportID"@, "0"@),
        ("ProtocolInfo"@, Seq::<char>::empty()),
        ("PeerConnectionManager"@, Seq::<char>::empty()),
        ("PeerConnectionID"@, "-1"@),
        ("Direction"@, "Input"@),
        ("Status"@, "OK"@),
    ]
}

#[verifier::rlimit(40)]
proof fn lemma_connection_info_shape()
    ensures
        "<RcsID>0</RcsID><AVTransportID>0</AVTransportID><ProtocolInfo></ProtocolInfo><PeerConnectionManager></PeerConnectionManager><PeerConnectionID>-1</PeerConnectionID><Direction>Input</Direction><Status>OK</Status>"@ == elements_text(connection_info_elements()),
{
    lemma_connection_info_text_1();
    let x0 = Seq::<char>::empty();
    let v0 = Seq::<(Seq<char>, Seq<char>)>::empty();
    assert(x0 =~= elements_text(v0));
    let x1 = x0 + opening_tag("RcsID"@) + "0"@ + closing_tag("RcsID"@);
    let v1 = v0.push(("RcsID"@, "0"@));
    lemma_next_element(x0, v0, "RcsID"@, "0"@);
    let x2 = x1 + opening_tag("AVTransportID"@) + "0"@ + closing_tag("AVTransportID"@);
    let v2 = v1.push(("AVTransportID"@, "0"@));
    lemma_next_element(x1, v1, "AVTransportID"@, "0"@);
    let x3 = x2 + opening_tag("ProtocolInfo"@) + Seq::<char>::empty() + closing_tag("ProtocolInfo"@);
    let v3 = v2.push(("ProtocolInfo"@, Seq::<char>::empty()));
    lemma_next_element(x2, v2, "ProtocolInfo"@, Seq::<char>::empty());
    let x4 = x3 + opening_tag("PeerConnectionManager"@) + Seq::<char>::empty() + closing_tag("PeerConnectionManager"@);
    let v4 = v3.push(("PeerConnectionManager"@, Seq::<char>::empty()));
    lemma_next_element(x3, v3, "PeerConnectionManager"@, Seq::<char>::empty());
    let x5 = x4 + opening_tag("PeerConnectionID"@) + "-1"@ + closing_tag("PeerConnectionID"@);
    let v5 = v4.push(("PeerConnectionID"@, "-1"@));
    lemma_next_element(x4, v4, "PeerConnectionID"@, "-1"@);
    let x6 = x5 + opening_tag("Direction"@) + "Input"@ + closing_tag("Direction"@);
    let v6 = v5.push(("Direction"@, "Input"@));
    lemma_next_element(x5, v5, "Direction"@, "Input"@);
    let x7 = x6 + opening_tag("Status"@) + "OK"@ + closing_tag("Status"@);
    let v7 = v6.push(("Status"@, "OK"@));
    lemma_next_element(x6, v6, "Status"@, "OK"@);
    assert(v7 == connection_info_elements()) by {
        assert(v7 =~= connection_info_elements());
    }
    let s1 = "<RcsID>0</RcsID><AVTransportID>0</AVTransportID><ProtocolInfo></ProtocolInfo><PeerConnectionManager></PeerConnectionManager><PeerConnectionID>-1</PeerConnectionID><Direction>Input</Direction><Status>OK</Status>"@;
    let f0 = Seq::<char>::empty();
    let f1 = f0 + opening_tag("RcsID"@) + "0"@ + closing_tag("RcsID"@) + opening_tag("AVTransportID"@) + "0"@ + closing_tag("AVTransportID"@) + opening_tag("ProtocolInfo"@) + closing_tag("ProtocolInfo"@) + opening_tag("PeerConnectionManager"@) + closing_tag("PeerConnectionManager"@) + opening_tag("PeerConnectionID"@) + "-1"@ + closing_tag("PeerConnectionID"@) + opening_tag("Direction"@) + "Input"@ + closing_tag("Direction"@) + opening_tag("Status"@) + "OK"@ + closing_tag("Status"@);
    lemma_nothing_added(s1);
    lemma_joined(f0, opening_tag("RcsID"@) + "0"@ + closing_tag("RcsID"@) + opening_tag("AVTransportID"@) + "0"@ + closing_tag("AVTransportID"@) + opening_tag("ProtocolInfo"@) + closing_tag("ProtocolInfo"@) + opening_tag("PeerConnectionManager"@) + closing_tag("PeerConnectionManager"@) + opening_tag("PeerConnectionID"@) + "-1"@ + closing_tag("PeerConnectionID"@) + opening_tag("Direction"@) + "Input"@ + closing_tag("Direction"@) + opening_tag("Status"@) + "OK"@, closing_tag("Status"@));
    lemma_joined(f0, opening_tag("RcsID"@) + "0"@ + closing_tag("RcsID"@) + opening_tag("AVTransportID"@) + "0"@ + closing_tag("AVTransportID"@) + opening_tag("ProtocolInfo"@) + closing_tag("ProtocolInfo"@) + opening_tag("PeerConnectionManager"@) + closing_tag("PeerConnectionManager"@) + opening_tag("PeerConnectionID"@) + "-1"@ + closing_tag("PeerConnectionID"@) + opening_tag("Direction"@) + "Input"@ + closing_tag("Direction"@) + opening_tag("Status"@), "OK"@);
    lemma_joined(f0, opening_tag("RcsID"@) + "0"@ + closing_tag("RcsID"@) + opening_tag("AVTransportID"@) + "0"@ + closing_tag("AVTransportID"@) + opening_tag("ProtocolInfo"@) + closing_tag("ProtocolInfo"@) + opening_tag("PeerConnectionManager"@) + closing_tag("PeerConnectionManager"@) + opening_tag("PeerConnectionID"@) + "-1"@ + closing_tag("PeerConnectionID"@) + opening_tag("Direction"@) + "Input"@ + closing_tag("Direction"@), opening_tag("Status"@));
    lemma_joined(f0, opening_tag("RcsID"@) + "0"@ + closing_tag("RcsID"@) + opening_tag("AVTransportID"@) + "0"@ + closing_tag("AVTransportID"@) + opening_tag("ProtocolInfo"@) + closing_tag("ProtocolInfo"@) + opening_tag("PeerConnectionManager"@) + closing_tag("PeerConnectionManager"@) + opening_tag("PeerConnectionID"@) + "-1"@ + closing_tag("PeerConnectionID"@) + opening_tag("Direction"@) + "Input"@, closing_tag("Direction"@));
    lemma_joined(f0, opening_tag("RcsID"@) + "0"@ + closing_tag("RcsID"@) + opening_tag("AVTransportID"@) + "0"@ + closing_tag("AVTransportID"@) + opening_tag("ProtocolInfo"@) + closing_tag("ProtocolInfo"@) + opening_tag("PeerConnectionManager"@) + closing_tag("PeerConnectionManager"@) + opening_tag("PeerConnectionID"@) + "-1"@ + closing_tag("PeerConnectionID"@) + opening_tag("Direction"@), "Input"@);
    lemma_joined(f0, opening_tag("RcsID"@) + "0"@ + closing_tag("RcsID"@) + opening_tag("AVTransportID"@) + "0"@ + closing_tag("AVTransportID"@) + opening_tag("ProtocolInfo"@) + closing_tag("ProtocolInfo"@) + opening_tag("PeerConnectionManager"@) + closing_tag("PeerConnectionManager"@) + opening_tag("PeerConnectionID"@) + "-1"@ + closing_tag("PeerConnectionID"@), opening_tag("Direction"@));
    lemma_joined(f0, opening_tag("RcsID"@) + "0"@ + closing_tag("RcsID"@) + opening_tag("AVTransportID"@) + "0"@ + closing_tag("AVTransportID"@) + opening_tag("ProtocolInfo"@) + closing_tag("ProtocolInfo"@) + opening_tag("PeerConnectionManager"@) + closing_tag("PeerConnectionManager"@) + opening_tag("PeerConnectionID"@) + "-1"@, closing_tag("PeerConnectionID"@));
    lemma_joined(f0, opening_tag("RcsID"@) + "0"@ + closing_tag("RcsID"@) + opening_tag("AVTransportID"@) + "0"@ + closing_tag("AVTransportID"@) + opening_tag("ProtocolInfo"@) + closing_tag("ProtocolInfo"@) + opening_tag("PeerConnectionManager"@) + closing_tag("PeerConnectionManager"@) + opening_tag("PeerConnectionID"@), "-1"@);
    lemma_joined(f0, opening_tag("RcsID"@) + "0"@ + closing_tag("RcsID"@) + opening_tag("AVTransportID"@) + "0"@ + closing_tag("AVTransportID"@) + opening_tag("ProtocolInfo"@) + closing_tag("ProtocolInfo"@) + opening_tag("PeerConnectionManager"@) + closing_tag("PeerConnectionManager"@), opening_tag("PeerConnectionID"@));
    lemma_joined(f0, opening_tag("RcsID"@) + "0"@ + closing_tag("RcsID"@) + opening_tag("AVTransportID"@) + "0"@ + closing_tag("AVTransportID"@) + opening_tag("ProtocolInfo"@) + closing_tag("ProtocolInfo"@) + opening_tag("PeerConnectionManager"@), closing_tag("PeerConnectionManager"@));
    lemma_joined(f0, opening_tag("RcsID"@) + "0"@ + closing_tag("RcsID"@) + opening_tag("AVTransportID"@) + "0"@ + closing_tag("AVTransportID"@) + opening_tag("ProtocolInfo"@) + closing_tag("ProtocolInfo"@), opening_tag("PeerConnectionManager"@));
    lemma_joined(f0, opening_tag("RcsID"@) + "0"@ + closing_tag("RcsID"@) + opening_tag("AVTransportID"@) + "0"@ + closing_tag("AVTransportID"@) + opening_tag("ProtocolInfo"@), closing_tag("ProtocolInfo"@));
    lemma_joined(f0, opening_tag("RcsID"@) + "0"@ + closing_tag("RcsID"@) + opening_tag("AVTransportID"@) + "0"@ + closing_tag("AVTransportID"@), opening_tag("ProtocolInfo"@));
    lemma_joined(f0, opening_tag("RcsID"@) + "0"@ + closing_tag("RcsID"@) + opening_tag("AVTransportID"@) + "0"@, closing_tag("AVTransportID"@));
    lemma_joined(f0, opening_tag("RcsID"@) + "0"@ + closing_tag("RcsID"@) + opening_tag("AVTransportID"@), "0"@);
    lemma_joined(f0, opening_tag("RcsID"@) + "0"@ + closing_tag("RcsID"@), opening_tag("AVTransportID"@));
    lemma_joined(f0, opening_tag("RcsID"@) + "0"@, closing_tag("RcsID"@));
    lemma_joined(f0, opening_tag("RcsID"@), "0"@);
    assert(f1 == f0 + s1);
    assert(s1 == f1);
    lemma_nothing_added(x2 + opening_tag("ProtocolInfo"@));
    lemma_nothing_added(x3 + opening_tag("PeerConnectionManager"@));
    assert(f1 == x7);
    assert("<RcsID>0</RcsID><AVTransportID>0</AVTransportID><ProtocolInfo></ProtocolInfo><PeerConnectionManager></PeerConnectionManager><PeerConnectionID>-1</PeerConnectionID><Direction>Input</Direction><Status>OK</Status>"@ == s1);
}

proof fn lemma_connection_info_plain()
    ensures
        plain_elements(connection_info_elements()),
{
    let v = connection_info_elements();
    reveal_strlit("RcsID");
    reveal_strlit("AVTransportID");
    reveal_strlit("ProtocolInfo");
    reveal_strlit("PeerConnectionManager");
    reveal_strlit("PeerConnectionID");
    reveal_strlit("Direction");
    reveal_strlit("Status");
    reveal_strlit("0");
    reveal_strlit("-1");
    reveal_strlit("Input");
    reveal_strlit("OK");
    assert forall|k: int| 0 <= k < v.len() implies plain_tag((#[trigger] v[k]).0) && lacks(
        v[k].1,
        '<',
    ) by {}
}

/// The answer to `GetCurrentConnectionInfo` says which instances the connection has, that it is an
/// input and that all is well.
#[verifier::rlimit(40)]
pub proof fn law_connection_is_read(service: EventService, sink: Seq<char>)
    ensures
        match connection_outcome(service, "GetCurrentConnectionInfo"@, sink) {
            Ok((text, changed)) => {
                &&& !changed
                &&& xml_value_spec(text, "RcsID"@) == Some("0"@)
                &&& xml_value_spec(text, "AVTransportID"@) == Some("0"@)
                &&& xml_value_spec(text, "ProtocolInfo"@) == Some(Seq::<char>::empty())
                &&& xml_value_spec(text, "PeerConnectionManager"@) == Some(Seq::<char>::empty())
                &&& xml_value_spec(text, "PeerConnectionID"@) == Some("-1"@)
                &&& xml_value_spec(text, "Direction"@) == Some("Input"@)
                &&& xml_value_spec(text, "Status"@) == Some("OK"@)
            },
            Err(_) => false,
        },
{
    let action = "GetCurrentConnectionInfo"@;
    assert(lacks(action, '<')) by {
        reveal_strlit("GetCurrentConnectionInfo");
    }
    lemma_connection_names();
    let values = "<RcsID>0</RcsID><AVTransportID>0</AVTransportID><ProtocolInfo></ProtocolInfo><PeerConnectionManager></PeerConnectionManager><PeerConnectionID>-1</PeerConnectionID><Direction>Input</Direction><Status>OK</Status>"@;
    let v = connection_info_elements();
    let front = answer_front(service, action);
    let rest = "</u:"@ + action + "Response>"@;
    lemma_connection_info_shape();
    lemma_connection_info_plain();
    assert(trim_spec(Seq::<char>::empty()) == Seq::<char>::empty()) by {
        lemma_trim_nothing(Seq::<char>::empty());
    }
    assert(trim_spec("0"@) == "0"@) by {
        reveal_strlit("0");
        lemma_trim_nothing("0"@);
    }
    assert(trim_spec("-1"@) == "-1"@) by {
        reveal_strlit("-1");
        lemma_trim_nothing("-1"@);
    }
    assert(trim_spec("Input"@) == "Input"@) by {
        reveal_strlit("Input");
        lemma_trim_nothing("Input"@);
    }
    assert(trim_spec("OK"@) == "OK"@) by {
        reveal_strlit("OK");
        lemma_trim_nothing("OK"@);
    }
    assert forall|k: int| 0 <= k < 0 implies no_mistaking((#[trigger] v[k]).0, "RcsID"@) by {
        reveal_strlit("RcsID");
    }
    assert(plain_tag("RcsID"@) && "RcsID"@[0] != 'u') by {
        reveal_strlit("RcsID");
    }
    lemma_answer_front(service, action, values, "RcsID"@);
    lemma_elements_are_read(front, v, rest, 0);
    assert forall|k: int| 0 <= k < 1 implies no_mistaking((#[trigger] v[k]).0, "AVTransportID"@) by {
        reveal_strlit("AVTransportID");
        reveal_strlit("RcsID");
    }
    assert(plain_tag("AVTransportID"@) && "AVTransportID"@[0] != 'u') by {
        reveal_strlit("AVTransportID");
    }
    lemma_answer_front(service, action, values, "AVTransportID"@);
    lemma_elements_are_read(front, v, rest, 1);
    assert forall|k: int| 0 <= k < 2 implies no_mistaking((#[trigger] v[k]).0, "ProtocolInfo"@) by {
        reveal_strlit("ProtocolInfo");
        reveal_strlit("RcsID");
        reveal_strlit("AVTransportID");
        assert("AVTransportID"@[0] != "ProtocolInfo"@[0]);
    }
    assert(plain_tag("ProtocolInfo"@) && "ProtocolInfo"@[0] != 'u') by {
        reveal_strlit("ProtocolInfo");
    }
    lemma_answer_front(service, action, values, "ProtocolInfo"@);
    lemma_elements_are_read(front, v, rest, 2);
    assert forall|k: int| 0 <= k < 3 implies no_mistaking((#[trigger] v[k]).0, "PeerConnectionManager"@) by {
        reveal_strlit("PeerConnectionManager");
        reveal_strlit("RcsID");
        reveal_strlit("AVTransportID");
        reveal_strlit("ProtocolInfo");
    }
    assert(plain_tag("PeerConnectionManager"@) && "PeerConnectionManager"@[0] != 'u') by {
        reveal_strlit("PeerConnectionManager");
    }
    lemma_answer_front(service, action, values, "PeerConnectionManager"@);
    lemma_elements_are_read(front, v, rest, 3);
    assert forall|k: int| 0 <= k < 4 implies no_mistaking((#[trigger] v[k]).0, "PeerConnectionID"@) by {
        reveal_strlit("PeerConnectionID");
        reveal_strlit("RcsID");
        reveal_strlit("AVTransportID");
        reveal_strlit("ProtocolInfo");
        reveal_strlit("PeerConnectionManager");
        assert("PeerConnectionManager"@[14] != "PeerConnectionID"@[14]);
    }
    assert(plain_tag("PeerConnectionID"@) && "PeerConnectionID"@[0] != 'u') by {
        reveal_strlit("PeerConnectionID");
    }
    lemma_answer_front(service, action, values, "PeerConnectionID"@);
    lemma_elements_are_read(front, v, rest, 4);
    assert forall|k: int| 0 <= k < 5 implies no_mistaking((#[trigger] v[k]).0, "Direction"@) by {
        reveal_strlit("Direction");
        reveal_strlit("RcsID");
        reveal_strlit("AVTransportID");
        reveal_strlit("ProtocolInfo");
        reveal_strlit("PeerConnectionManager");
        reveal_strlit("PeerConnectionID");
        assert("AVTransportID"@[0] != "Direction"@[0]);
        assert("ProtocolInfo"@[0] != "Direction"@[0]);
        assert("PeerConnectionManager"@[0] != "Direction"@[0]);
        assert("PeerConnectionID"@[0] != "Direction"@[0]);
    }
    assert(plain_tag("Direction"@) && "Direction"@[0] != 'u') by {
        reveal_strlit("Direction");
    }
    lemma_answer_front(service, action, values, "Direction"@);
    lemma_elements_are_read(front, v, rest, 5);
    assert forall|k: int| 0 <= k < 6 implies no_mistaking((#[trigger] v[k]).0, "Status"@) by {
        reveal_strlit("Status");
        reveal_strlit("RcsID");
        reveal_strlit("AVTransportID");
        reveal_strlit("ProtocolInfo");
        reveal_strlit("PeerConnectionManager");
        reveal_strlit("PeerConnectionID");
        reveal_strlit("Direction");
        assert("AVTransportID"@[0] != "Status"@[0]);
        assert("ProtocolInfo"@[0] != "Status"@[0]);
        assert("PeerConnectionManager"@[0] != "Status"@[0]);
        assert("PeerConnectionID"@[0] != "Status"@[0]);
        assert("Direction"@[0] != "Status"@[0]);
    }
    assert(plain_tag("Status"@) && "Status"@[0] != 'u') by {
        reveal_strlit("Status");
    }
    lemma_answer_front(service, action, values, "Status"@);
    lemma_elements_are_read(front, v, rest, 6);
}

proof fn lemma_settings_text_1()
    ensures
        "<PlayMode>NORMAL</PlayMode><RecQualityMode>NOT_IMPLEMENTED</RecQualityMode>"@ == opening_tag("PlayMode"@) + "NORMAL"@ + closing_tag("PlayMode"@) + opening_tag("RecQualityMode"@) + "NOT_IMPLEMENTED"@ + closing_tag("RecQualityMode"@),
{
    reveal_strlit("<PlayMode>NORMAL</PlayMode><RecQualityMode>NOT_IMPLEMENTED</RecQualityMode>");
    reveal_strlit("<");
    reveal_strlit(">");
    reveal_strlit("</");
    reveal_strlit("PlayMode");
    reveal_strlit("NORMAL");
    reveal_strlit("RecQualityMode");
    reveal_strlit("NOT_IMPLEMENTED");
    assert("<PlayMode>NORMAL</PlayMode><RecQualityMode>NOT_IMPLEMENTED</RecQualityMode>"@ =~= opening_tag("PlayMode"@) + "NORMAL"@ + closing_tag("PlayMode"@) + opening_tag("RecQualityMode"@) + "NOT_IMPLEMENTED"@ + closing_tag("RecQualityMode"@));
}

/// The elements of the answer to `GetTransportSettings`.
spec fn settings_elements() -> Seq<(Seq<char>, Seq<char>)> {
    seq![
        ("PlayMode"@, "NORMAL"@),
        ("RecQualityMode"@, "NOT_IMPLEMENTED"@),
    ]
}

#[verifier::rlimit(40)]
proof fn lemma_settings_shape()
    ensures
        "<PlayMode>NORMAL</PlayMode><RecQualityMode>NOT_IMPLEMENTED</RecQualityMode>"@ == elements_text(settings_elements()),
{
    lemma_settings_text_1();
    let x0 = Seq::<char>::empty();
    let v0 = Seq::<(Seq<char>, Seq<char>)>::empty();
    assert(x0 =~= elements_text(v0));
    let x1 = x0 + opening_tag("PlayMode"@) + "NORMAL"@ + closing_tag("PlayMode"@);
    let v1 = v0.push(("PlayMode"@, "NORMAL"@));
    lemma_next_element(x0, v0, "PlayMode"@, "NORMAL"@);
    let x2 = x1 + opening_tag("RecQualityMode"@) + "NOT_IMPLEMENTED"@ + closing_tag("RecQualityMode"@);
    let v2 = v1.push(("RecQualityMode"@, "NOT_IMPLEMENTED"@));
    lemma_next_element(x1, v1, "RecQualityMode"@, "NOT_IMPLEMENTED"@);
    assert(v2 == settings_elements()) by {
        assert(v2 =~= settings_elements());
    }
    let s1 = "<PlayMode>NORMAL</PlayMode><RecQualityMode>NOT_IMPLEMENTED</RecQualityMode>"@;
    let f0 = Seq::<char>::empty();
    let f1 = f0 + opening_tag("PlayMode"@) + "NORMAL"@ + closing_tag("PlayMode"@) + opening_tag("RecQualityMode"@) + "NOT_IMPLEMENTED"@ + closing_tag("RecQualityMode"@);
    lemma_nothing_added(s1);
    lemma_joined(f0, opening_tag("PlayMode"@) + "NORMAL"@ + closing_tag("PlayMode"@) + opening_tag("RecQualityMode"@) + "NOT_IMPLEMENTED"@, closing_tag("RecQualityMode"@));
    lemma_joined(f0, opening_tag("PlayMode"@) + "NORMAL"@ + closing_tag("PlayMode"@) + opening_tag("RecQualityMode"@), "NOT_IMPLEMENTED"@);
    lemma_joined(f0, opening_tag("PlayMode"@) + "NORMAL"@ + closing_tag("PlayMode"@), opening_tag("RecQualityMode"@));
    lemma_joined(f0, opening_tag("PlayMode"@) + "NORMAL"@, closing_tag("PlayMode"@));
    lemma_joined(f0, opening_tag("PlayMode"@), "NORMAL"@);
    assert(f1 == f0 + s1);
    assert(s1 == f1);
    assert(f1 == x2);
    assert("<PlayMode>NORMAL</PlayMode><RecQualityMode>NOT_IMPLEMENTED</RecQualityMode>"@ == s1);
}

proof fn lemma_settings_plain()
    ensures
        plain_elements(settings_elements()),
{
    let v = settings_elements();
    reveal_strlit("PlayMode");
    reveal_strlit("RecQualityMode");
    reveal_strlit("NORMAL");
    reveal_strlit("NOT_IMPLEMENTED");
    assert forall|k: int| 0 <= k < v.len() implies plain_tag((#[trigger] v[k]).0) && lacks(
        v[k].1,
        '<',
    ) by {}
}

/// `GetTransportSettings` asks nothing of the player, and says that media is played from begin
/// to end.
#[verifier::rlimit(40)]
pub proof fn law_transport_settings_are_read(
    body: Seq<char>,
    seconds: Option<Span>,
    s: StateView,
    calls: Seq<(CallView, Answer)>,
)
    requires
        to_instance_zero(body),
    ensures
        match run_of(
            EventService::AvTransport,
            "GetTransportSettings"@,
            body,
            seconds,
            s,
            calls,
        ) {
            Some(end) => {
                &&& calls.len() == 0 && end.state == s && end.outcome is Ok
                &&& !end.outcome->Ok_0.1
                &&& xml_value_spec(said(end), "PlayMode"@) == Some("NORMAL"@)
                &&& xml_value_spec(said(end), "RecQualityMode"@) == Some("NOT_IMPLEMENTED"@)
            },
            None => calls.len() > 0,
        },
{
    reveal_with_fuel(ended, 3);
    let action = "GetTransportSettings"@;
    assert(lacks(action, '<')) by {
        reveal_strlit("GetTransportSettings");
    }
    lemma_settings_name();
    let values = "<PlayMode>NORMAL</PlayMode><RecQualityMode>NOT_IMPLEMENTED</RecQualityMode>"@;
    let v = settings_elements();
    let front = answer_front(EventService::AvTransport, action);
    let rest = "</u:"@ + action + "Response>"@;
    lemma_settings_shape();
    lemma_settings_plain();
    assert(trim_spec("NORMAL"@) == "NORMAL"@) by {
        reveal_strlit("NORMAL");
        lemma_trim_nothing("NORMAL"@);
    }
    assert(trim_spec("NOT_IMPLEMENTED"@) == "NOT_IMPLEMENTED"@) by {
        reveal_strlit("NOT_IMPLEMENTED");
        lemma_trim_nothing("NOT_IMPLEMENTED"@);
    }
    assert forall|k: int| 0 <= k < 0 implies no_mistaking((#[trigger] v[k]).0, "PlayMode"@) by {
        reveal_strlit("PlayMode");
    }
        assert(plain_tag("PlayMode"@) && "PlayMode"@[0] != 'u') by {
        reveal_strlit("PlayMode");
    }
    lemma_answer_front(EventService::AvTransport, action, values, "PlayMode"@);
    lemma_elements_are_read(front, v, rest, 0);
    assert forall|k: int| 0 <= k < 1 implies no_mistaking((#[trigger] v[k]).0, "RecQualityMode"@) by {
        reveal_strlit("RecQualityMode");
        reveal_strlit("PlayMode");
    }
        assert(plain_tag("RecQualityMode"@) && "RecQualityMode"@[0] != 'u') by {
        reveal_strlit("RecQualityMode");
    }
    lemma_answer_front(EventService::AvTransport, action, values, "RecQualityMode"@);
    lemma_elements_are_read(front, v, rest, 1);
}

#[verifier::rlimit(40)]
proof fn lemma_fault_code(f: Fault)
    ensures
        value_behind(fault_text(f), "<errorCode>"@, '<') == Some(decimal(f.code as nat)),
{
    lemma_number_is_read(f.code as nat, u16::MAX as int);
    assert(lacks(decimal(f.code as nat), '<'));
    law_escaped_has_no_markup(f.description);
    assert(lacks(escape_xml_spec(f.description), '<'));
    let mark = "<errorCode>"@;
    assert(clear_of("<s:Fault><faultcode>s:Client</faultcode><faultstring>UPnPError</faultstring><detail><UPnPError xmlns=\"urn:schemas-upnp-org:control-1-0\">"@, mark)) by {
        reveal_strlit("<s:Fault><faultcode>s:Client</faultcode><faultstring>UPnPError</faultstring><detail><UPnPError xmlns=\"urn:schemas-upnp-org:control-1-0\">");
        reveal_strlit("<errorCode>");
        assert forall|j: int| 0 <= j < "<s:Fault><faultcode>s:Client</faultcode><faultstring>UPnPError</faultstring><detail><UPnPError xmlns=\"urn:schemas-upnp-org:control-1-0\">"@.len() implies #[trigger] differs_soon("<s:Fault><faultcode>s:Client</faultcode><faultstring>UPnPError</faultstring><detail><UPnPError xmlns=\"urn:schemas-upnp-org:control-1-0\">"@, mark, j) by {}
        lemma_clear_text("<s:Fault><faultcode>s:Client</faultcode><faultstring>UPnPError</faultstring><detail><UPnPError xmlns=\"urn:schemas-upnp-org:control-1-0\">"@, mark);
    }
    assert("<s:Fault><faultcode>s:Client</faultcode><faultstring>UPnPError</faultstring><detail><UPnPError xmlns=\"urn:schemas-upnp-org:control-1-0\"><errorCode>"@ == "<s:Fault><faultcode>s:Client</faultcode><faultstring>UPnPError</faultstring><detail><UPnPError xmlns=\"urn:schemas-upnp-org:control-1-0\">"@ + mark) by {
        reveal_strlit("<s:Fault><faultcode>s:Client</faultcode><faultstring>UPnPError</faultstring><detail><UPnPError xmlns=\"urn:schemas-upnp-org:control-1-0\"><errorCode>");
        reveal_strlit("<s:Fault><faultcode>s:Client</faultcode><faultstring>UPnPError</faultstring><detail><UPnPError xmlns=\"urn:schemas-upnp-org:control-1-0\">");
        reveal_strlit("<errorCode>");
        assert("<s:Fault><faultcode>s:Client</faultcode><faultstring>UPnPError</faultstring><detail><UPnPError xmlns=\"urn:schemas-upnp-org:control-1-0\"><errorCode>"@ =~= "<s:Fault><faultcode>s:Client</faultcode><faultstring>UPnPError</faultstring><detail><UPnPError xmlns=\"urn:schemas-upnp-org:control-1-0\">"@ + mark);
    }
    assert("</errorCode><errorDescription>"@ == seq!['<'] + "/errorCode><errorDescription>"@) by {
        reveal_strlit("</errorCode><errorDescription>");
        reveal_strlit("/errorCode><errorDescription>");
        assert("</errorCode><errorDescription>"@ =~= seq!['<'] + "/errorCode><errorDescription>"@);
    }
    let rest = "/errorCode><errorDescription>"@ + escape_xml_spec(f.description) + "</errorDescription></UPnPError></detail></s:Fault>"@;
    lemma_value_behind("<s:Fault><faultcode>s:Client</faultcode><faultstring>UPnPError</faultstring><detail><UPnPError xmlns=\"urn:schemas-upnp-org:control-1-0\">"@, mark, decimal(f.code as nat), '<', rest);
    let front = "<s:Fault><faultcode>s:Client</faultcode><faultstring>UPnPError</faultstring><detail><UPnPError xmlns=\"urn:schemas-upnp-org:control-1-0\">"@;
    lemma_joined(front + mark + decimal(f.code as nat), seq!['<'], "/errorCode><errorDescription>"@);
    lemma_joined(front + mark + decimal(f.code as nat) + seq!['<'], "/errorCode><errorDescription>"@, escape_xml_spec(f.description));
    lemma_joined(front + mark + decimal(f.code as nat) + seq!['<'], "/errorCode><errorDescription>"@ + escape_xml_spec(f.description), "</errorDescription></UPnPError></detail></s:Fault>"@);
    assert(fault_text(f) == front + mark + decimal(f.code as nat) + seq!['<'] + rest);
}

#[verifier::rlimit(40)]
proof fn lemma_fault_description(f: Fault)
    ensures
        value_behind(fault_text(f), "<errorDescription>"@, '<') == Some(escape_xml_spec(f.description)),
{
    lemma_number_is_read(f.code as nat, u16::MAX as int);
    assert(lacks(decimal(f.code as nat), '<'));
    law_escaped_has_no_markup(f.description);
    assert(lacks(escape_xml_spec(f.description), '<'));
    let mark = "<errorDescription>"@;
    assert(clear_of("<s:Fault><faultcode>s:Client</faultcode><faultstring>UPnPError</faultstring><detail><UPnPError xmlns=\"urn:schemas-upnp-org:control-1-0\"><errorCode>"@, mark)) by {
        reveal_strlit("<s:Fault><faultcode>s:Client</faultcode><faultstring>UPnPError</faultstring><detail><UPnPError xmlns=\"urn:schemas-upnp-org:control-1-0\"><errorCode>");
        reveal_strlit("<errorDescription>");
        assert forall|j: int| 0 <= j < "<s:Fault><faultcode>s:Client</faultcode><faultstring>UPnPError</faultstring><detail><UPnPError xmlns=\"urn:schemas-upnp-org:control-1-0\"><errorCode>"@.len() implies #[trigger] differs_soon("<s:Fault><faultcode>s:Client</faultcode><faultstring>UPnPError</faultstring><detail><UPnPError xmlns=\"urn:schemas-upnp-org:control-1-0\"><errorCode>"@, mark, j) by {}
        lemma_clear_text("<s:Fault><faultcode>s:Client</faultcode><faultstring>UPnPError</faultstring><detail><UPnPError xmlns=\"urn:schemas-upnp-org:control-1-0\"><errorCode>"@, mark);
    }
    assert(clear_of(decimal(f.code as nat), mark)) by {
        reveal_strlit("<errorDescription>");
        lemma_clear_plain(decimal(f.code as nat), mark);
    }
    lemma_clear_joined("<s:Fault><faultcode>s:Client</faultcode><faultstring>UPnPError</faultstring><detail><UPnPError xmlns=\"urn:schemas-upnp-org:control-1-0\"><errorCode>"@, decimal(f.code as nat), mark);
    assert(clear_of("</errorCode>"@, mark)) by {
        reveal_strlit("</errorCode>");
        reveal_strlit("<errorDescription>");
        assert forall|j: int| 0 <= j < "</errorCode>"@.len() implies #[trigger] differs_soon("</errorCode>"@, mark, j) by {}
        lemma_clear_text("</errorCode>"@, mark);
    }
    lemma_clear_joined("<s:Fault><faultcode>s:Client</faultcode><faultstring>UPnPError</faultstring><detail><UPnPError xmlns=\"urn:schemas-upnp-org:control-1-0\"><errorCode>"@ + decimal(f.code as nat), "</errorCode>"@, mark);
    assert("</errorCode><errorDescription>"@ == "</errorCode>"@ + mark) by {
        reveal_strlit("</errorCode><errorDescription>");
        reveal_strlit("</errorCode>");
        reveal_strlit("<errorDescription>");
        assert("</errorCode><errorDescription>"@ =~= "</errorCode>"@ + mark);
    }
    assert("</errorDescription></UPnPError></detail></s:Fault>"@ == seq!['<'] + "/errorDescription></UPnPError></detail></s:Fault>"@) by {
        reveal_strlit("</errorDescription></UPnPError></detail></s:Fault>");
        reveal_strlit("/errorDescription></UPnPError></detail></s:Fault>");
        assert("</errorDescription></UPnPError></detail></s:Fault>"@ =~= seq!['<'] + "/errorDescription></UPnPError></detail></s:Fault>"@);
    }
    let rest = "/errorDescription></UPnPError></detail></s:Fault>"@;
    lemma_value_behind("<s:Fault><faultcode>s:Client</faultcode><faultstring>UPnPError</faultstring><detail><UPnPError xmlns=\"urn:schemas-upnp-org:control-1-0\"><errorCode>"@ + decimal(f.code as nat) + "</errorCode>"@, mark, escape_xml_spec(f.description), '<', rest);
    let front = "<s:Fault><faultcode>s:Client</faultcode><faultstring>UPnPError</faultstring><detail><UPnPError xmlns=\"urn:schemas-upnp-org:control-1-0\"><errorCode>"@ + decimal(f.code as nat) + "</errorCode>"@;
    lemma_joined("<s:Fault><faultcode>s:Client</faultcode><faultstring>UPnPError</faultstring><detail><UPnPError xmlns=\"urn:schemas-upnp-org:control-1-0\"><errorCode>"@ + decimal(f.code as nat), "</errorCode>"@, mark);
    lemma_joined(front + mark + escape_xml_spec(f.description), seq!['<'], "/errorDescription></UPnPError></detail></s:Fault>"@);
    assert(fault_text(f) == front + mark + escape_xml_spec(f.description) + seq!['<'] + rest);
}

/// A fault, read back, says its code and what went wrong.
pub proof fn law_fault_is_read(f: Fault)
    ensures
        value_behind(fault_text(f), "<errorCode>"@, '<') matches Some(code) && uint_value(
            code,
            10,
            u16::MAX as int,
        ) == Some(f.code as nat),
        value_behind(fault_text(f), "<errorDescription>"@, '<') matches Some(text) && unescaped(
            text,
        ) == f.description,
{
    lemma_fault_code(f);
    lemma_fault_description(f);
    lemma_number_is_read(f.code as nat, u16::MAX as int);
    law_escaped_stands_for_the_text(f.description);
}

/// What is sent stands in the body of an envelope.
pub proof fn law_envelope_holds_what_is_sent(text: Seq<char>)
    ensures
        rest_behind(envelope(text), "<s:Body>"@) == Some(text + "</s:Body></s:Envelope>"@),
{
    let mark = "<s:Body>"@;
    let front =
        "<?xml version=\"1.0\"?><s:Envelope xmlns:s=\"http://schemas.xmlsoap.org/soap/envelope/\" s:encodingStyle=\"http://schemas.xmlsoap.org/soap/encoding/\">"@;
    let whole =
        "<?xml version=\"1.0\"?><s:Envelope xmlns:s=\"http://schemas.xmlsoap.org/soap/envelope/\" s:encodingStyle=\"http://schemas.xmlsoap.org/soap/encoding/\"><s:Body>"@;
    assert(whole == front + mark) by {
        reveal_strlit(
            "<?xml version=\"1.0\"?><s:Envelope xmlns:s=\"http://schemas.xmlsoap.org/soap/envelope/\" s:encodingStyle=\"http://schemas.xmlsoap.org/soap/encoding/\">",
        );
        reveal_strlit(
            "<?xml version=\"1.0\"?><s:Envelope xmlns:s=\"http://schemas.xmlsoap.org/soap/envelope/\" s:encodingStyle=\"http://schemas.xmlsoap.org/soap/encoding/\"><s:Body>",
        );
        reveal_strlit("<s:Body>");
        assert(whole =~= front + mark);
    }
    assert(clear_of(front, mark)) by {
        reveal_strlit(
            "<?xml version=\"1.0\"?><s:Envelope xmlns:s=\"http://schemas.xmlsoap.org/soap/envelope/\" s:encodingStyle=\"http://schemas.xmlsoap.org/soap/encoding/\">",
        );
        reveal_strlit("<s:Body>");
        assert forall|j: int| 0 <= j < front.len() implies #[trigger] differs_soon(
            front,
            mark,
            j,
        ) by {}
        lemma_clear_text(front, mark);
    }
    lemma_mark_found(front, mark, text + "</s:Body></s:Envelope>"@);
    lemma_joined(front + mark, text, "</s:Body></s:Envelope>"@);
}

/// An action that went well is answered with what it says, and one that did not with its fault;
/// the status tells the two apart.
pub proof fn law_outcomes_are_answered(end: Outcome)
    ensures
        ({
            let response = control_answer(end);
            &&& end is Ok <==> response.status == "200 OK"@
            &&& end is Err <==> response.status == "500 Internal Server Error"@
            &&& response.content_type == "text/xml; charset=utf-8"@
            &&& rest_behind(response.body, "<s:Body>"@) == Some(
                match end {
                    Ok((text, _)) => text,
                    Err(f) => fault_text(f),
                } + "</s:Body></s:Envelope>"@,
            )
            &&& end is Ok ==> response.headers == seq![("EXT"@, Seq::<char>::empty())]
            &&& end is Err ==> response.headers.len() == 0
        }),
{
    reveal_strlit("200 OK");
    reveal_strlit("500 Internal Server Error");
    assert("200 OK"@.len() == 6 && "500 Internal Server Error"@.len() == 25);
    match end {
        Ok((text, _)) => {
            law_envelope_holds_what_is_sent(text);
        },
        Err(f) => {
            law_envelope_holds_what_is_sent(fault_text(f));
        },
    }
}

/// A truth value is one of four words, and each means one thing.
pub proof fn law_truth_values_are_read(s: Seq<char>)
    ensures
        bool_value(s) == Some(true) <==> s == "1"@ || s == "true"@,
        bool_value(s) == Some(false) <==> s == "0"@ || s == "false"@,
{
    reveal_strlit("0");
    reveal_strlit("1");
    reveal_strlit("false");
    reveal_strlit("true");
    assert("0"@[0] == '0' && "1"@[0] == '1');
    assert("false"@.len() == 5 && "true"@.len() == 4);
}

// ---------------------------------------------------------------------------
// Routes
// ---------------------------------------------------------------------------

/// Where the actions of a service are asked for.
pub open spec fn control_path(service: EventService) -> Seq<char> {
    match service {
        EventService::AvTransport => "/AVTransport/control"@,
        EventService::RenderingControl => "/RenderingControl/control"@,
        EventService::ConnectionManager => "/ConnectionManager/control"@,
    }
}

/// Where the events of a service are subscribed to.
pub open spec fn event_path(service: EventService) -> Seq<char> {
    match service {
        EventService::AvTransport => "/AVTransport/event"@,
        EventService::RenderingControl => "/RenderingControl/event"@,
        EventService::ConnectionManager => "/ConnectionManager/event"@,
    }
}

/// The paths and the methods differ.
proof fn lemma_paths()
    ensures
        "/AVTransport/control"@.len() == 20,
        "/RenderingControl/control"@.len() == 25,
        "/ConnectionManager/control"@.len() == 26,
        "/AVTransport/event"@.len() == 18,
        "/RenderingControl/event"@.len() == 23,
        "/ConnectionManager/event"@.len() == 24,
        "/device.xml"@.len() == 11,
        "/connection_manager.xml"@.len() == 23,
        "/av_transport.xml"@.len() == 17,
        "/rendering_control.xml"@.len() == 22,
        "GET"@.len() == 3,
        "POST"@.len() == 4,
        "SUBSCRIBE"@.len() == 9,
        "UNSUBSCRIBE"@.len() == 11,
{
    reveal_strlit("/AVTransport/control");
    reveal_strlit("/RenderingControl/control");
    reveal_strlit("/ConnectionManager/control");
    reveal_strlit("/AVTransport/event");
    reveal_strlit("/RenderingControl/event");
    reveal_strlit("/ConnectionManager/event");
    reveal_strlit("/device.xml");
    reveal_strlit("/connection_manager.xml");
    reveal_strlit("/av_transport.xml");
    reveal_strlit("/rendering_control.xml");
    reveal_strlit("GET");
    reveal_strlit("POST");
    reveal_strlit("SUBSCRIBE");
    reveal_strlit("UNSUBSCRIBE");
}

/// A request for an action of a service leads to that action of that service: the action is
/// named behind the number sign in its `SOAPACTION` header, in quotation marks or without. A
/// request that names none is answered with a fault.
pub proof fn law_actions_are_routed(
    request: RequestView,
    name: Seq<char>,
    udn: Seq<char>,
    service: EventService,
    action: Seq<char>,
)
    requires
        request.method == "POST"@,
        request.path == control_path(service),
        action.len() > 0,
        lacks(action, '#'),
        lacks(action, '"'),
        lacks(action, '\''),
    ensures
        ({
            let named = service.urn_spec() + seq!['#'] + action;
            let given = looked_up(request.headers, "soapaction"@);
            given == Some(seq!['"'] + named + seq!['"']) || given == Some(named) ==> routed(
                request,
                name,
                udn,
            ) == RouteView::Control(service, action)
        }),
        looked_up(request.headers, "soapaction"@) is None ==> (routed(request, name, udn) matches
            RouteView::Answer(response) && response == fault_answer(
            Fault { code: 401, description: "Invalid Action"@ },
        )),
{
    lemma_paths();
    let urn = service.urn_spec();
    let named = urn + seq!['#'] + action;
    let n = urn.len() as int;
    assert(urn.len() > 0 && !is_quote(urn[0])) by {
        reveal_strlit("urn:schemas-upnp-org:service:AVTransport:1");
        reveal_strlit("urn:schemas-upnp-org:service:RenderingControl:1");
        reveal_strlit("urn:schemas-upnp-org:service:ConnectionManager:1");
    }
    assert(named[0] == urn[0]);
    assert(named.last() == action[action.len() - 1]);
    assert(!is_quote(named.last()));
    assert(unquoted_front(named) == named);
    assert(unquoted_end(named) == named);
    assert forall|j: int| n < j < named.len() implies named[j] != '#' by {
        assert(named[j] == action[j - n - 1]);
    }
    lemma_rsplit_once(named, '#', n);
    assert(named.skip(n + 1) =~= action);
    let quoted = seq!['"'] + named + seq!['"'];
    let half = named + seq!['"'];
    assert(quoted.skip(1) =~= half);
    assert(half[0] == named[0]);
    assert(unquoted_front(half) == half);
    assert(unquoted_front(quoted) == half);
    assert(half.drop_last() =~= named);
    assert(half.last() == '"');
    assert(unquoted_end(half) == named);
}

/// Requests to subscribe and to unsubscribe lead to the service whose events the address is
/// that of.
pub proof fn law_subscriptions_are_routed(
    request: RequestView,
    name: Seq<char>,
    udn: Seq<char>,
    service: EventService,
)
    requires
        request.path == event_path(service),
    ensures
        request.method == "SUBSCRIBE"@ ==> routed(request, name, udn) == RouteView::Subscribe(
            service,
        ),
        request.method == "UNSUBSCRIBE"@ ==> routed(request, name, udn) == RouteView::Unsubscribe(
            service,
        ),
{
    lemma_paths();
}

/// The descriptions are there to be read, and all other addresses lead nowhere.
pub proof fn law_descriptions_are_routed(request: RequestView, name: Seq<char>, udn: Seq<char>)
    ensures
        ({
            let route = routed(request, name, udn);
            let path = request.path;
            &&& request.method == "GET"@ && (path == "/device.xml"@ || path
                == "/connection_manager.xml"@ || path == "/av_transport.xml"@ || path
                == "/rendering_control.xml"@) ==> (route matches RouteView::Answer(response)
                && response.status == "200 OK"@ && response.content_type
                == "text/xml; charset=utf-8"@)
            &&& request.method == "GET"@ && path == "/connection_manager.xml"@ ==> route->Answer_0.body
                == SERVICE_CONNECTION@
            &&& request.method == "GET"@ && path == "/av_transport.xml"@ ==> route->Answer_0.body
                == SERVICE_AVTRANSPORT@
            &&& request.method == "GET"@ && path == "/rendering_control.xml"@ ==> route->Answer_0.body
                == SERVICE_RENDERING@
            &&& request.method != "GET"@ && request.method != "POST"@ && request.method
                != "SUBSCRIBE"@ && request.method != "UNSUBSCRIBE"@ ==> (route matches
                RouteView::Answer(response) && response.status == "404 Not Found"@)
            &&& (forall|service: EventService|
                path != #[trigger] control_path(service) && path != event_path(service)) && path
                != "/device.xml"@ && path != "/connection_manager.xml"@ && path
                != "/av_transport.xml"@ && path != "/rendering_control.xml"@ ==> (route matches
                RouteView::Answer(response) && response.status == "404 Not Found"@)
        }),
{
    lemma_paths();
    let transport = control_path(EventService::AvTransport);
    let rendering = control_path(EventService::RenderingControl);
    let connection = control_path(EventService::ConnectionManager);
}

} // verus!
