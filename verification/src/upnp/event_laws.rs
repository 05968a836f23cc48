//! What subscribers are told, read back.

use vstd::prelude::*;
use crate::number::{decimal, uint_value};
use crate::reading::{
    clear_of, differs_soon, lacks, lemma_clear_joined, lemma_clear_plain, lemma_clear_text,
    lemma_clear_text_at, lemma_joined, lemma_number_is_read, lemma_value_behind, value_behind,
};
use crate::state::{no_time, Span, StateView, TransportState};
use crate::upnp::action::{bit, duration_text, escaped_uri};
use crate::upnp::gena::{event_text, rendering_event, transport_event};
use crate::upnp::query_laws::{lemma_time_plain, lemma_transport_name};
use crate::upnp::soap::{time_text, EventService};
use crate::xml::escape_xml_spec;
use crate::xml_laws::{law_escaped_has_no_markup, law_escaped_stands_for_the_text, unescaped};

verus! {

proof fn lemma_event_transport(s: StateView)
    ensures
        value_behind(transport_event(s), "<TransportState val=\""@, '"') == Some(s.transport.name()),
{
    lemma_transport_name(s.transport);
    lemma_time_plain(s.position);
    lemma_time_plain(s.duration.unwrap_or(no_time()));
    law_escaped_has_no_markup(s.uri.unwrap_or(seq![]));
    assert(lacks(escaped_uri(s), '<') && lacks(escaped_uri(s), '"'));
    let mark = "<TransportState val=\""@;
    assert(clear_of("<Event xmlns=\"urn:schemas-upnp-org:metadata-1-0/AVT/\"><InstanceID val=\"0\">"@, mark)) by {
        reveal_strlit("<Event xmlns=\"urn:schemas-upnp-org:metadata-1-0/AVT/\"><InstanceID val=\"0\">");
        reveal_strlit("<TransportState val=\"");
        assert forall|j: int| 0 <= j < "<Event xmlns=\"urn:schemas-upnp-org:metadata-1-0/AVT/\"><InstanceID val=\"0\">"@.len() implies #[trigger] differs_soon("<Event xmlns=\"urn:schemas-upnp-org:metadata-1-0/AVT/\"><InstanceID val=\"0\">"@, mark, j) by {}
        lemma_clear_text("<Event xmlns=\"urn:schemas-upnp-org:metadata-1-0/AVT/\"><InstanceID val=\"0\">"@, mark);
    }
    assert("<Event xmlns=\"urn:schemas-upnp-org:metadata-1-0/AVT/\"><InstanceID val=\"0\"><TransportState val=\""@ == "<Event xmlns=\"urn:schemas-upnp-org:metadata-1-0/AVT/\"><InstanceID val=\"0\">"@ + mark) by {
        reveal_strlit("<Event xmlns=\"urn:schemas-upnp-org:metadata-1-0/AVT/\"><InstanceID val=\"0\"><TransportState val=\"");
        reveal_strlit("<Event xmlns=\"urn:schemas-upnp-org:metadata-1-0/AVT/\"><InstanceID val=\"0\">");
        reveal_strlit("<TransportState val=\"");
        assert("<Event xmlns=\"urn:schemas-upnp-org:metadata-1-0/AVT/\"><InstanceID val=\"0\"><TransportState val=\""@ =~= "<Event xmlns=\"urn:schemas-upnp-org:metadata-1-0/AVT/\"><InstanceID val=\"0\">"@ + mark);
    }
    assert("\"/><CurrentTrackURI val=\""@ == seq!['"'] + "/><CurrentTrackURI val=\""@) by {
        reveal_strlit("\"/><CurrentTrackURI val=\"");
        reveal_strlit("/><CurrentTrackURI val=\"");
        assert("\"/><CurrentTrackURI val=\""@ =~= seq!['"'] + "/><CurrentTrackURI val=\""@);
    }
    let rest = "/><CurrentTrackURI val=\""@ + escaped_uri(s) + "\"/><RelativeTimePosition val=\""@ + time_text(s.position) + "\"/><CurrentTrackDuration val=\""@ + duration_text(s) + "\"/></InstanceID></Event>"@;
    lemma_value_behind("<Event xmlns=\"urn:schemas-upnp-org:metadata-1-0/AVT/\"><InstanceID val=\"0\">"@, mark, s.transport.name(), '"', rest);
    let front = "<Event xmlns=\"urn:schemas-upnp-org:metadata-1-0/AVT/\"><InstanceID val=\"0\">"@;
    lemma_joined(front + mark + s.transport.name(), seq!['"'], "/><CurrentTrackURI val=\""@);
    lemma_joined(front + mark + s.transport.name() + seq!['"'], "/><CurrentTrackURI val=\""@, escaped_uri(s));
    lemma_joined(front + mark + s.transport.name() + seq!['"'], "/><CurrentTrackURI val=\""@ + escaped_uri(s), "\"/><RelativeTimePosition val=\""@);
    lemma_joined(front + mark + s.transport.name() + seq!['"'], "/><CurrentTrackURI val=\""@ + escaped_uri(s) + "\"/><RelativeTimePosition val=\""@, time_text(s.position));
    lemma_joined(front + mark + s.transport.name() + seq!['"'], "/><CurrentTrackURI val=\""@ + escaped_uri(s) + "\"/><RelativeTimePosition val=\""@ + time_text(s.position), "\"/><CurrentTrackDuration val=\""@);
    lemma_joined(front + mark + s.transport.name() + seq!['"'], "/><CurrentTrackURI val=\""@ + escaped_uri(s) + "\"/><RelativeTimePosition val=\""@ + time_text(s.position) + "\"/><CurrentTrackDuration val=\""@, duration_text(s));
    lemma_joined(front + mark + s.transport.name() + seq!['"'], "/><CurrentTrackURI val=\""@ + escaped_uri(s) + "\"/><RelativeTimePosition val=\""@ + time_text(s.position) + "\"/><CurrentTrackDuration val=\""@ + duration_text(s), "\"/></InstanceID></Event>"@);
    assert(transport_event(s) == front + mark + s.transport.name() + seq!['"'] + rest);
}

proof fn lemma_event_uri(s: StateView)
    ensures
        value_behind(transport_event(s), "<CurrentTrackURI val=\""@, '"') == Some(escaped_uri(s)),
{
    lemma_transport_name(s.transport);
    lemma_time_plain(s.position);
    lemma_time_plain(s.duration.unwrap_or(no_time()));
    law_escaped_has_no_markup(s.uri.unwrap_or(seq![]));
    assert(lacks(escaped_uri(s), '<') && lacks(escaped_uri(s), '"'));
    let mark = "<CurrentTrackURI val=\""@;
    assert(clear_of("<Event xmlns=\"urn:schemas-upnp-org:metadata-1-0/AVT/\"><InstanceID val=\"0\"><TransportState val=\""@, mark)) by {
        reveal_strlit("<Event xmlns=\"urn:schemas-upnp-org:metadata-1-0/AVT/\"><InstanceID val=\"0\"><TransportState val=\"");
        reveal_strlit("<CurrentTrackURI val=\"");
        assert forall|j: int| 0 <= j < "<Event xmlns=\"urn:schemas-upnp-org:metadata-1-0/AVT/\"><InstanceID val=\"0\"><TransportState val=\""@.len() implies #[trigger] differs_soon("<Event xmlns=\"urn:schemas-upnp-org:metadata-1-0/AVT/\"><InstanceID val=\"0\"><TransportState val=\""@, mark, j) by {}
        lemma_clear_text("<Event xmlns=\"urn:schemas-upnp-org:metadata-1-0/AVT/\"><InstanceID val=\"0\"><TransportState val=\""@, mark);
    }
    assert(clear_of(s.transport.name(), mark)) by {
        reveal_strlit("<CurrentTrackURI val=\"");
        lemma_clear_plain(s.transport.name(), mark);
    }
    lemma_clear_joined("<Event xmlns=\"urn:schemas-upnp-org:metadata-1-0/AVT/\"><InstanceID val=\"0\"><TransportState val=\""@, s.transport.name(), mark);
    assert(clear_of("\"/>"@, mark)) by {
        reveal_strlit("\"/>");
        reveal_strlit("<CurrentTrackURI val=\"");
        assert forall|j: int| 0 <= j < "\"/>"@.len() implies #[trigger] differs_soon("\"/>"@, mark, j) by {}
        lemma_clear_text("\"/>"@, mark);
    }
    lemma_clear_joined("<Event xmlns=\"urn:schemas-upnp-org:metadata-1-0/AVT/\"><InstanceID val=\"0\"><TransportState val=\""@ + s.transport.name(), "\"/>"@, mark);
    assert("\"/><CurrentTrackURI val=\""@ == "\"/>"@ + mark) by {
        reveal_strlit("\"/><CurrentTrackURI val=\"");
        reveal_strlit("\"/>");
        reveal_strlit("<CurrentTrackURI val=\"");
        assert("\"/><CurrentTrackURI val=\""@ =~= "\"/>"@ + mark);
    }
    assert("\"/><RelativeTimePosition val=\""@ == seq!['"'] + "/><RelativeTimePosition val=\""@) by {
        reveal_strlit("\"/><RelativeTimePosition val=\"");
        reveal_strlit("/><RelativeTimePosition val=\"");
        assert("\"/><RelativeTimePosition val=\""@ =~= seq!['"'] + "/><RelativeTimePosition val=\""@);
    }
    let rest = "/><RelativeTimePosition val=\""@ + time_text(s.position) + "\"/><CurrentTrackDuration val=\""@ + duration_text(s) + "\"/></InstanceID></Event>"@;
    lemma_value_behind("<Event xmlns=\"urn:schemas-upnp-org:metadata-1-0/AVT/\"><InstanceID val=\"0\"><TransportState val=\""@ + s.transport.name() + "\"/>"@, mark, escaped_uri(s), '"', rest);
    let front = "<Event xmlns=\"urn:schemas-upnp-org:metadata-1-0/AVT/\"><InstanceID val=\"0\"><TransportState val=\""@ + s.transport.name() + "\"/>"@;
    lemma_joined("<Event xmlns=\"urn:schemas-upnp-org:metadata-1-0/AVT/\"><InstanceID val=\"0\"><TransportState val=\""@ + s.transport.name(), "\"/>"@, mark);
    lemma_joined(front + mark + escaped_uri(s), seq!['"'], "/><RelativeTimePosition val=\""@);
    lemma_joined(front + mark + escaped_uri(s) + seq!['"'], "/><RelativeTimePosition val=\""@, time_text(s.position));
    lemma_joined(front + mark + escaped_uri(s) + seq!['"'], "/><RelativeTimePosition val=\""@ + time_text(s.position), "\"/><CurrentTrackDuration val=\""@);
    lemma_joined(front + mark + escaped_uri(s) + seq!['"'], "/><RelativeTimePosition val=\""@ + time_text(s.position) + "\"/><CurrentTrackDuration val=\""@, duration_text(s));
    lemma_joined(front + mark + escaped_uri(s) + seq!['"'], "/><RelativeTimePosition val=\""@ + time_text(s.position) + "\"/><CurrentTrackDuration val=\""@ + duration_text(s), "\"/></InstanceID></Event>"@);
    assert(transport_event(s) == front + mark + escaped_uri(s) + seq!['"'] + rest);
}

proof fn lemma_event_position(s: StateView)
    ensures
        value_behind(transport_event(s), "<RelativeTimePosition val=\""@, '"') == Some(time_text(s.position)),
{
    lemma_transport_name(s.transport);
    lemma_time_plain(s.position);
    lemma_time_plain(s.duration.unwrap_or(no_time()));
    law_escaped_has_no_markup(s.uri.unwrap_or(seq![]));
    assert(lacks(escaped_uri(s), '<') && lacks(escaped_uri(s), '"'));
    let mark = "<RelativeTimePosition val=\""@;
    assert(clear_of("<Event xmlns=\"urn:schemas-upnp-org:metadata-1-0/AVT/\"><InstanceID val=\"0\"><TransportState val=\""@, mark)) by {
        reveal_strlit("<Event xmlns=\"urn:schemas-upnp-org:metadata-1-0/AVT/\"><InstanceID val=\"0\"><TransportState val=\"");
        reveal_strlit("<RelativeTimePosition val=\"");
        assert forall|j: int| 0 <= j < "<Event xmlns=\"urn:schemas-upnp-org:metadata-1-0/AVT/\"><InstanceID val=\"0\"><TransportState val=\""@.len() implies #[trigger] differs_soon("<Event xmlns=\"urn:schemas-upnp-org:metadata-1-0/AVT/\"><InstanceID val=\"0\"><TransportState val=\""@, mark, j) by {}
        lemma_clear_text("<Event xmlns=\"urn:schemas-upnp-org:metadata-1-0/AVT/\"><InstanceID val=\"0\"><TransportState val=\""@, mark);
    }
    assert(clear_of(s.transport.name(), mark)) by {
        reveal_strlit("<RelativeTimePosition val=\"");
        lemma_clear_plain(s.transport.name(), mark);
    }
    lemma_clear_joined("<Event xmlns=\"urn:schemas-upnp-org:metadata-1-0/AVT/\"><InstanceID val=\"0\"><TransportState val=\""@, s.transport.name(), mark);
    assert(clear_of("\"/><CurrentTrackURI val=\""@, mark)) by {
        reveal_strlit("\"/><CurrentTrackURI val=\"");
        reveal_strlit("<RelativeTimePosition val=\"");
        assert forall|j: int| 0 <= j < "\"/><CurrentTrackURI val=\""@.len() implies #[trigger] differs_soon("\"/><CurrentTrackURI val=\""@, mark, j) by {}
        lemma_clear_text("\"/><CurrentTrackURI val=\""@, mark);
    }
    lemma_clear_joined("<Event xmlns=\"urn:schemas-upnp-org:metadata-1-0/AVT/\"><InstanceID val=\"0\"><TransportState val=\""@ + s.transport.name(), "\"/><CurrentTrackURI val=\""@, mark);
    assert(clear_of(escaped_uri(s), mark)) by {
        reveal_strlit("<RelativeTimePosition val=\"");
        lemma_clear_plain(escaped_uri(s), mark);
    }
    lemma_clear_joined("<Event xmlns=\"urn:schemas-upnp-org:metadata-1-0/AVT/\"><InstanceID val=\"0\"><TransportState val=\""@ + s.transport.name() + "\"/><CurrentTrackURI val=\""@, escaped_uri(s), mark);
    assert(clear_of("\"/>"@, mark)) by {
        reveal_strlit("\"/>");
        reveal_strlit("<RelativeTimePosition val=\"");
        assert forall|j: int| 0 <= j < "\"/>"@.len() implies #[trigger] differs_soon("\"/>"@, mark, j) by {}
        lemma_clear_text("\"/>"@, mark);
    }
    lemma_clear_joined("<Event xmlns=\"urn:schemas-upnp-org:metadata-1-0/AVT/\"><InstanceID val=\"0\"><TransportState val=\""@ + s.transport.name() + "\"/><CurrentTrackURI val=\""@ + escaped_uri(s), "\"/>"@, mark);
    assert("\"/><RelativeTimePosition val=\""@ == "\"/>"@ + mark) by {
        reveal_strlit("\"/><RelativeTimePosition val=\"");
        reveal_strlit("\"/>");
        reveal_strlit("<RelativeTimePosition val=\"");
        assert("\"/><RelativeTimePosition val=\""@ =~= "\"/>"@ + mark);
    }
    assert("\"/><CurrentTrackDuration val=\""@ == seq!['"'] + "/><CurrentTrackDuration val=\""@) by {
        reveal_strlit("\"/><CurrentTrackDuration val=\"");
        reveal_strlit("/><CurrentTrackDuration val=\"");
        assert("\"/><CurrentTrackDuration val=\""@ =~= seq!['"'] + "/><CurrentTrackDuration val=\""@);
    }
    let rest = "/><CurrentTrackDuration val=\""@ + duration_text(s) + "\"/></InstanceID></Event>"@;
    lemma_value_behind("<Event xmlns=\"urn:schemas-upnp-org:metadata-1-0/AVT/\"><InstanceID val=\"0\"><TransportState val=\""@ + s.transport.name() + "\"/><CurrentTrackURI val=\""@ + escaped_uri(s) + "\"/>"@, mark, time_text(s.position), '"', rest);
    let front = "<Event xmlns=\"urn:schemas-upnp-org:metadata-1-0/AVT/\"><InstanceID val=\"0\"><TransportState val=\""@ + s.transport.name() + "\"/><CurrentTrackURI val=\""@ + escaped_uri(s) + "\"/>"@;
    lemma_joined("<Event xmlns=\"urn:schemas-upnp-org:metadata-1-0/AVT/\"><InstanceID val=\"0\"><TransportState val=\""@ + s.transport.name() + "\"/><CurrentTrackURI val=\""@ + escaped_uri(s), "\"/>"@, mark);
    lemma_joined(front + mark + time_text(s.position), seq!['"'], "/><CurrentTrackDuration val=\""@);
    lemma_joined(front + mark + time_text(s.position) + seq!['"'], "/><CurrentTrackDuration val=\""@, duration_text(s));
    lemma_joined(front + mark + time_text(s.position) + seq!['"'], "/><CurrentTrackDuration val=\""@ + duration_text(s), "\"/></InstanceID></Event>"@);
    assert(transport_event(s) == front + mark + time_text(s.position) + seq!['"'] + rest);
}

proof fn lemma_event_duration(s: StateView)
    ensures
        value_behind(transport_event(s), "<CurrentTrackDuration val=\""@, '"') == Some(duration_text(s)),
{
    lemma_transport_name(s.transport);
    lemma_time_plain(s.position);
    lemma_time_plain(s.duration.unwrap_or(no_time()));
    law_escaped_has_no_markup(s.uri.unwrap_or(seq![]));
    assert(lacks(escaped_uri(s), '<') && lacks(escaped_uri(s), '"'));
    let mark = "<CurrentTrackDuration val=\""@;
    assert(clear_of("<Event xmlns=\"urn:schemas-upnp-org:metadata-1-0/AVT/\"><InstanceID val=\"0\"><TransportState val=\""@, mark)) by {
        reveal_strlit("<Event xmlns=\"urn:schemas-upnp-org:metadata-1-0/AVT/\"><InstanceID val=\"0\"><TransportState val=\"");
        reveal_strlit("<CurrentTrackDuration val=\"");
        assert forall|j: int| 0 <= j < "<Event xmlns=\"urn:schemas-upnp-org:metadata-1-0/AVT/\"><InstanceID val=\"0\"><TransportState val=\""@.len() implies #[trigger] differs_soon("<Event xmlns=\"urn:schemas-upnp-org:metadata-1-0/AVT/\"><InstanceID val=\"0\"><TransportState val=\""@, mark, j) by {}
        lemma_clear_text("<Event xmlns=\"urn:schemas-upnp-org:metadata-1-0/AVT/\"><InstanceID val=\"0\"><TransportState val=\""@, mark);
    }
    assert(clear_of(s.transport.name(), mark)) by {
        reveal_strlit("<CurrentTrackDuration val=\"");
        lemma_clear_plain(s.transport.name(), mark);
    }
    lemma_clear_joined("<Event xmlns=\"urn:schemas-upnp-org:metadata-1-0/AVT/\"><InstanceID val=\"0\"><TransportState val=\""@, s.transport.name(), mark);
    assert(clear_of("\"/><CurrentTrackURI val=\""@, mark)) by {
        reveal_strlit("\"/><CurrentTrackURI val=\"");
        reveal_strlit("<CurrentTrackDuration val=\"");
        assert forall|j: int| 0 <= j < "\"/><CurrentTrackURI val=\""@.len() implies #[trigger] differs_soon("\"/><CurrentTrackURI val=\""@, mark, j) || j + 13 < "\"/><CurrentTrackURI val=\""@.len() && "\"/><CurrentTrackURI val=\""@[j + 13] != mark[13] by {}
        lemma_clear_text_at("\"/><CurrentTrackURI val=\""@, mark, 13);
    }
    lemma_clear_joined("<Event xmlns=\"urn:schemas-upnp-org:metadata-1-0/AVT/\"><InstanceID val=\"0\"><TransportState val=\""@ + s.transport.name(), "\"/><CurrentTrackURI val=\""@, mark);
    assert(clear_of(escaped_uri(s), mark)) by {
        reveal_strlit("<CurrentTrackDuration val=\"");
        lemma_clear_plain(escaped_uri(s), mark);
    }
    lemma_clear_joined("<Event xmlns=\"urn:schemas-upnp-org:metadata-1-0/AVT/\"><InstanceID val=\"0\"><TransportState val=\""@ + s.transport.name() + "\"/><CurrentTrackURI val=\""@, escaped_uri(s), mark);
    assert(clear_of("\"/><RelativeTimePosition val=\""@, mark)) by {
        reveal_strlit("\"/><RelativeTimePosition val=\"");
        reveal_strlit("<CurrentTrackDuration val=\"");
        assert forall|j: int| 0 <= j < "\"/><RelativeTimePosition val=\""@.len() implies #[trigger] differs_soon("\"/><RelativeTimePosition val=\""@, mark, j) by {}
        lemma_clear_text("\"/><RelativeTimePosition val=\""@, mark);
    }
    lemma_clear_joined("<Event xmlns=\"urn:schemas-upnp-org:metadata-1-0/AVT/\"><InstanceID val=\"0\"><TransportState val=\""@ + s.transport.name() + "\"/><CurrentTrackURI val=\""@ + escaped_uri(s), "\"/><RelativeTimePosition val=\""@, mark);
    assert(clear_of(time_text(s.position), mark)) by {
        reveal_strlit("<CurrentTrackDuration val=\"");
        lemma_clear_plain(time_text(s.position), mark);
    }
    lemma_clear_joined("<Event xmlns=\"urn:schemas-upnp-org:metadata-1-0/AVT/\"><InstanceID val=\"0\"><TransportState val=\""@ + s.transport.name() + "\"/><CurrentTrackURI val=\""@ + escaped_uri(s) + "\"/><RelativeTimePosition val=\""@, time_text(s.position), mark);
    assert(clear_of("\"/>"@, mark)) by {
        reveal_strlit("\"/>");
        reveal_strlit("<CurrentTrackDuration val=\"");
        assert forall|j: int| 0 <= j < "\"/>"@.len() implies #[trigger] differs_soon("\"/>"@, mark, j) by {}
        lemma_clear_text("\"/>"@, mark);
    }
    lemma_clear_joined("<Event xmlns=\"urn:schemas-upnp-org:metadata-1-0/AVT/\"><InstanceID val=\"0\"><TransportState val=\""@ + s.transport.name() + "\"/><CurrentTrackURI val=\""@ + escaped_uri(s) + "\"/><RelativeTimePosition val=\""@ + time_text(s.position), "\"/>"@, mark);
    assert("\"/><CurrentTrackDuration val=\""@ == "\"/>"@ + mark) by {
        reveal_strlit("\"/><CurrentTrackDuration val=\"");
        reveal_strlit("\"/>");
        reveal_strlit("<CurrentTrackDuration val=\"");
        assert("\"/><CurrentTrackDuration val=\""@ =~= "\"/>"@ + mark);
    }
    assert("\"/></InstanceID></Event>"@ == seq!['"'] + "/></InstanceID></Event>"@) by {
        reveal_strlit("\"/></InstanceID></Event>");
        reveal_strlit("/></InstanceID></Event>");
        assert("\"/></InstanceID></Event>"@ =~= seq!['"'] + "/></InstanceID></Event>"@);
    }
    let rest = "/></InstanceID></Event>"@;
    lemma_value_behind("<Event xmlns=\"urn:schemas-upnp-org:metadata-1-0/AVT/\"><InstanceID val=\"0\"><TransportState val=\""@ + s.transport.name() + "\"/><CurrentTrackURI val=\""@ + escaped_uri(s) + "\"/><RelativeTimePosition val=\""@ + time_text(s.position) + "\"/>"@, mark, duration_text(s), '"', rest);
    let front = "<Event xmlns=\"urn:schemas-upnp-org:metadata-1-0/AVT/\"><InstanceID val=\"0\"><TransportState val=\""@ + s.transport.name() + "\"/><CurrentTrackURI val=\""@ + escaped_uri(s) + "\"/><RelativeTimePosition val=\""@ + time_text(s.position) + "\"/>"@;
    lemma_joined("<Event xmlns=\"urn:schemas-upnp-org:metadata-1-0/AVT/\"><InstanceID val=\"0\"><TransportState val=\""@ + s.transport.name() + "\"/><CurrentTrackURI val=\""@ + escaped_uri(s) + "\"/><RelativeTimePosition val=\""@ + time_text(s.position), "\"/>"@, mark);
    lemma_joined(front + mark + duration_text(s), seq!['"'], "/></InstanceID></Event>"@);
    assert(transport_event(s) == front + mark + duration_text(s) + seq!['"'] + rest);
}

proof fn lemma_event_volume(s: StateView)
    ensures
        value_behind(rendering_event(s), "<Volume channel=\"Master\" val=\""@, '"') == Some(decimal(s.volume as nat)),
{
    lemma_number_is_read(s.volume as nat, u16::MAX as int);
    assert(lacks(decimal(s.volume as nat), '<') && lacks(decimal(s.volume as nat), '"'));
    reveal_strlit("0");
    reveal_strlit("1");
    let mark = "<Volume channel=\"Master\" val=\""@;
    assert(clear_of("<Event xmlns=\"urn:schemas-upnp-org:metadata-1-0/RCS/\"><InstanceID val=\"0\">"@, mark)) by {
        reveal_strlit("<Event xmlns=\"urn:schemas-upnp-org:metadata-1-0/RCS/\"><InstanceID val=\"0\">");
        reveal_strlit("<Volume channel=\"Master\" val=\"");
        assert forall|j: int| 0 <= j < "<Event xmlns=\"urn:schemas-upnp-org:metadata-1-0/RCS/\"><InstanceID val=\"0\">"@.len() implies #[trigger] differs_soon("<Event xmlns=\"urn:schemas-upnp-org:metadata-1-0/RCS/\"><InstanceID val=\"0\">"@, mark, j) by {}
        lemma_clear_text("<Event xmlns=\"urn:schemas-upnp-org:metadata-1-0/RCS/\"><InstanceID val=\"0\">"@, mark);
    }
    assert("<Event xmlns=\"urn:schemas-upnp-org:metadata-1-0/RCS/\"><InstanceID val=\"0\"><Volume channel=\"Master\" val=\""@ == "<Event xmlns=\"urn:schemas-upnp-org:metadata-1-0/RCS/\"><InstanceID val=\"0\">"@ + mark) by {
        reveal_strlit("<Event xmlns=\"urn:schemas-upnp-org:metadata-1-0/RCS/\"><InstanceID val=\"0\"><Volume channel=\"Master\" val=\"");
        reveal_strlit("<Event xmlns=\"urn:schemas-upnp-org:metadata-1-0/RCS/\"><InstanceID val=\"0\">");
        reveal_strlit("<Volume channel=\"Master\" val=\"");
        assert("<Event xmlns=\"urn:schemas-upnp-org:metadata-1-0/RCS/\"><InstanceID val=\"0\"><Volume channel=\"Master\" val=\""@ =~= "<Event xmlns=\"urn:schemas-upnp-org:metadata-1-0/RCS/\"><InstanceID val=\"0\">"@ + mark);
    }
    assert("\"/><Mute channel=\"Master\" val=\""@ == seq!['"'] + "/><Mute channel=\"Master\" val=\""@) by {
        reveal_strlit("\"/><Mute channel=\"Master\" val=\"");
        reveal_strlit("/><Mute channel=\"Master\" val=\"");
        assert("\"/><Mute channel=\"Master\" val=\""@ =~= seq!['"'] + "/><Mute channel=\"Master\" val=\""@);
    }
    let rest = "/><Mute channel=\"Master\" val=\""@ + bit(s.muted) + "\"/></InstanceID></Event>"@;
    lemma_value_behind("<Event xmlns=\"urn:schemas-upnp-org:metadata-1-0/RCS/\"><InstanceID val=\"0\">"@, mark, decimal(s.volume as nat), '"', rest);
    let front = "<Event xmlns=\"urn:schemas-upnp-org:metadata-1-0/RCS/\"><InstanceID val=\"0\">"@;
    lemma_joined(front + mark + decimal(s.volume as nat), seq!['"'], "/><Mute channel=\"Master\" val=\""@);
    lemma_joined(front + mark + decimal(s.volume as nat) + seq!['"'], "/><Mute channel=\"Master\" val=\""@, bit(s.muted));
    lemma_joined(front + mark + decimal(s.volume as nat) + seq!['"'], "/><Mute channel=\"Master\" val=\""@ + bit(s.muted), "\"/></InstanceID></Event>"@);
    assert(rendering_event(s) == front + mark + decimal(s.volume as nat) + seq!['"'] + rest);
}

proof fn lemma_event_mute(s: StateView)
    ensures
        value_behind(rendering_event(s), "<Mute channel=\"Master\" val=\""@, '"') == Some(bit(s.muted)),
{
    lemma_number_is_read(s.volume as nat, u16::MAX as int);
    assert(lacks(decimal(s.volume as nat), '<') && lacks(decimal(s.volume as nat), '"'));
    reveal_strlit("0");
    reveal_strlit("1");
    let mark = "<Mute channel=\"Master\" val=\""@;
    assert(clear_of("<Event xmlns=\"urn:schemas-upnp-org:metadata-1-0/RCS/\"><InstanceID val=\"0\"><Volume channel=\"Master\" val=\""@, mark)) by {
        reveal_strlit("<Event xmlns=\"urn:schemas-upnp-org:metadata-1-0/RCS/\"><InstanceID val=\"0\"><Volume channel=\"Master\" val=\"");
        reveal_strlit("<Mute channel=\"Master\" val=\"");
        assert forall|j: int| 0 <= j < "<Event xmlns=\"urn:schemas-upnp-org:metadata-1-0/RCS/\"><InstanceID val=\"0\"><Volume channel=\"Master\" val=\""@.len() implies #[trigger] differs_soon("<Event xmlns=\"urn:schemas-upnp-org:metadata-1-0/RCS/\"><InstanceID val=\"0\"><Volume channel=\"Master\" val=\""@, mark, j) by {}
        lemma_clear_text("<Event xmlns=\"urn:schemas-upnp-org:metadata-1-0/RCS/\"><InstanceID val=\"0\"><Volume channel=\"Master\" val=\""@, mark);
    }
    assert(clear_of(decimal(s.volume as nat), mark)) by {
        reveal_strlit("<Mute channel=\"Master\" val=\"");
        lemma_clear_plain(decimal(s.volume as nat), mark);
    }
    lemma_clear_joined("<Event xmlns=\"urn:schemas-upnp-org:metadata-1-0/RCS/\"><InstanceID val=\"0\"><Volume channel=\"Master\" val=\""@, decimal(s.volume as nat), mark);
    assert(clear_of("\"/>"@, mark)) by {
        reveal_strlit("\"/>");
        reveal_strlit("<Mute channel=\"Master\" val=\"");
        assert forall|j: int| 0 <= j < "\"/>"@.len() implies #[trigger] differs_soon("\"/>"@, mark, j) by {}
        lemma_clear_text("\"/>"@, mark);
    }
    lemma_clear_joined("<Event xmlns=\"urn:schemas-upnp-org:metadata-1-0/RCS/\"><InstanceID val=\"0\"><Volume channel=\"Master\" val=\""@ + decimal(s.volume as nat), "\"/>"@, mark);
    assert("\"/><Mute channel=\"Master\" val=\""@ == "\"/>"@ + mark) by {
        reveal_strlit("\"/><Mute channel=\"Master\" val=\"");
        reveal_strlit("\"/>");
        reveal_strlit("<Mute channel=\"Master\" val=\"");
        assert("\"/><Mute channel=\"Master\" val=\""@ =~= "\"/>"@ + mark);
    }
    assert("\"/></InstanceID></Event>"@ == seq!['"'] + "/></InstanceID></Event>"@) by {
        reveal_strlit("\"/></InstanceID></Event>");
        reveal_strlit("/></InstanceID></Event>");
        assert("\"/></InstanceID></Event>"@ =~= seq!['"'] + "/></InstanceID></Event>"@);
    }
    let rest = "/></InstanceID></Event>"@;
    lemma_value_behind("<Event xmlns=\"urn:schemas-upnp-org:metadata-1-0/RCS/\"><InstanceID val=\"0\"><Volume channel=\"Master\" val=\""@ + decimal(s.volume as nat) + "\"/>"@, mark, bit(s.muted), '"', rest);
    let front = "<Event xmlns=\"urn:schemas-upnp-org:metadata-1-0/RCS/\"><InstanceID val=\"0\"><Volume channel=\"Master\" val=\""@ + decimal(s.volume as nat) + "\"/>"@;
    lemma_joined("<Event xmlns=\"urn:schemas-upnp-org:metadata-1-0/RCS/\"><InstanceID val=\"0\"><Volume channel=\"Master\" val=\""@ + decimal(s.volume as nat), "\"/>"@, mark);
    lemma_joined(front + mark + bit(s.muted), seq!['"'], "/></InstanceID></Event>"@);
    assert(rendering_event(s) == front + mark + bit(s.muted) + seq!['"'] + rest);
}

proof fn lemma_last_change(event: Seq<char>)
    ensures
        value_behind("<?xml version=\"1.0\"?><e:propertyset xmlns:e=\"urn:schemas-upnp-org:event-1-0\">"@ + ("<e:property><LastChange>"@ + escape_xml_spec(event) + "</LastChange></e:property>"@) + "</e:propertyset>"@, "<LastChange>"@, '<') == Some(escape_xml_spec(event)),
{
    law_escaped_has_no_markup(event);
    assert(lacks(escape_xml_spec(event), '<'));
    let mark = "<LastChange>"@;
    assert(clear_of("<?xml version=\"1.0\"?><e:propertyset xmlns:e=\"urn:schemas-upnp-org:event-1-0\">"@, mark)) by {
        reveal_strlit("<?xml version=\"1.0\"?><e:propertyset xmlns:e=\"urn:schemas-upnp-org:event-1-0\">");
        reveal_strlit("<LastChange>");
        assert forall|j: int| 0 <= j < "<?xml version=\"1.0\"?><e:propertyset xmlns:e=\"urn:schemas-upnp-org:event-1-0\">"@.len() implies #[trigger] differs_soon("<?xml version=\"1.0\"?><e:propertyset xmlns:e=\"urn:schemas-upnp-org:event-1-0\">"@, mark, j) by {}
        lemma_clear_text("<?xml version=\"1.0\"?><e:propertyset xmlns:e=\"urn:schemas-upnp-org:event-1-0\">"@, mark);
    }
    assert(clear_of("<e:property>"@, mark)) by {
        reveal_strlit("<e:property>");
        reveal_strlit("<LastChange>");
        assert forall|j: int| 0 <= j < "<e:property>"@.len() implies #[trigger] differs_soon("<e:property>"@, mark, j) by {}
        lemma_clear_text("<e:property>"@, mark);
    }
    lemma_clear_joined("<?xml version=\"1.0\"?><e:propertyset xmlns:e=\"urn:schemas-upnp-org:event-1-0\">"@, "<e:property>"@, mark);
    assert("<e:property><LastChange>"@ == "<e:property>"@ + mark) by {
        reveal_strlit("<e:property><LastChange>");
        reveal_strlit("<e:property>");
        reveal_strlit("<LastChange>");
        assert("<e:property><LastChange>"@ =~= "<e:property>"@ + mark);
    }
    assert("</LastChange></e:property>"@ == seq!['<'] + "/LastChange></e:property>"@) by {
        reveal_strlit("</LastChange></e:property>");
        reveal_strlit("/LastChange></e:property>");
        assert("</LastChange></e:property>"@ =~= seq!['<'] + "/LastChange></e:property>"@);
    }
    let rest = "/LastChange></e:property>"@ + "</e:propertyset>"@;
    lemma_value_behind("<?xml version=\"1.0\"?><e:propertyset xmlns:e=\"urn:schemas-upnp-org:event-1-0\">"@ + "<e:property>"@, mark, escape_xml_spec(event), '<', rest);
    let front = "<?xml version=\"1.0\"?><e:propertyset xmlns:e=\"urn:schemas-upnp-org:event-1-0\">"@ + "<e:property>"@;
    lemma_joined("<?xml version=\"1.0\"?><e:propertyset xmlns:e=\"urn:schemas-upnp-org:event-1-0\">"@, "<e:property>"@, mark);
    lemma_joined(front + mark + escape_xml_spec(event), seq!['<'], "/LastChange></e:property>"@);
    lemma_joined(front + mark + escape_xml_spec(event) + seq!['<'], "/LastChange></e:property>"@, "</e:propertyset>"@);
    lemma_joined("<?xml version=\"1.0\"?><e:propertyset xmlns:e=\"urn:schemas-upnp-org:event-1-0\">"@, "<e:property><LastChange>"@ + escape_xml_spec(event), "</LastChange></e:property>"@);
    lemma_joined("<?xml version=\"1.0\"?><e:propertyset xmlns:e=\"urn:schemas-upnp-org:event-1-0\">"@, "<e:property><LastChange>"@, escape_xml_spec(event));
    assert("<?xml version=\"1.0\"?><e:propertyset xmlns:e=\"urn:schemas-upnp-org:event-1-0\">"@ + ("<e:property><LastChange>"@ + escape_xml_spec(event) + "</LastChange></e:property>"@) + "</e:propertyset>"@ == front + mark + escape_xml_spec(event) + seq!['<'] + rest);
}

proof fn lemma_event_sink(sink: Seq<char>)
    ensures
        value_behind("<?xml version=\"1.0\"?><e:propertyset xmlns:e=\"urn:schemas-upnp-org:event-1-0\">"@ + ("<e:property><SourceProtocolInfo></SourceProtocolInfo></e:property><e:property><SinkProtocolInfo>"@ + escape_xml_spec(sink) + "</SinkProtocolInfo></e:property><e:property><CurrentConnectionIDs>0</CurrentConnectionIDs></e:property>"@) + "</e:propertyset>"@, "<SinkProtocolInfo>"@, '<') == Some(escape_xml_spec(sink)),
{
    law_escaped_has_no_markup(sink);
    assert(lacks(escape_xml_spec(sink), '<'));
    let mark = "<SinkProtocolInfo>"@;
    assert(clear_of("<?xml version=\"1.0\"?><e:propertyset xmlns:e=\"urn:schemas-upnp-org:event-1-0\">"@, mark)) by {
        reveal_strlit("<?xml version=\"1.0\"?><e:propertyset xmlns:e=\"urn:schemas-upnp-org:event-1-0\">");
        reveal_strlit("<SinkProtocolInfo>");
        assert forall|j: int| 0 <= j < "<?xml version=\"1.0\"?><e:propertyset xmlns:e=\"urn:schemas-upnp-org:event-1-0\">"@.len() implies #[trigger] differs_soon("<?xml version=\"1.0\"?><e:propertyset xmlns:e=\"urn:schemas-upnp-org:event-1-0\">"@, mark, j) by {}
        lemma_clear_text("<?xml version=\"1.0\"?><e:propertyset xmlns:e=\"urn:schemas-upnp-org:event-1-0\">"@, mark);
    }
    assert(clear_of("<e:property><SourceProtocolInfo></SourceProtocolInfo></e:property><e:property>"@, mark)) by {
        reveal_strlit("<e:property><SourceProtocolInfo></SourceProtocolInfo></e:property><e:property>");
        reveal_strlit("<SinkProtocolInfo>");
        assert forall|j: int| 0 <= j < "<e:property><SourceProtocolInfo></SourceProtocolInfo></e:property><e:property>"@.len() implies #[trigger] differs_soon("<e:property><SourceProtocolInfo></SourceProtocolInfo></e:property><e:property>"@, mark, j) by {}
        lemma_clear_text("<e:property><SourceProtocolInfo></SourceProtocolInfo></e:property><e:property>"@, mark);
    }
    lemma_clear_joined("<?xml version=\"1.0\"?><e:propertyset xmlns:e=\"urn:schemas-upnp-org:event-1-0\">"@, "<e:property><SourceProtocolInfo></SourceProtocolInfo></e:property><e:property>"@, mark);
    assert("<e:property><SourceProtocolInfo></SourceProtocolInfo></e:property><e:property><SinkProtocolInfo>"@ == "<e:property><SourceProtocolInfo></SourceProtocolInfo></e:property><e:property>"@ + mark) by {
        reveal_strlit("<e:property><SourceProtocolInfo></SourceProtocolInfo></e:property><e:property><SinkProtocolInfo>");
        reveal_strlit("<e:property><SourceProtocolInfo></SourceProtocolInfo></e:property><e:property>");
        reveal_strlit("<SinkProtocolInfo>");
        assert("<e:property><SourceProtocolInfo></SourceProtocolInfo></e:property><e:property><SinkProtocolInfo>"@ =~= "<e:property><SourceProtocolInfo></SourceProtocolInfo></e:property><e:property>"@ + mark);
    }
    assert("</SinkProtocolInfo></e:property><e:property><CurrentConnectionIDs>0</CurrentConnectionIDs></e:property>"@ == seq!['<'] + "/SinkProtocolInfo></e:property><e:property><CurrentConnectionIDs>0</CurrentConnectionIDs></e:property>"@) by {
        reveal_strlit("</SinkProtocolInfo></e:property><e:property><CurrentConnectionIDs>0</CurrentConnectionIDs></e:property>");
        reveal_strlit("/SinkProtocolInfo></e:property><e:property><CurrentConnectionIDs>0</CurrentConnectionIDs></e:property>");
        assert("</SinkProtocolInfo></e:property><e:property><CurrentConnectionIDs>0</CurrentConnectionIDs></e:property>"@ =~= seq!['<'] + "/SinkProtocolInfo></e:property><e:property><CurrentConnectionIDs>0</CurrentConnectionIDs></e:property>"@);
    }
    let rest = "/SinkProtocolInfo></e:property><e:property><CurrentConnectionIDs>0</CurrentConnectionIDs></e:property>"@ + "</e:propertyset>"@;
    lemma_value_behind("<?xml version=\"1.0\"?><e:propertyset xmlns:e=\"urn:schemas-upnp-org:event-1-0\">"@ + "<e:property><SourceProtocolInfo></SourceProtocolInfo></e:property><e:property>"@, mark, escape_xml_spec(sink), '<', rest);
    let front = "<?xml version=\"1.0\"?><e:propertyset xmlns:e=\"urn:schemas-upnp-org:event-1-0\">"@ + "<e:property><SourceProtocolInfo></SourceProtocolInfo></e:property><e:property>"@;
    lemma_joined("<?xml version=\"1.0\"?><e:propertyset xmlns:e=\"urn:schemas-upnp-org:event-1-0\">"@, "<e:property><SourceProtocolInfo></SourceProtocolInfo></e:property><e:property>"@, mark);
    lemma_joined(front + mark + escape_xml_spec(sink), seq!['<'], "/SinkProtocolInfo></e:property><e:property><CurrentConnectionIDs>0</CurrentConnectionIDs></e:property>"@);
    lemma_joined(front + mark + escape_xml_spec(sink) + seq!['<'], "/SinkProtocolInfo></e:property><e:property><CurrentConnectionIDs>0</CurrentConnectionIDs></e:property>"@, "</e:propertyset>"@);
    lemma_joined("<?xml version=\"1.0\"?><e:propertyset xmlns:e=\"urn:schemas-upnp-org:event-1-0\">"@, "<e:property><SourceProtocolInfo></SourceProtocolInfo></e:property><e:property><SinkProtocolInfo>"@ + escape_xml_spec(sink), "</SinkProtocolInfo></e:property><e:property><CurrentConnectionIDs>0</CurrentConnectionIDs></e:property>"@);
    lemma_joined("<?xml version=\"1.0\"?><e:propertyset xmlns:e=\"urn:schemas-upnp-org:event-1-0\">"@, "<e:property><SourceProtocolInfo></SourceProtocolInfo></e:property><e:property><SinkProtocolInfo>"@, escape_xml_spec(sink));
    assert("<?xml version=\"1.0\"?><e:propertyset xmlns:e=\"urn:schemas-upnp-org:event-1-0\">"@ + ("<e:property><SourceProtocolInfo></SourceProtocolInfo></e:property><e:property><SinkProtocolInfo>"@ + escape_xml_spec(sink) + "</SinkProtocolInfo></e:property><e:property><CurrentConnectionIDs>0</CurrentConnectionIDs></e:property>"@) + "</e:propertyset>"@ == front + mark + escape_xml_spec(sink) + seq!['<'] + rest);
}

/// What the property `LastChange` of an event says, once its references are read.
pub open spec fn last_change_in(event: Seq<char>) -> Option<Seq<char>> {
    match value_behind(event, "<LastChange>"@, '<') {
        Some(text) => Some(unescaped(text)),
        None => None,
    }
}

/// An event of AVTransport tells the transport state by its name, the address of the media,
/// and the place and the length as times.
pub proof fn law_transport_event_is_read(s: StateView, sink: Seq<char>)
    ensures
        ({
            let told = last_change_in(event_text(EventService::AvTransport, s, sink));
            &&& told is Some
            &&& value_behind(told->0, "<TransportState val=\""@, '"') == Some(
                match s.transport {
                    TransportState::NoMediaPresent => "NO_MEDIA_PRESENT"@,
                    TransportState::Stopped => "STOPPED"@,
                    TransportState::Playing => "PLAYING"@,
                    TransportState::PausedPlayback => "PAUSED_PLAYBACK"@,
                    TransportState::Transitioning => "TRANSITIONING"@,
                },
            )
            &&& value_behind(told->0, "<CurrentTrackURI val=\""@, '"') matches Some(uri)
            &&& unescaped(uri) == s.uri.unwrap_or(seq![])
            &&& value_behind(told->0, "<RelativeTimePosition val=\""@, '"') == Some(
                time_text(s.position),
            )
            &&& value_behind(told->0, "<CurrentTrackDuration val=\""@, '"') == Some(
                time_text(s.duration.unwrap_or(Span { secs: 0, nanos: 0 })),
            )
        }),
{
    let event = transport_event(s);
    lemma_last_change(event);
    law_escaped_stands_for_the_text(event);
    lemma_event_transport(s);
    lemma_event_uri(s);
    lemma_event_position(s);
    lemma_event_duration(s);
    law_escaped_stands_for_the_text(s.uri.unwrap_or(seq![]));
}

/// Events of two states whose transport states differ are different texts, and so are events
/// of states with different media.
pub proof fn law_different_states_are_told_differently(s: StateView, t: StateView, sink: Seq<char>)
    requires
        event_text(EventService::AvTransport, s, sink) == event_text(
            EventService::AvTransport,
            t,
            sink,
        ),
    ensures
        s.transport == t.transport,
        s.uri.unwrap_or(seq![]) == t.uri.unwrap_or(seq![]),
{
    law_transport_event_is_read(s, sink);
    law_transport_event_is_read(t, sink);
    reveal_strlit("NO_MEDIA_PRESENT");
    reveal_strlit("STOPPED");
    reveal_strlit("PLAYING");
    reveal_strlit("PAUSED_PLAYBACK");
    reveal_strlit("TRANSITIONING");
    assert("NO_MEDIA_PRESENT"@.len() == 16 && "PAUSED_PLAYBACK"@.len() == 15
        && "TRANSITIONING"@.len() == 13);
    assert("STOPPED"@.len() == 7 && "PLAYING"@.len() == 7);
    assert("STOPPED"@[0] == 'S' && "PLAYING"@[0] == 'P');
}

/// An event of RenderingControl tells the volume, and whether the sound is off.
pub proof fn law_sound_event_is_read(s: StateView, sink: Seq<char>)
    ensures
        ({
            let told = last_change_in(event_text(EventService::RenderingControl, s, sink));
            &&& told is Some
            &&& value_behind(told->0, "<Volume channel=\"Master\" val=\""@, '"') matches Some(level)
            &&& uint_value(level, 10, u16::MAX as int) == Some(s.volume as nat)
            &&& value_behind(told->0, "<Mute channel=\"Master\" val=\""@, '"') == Some(
                if s.muted {
                    "1"@
                } else {
                    "0"@
                },
            )
        }),
{
    let event = rendering_event(s);
    lemma_last_change(event);
    law_escaped_stands_for_the_text(event);
    lemma_event_volume(s);
    lemma_event_mute(s);
    lemma_number_is_read(s.volume as nat, u16::MAX as int);
}

/// An event of ConnectionManager tells what the player can play.
pub proof fn law_connection_event_is_read(s: StateView, sink: Seq<char>)
    ensures
        ({
            let event = event_text(EventService::ConnectionManager, s, sink);
            &&& value_behind(event, "<SinkProtocolInfo>"@, '<') matches Some(text)
            &&& unescaped(text) == sink
        }),
{
    lemma_event_sink(sink);
    law_escaped_stands_for_the_text(sink);
}

} // verus!
