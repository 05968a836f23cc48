//! Arguments, answers and faults of UPnP control.

use vstd::prelude::*;
use vstd::string::StringExecFns;
use crate::number::{
    decimal, decimal_text, lemma_padded_uint, lemma_padded_value, padded, padded_text, parse_uint,
    uint_value,
};
use crate::state::Span;
use crate::text::{
    lemma_find_char, lemma_find_char_unique, opt_view, same_text, split_spec, split_text,
    strip_prefix, strip_prefix_spec, views,
};
use crate::xml::{escape_xml, escape_xml_spec, xml_value, xml_value_spec};

verus! {

/// The three services of the renderer.
#[derive(Clone, Copy, Debug, PartialEq, Eq, Structural)]
pub enum EventService {
    AvTransport,
    RenderingControl,
    ConnectionManager,
}

impl EventService {
    /// The service's type.
    pub open spec fn urn_spec(self) -> Seq<char> {
        match self {
            EventService::AvTransport => "urn:schemas-upnp-org:service:AVTransport:1"@,
            EventService::RenderingControl => "urn:schemas-upnp-org:service:RenderingControl:1"@,
            EventService::ConnectionManager => "urn:schemas-upnp-org:service:ConnectionManager:1"@,
        }
    }

    /// The service's type.
    pub fn urn(self) -> (r: &'static str)
        ensures
            r@ == self.urn_spec(),
    {
        match self {
            EventService::AvTransport => "urn:schemas-upnp-org:service:AVTransport:1",
            EventService::RenderingControl => "urn:schemas-upnp-org:service:RenderingControl:1",
            EventService::ConnectionManager => "urn:schemas-upnp-org:service:ConnectionManager:1",
        }
    }
}

/// A fault that a control point gets instead of an answer.
#[derive(Clone, Debug)]
pub struct UpnpError {
    pub code: u16,
    pub description: &'static str,
}

/// A fault's code and description.
#[verifier::ext_equal]
pub struct Fault {
    pub code: u16,
    pub description: Seq<char>,
}

impl View for UpnpError {
    type V = Fault;

    open spec fn view(&self) -> Fault {
        Fault { code: self.code, description: self.description@ }
    }
}

impl UpnpError {
    pub fn new(code: u16, description: &'static str) -> (r: Self)
        ensures
            r@ == (Fault { code, description: description@ }),
    {
        UpnpError { code, description }
    }
}

/// The fault for an action that the service does not have.
pub open spec fn invalid_action() -> Fault {
    Fault { code: 401, description: "Invalid Action"@ }
}

/// The fault for a missing or malformed argument.
pub open spec fn invalid_args() -> Fault {
    Fault { code: 402, description: "Invalid Args"@ }
}

/// The fault for an action that the player did not carry out.
pub open spec fn action_failed() -> Fault {
    Fault { code: 501, description: "Action Failed"@ }
}

/// The view of a result.
pub open spec fn text_result(r: Result<String, UpnpError>) -> Result<Seq<char>, Fault> {
    match r {
        Ok(s) => Ok(s@),
        Err(e) => Err(e@),
    }
}

/// What an argument must be: the trimmed text of its element.
pub open spec fn argument(body: Seq<char>, tag: Seq<char>) -> Result<Seq<char>, Fault> {
    match xml_value_spec(body, tag) {
        Some(v) => Ok(v),
        None => Err(invalid_args()),
    }
}

/// The argument `tag` of a request.
pub fn required_value(body: &str, tag: &str) -> (r: Result<String, UpnpError>)
    ensures
        text_result(r) == argument(body@, tag@),
{
    match xml_value(body, tag) {
        Some(value) => Ok(value),
        None => Err(UpnpError::new(402, "Invalid Args")),
    }
}

/// The fault of a request that does not address instance 0.
pub open spec fn instance_fault(body: Seq<char>) -> Option<Fault> {
    match argument(body, "InstanceID"@) {
        Ok(v) => if v == "0"@ {
            None
        } else {
            Some(Fault { code: 718, description: "Invalid InstanceID"@ })
        },
        Err(f) => Some(f),
    }
}

/// The view of an optional fault.
pub open spec fn unit_fault(r: Result<(), UpnpError>) -> Option<Fault> {
    match r {
        Ok(_) => None,
        Err(e) => Some(e@),
    }
}

/// Refuses a request that does not address instance 0.
pub fn require_instance_zero(body: &str) -> (r: Result<(), UpnpError>)
    ensures
        unit_fault(r) == instance_fault(body@),
{
    match required_value(body, "InstanceID") {
        Ok(value) => if same_text(&value, "0") {
            Ok(())
        } else {
            Err(UpnpError::new(718, "Invalid InstanceID"))
        },
        Err(error) => Err(error),
    }
}

/// The fault of a request that does not address the master channel.
pub open spec fn channel_fault(body: Seq<char>) -> Option<Fault> {
    match argument(body, "Channel"@) {
        Ok(v) => if v == "Master"@ {
            None
        } else {
            Some(invalid_args())
        },
        Err(f) => Some(f),
    }
}

/// Refuses a request that does not address the master channel.
pub fn require_master_channel(body: &str) -> (r: Result<(), UpnpError>)
    ensures
        unit_fault(r) == channel_fault(body@),
{
    match required_value(body, "Channel") {
        Ok(value) => if same_text(&value, "Master") {
            Ok(())
        } else {
            Err(UpnpError::new(402, "Invalid Args"))
        },
        Err(error) => Err(error),
    }
}

/// The truth value that a text denotes.
pub open spec fn bool_value(s: Seq<char>) -> Option<bool> {
    if s == "0"@ || s == "false"@ {
        Some(false)
    } else if s == "1"@ || s == "true"@ {
        Some(true)
    } else {
        None
    }
}

/// Reads a truth value.
pub fn parse_bool(value: &str) -> (r: Result<bool, UpnpError>)
    ensures
        match r {
            Ok(b) => bool_value(value@) == Some(b),
            Err(e) => bool_value(value@) is None && e@ == invalid_args(),
        },
{
    if same_text(value, "0") || same_text(value, "false") {
        Ok(false)
    } else if same_text(value, "1") || same_text(value, "true") {
        Ok(true)
    } else {
        Err(UpnpError::new(402, "Invalid Args"))
    }
}

// ---------------------------------------------------------------------------
// Times
// ---------------------------------------------------------------------------

/// The seconds field of a time, a decimal number, where the time has its three
/// fields.
pub open spec fn seconds_field_spec(value: Seq<char>) -> Option<Seq<char>> {
    let parts = split_spec(value, ':');
    if parts.len() == 3 {
        Some(parts[2])
    } else {
        None
    }
}

/// The seconds field of a time.
pub fn seconds_field(value: &str) -> (r: Option<String>)
    ensures
        opt_view(r) == seconds_field_spec(value@),
{
    let parts = split_text(value, ':');
    assert(views(parts@).len() == parts@.len());
    if parts.len() == 3 {
        assert(views(parts@)[2] == parts@[2]@);
        Some(parts[2].clone())
    } else {
        None
    }
}

/// The time that `value` denotes, where its seconds field was read as `seconds`:
/// hours and minutes are whole numbers, there are less than 60 minutes, and the seconds
/// are at most 60, to which a number just below is rounded.
pub open spec fn time_value(value: Seq<char>, seconds: Option<Span>) -> Option<int> {
    let parts = split_spec(value, ':');
    if parts.len() != 3 {
        None
    } else {
        match (
            uint_value(parts[0], 10, u64::MAX as int),
            uint_value(parts[1], 10, u64::MAX as int),
            seconds,
        ) {
            (Some(h), Some(m), Some(s)) => {
                let total = (h * 3600 + m * 60) * 1_000_000_000 + s.total_nanos();
                if m < 60 && s.total_nanos() <= 60_000_000_000 && total < (u64::MAX + 1) * 1_000_000_000 {
                    Some(total)
                } else {
                    None
                }
            },
            _ => None,
        }
    }
}

/// Reads a time. `seconds` is what the seconds field denotes, where that is a
/// number from 0 up to, and without, 60.
pub fn parse_upnp_time(value: &str, seconds: Option<Span>) -> (r: Result<Span, UpnpError>)
    requires
        seconds matches Some(s) ==> s.valid(),
    ensures
        match r {
            Ok(t) => t.valid() && time_value(value@, seconds) == Some(t.total_nanos()),
            Err(e) => time_value(value@, seconds) is None && e@ == invalid_args(),
        },
{
    let parts = split_text(value, ':');
    assert(views(parts@).len() == parts@.len());
    if parts.len() != 3 {
        return Err(UpnpError::new(402, "Invalid Args"));
    }
    assert(views(parts@)[0] == parts@[0]@);
    assert(views(parts@)[1] == parts@[1]@);
    let hours: u64 = match parse_uint(&parts[0], 10, u64::MAX) {
        Some(n) => n,
        None => {
            return Err(UpnpError::new(402, "Invalid Args"));
        },
    };
    let minutes: u64 = match parse_uint(&parts[1], 10, u64::MAX) {
        Some(n) => n,
        None => {
            return Err(UpnpError::new(402, "Invalid Args"));
        },
    };
    let fraction = match seconds {
        Some(s) => s,
        None => {
            return Err(UpnpError::new(402, "Invalid Args"));
        },
    };
    if minutes >= 60 || fraction.secs > 60 || (fraction.secs == 60 && fraction.nanos > 0) {
        return Err(UpnpError::new(402, "Invalid Args"));
    }
    let whole: u64 = match hours.checked_mul(3600) {
        Some(n) => match n.checked_add(minutes * 60) {
            Some(n) => n,
            None => {
                return Err(UpnpError::new(402, "Invalid Args"));
            },
        },
        None => {
            return Err(UpnpError::new(402, "Invalid Args"));
        },
    };
    match Span::from_secs(whole).plus(fraction) {
        Some(t) => Ok(t),
        None => Err(UpnpError::new(402, "Invalid Args")),
    }
}

/// A time in hours, minutes and seconds; parts of a second are left out.
pub open spec fn time_text(t: Span) -> Seq<char> {
    padded((t.secs / 3600) as nat, 2) + ":"@ + padded((t.secs % 3600 / 60) as nat, 2) + ":"@
        + padded((t.secs % 60) as nat, 2)
}

/// Writes a time in hours, minutes and seconds.
pub fn format_upnp_time(value: Span) -> (r: String)
    ensures
        r@ == time_text(value),
{
    let total: u64 = value.secs;
    let mut s = padded_text(total / 3600, 2);
    s.append(":");
    s.append(&padded_text(total % 3600 / 60, 2));
    s.append(":");
    s.append(&padded_text(total % 60, 2));
    s
}

/// The three fields of a text in which exactly two colons stand.
proof fn lemma_three_fields(a: Seq<char>, b: Seq<char>, c: Seq<char>)
    requires
        forall|i: int| 0 <= i < a.len() ==> a[i] != ':',
        forall|i: int| 0 <= i < b.len() ==> b[i] != ':',
        forall|i: int| 0 <= i < c.len() ==> c[i] != ':',
    ensures
        split_spec(a + ":"@ + b + ":"@ + c, ':') == seq![a, b, c],
{
    reveal_strlit(":");
    let s = a + ":"@ + b + ":"@ + c;
    let t = b + ":"@ + c;
    let i = a.len() as int;
    let j = b.len() as int;
    lemma_find_char_unique(s, ':', 0, i);
    assert(s.take(i) =~= a);
    assert(s.skip(i + 1) =~= t);
    lemma_find_char_unique(t, ':', 0, j);
    assert(t.take(j) =~= b);
    assert(t.skip(j + 1) =~= c);
    lemma_find_char(c, ':', 0);
    assert(split_spec(c, ':') =~= seq![c]);
    assert(split_spec(t, ':') =~= seq![b, c]);
    assert(split_spec(s, ':') =~= seq![a, b, c]);
}

/// A time in whole seconds survives writing and reading: its seconds field is
/// its seconds in two digits, and with that field read so the text denotes the
/// time again.
pub proof fn law_time_round_trip(t: Span)
    requires
        t.nanos == 0,
    ensures
        seconds_field_spec(time_text(t)) == Some(padded((t.secs % 60) as nat, 2)),
        time_value(time_text(t), Some(Span { secs: t.secs % 60, nanos: 0 })) == Some(
            t.total_nanos(),
        ),
{
    let h = (t.secs / 3600) as nat;
    let m = (t.secs % 3600 / 60) as nat;
    let s = (t.secs % 60) as nat;
    lemma_padded_value(h, 2);
    lemma_padded_value(m, 2);
    lemma_padded_value(s, 2);
    lemma_three_fields(padded(h, 2), padded(m, 2), padded(s, 2));
    lemma_padded_uint(h, 2, u64::MAX as int);
    lemma_padded_uint(m, 2, u64::MAX as int);
}

/// The length of a subscription in seconds that a `TIMEOUT` header asks for: at
/// least a minute, at most a day, and half an hour where it asks for none.
pub open spec fn timeout_value(value: Option<Seq<char>>) -> u64 {
    match value {
        Some(v) => match strip_prefix_spec(v, "Second-"@) {
            Some(digits) => match uint_value(digits, 10, u64::MAX as int) {
                Some(n) => if n < 60 {
                    60
                } else if n > 86400 {
                    86400
                } else {
                    n as u64
                },
                None => 1800,
            },
            None => 1800,
        },
        None => 1800,
    }
}

/// Reads a `TIMEOUT` header, in seconds.
pub fn parse_timeout(value: Option<&String>) -> (r: u64)
    ensures
        r == timeout_value(
            match value {
                Some(v) => Some(v@),
                None => None,
            },
        ),
        60 <= r <= 86400,
{
    let text = match value {
        Some(v) => v,
        None => {
            return 1800;
        },
    };
    let digits = match strip_prefix(text, "Second-") {
        Some(d) => d,
        None => {
            return 1800;
        },
    };
    match parse_uint(&digits, 10, u64::MAX) {
        Some(n) => if n < 60 {
            60
        } else if n > 86400 {
            86400
        } else {
            n
        },
        None => 1800,
    }
}

// ---------------------------------------------------------------------------
// Answers
// ---------------------------------------------------------------------------

/// The answer element of an action.
pub open spec fn answer(
    service: EventService,
    action: Seq<char>,
    values: Seq<char>,
) -> Seq<char> {
    "<u:"@ + action + "Response xmlns:u=\""@ + service.urn_spec() + "\">"@ + values + "</u:"@
        + action + "Response>"@
}

/// Writes the answer element of an action.
pub fn action_response(service: EventService, action: &str, values: &str) -> (r: String)
    ensures
        r@ == answer(service, action@, values@),
{
    let mut s = "<u:".to_owned();
    s.append(action);
    s.append("Response xmlns:u=\"");
    s.append(service.urn());
    s.append("\">");
    s.append(values);
    s.append("</u:");
    s.append(action);
    s.append("Response>");
    s
}

/// The SOAP envelope round `body`.
pub open spec fn envelope(body: Seq<char>) -> Seq<char> {
    "<?xml version=\"1.0\"?><s:Envelope xmlns:s=\"http://schemas.xmlsoap.org/soap/envelope/\" s:encodingStyle=\"http://schemas.xmlsoap.org/soap/encoding/\"><s:Body>"@
        + body + "</s:Body></s:Envelope>"@
}

/// Writes the SOAP envelope round `body`.
pub fn soap_envelope(body: &str) -> (r: String)
    ensures
        r@ == envelope(body@),
{
    let mut s =
        "<?xml version=\"1.0\"?><s:Envelope xmlns:s=\"http://schemas.xmlsoap.org/soap/envelope/\" s:encodingStyle=\"http://schemas.xmlsoap.org/soap/encoding/\"><s:Body>".to_owned();
    s.append(body);
    s.append("</s:Body></s:Envelope>");
    s
}

/// The fault element for a fault.
pub open spec fn fault_text(fault: Fault) -> Seq<char> {
    "<s:Fault><faultcode>s:Client</faultcode><faultstring>UPnPError</faultstring><detail><UPnPError xmlns=\"urn:schemas-upnp-org:control-1-0\"><errorCode>"@
        + decimal(fault.code as nat) + "</errorCode><errorDescription>"@ + escape_xml_spec(
        fault.description,
    ) + "</errorDescription></UPnPError></detail></s:Fault>"@
}

/// Writes the fault element for a fault.
pub fn soap_fault(code: u16, description: &str) -> (r: String)
    ensures
        r@ == fault_text(Fault { code, description: description@ }),
{
    let mut s =
        "<s:Fault><faultcode>s:Client</faultcode><faultstring>UPnPError</faultstring><detail><UPnPError xmlns=\"urn:schemas-upnp-org:control-1-0\"><errorCode>".to_owned();
    s.append(&decimal_text(code as u64));
    s.append("</errorCode><errorDescription>");
    s.append(&escape_xml(description));
    s.append("</errorDescription></UPnPError></detail></s:Fault>");
    s
}

} // verus!
