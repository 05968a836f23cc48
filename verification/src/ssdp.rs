//! Discovery: what the renderer announces, and how it answers searches.

use vstd::prelude::*;
use vstd::string::StringExecFns;
use crate::bytes::{lossy_text, lossy_value};
use crate::clock::{http_date, timestamp_rfc1123};
use crate::http::{header_value, header_value_in};
use crate::net::{find_matching_interface, matching_address, Ipv4};
use crate::number::{decimal, decimal_text};
use crate::text::{
    chars_of, control, is_control, lines_of, lines_spec, lower, same_ignoring_case, same_text,
    views,
};

verus! {

/// The type of the device.
pub const DEVICE_TYPE: &'static str = "urn:schemas-upnp-org:device:MediaRenderer:1";

/// The name of the device in announcements.
pub const UDN: &'static str = "uuid:mini-mdr";

/// How often the renderer announces itself when it starts.
pub const FIRST_ANNOUNCEMENTS: u32 = 3;

/// After how many seconds the renderer announces itself anew.
pub const ANNOUNCE_INTERVAL: u64 = 900;

/// What can be searched for: the device and its services.
pub open spec fn advertised() -> Seq<Seq<char>> {
    seq![
        "upnp:rootdevice"@,
        UDN@,
        DEVICE_TYPE@,
        "urn:schemas-upnp-org:service:AVTransport:1"@,
        "urn:schemas-upnp-org:service:RenderingControl:1"@,
        "urn:schemas-upnp-org:service:ConnectionManager:1"@,
    ]
}

/// The views of a list of texts.
pub open spec fn str_views(v: Seq<&'static str>) -> Seq<Seq<char>> {
    Seq::new(v.len(), |i: int| v[i]@)
}

/// What can be searched for.
pub fn advertised_targets() -> (r: Vec<&'static str>)
    ensures
        str_views(r@) == advertised(),
{
    let mut targets: Vec<&'static str> = Vec::new();
    targets.push("upnp:rootdevice");
    targets.push(UDN);
    targets.push(DEVICE_TYPE);
    targets.push("urn:schemas-upnp-org:service:AVTransport:1");
    targets.push("urn:schemas-upnp-org:service:RenderingControl:1");
    targets.push("urn:schemas-upnp-org:service:ConnectionManager:1");
    assert(str_views(targets@) =~= advertised());
    targets
}

/// The unique service name for a target.
pub open spec fn service_name(target: Seq<char>) -> Seq<char> {
    if target == UDN@ {
        UDN@
    } else {
        UDN@ + "::"@ + target
    }
}

/// The unique service name for a target.
pub fn usn(target: &str) -> (r: String)
    ensures
        r@ == service_name(target@),
{
    if same_text(target, UDN) {
        UDN.to_owned()
    } else {
        let mut s = UDN.to_owned();
        s.append("::");
        s.append(target);
        s
    }
}

/// A text with a space in the place of each control character.
pub open spec fn sanitized(s: Seq<char>) -> Seq<char> {
    Seq::new(
        s.len(),
        |i: int|
            if is_control(s[i]) {
                ' '
            } else {
                s[i]
            },
    )
}

/// A text with a space in the place of each control character, so that it can stand
/// in a header.
pub fn sanitize_header_value(value: &str) -> (r: String)
    ensures
        r@ == sanitized(value@),
{
    let chars = chars_of(value);
    let mut out = String::new();
    let mut i: usize = 0;
    while i < chars.len()
        invariant
            i <= chars.len(),
            chars@ == value@,
            out@ == sanitized(value@).take(i as int),
        decreases chars.len() - i,
    {
        if control(chars[i]) {
            out.push(' ');
        } else {
            out.push(chars[i]);
        }
        assert(out@ =~= sanitized(value@).take(i + 1));
        i += 1;
    }
    assert(sanitized(value@).take(chars@.len() as int) =~= sanitized(value@));
    out
}

/// No control character, and so no line end, is left in a text that was made fit for
/// a header; a text without one stays as it is.
pub proof fn law_sanitized_has_no_control(s: Seq<char>)
    ensures
        forall|i: int| 0 <= i < sanitized(s).len() ==> !is_control(#[trigger] sanitized(s)[i]),
        (forall|i: int| 0 <= i < s.len() ==> !is_control(#[trigger] s[i])) ==> sanitized(s) == s,
{
    if forall|i: int| 0 <= i < s.len() ==> !is_control(#[trigger] s[i]) {
        assert(sanitized(s) =~= s);
    }
}

// ---------------------------------------------------------------------------
// Searches
// ---------------------------------------------------------------------------

/// The first advertised target with this name, in any case, from `from` on.
pub open spec fn find_target(name: Seq<char>, from: int) -> Option<int>
    decreases 6 - from,
{
    if from < 0 || from >= 6 {
        None
    } else if lower(name) == lower(advertised()[from]) {
        Some(from)
    } else {
        find_target(name, from + 1)
    }
}

/// The targets that a search for `name` finds: all of them, or one. A renderer of
/// version 3 is found in that of version 1.
pub open spec fn searched(name: Seq<char>) -> Seq<Seq<char>> {
    if lower(name) == lower("ssdp:all"@) {
        advertised()
    } else if lower(name) == lower("urn:schemas-upnp-org:device:MediaRenderer:3"@) {
        seq![DEVICE_TYPE@]
    } else {
        match find_target(name, 0) {
            Some(i) => seq![advertised()[i]],
            None => seq![],
        }
    }
}

/// The targets that a search for `name` finds.
pub fn search_targets(name: &str) -> (r: Vec<&'static str>)
    ensures
        str_views(r@) == searched(name@),
{
    let all = advertised_targets();
    if same_ignoring_case(name, "ssdp:all") {
        return all;
    }
    let mut found: Vec<&'static str> = Vec::new();
    if same_ignoring_case(name, "urn:schemas-upnp-org:device:MediaRenderer:3") {
        found.push(DEVICE_TYPE);
        assert(str_views(found@) =~= seq![DEVICE_TYPE@]);
        return found;
    }
    let mut i: usize = 0;
    assert(str_views(all@).len() == 6);
    while i < all.len()
        invariant
            i <= all.len(),
            all.len() == 6,
            str_views(all@) == advertised(),
            found@ == Seq::<&'static str>::empty(),
            find_target(name@, 0) == find_target(name@, i as int),
            lower(name@) != lower("ssdp:all"@),
            lower(name@) != lower("urn:schemas-upnp-org:device:MediaRenderer:3"@),
        decreases all.len() - i,
    {
        assert(advertised()[i as int] == str_views(all@)[i as int]);
        if same_ignoring_case(name, all[i]) {
            found.push(all[i]);
            assert(str_views(found@) =~= seq![advertised()[i as int]]);
            return found;
        }
        i += 1;
    }
    assert(str_views(found@) =~= seq![]);
    found
}

/// Whether a message is a search.
pub open spec fn is_search(request: Seq<char>) -> bool {
    let lines = lines_spec(request);
    lines.len() > 0 && lower(lines[0]) == lower("M-SEARCH * HTTP/1.1"@)
}

/// The targets that a message searches for; none where it is no search.
pub open spec fn requested(request: Seq<char>) -> Seq<Seq<char>> {
    if is_search(request) {
        searched(
            match header_value_in(lines_spec(request), "ST"@) {
                Some(name) => name,
                None => seq![],
            },
        )
    } else {
        seq![]
    }
}

/// The targets that a message searches for.
pub fn requested_targets(request: &str) -> (r: Vec<&'static str>)
    ensures
        str_views(r@) == requested(request@),
{
    let lines = lines_of(request);
    assert(views(lines@).len() == lines@.len());
    let none: Vec<&'static str> = Vec::new();
    assert(str_views(none@) =~= seq![]);
    if lines.len() == 0 {
        return none;
    }
    assert(views(lines@)[0] == lines@[0]@);
    if !same_ignoring_case(&lines[0], "M-SEARCH * HTTP/1.1") {
        return none;
    }
    match header_value(request, "ST") {
        Some(name) => search_targets(&name),
        None => search_targets(&String::new()),
    }
}

/// Where the description of the renderer is found, at this address.
pub open spec fn location_at(ip: Ipv4, port: u16) -> Seq<char> {
    "http://"@ + ip.dotted() + ":"@ + decimal(port as nat) + "/device.xml"@
}

/// Where the description of the renderer is found, at this address.
pub fn location(ip: Ipv4, port: u16) -> (r: String)
    ensures
        r@ == location_at(ip, port),
{
    let mut s = "http://".to_owned();
    s.append(&ip.text());
    s.append(":");
    s.append(&decimal_text(port as u64));
    s.append("/device.xml");
    s
}

/// The answer to a search for a target.
pub open spec fn search_answer(
    location: Seq<char>,
    name: Seq<char>,
    target: Seq<char>,
    date: Seq<char>,
) -> Seq<char> {
    "HTTP/1.1 200 OK\r\nCACHE-CONTROL: max-age=1800\r\nEXT:\r\nLOCATION: "@ + location
        + "\r\nSERVER: "@ + name + "\r\nST: "@ + target + "\r\nUSN: "@ + service_name(target)
        + "\r\nDATE: "@ + date + "\r\n\r\n"@
}

/// The answer to a search for a target.
pub fn search_answer_text(location: &str, name: &str, target: &str, date: &str) -> (r: String)
    ensures
        r@ == search_answer(location@, name@, target@, date@),
{
    let mut s =
        "HTTP/1.1 200 OK\r\nCACHE-CONTROL: max-age=1800\r\nEXT:\r\nLOCATION: ".to_owned();
    s.append(location);
    s.append("\r\nSERVER: ");
    s.append(name);
    s.append("\r\nST: ");
    s.append(target);
    s.append("\r\nUSN: ");
    s.append(&usn(target));
    s.append("\r\nDATE: ");
    s.append(date);
    s.append("\r\n\r\n");
    s
}

/// The answers to a search for these targets.
pub open spec fn search_answers(
    location: Seq<char>,
    name: Seq<char>,
    targets: Seq<Seq<char>>,
    date: Seq<char>,
) -> Seq<Seq<char>> {
    Seq::new(targets.len(), |i: int| search_answer(location, name, targets[i], date))
}

/// The index of the first sender with this address.
pub open spec fn find_sender(senders: Seq<Ipv4>, ip: Ipv4, from: int) -> Option<int>
    decreases senders.len() - from,
{
    if from < 0 || from >= senders.len() {
        None
    } else if senders[from] == ip {
        Some(from)
    } else {
        find_sender(senders, ip, from + 1)
    }
}

/// The index of the sender whose address `peer` reaches this machine at.
pub open spec fn sender_for(
    senders: Seq<Ipv4>,
    ips: Seq<Ipv4>,
    peer: Option<Ipv4>,
) -> Option<int> {
    match matching_address(ips, peer) {
        Some(ip) => find_sender(senders, ip, 0),
        None => None,
    }
}

/// The index of the sender whose address `peer` reaches this machine at.
pub fn matched_sender(senders: &Vec<Ipv4>, ips: &Vec<Ipv4>, peer: Option<Ipv4>) -> (r: Option<
    usize,
>)
    ensures
        match r {
            Some(i) => sender_for(senders@, ips@, peer) == Some(i as int) && i < senders.len(),
            None => sender_for(senders@, ips@, peer) is None,
        },
{
    let ip = match find_matching_interface(ips, peer) {
        Some(ip) => ip,
        None => {
            return None;
        },
    };
    let mut i: usize = 0;
    while i < senders.len()
        invariant
            i <= senders.len(),
            matching_address(ips@, peer) == Some(ip),
            find_sender(senders@, ip, 0) == find_sender(senders@, ip, i as int),
        decreases senders.len() - i,
    {
        if senders[i] == ip {
            return Some(i);
        }
        i += 1;
    }
    None
}

/// How a search is answered.
#[derive(Debug)]
pub struct SearchReply {
    /// The sender that the answers go out by; where there is none they go out by the
    /// first sender, or by a new one.
    pub sender: Option<usize>,
    pub messages: Vec<String>,
}

/// Whether a reply is that to the message `request` of `peer`, at this date.
pub open spec fn replies_to(
    r: SearchReply,
    request: Seq<char>,
    peer: Option<Ipv4>,
    location: Seq<char>,
    name: Seq<char>,
    ips: Seq<Ipv4>,
    senders: Seq<Ipv4>,
    port: u16,
    date: Seq<char>,
) -> bool {
    let found = sender_for(senders, ips, peer);
    let place = match found {
        Some(i) => location_at(senders[i], port),
        None => location,
    };
    &&& match r.sender {
        Some(i) => found == Some(i as int),
        None => found is None,
    }
    &&& views(r.messages@) == search_answers(place, name, requested(request), date)
}

/// The reply to the message `request` of `peer`, at this date.
pub fn search_reply(
    request: &str,
    peer: Option<Ipv4>,
    default_location: &str,
    name: &str,
    ips: &Vec<Ipv4>,
    senders: &Vec<Ipv4>,
    port: u16,
    date: &str,
) -> (r: SearchReply)
    ensures
        replies_to(
            r,
            request@,
            peer,
            default_location@,
            name@,
            ips@,
            senders@,
            port,
            date@,
        ),
{
    let targets = requested_targets(request);
    let sender = matched_sender(senders, ips, peer);
    let place = match sender {
        Some(i) => location(senders[i], port),
        None => default_location.to_owned(),
    };
    let mut messages: Vec<String> = Vec::new();
    let mut i: usize = 0;
    let ghost all = search_answers(place@, name@, requested(request@), date@);
    assert(str_views(targets@).len() == targets@.len());
    assert(views(messages@) =~= all.take(0));
    while i < targets.len()
        invariant
            i <= targets.len(),
            targets.len() == all.len(),
            str_views(targets@) == requested(request@),
            all == search_answers(place@, name@, requested(request@), date@),
            views(messages@) == all.take(i as int),
        decreases targets.len() - i,
    {
        let ghost before = messages@;
        assert(str_views(targets@)[i as int] == targets@[i as int]@);
        messages.push(search_answer_text(&place, name, targets[i], date));
        assert(views(messages@) =~= views(before).push(all[i as int]));
        assert(all.take(i + 1) =~= all.take(i as int).push(all[i as int]));
        i += 1;
    }
    assert(all.take(all.len() as int) =~= all);
    SearchReply { sender, messages }
}

/// The reply to a packet of `peer`, at the current date. Which date that is depends
/// on the clock.
pub fn respond_to_search(
    data: &[u8],
    peer: Option<Ipv4>,
    default_location: &str,
    name: &str,
    ips: &Vec<Ipv4>,
    senders: &Vec<Ipv4>,
    port: u16,
) -> (r: SearchReply)
    ensures
        exists|secs: u64|
            replies_to(
                r,
                lossy_value(data@),
                peer,
                default_location@,
                name@,
                ips@,
                senders@,
                port,
                #[trigger] http_date(secs as int),
            ),
{
    let request = lossy_text(data);
    let date = timestamp_rfc1123();
    search_reply(&request, peer, default_location, name, ips, senders, port, &date)
}

// ---------------------------------------------------------------------------
// Announcements
// ---------------------------------------------------------------------------

/// The message that announces a target, or takes it back.
pub open spec fn announcement(
    target: Seq<char>,
    location: Seq<char>,
    name: Seq<char>,
    nts: Seq<char>,
    date: Seq<char>,
) -> Seq<char> {
    let head = "NOTIFY * HTTP/1.1\r\nHOST: 239.255.255.250:1900\r\nNT: "@ + target + "\r\nNTS: "@
        + nts + "\r\nUSN: "@ + service_name(target) + "\r\nSERVER: "@ + name + "\r\nDATE: "@ + date
        + "\r\n"@;
    if nts == "ssdp:alive"@ {
        head + "CACHE-CONTROL: max-age=1800\r\nLOCATION: "@ + location + "\r\n"@ + "\r\n"@
    } else {
        head + "\r\n"@
    }
}

/// The message that announces a target, or takes it back.
pub fn announcement_text(
    target: &str,
    location: &str,
    name: &str,
    nts: &str,
    date: &str,
) -> (r: String)
    ensures
        r@ == announcement(target@, location@, name@, nts@, date@),
{
    let mut s = "NOTIFY * HTTP/1.1\r\nHOST: 239.255.255.250:1900\r\nNT: ".to_owned();
    s.append(target);
    s.append("\r\nNTS: ");
    s.append(nts);
    s.append("\r\nUSN: ");
    s.append(&usn(target));
    s.append("\r\nSERVER: ");
    s.append(name);
    s.append("\r\nDATE: ");
    s.append(date);
    s.append("\r\n");
    if same_text(nts, "ssdp:alive") {
        s.append("CACHE-CONTROL: max-age=1800\r\nLOCATION: ");
        s.append(location);
        s.append("\r\n");
    }
    s.append("\r\n");
    s
}

/// How often each message of an announcement is sent.
pub open spec fn copies_of(nts: Seq<char>) -> u32 {
    if nts == "ssdp:alive"@ {
        2
    } else {
        1
    }
}

/// How often each message of an announcement is sent: twice while the renderer is
/// there, as packets get lost, and once when it leaves.
pub fn announcement_copies(nts: &str) -> (r: u32)
    ensures
        r == copies_of(nts@),
{
    if same_text(nts, "ssdp:alive") {
        2
    } else {
        1
    }
}

/// The messages of an announcement, one for each target.
pub open spec fn announcements(
    location: Seq<char>,
    name: Seq<char>,
    nts: Seq<char>,
    date: Seq<char>,
) -> Seq<Seq<char>> {
    Seq::new(6, |i: int| announcement(advertised()[i], location, name, nts, date))
}

/// The messages of an announcement at this date, one for each target.
pub fn announce_at(location: &str, name: &str, nts: &str, date: &str) -> (r: Vec<String>)
    ensures
        views(r@) == announcements(location@, name@, nts@, date@),
{
    let targets = advertised_targets();
    let mut messages: Vec<String> = Vec::new();
    let mut i: usize = 0;
    let ghost all = announcements(location@, name@, nts@, date@);
    assert(str_views(targets@).len() == 6);
    assert(views(messages@) =~= all.take(0));
    while i < targets.len()
        invariant
            i <= targets.len(),
            targets.len() == 6,
            str_views(targets@) == advertised(),
            all == announcements(location@, name@, nts@, date@),
            views(messages@) == all.take(i as int),
        decreases targets.len() - i,
    {
        let ghost before = messages@;
        assert(str_views(targets@)[i as int] == targets@[i as int]@);
        messages.push(announcement_text(targets[i], location, name, nts, date));
        assert(views(messages@) =~= views(before).push(all[i as int]));
        assert(all.take(i + 1) =~= all.take(i as int).push(all[i as int]));
        i += 1;
    }
    assert(all.take(6) =~= all);
    messages
}

/// The messages of an announcement at the current date. Which date that is depends
/// on the clock.
pub fn announce(location: &str, name: &str, nts: &str) -> (r: Vec<String>)
    ensures
        exists|secs: u64|
            views(r@) == announcements(
                location@,
                name@,
                nts@,
                #[trigger] http_date(secs as int),
            ),
{
    let date = timestamp_rfc1123();
    announce_at(location, name, nts, &date)
}

/// A search for an advertised target finds that target alone, in whatever case it is
/// written.
pub proof fn law_targets_find_themselves(i: int, name: Seq<char>)
    requires
        0 <= i < 6,
        lower(name) == lower(advertised()[i]),
    ensures
        searched(name) == seq![advertised()[i]],
{
    lemma_lower_names();
    assert(find_target(name, 0) == Some(i)) by {
        reveal_with_fuel(find_target, 7);
    }
}

/// The advertised names differ, in any case, from each other and from the two other
/// names that are searched for.
proof fn lemma_lower_names()
    ensures
        forall|i: int, j: int|
            0 <= i < j < 6 ==> lower(#[trigger] advertised()[i]) != lower(
                #[trigger] advertised()[j],
            ),
        forall|i: int|
            0 <= i < 6 ==> lower(#[trigger] advertised()[i]) != lower("ssdp:all"@) && lower(
                advertised()[i],
            ) != lower("urn:schemas-upnp-org:device:MediaRenderer:3"@),
{
    reveal_strlit("upnp:rootdevice");
    reveal_strlit("uuid:mini-mdr");
    reveal_strlit("urn:schemas-upnp-org:device:MediaRenderer:1");
    reveal_strlit("urn:schemas-upnp-org:device:MediaRenderer:3");
    reveal_strlit("urn:schemas-upnp-org:service:AVTransport:1");
    reveal_strlit("urn:schemas-upnp-org:service:RenderingControl:1");
    reveal_strlit("urn:schemas-upnp-org:service:ConnectionManager:1");
    reveal_strlit("ssdp:all");
    let root = lower("upnp:rootdevice"@);
    let udn = lower(UDN@);
    let device = lower(DEVICE_TYPE@);
    let newer = lower("urn:schemas-upnp-org:device:MediaRenderer:3"@);
    let av = lower("urn:schemas-upnp-org:service:AVTransport:1"@);
    let rc = lower("urn:schemas-upnp-org:service:RenderingControl:1"@);
    let cm = lower("urn:schemas-upnp-org:service:ConnectionManager:1"@);
    let all = lower("ssdp:all"@);
    assert(root.len() == 15 && udn.len() == 13 && device.len() == 43 && newer.len() == 43);
    assert(av.len() == 42 && rc.len() == 47 && cm.len() == 48 && all.len() == 8);
    assert(device[42] == '1' && newer[42] == '3');
    assert(device != newer);
}

/// What is done next for discovery.
#[derive(Clone, Copy, Debug, PartialEq, Eq, Structural)]
pub enum AnnounceAction {
    /// The renderer announces itself, as it starts.
    First,
    /// The renderer announces itself anew.
    Repeat,
    /// Searches are listened for.
    Listen,
    /// The renderer takes its leave.
    Farewell,
}

/// What is done next for discovery, where the renderer announced itself so often as it
/// started, and so many seconds ago the last time.
pub open spec fn next_announcement(
    sent_first: u32,
    since_last: u64,
    running: bool,
) -> AnnounceAction {
    if sent_first < FIRST_ANNOUNCEMENTS {
        AnnounceAction::First
    } else if since_last >= ANNOUNCE_INTERVAL {
        AnnounceAction::Repeat
    } else if running {
        AnnounceAction::Listen
    } else {
        AnnounceAction::Farewell
    }
}

/// What is done next for discovery, where the renderer announced itself so often as it
/// started, and so many seconds ago the last time. Its first announcements are made in
/// any case, and it takes its leave once it does not run any more.
pub fn announce_step(sent_first: u32, since_last: u64, running: bool) -> (r: AnnounceAction)
    ensures
        r == next_announcement(sent_first, since_last, running),
{
    if sent_first < FIRST_ANNOUNCEMENTS {
        AnnounceAction::First
    } else if since_last >= ANNOUNCE_INTERVAL {
        AnnounceAction::Repeat
    } else if running {
        AnnounceAction::Listen
    } else {
        AnnounceAction::Farewell
    }
}

} // verus!
