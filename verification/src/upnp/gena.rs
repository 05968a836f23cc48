//! Event subscriptions: who is told of changes, and what they are told.

use vstd::prelude::*;
use vstd::string::StringExecFns;
use crate::bytes::{byte_count, byte_len};
use crate::fields::{looked_up, pair_views};
use crate::http::{before, text_before, HttpRequest, HttpResponse, ResponseView};
use crate::net::{first_usable, usable_address, IpAddress};
use crate::number::{decimal, decimal_text, parse_uint, uint_value};
use crate::state::{RendererState, Span, StateView};
use crate::text::{
    begins_with, between, char_index, chars_of, find_char, opt_view, rsplit_once, rsplit_once_spec,
    same_text, starts_at, strip_prefix, strip_prefix_spec, trim_spec, trim_text, views,
};
use crate::upnp::action::{
    bit, bit_text, duration_text, escaped_address, escaped_uri, media_length, outcome, Outcome,
    Reply,
};
use crate::upnp::route::{plain, plain_response};
use crate::upnp::soap::{
    format_upnp_time, parse_timeout, time_text, timeout_value, EventService, UpnpError,
};
use crate::xml::{escape_xml, escape_xml_spec};

verus! {

/// The greatest length of a callback address, in bytes.
pub const MAX_CALLBACK_SIZE: usize = 512;

/// The greatest number of subscriptions.
pub const MAX_SUBSCRIPTIONS: usize = 64;

// ---------------------------------------------------------------------------
// Callback addresses
// ---------------------------------------------------------------------------

/// Where events are sent to.
#[derive(Debug)]
pub struct HttpTarget {
    /// The host as the address names it.
    pub host: String,
    /// The host and the port, to be resolved.
    pub socket: String,
    pub path: String,
}

/// A target with its texts as sequences of characters.
#[verifier::ext_equal]
pub struct TargetView {
    pub host: Seq<char>,
    pub socket: Seq<char>,
    pub path: Seq<char>,
}

impl View for HttpTarget {
    type V = TargetView;

    open spec fn view(&self) -> TargetView {
        TargetView { host: self.host@, socket: self.socket@, path: self.path@ }
    }
}

/// Whether a host is given with its port.
pub open spec fn names_port(host: Seq<char>) -> bool {
    match rsplit_once_spec(host, ':') {
        Some((_, port)) => uint_value(port, 10, u16::MAX as int) is Some,
        None => false,
    }
}

/// What stands behind the first `c`, with `c`.
pub open spec fn from_char(s: Seq<char>, c: char) -> Option<Seq<char>> {
    match find_char(s, c, 0) {
        Some(i) => Some(s.skip(i)),
        None => None,
    }
}

/// Where an HTTP address leads: the host stands before the first slash, the port
/// is 80 where none is given, and the path is `/` where none is given.
pub open spec fn target_of(url: Seq<char>) -> Option<TargetView> {
    match strip_prefix_spec(url, "http://"@) {
        None => None,
        Some(rest) => {
            let host = before(rest, '/');
            if host.len() == 0 {
                None
            } else {
                Some(
                    TargetView {
                        host,
                        socket: if names_port(host) {
                            host
                        } else {
                            host + ":80"@
                        },
                        path: match from_char(rest, '/') {
                            Some(path) => path,
                            None => "/"@,
                        },
                    },
                )
            }
        },
    }
}

/// The view of an optional target.
pub open spec fn target_view(t: Option<HttpTarget>) -> Option<TargetView> {
    match t {
        Some(target) => Some(target@),
        None => None,
    }
}

/// Where an HTTP address leads.
pub fn parse_http_url(url: &str) -> (r: Option<HttpTarget>)
    ensures
        target_view(r) == target_of(url@),
{
    let rest = match strip_prefix(url, "http://") {
        Some(rest) => rest,
        None => {
            return None;
        },
    };
    let host = text_before(&rest, '/');
    if host.as_str().is_empty() {
        return None;
    }
    let chars = chars_of(&rest);
    let path = match char_index(&chars, '/', 0) {
        Some(i) => {
            assert(chars@.subrange(i as int, chars@.len() as int) =~= rest@.skip(i as int));
            between(&chars, i, chars.len())
        },
        None => "/".to_owned(),
    };
    let with_port = match rsplit_once(&host, ':') {
        Some((_, port)) => parse_uint(&port, 10, u16::MAX as u64).is_some(),
        None => false,
    };
    let mut socket = host.clone();
    if !with_port {
        socket.append(":80");
    }
    Some(HttpTarget { host, socket, path })
}

// ---------------------------------------------------------------------------
// Subscriptions
// ---------------------------------------------------------------------------

/// A subscription to the events of a service.
#[derive(Debug)]
pub struct Subscription {
    pub sid: String,
    pub callback: String,
    pub service: EventService,
    /// When it ends, on the clock that all times here are read from.
    pub expires_at: Span,
    /// The number of the next event.
    pub sequence: u32,
}

/// A subscription with its texts as sequences of characters.
#[verifier::ext_equal]
pub struct SubscriptionView {
    pub sid: Seq<char>,
    pub callback: Seq<char>,
    pub service: EventService,
    pub expires_at: Span,
    pub sequence: u32,
}

impl View for Subscription {
    type V = SubscriptionView;

    open spec fn view(&self) -> SubscriptionView {
        SubscriptionView {
            sid: self.sid@,
            callback: self.callback@,
            service: self.service,
            expires_at: self.expires_at,
            sequence: self.sequence,
        }
    }
}

/// The subscriptions that there are.
#[derive(Debug)]
pub struct Subscriptions {
    entries: Vec<Subscription>,
}

/// The views of subscriptions.
pub open spec fn subscription_views(v: Seq<Subscription>) -> Seq<SubscriptionView> {
    Seq::new(v.len(), |i: int| v[i]@)
}

impl View for Subscriptions {
    type V = Seq<SubscriptionView>;

    closed spec fn view(&self) -> Seq<SubscriptionView> {
        subscription_views(self.entries@)
    }
}

/// Whether no two subscriptions have the same identifier and there are not too
/// many.
pub open spec fn orderly(subs: Seq<SubscriptionView>) -> bool {
    &&& subs.len() <= MAX_SUBSCRIPTIONS
    &&& forall|i: int, j: int|
        0 <= i < j < subs.len() ==> (#[trigger] subs[i]).sid != (#[trigger] subs[j]).sid
}

/// The index of the subscription with this identifier, from `from` on.
pub open spec fn find_sid(subs: Seq<SubscriptionView>, sid: Seq<char>, from: int) -> Option<int>
    decreases subs.len() - from,
{
    if from < 0 || from >= subs.len() {
        None
    } else if subs[from].sid == sid {
        Some(from)
    } else {
        find_sid(subs, sid, from + 1)
    }
}

/// `find_sid` finds a subscription with the identifier where there is one.
pub proof fn lemma_find_sid(subs: Seq<SubscriptionView>, sid: Seq<char>, from: int)
    requires
        0 <= from,
    ensures
        match find_sid(subs, sid, from) {
            Some(i) => from <= i < subs.len() && subs[i].sid == sid && forall|j: int|
                from <= j < i ==> (#[trigger] subs[j]).sid != sid,
            None => forall|j: int| from <= j < subs.len() ==> (#[trigger] subs[j]).sid != sid,
        },
    decreases subs.len() - from,
{
    if from < subs.len() && subs[from].sid != sid {
        lemma_find_sid(subs, sid, from + 1);
    }
}

/// The subscriptions after one was added, in the place of one with the same
/// identifier.
pub open spec fn with_subscription(
    subs: Seq<SubscriptionView>,
    sub: SubscriptionView,
) -> Seq<SubscriptionView> {
    match find_sid(subs, sub.sid, 0) {
        Some(i) => subs.update(i, sub),
        None => subs.push(sub),
    }
}

/// The subscriptions that have not ended at `now`.
pub open spec fn lasting(subs: Seq<SubscriptionView>, now: Span) -> Seq<SubscriptionView>
    decreases subs.len(),
{
    if subs.len() == 0 {
        seq![]
    } else {
        let rest = lasting(subs.drop_last(), now);
        if subs.last().expires_at.longer_than(now) {
            rest.push(subs.last())
        } else {
            rest
        }
    }
}

/// The identifiers of the subscriptions to a service.
pub open spec fn sids_of(subs: Seq<SubscriptionView>, service: EventService) -> Seq<Seq<char>>
    decreases subs.len(),
{
    if subs.len() == 0 {
        seq![]
    } else {
        let rest = sids_of(subs.drop_last(), service);
        if subs.last().service == service {
            rest.push(subs.last().sid)
        } else {
            rest
        }
    }
}

/// The subscriptions after an event of the one with this identifier: its next event
/// has the next number.
pub open spec fn after_event(subs: Seq<SubscriptionView>, sid: Seq<char>) -> Seq<SubscriptionView> {
    match find_sid(subs, sid, 0) {
        Some(i) => subs.update(
            i,
            SubscriptionView { sequence: next_number(subs[i].sequence), ..subs[i] },
        ),
        None => subs,
    }
}

/// An event to be sent.
#[derive(Debug)]
pub struct Notification {
    pub callback: String,
    pub sequence: u32,
    pub service: EventService,
}

impl Subscriptions {
    pub fn new() -> (r: Self)
        ensures
            r@ == Seq::<SubscriptionView>::empty(),
            orderly(r@),
    {
        let r = Subscriptions { entries: Vec::new() };
        assert(subscription_views(r.entries@) =~= Seq::empty());
        r
    }

    /// How many subscriptions there are.
    pub fn len(&self) -> (r: usize)
        ensures
            r == self@.len(),
    {
        self.entries.len()
    }

    fn position(&self, sid: &str) -> (r: Option<usize>)
        ensures
            match r {
                Some(i) => find_sid(self@, sid@, 0) == Some(i as int) && i < self@.len(),
                None => find_sid(self@, sid@, 0) is None,
            },
    {
        let mut i: usize = 0;
        while i < self.entries.len()
            invariant
                i <= self.entries.len(),
                find_sid(self@, sid@, 0) == find_sid(self@, sid@, i as int),
            decreases self.entries.len() - i,
        {
            assert(self@[i as int] == self.entries@[i as int]@);
            if same_text(&self.entries[i].sid, sid) {
                return Some(i);
            }
            i += 1;
        }
        None
    }

    /// Adds a subscription, in the place of one with the same identifier.
    pub fn insert(&mut self, sub: Subscription)
        requires
            orderly(old(self)@),
            old(self)@.len() < MAX_SUBSCRIPTIONS,
        ensures
            final(self)@ == with_subscription(old(self)@, sub@),
            orderly(final(self)@),
    {
        let ghost before = self.entries@;
        proof {
            lemma_find_sid(self@, sub@.sid, 0);
        }
        match self.position(&sub.sid) {
            Some(i) => {
                self.entries.set(i, sub);
                assert(subscription_views(self.entries@) =~= subscription_views(before).update(
                    i as int,
                    sub@,
                ));
            },
            None => {
                self.entries.push(sub);
                assert(subscription_views(self.entries@) =~= subscription_views(before).push(
                    sub@,
                ));
            },
        }
    }

    /// Drops the subscriptions that have ended, and says how many there were.
    pub fn remove_expired(&mut self, now: Span) -> (removed: usize)
        ensures
            final(self)@ == lasting(old(self)@, now),
            removed == old(self)@.len() - final(self)@.len(),
            orderly(old(self)@) ==> orderly(final(self)@),
    {
        let ghost all = self@;
        let ghost list = self.entries@;
        let mut i: usize = 0;
        let mut removed: usize = 0;
        let total: usize = self.entries.len();
        proof {
            assert(list.skip(0) =~= list);
            assert(lasting(all.take(0), now) =~= seq![]);
            assert(all.skip(0) =~= all);
            assert(lasting(all.take(0), now) + all.skip(0) =~= all);
        }
        while i < self.entries.len()
            invariant
                total == all.len(),
                i <= self.entries.len(),
                self.entries.len() + removed == total,
                self@ == lasting(all.take(i + removed), now) + all.skip(i + removed),
                lasting(all.take(i + removed), now).len() == i,
            decreases self.entries.len() - i,
        {
            let ghost seen = i + removed;
            proof {
                assert(all.take(seen + 1).drop_last() =~= all.take(seen));
                assert(all.take(seen + 1).last() == all[seen]);
                assert(self@[i as int] == all.skip(seen)[0]);
                assert(self@[i as int] == self.entries@[i as int]@);
            }
            if self.entries[i].expires_at.exceeds(now) {
                assert(self@ =~= lasting(all.take(seen + 1), now) + all.skip(seen + 1));
                i += 1;
            } else {
                let ghost current = self.entries@;
                let _ = self.entries.remove(i);
                removed += 1;
                assert(subscription_views(self.entries@) =~= subscription_views(current).remove(
                    i as int,
                ));
                assert(self@ =~= lasting(all.take(seen + 1), now) + all.skip(seen + 1));
            }
        }
        proof {
            assert(all.take(all.len() as int) =~= all);
            assert(all.skip(all.len() as int) =~= seq![]);
            assert(self@ =~= lasting(all, now));
            if orderly(all) {
                law_expiry_drops_what_ended(all, now);
            }
        }
        removed
    }

    /// The identifiers of the subscriptions to a service.
    pub fn subscribers_of(&self, service: EventService) -> (r: Vec<String>)
        ensures
            views(r@) == sids_of(self@, service),
    {
        let mut sids: Vec<String> = Vec::new();
        let mut i: usize = 0;
        assert(views(sids@) =~= sids_of(self@.take(0), service));
        while i < self.entries.len()
            invariant
                i <= self.entries.len(),
                views(sids@) == sids_of(self@.take(i as int), service),
            decreases self.entries.len() - i,
        {
            assert(self@.take(i + 1).drop_last() =~= self@.take(i as int));
            assert(self@.take(i + 1).last() == self.entries@[i as int]@);
            if self.entries[i].service == service {
                let ghost before = sids@;
                sids.push(self.entries[i].sid.clone());
                assert(views(sids@) =~= views(before).push(self.entries@[i as int].sid@));
            }
            i += 1;
        }
        assert(self@.take(self@.len() as int) =~= self@);
        sids
    }

    /// The next event of a subscription: it gets the next number.
    pub fn next_notification(&mut self, sid: &str) -> (r: Option<Notification>)
        ensures
            match find_sid(old(self)@, sid@, 0) {
                None => r is None,
                Some(i) => {
                    let sub = old(self)@[i];
                    &&& r matches Some(n)
                    &&& n.callback@ == sub.callback
                    &&& n.sequence == sub.sequence
                    &&& n.service == sub.service
                },
            },
            final(self)@ == after_event(old(self)@, sid@),
            orderly(old(self)@) ==> orderly(final(self)@),
    {
        match self.position(sid) {
            None => None,
            Some(i) => {
                let ghost before = self.entries@;
                let callback = self.entries[i].callback.clone();
                let sequence: u32 = self.entries[i].sequence;
                let service = self.entries[i].service;
                let next: u32 = if sequence == u32::MAX {
                    0
                } else {
                    sequence + 1
                };
                let sub = Subscription {
                    sid: self.entries[i].sid.clone(),
                    callback: self.entries[i].callback.clone(),
                    service,
                    expires_at: self.entries[i].expires_at,
                    sequence: next,
                };
                self.entries.set(i, sub);
                assert(subscription_views(self.entries@) =~= subscription_views(before).update(
                    i as int,
                    sub@,
                ));
                Some(Notification { callback, sequence, service })
            },
        }
    }

    /// Prolongs a subscription.
    fn renew(&mut self, i: usize, expires_at: Span)
        requires
            i < old(self)@.len(),
        ensures
            final(self)@ == old(self)@.update(
                i as int,
                SubscriptionView { expires_at, ..old(self)@[i as int] },
            ),
    {
        let ghost before = self.entries@;
        let sub = Subscription {
            sid: self.entries[i].sid.clone(),
            callback: self.entries[i].callback.clone(),
            service: self.entries[i].service,
            expires_at,
            sequence: self.entries[i].sequence,
        };
        self.entries.set(i, sub);
        assert(subscription_views(self.entries@) =~= subscription_views(before).update(
            i as int,
            sub@,
        ));
    }
}

/// The number after this one; after the greatest comes 0.
pub open spec fn next_number(n: u32) -> u32 {
    if n == u32::MAX {
        0
    } else {
        (n + 1) as u32
    }
}

/// Dropping what ended keeps all else, in order: what is left has not ended, and
/// each subscription that has not ended is left.
pub proof fn law_expiry_drops_what_ended(subs: Seq<SubscriptionView>, now: Span)
    ensures
        forall|i: int|
            0 <= i < lasting(subs, now).len() ==> (#[trigger] lasting(
                subs,
                now,
            )[i]).expires_at.longer_than(now) && subs.contains(lasting(subs, now)[i]),
        forall|i: int|
            0 <= i < subs.len() && (#[trigger] subs[i]).expires_at.longer_than(now) ==> lasting(
                subs,
                now,
            ).contains(subs[i]),
        orderly(subs) ==> orderly(lasting(subs, now)),
    decreases subs.len(),
{
    let left = lasting(subs, now);
    if subs.len() > 0 {
        let front = subs.drop_last();
        let rest = lasting(front, now);
        law_expiry_drops_what_ended(front, now);
        assert forall|i: int| 0 <= i < left.len() implies (
        #[trigger] left[i]).expires_at.longer_than(now) && subs.contains(left[i]) by {
            if i < rest.len() {
                assert(left[i] == rest[i]);
                let j = choose|j: int| 0 <= j < front.len() && front[j] == rest[i];
                assert(subs[j] == left[i]);
            } else {
                assert(left[i] == subs[subs.len() - 1]);
            }
        }
        assert forall|i: int|
            0 <= i < subs.len() && (#[trigger] subs[i]).expires_at.longer_than(
                now,
            ) implies left.contains(subs[i]) by {
            if i < front.len() {
                assert(front[i] == subs[i]);
                let j = choose|j: int| 0 <= j < rest.len() && rest[j] == front[i];
                assert(left[j] == subs[i]);
            } else {
                assert(left[left.len() - 1] == subs[i]);
            }
        }
        if orderly(subs) {
            assert(orderly(front)) by {
                assert forall|i: int, j: int| 0 <= i < j < front.len() implies (
                #[trigger] front[i]).sid != (#[trigger] front[j]).sid by {
                    assert(front[i] == subs[i] && front[j] == subs[j]);
                }
            }
            assert(rest.len() <= front.len()) by {
                lemma_lasting_is_no_longer(front, now);
            }
            assert forall|i: int, j: int| 0 <= i < j < left.len() implies (
            #[trigger] left[i]).sid != (#[trigger] left[j]).sid by {
                assert(left[i] == rest[i]);
                if j < rest.len() {
                    assert(left[j] == rest[j]);
                } else {
                    let k = choose|k: int| 0 <= k < front.len() && front[k] == rest[i];
                    assert(subs[k] == rest[i]);
                    assert(left[j] == subs[subs.len() - 1]);
                }
            }
        }
    }
}

proof fn lemma_lasting_is_no_longer(subs: Seq<SubscriptionView>, now: Span)
    ensures
        lasting(subs, now).len() <= subs.len(),
    decreases subs.len(),
{
    if subs.len() > 0 {
        lemma_lasting_is_no_longer(subs.drop_last(), now);
    }
}

// ---------------------------------------------------------------------------
// Subscribing
// ---------------------------------------------------------------------------

/// The answer to a request that a subscription was granted for.
pub open spec fn granted(sid: Seq<char>, timeout: u64) -> ResponseView {
    ResponseView {
        status: "200 OK"@,
        content_type: "text/plain"@,
        headers: seq![("SID"@, sid), ("TIMEOUT"@, "Second-"@ + decimal(timeout as nat))],
        body: Seq::empty(),
    }
}

/// The answer to a request that a subscription was granted for.
pub fn subscription_response(sid: &str, timeout: u64) -> (r: HttpResponse)
    ensures
        r@ == granted(sid@, timeout),
{
    let mut length = "Second-".to_owned();
    length.append(&decimal_text(timeout));
    let mut headers: Vec<(String, String)> = Vec::new();
    headers.push(("SID".to_owned(), sid.to_owned()));
    headers.push(("TIMEOUT".to_owned(), length));
    let r = HttpResponse {
        status: "200 OK",
        content_type: "text/plain",
        headers,
        body: String::new(),
    };
    assert(pair_views(r.headers@) =~= granted(sid@, timeout).headers);
    r
}

/// The answer to a request that does not meet a condition.
pub open spec fn refused(reason: Seq<char>) -> ResponseView {
    plain("412 Precondition Failed"@, reason)
}

/// What stands between angle brackets.
pub open spec fn bracketed(s: Seq<char>) -> Option<Seq<char>> {
    if s.len() >= 2 && s[0] == '<' && s.last() == '>' {
        Some(s.subrange(1, s.len() - 1))
    } else {
        None
    }
}

fn inside_brackets(s: &str) -> (r: Option<String>)
    ensures
        opt_view(r) == bracketed(s@),
{
    let chars = chars_of(s);
    let n: usize = chars.len();
    if n >= 2 && chars[0] == '<' && chars[n - 1] == '>' {
        Some(between(&chars, 1, n - 1))
    } else {
        None
    }
}

/// How a request to subscribe goes on.
#[derive(Debug)]
pub enum SubscribeStep {
    /// With this answer.
    Answer(HttpResponse),
    /// With the resolution of the host of this callback address.
    Resolve { callback: String, socket: String, timeout: u64 },
}

/// A step with its texts as sequences of characters.
#[verifier::ext_equal]
pub enum SubscribeView {
    Answer(ResponseView),
    Resolve { callback: Seq<char>, socket: Seq<char>, timeout: u64 },
}

impl View for SubscribeStep {
    type V = SubscribeView;

    open spec fn view(&self) -> SubscribeView {
        match self {
            SubscribeStep::Answer(response) => SubscribeView::Answer(response@),
            SubscribeStep::Resolve { callback, socket, timeout } => SubscribeView::Resolve {
                callback: callback@,
                socket: socket@,
                timeout: *timeout,
            },
        }
    }
}

/// How a request for a new subscription with this callback address goes on.
pub open spec fn begin_new(headers: Map<Seq<char>, Seq<char>>, timeout: u64) -> SubscribeView {
    if looked_up(headers, "nt"@) != Some("upnp:event"@) {
        SubscribeView::Answer(refused("NT must be upnp:event\n"@))
    } else {
        let callback = match looked_up(headers, "callback"@) {
            Some(value) => bracketed(trim_spec(value)),
            None => None,
        };
        match callback {
            None => SubscribeView::Answer(refused("CALLBACK is required\n"@)),
            Some(url) => if !starts_at(url, "http://"@, 0) {
                SubscribeView::Answer(refused("only HTTP callbacks are supported\n"@))
            } else if byte_len(url) > MAX_CALLBACK_SIZE {
                SubscribeView::Answer(refused("CALLBACK is too long\n"@))
            } else {
                match target_of(url) {
                    None => SubscribeView::Answer(refused("CALLBACK is not usable\n"@)),
                    Some(target) => SubscribeView::Resolve {
                        callback: url,
                        socket: target.socket,
                        timeout,
                    },
                }
            },
        }
    }
}

fn start_new(request: &HttpRequest, timeout: u64) -> (r: SubscribeStep)
    ensures
        r@ == begin_new(request.headers@, timeout),
{
    let fitting = match request.headers.get("nt") {
        Some(nt) => same_text(nt, "upnp:event"),
        None => false,
    };
    if !fitting {
        return SubscribeStep::Answer(
            plain_response("412 Precondition Failed", "NT must be upnp:event\n"),
        );
    }
    let bracketed_callback = match request.headers.get("callback") {
        Some(value) => inside_brackets(&trim_text(value)),
        None => None,
    };
    let callback = match bracketed_callback {
        Some(callback) => callback,
        None => {
            return SubscribeStep::Answer(
                plain_response("412 Precondition Failed", "CALLBACK is required\n"),
            );
        },
    };
    if !begins_with(&callback, "http://") {
        return SubscribeStep::Answer(
            plain_response("412 Precondition Failed", "only HTTP callbacks are supported\n"),
        );
    }
    if byte_count(&callback) > MAX_CALLBACK_SIZE {
        return SubscribeStep::Answer(
            plain_response("412 Precondition Failed", "CALLBACK is too long\n"),
        );
    }
    match parse_http_url(&callback) {
        None => SubscribeStep::Answer(
            plain_response("412 Precondition Failed", "CALLBACK is not usable\n"),
        ),
        Some(target) => SubscribeStep::Resolve { callback, socket: target.socket, timeout },
    }
}

/// The end of a subscription that is granted `timeout` seconds at `now`.
pub open spec fn end_of(now: Span, timeout: u64) -> Span {
    Span { secs: (now.secs + timeout) as u64, nanos: now.nanos }
}

/// How a request to subscribe to a service goes on: with a `SID` header it prolongs
/// a subscription to that service, without one it asks for a new subscription.
pub open spec fn begin_subscribe(
    headers: Map<Seq<char>, Seq<char>>,
    service: EventService,
    now: Span,
    subs: Seq<SubscriptionView>,
) -> (SubscribeView, Seq<SubscriptionView>) {
    let timeout = timeout_value(looked_up(headers, "timeout"@));
    match looked_up(headers, "sid"@) {
        Some(sid) => match find_sid(subs, sid, 0) {
            None => (SubscribeView::Answer(refused("unknown SID\n"@)), subs),
            Some(i) => if subs[i].service != service {
                (SubscribeView::Answer(refused("SID does not match this service\n"@)), subs)
            } else {
                (
                    SubscribeView::Answer(granted(sid, timeout)),
                    subs.update(
                        i,
                        SubscriptionView { expires_at: end_of(now, timeout), ..subs[i] },
                    ),
                )
            },
        },
        None => (begin_new(headers, timeout), subs),
    }
}

/// Begins a request to subscribe to a service.
pub fn start_subscribe(
    request: &HttpRequest,
    service: EventService,
    now: Span,
    subscriptions: &mut Subscriptions,
) -> (r: SubscribeStep)
    requires
        now.secs <= u64::MAX - 86400,
    ensures
        (r@, final(subscriptions)@) == begin_subscribe(
            request.headers@,
            service,
            now,
            old(subscriptions)@,
        ),
        r matches SubscribeStep::Resolve { callback, socket, timeout } ==> timeout <= 86400,
        orderly(old(subscriptions)@) ==> orderly(final(subscriptions)@),
{
    let timeout: u64 = parse_timeout(request.headers.get("timeout"));
    let sid = match request.headers.get("sid") {
        Some(sid) => sid,
        None => {
            return start_new(request, timeout);
        },
    };
    match subscriptions.position(sid) {
        None => SubscribeStep::Answer(plain_response("412 Precondition Failed", "unknown SID\n")),
        Some(i) => {
            assert(subscriptions@[i as int] == subscriptions.entries@[i as int]@);
            if subscriptions.entries[i].service != service {
                return SubscribeStep::Answer(
                    plain_response("412 Precondition Failed", "SID does not match this service\n"),
                );
            }
            subscriptions.renew(i, Span { secs: now.secs + timeout, nanos: now.nanos });
            SubscribeStep::Answer(subscription_response(sid, timeout))
        },
    }
}

/// How a request for a new subscription ends, where the host of its callback
/// address resolved to `addresses`, or did not resolve.
pub open spec fn end_subscribe(
    addresses: Option<Seq<IpAddress>>,
    sub: SubscriptionView,
    timeout: u64,
    subs: Seq<SubscriptionView>,
) -> (ResponseView, Seq<SubscriptionView>) {
    let usable = match addresses {
        Some(addresses) => first_usable(addresses) is Some,
        None => false,
    };
    if !usable {
        (refused("CALLBACK is not usable\n"@), subs)
    } else if subs.len() >= MAX_SUBSCRIPTIONS {
        (plain("503 Service Unavailable"@, "subscription limit reached\n"@), subs)
    } else {
        (granted(sub.sid, timeout), with_subscription(subs, sub))
    }
}

/// Ends a request for a new subscription with the identifier `sid`. `addresses` is
/// what the host of the callback address resolved to. Says whether there is a new
/// subscription, which then is due its first event.
pub fn finish_subscribe(
    addresses: Option<&Vec<IpAddress>>,
    callback: String,
    service: EventService,
    sid: &str,
    timeout: u64,
    now: Span,
    subscriptions: &mut Subscriptions,
) -> (r: (HttpResponse, bool))
    requires
        orderly(old(subscriptions)@),
        now.secs + timeout <= u64::MAX,
    ensures
        ({
            let sub = SubscriptionView {
                sid: sid@,
                callback: callback@,
                service,
                expires_at: end_of(now, timeout),
                sequence: 0,
            };
            let seen = match addresses {
                Some(addresses) => Some(addresses@),
                None => None,
            };
            (r.0@, final(subscriptions)@) == end_subscribe(seen, sub, timeout, old(subscriptions)@)
        }),
        r.1 == (r.0@ == granted(sid@, timeout)),
        orderly(final(subscriptions)@),
{
    proof {
        lemma_statuses_differ(sid@, timeout);
    }
    let usable = match addresses {
        Some(addresses) => usable_address(addresses).is_some(),
        None => false,
    };
    if !usable {
        return (plain_response("412 Precondition Failed", "CALLBACK is not usable\n"), false);
    }
    if subscriptions.len() >= MAX_SUBSCRIPTIONS {
        return (plain_response("503 Service Unavailable", "subscription limit reached\n"), false);
    }
    subscriptions.insert(
        Subscription {
            sid: sid.to_owned(),
            callback,
            service,
            expires_at: Span { secs: now.secs + timeout, nanos: now.nanos },
            sequence: 0,
        },
    );
    (subscription_response(sid, timeout), true)
}

/// A refusal is not mistaken for a grant.
proof fn lemma_statuses_differ(sid: Seq<char>, timeout: u64)
    ensures
        granted(sid, timeout) != refused("CALLBACK is not usable\n"@),
        granted(sid, timeout) != plain(
            "503 Service Unavailable"@,
            "subscription limit reached\n"@,
        ),
{
    reveal_strlit("200 OK");
    reveal_strlit("412 Precondition Failed");
    reveal_strlit("503 Service Unavailable");
    assert("200 OK"@[0] == '2');
    assert("412 Precondition Failed"@[0] == '4');
    assert("503 Service Unavailable"@[0] == '5');
}

/// How a request to end a subscription to a service is answered.
pub open spec fn unsubscribed(
    headers: Map<Seq<char>, Seq<char>>,
    service: EventService,
    subs: Seq<SubscriptionView>,
) -> (ResponseView, Seq<SubscriptionView>) {
    match looked_up(headers, "sid"@) {
        None => (refused("SID is required\n"@), subs),
        Some(sid) => match find_sid(subs, sid, 0) {
            Some(i) => if subs[i].service == service {
                (
                    ResponseView {
                        status: "200 OK"@,
                        content_type: "text/plain"@,
                        headers: Seq::empty(),
                        body: Seq::empty(),
                    },
                    subs.remove(i),
                )
            } else {
                (refused("unknown SID\n"@), subs)
            },
            None => (refused("unknown SID\n"@), subs),
        },
    }
}

/// Ends a subscription to a service.
pub fn unsubscribe(
    request: &HttpRequest,
    service: EventService,
    subscriptions: &mut Subscriptions,
) -> (r: HttpResponse)
    ensures
        (r@, final(subscriptions)@) == unsubscribed(
            request.headers@,
            service,
            old(subscriptions)@,
        ),
        orderly(old(subscriptions)@) ==> orderly(final(subscriptions)@),
{
    let sid = match request.headers.get("sid") {
        Some(sid) => sid,
        None => {
            return plain_response("412 Precondition Failed", "SID is required\n");
        },
    };
    match subscriptions.position(sid) {
        Some(i) => {
            assert(subscriptions@[i as int] == subscriptions.entries@[i as int]@);
            if subscriptions.entries[i].service != service {
                return plain_response("412 Precondition Failed", "unknown SID\n");
            }
            let ghost before = subscriptions.entries@;
            let _ = subscriptions.entries.remove(i);
            assert(subscription_views(subscriptions.entries@) =~= subscription_views(
                before,
            ).remove(i as int));
            let r = HttpResponse {
                status: "200 OK",
                content_type: "text/plain",
                headers: Vec::new(),
                body: String::new(),
            };
            assert(pair_views(r.headers@) =~= Seq::empty());
            r
        },
        None => plain_response("412 Precondition Failed", "unknown SID\n"),
    }
}

// ---------------------------------------------------------------------------
// Events
// ---------------------------------------------------------------------------

/// The property `LastChange` with this value.
pub open spec fn last_change(event: Seq<char>) -> Seq<char> {
    "<e:property><LastChange>"@ + escape_xml_spec(event) + "</LastChange></e:property>"@
}

/// What an event of AVTransport tells.
pub open spec fn transport_event(s: StateView) -> Seq<char> {
    "<Event xmlns=\"urn:schemas-upnp-org:metadata-1-0/AVT/\"><InstanceID val=\"0\"><TransportState val=\""@
        + s.transport.name() + "\"/><CurrentTrackURI val=\""@ + escaped_uri(s)
        + "\"/><RelativeTimePosition val=\""@ + time_text(s.position)
        + "\"/><CurrentTrackDuration val=\""@ + duration_text(s) + "\"/></InstanceID></Event>"@
}

/// What an event of RenderingControl tells.
pub open spec fn rendering_event(s: StateView) -> Seq<char> {
    "<Event xmlns=\"urn:schemas-upnp-org:metadata-1-0/RCS/\"><InstanceID val=\"0\"><Volume channel=\"Master\" val=\""@
        + decimal(s.volume as nat) + "\"/><Mute channel=\"Master\" val=\""@ + bit(s.muted)
        + "\"/></InstanceID></Event>"@
}

/// The properties in an event of a service.
pub open spec fn properties(service: EventService, s: StateView, sink: Seq<char>) -> Seq<char> {
    match service {
        EventService::AvTransport => last_change(transport_event(s)),
        EventService::RenderingControl => last_change(rendering_event(s)),
        EventService::ConnectionManager => "<e:property><SourceProtocolInfo></SourceProtocolInfo></e:property><e:property><SinkProtocolInfo>"@
            + escape_xml_spec(sink)
            + "</SinkProtocolInfo></e:property><e:property><CurrentConnectionIDs>0</CurrentConnectionIDs></e:property>"@,
    }
}

/// The body of an event of a service.
pub open spec fn event_text(service: EventService, s: StateView, sink: Seq<char>) -> Seq<char> {
    "<?xml version=\"1.0\"?><e:propertyset xmlns:e=\"urn:schemas-upnp-org:event-1-0\">"@
        + properties(service, s, sink) + "</e:propertyset>"@
}

fn last_change_text(event: &str) -> (r: String)
    ensures
        r@ == last_change(event@),
{
    let mut s = "<e:property><LastChange>".to_owned();
    s.append(&escape_xml(event));
    s.append("</LastChange></e:property>");
    s
}

fn properties_text(service: EventService, state: &RendererState, sink: &str) -> (r: String)
    ensures
        r@ == properties(service, state@, sink@),
{
    match service {
        EventService::AvTransport => {
            let mut s =
                "<Event xmlns=\"urn:schemas-upnp-org:metadata-1-0/AVT/\"><InstanceID val=\"0\"><TransportState val=\"".to_owned();
            s.append(state.transport.upnp_value());
            s.append("\"/><CurrentTrackURI val=\"");
            s.append(&escaped_address(state));
            s.append("\"/><RelativeTimePosition val=\"");
            s.append(&format_upnp_time(state.position));
            s.append("\"/><CurrentTrackDuration val=\"");
            s.append(&media_length(state));
            s.append("\"/></InstanceID></Event>");
            last_change_text(&s)
        },
        EventService::RenderingControl => {
            let mut s =
                "<Event xmlns=\"urn:schemas-upnp-org:metadata-1-0/RCS/\"><InstanceID val=\"0\"><Volume channel=\"Master\" val=\"".to_owned();
            s.append(&decimal_text(state.volume as u64));
            s.append("\"/><Mute channel=\"Master\" val=\"");
            s.append(bit_text(state.muted));
            s.append("\"/></InstanceID></Event>");
            last_change_text(&s)
        },
        EventService::ConnectionManager => {
            let mut s =
                "<e:property><SourceProtocolInfo></SourceProtocolInfo></e:property><e:property><SinkProtocolInfo>".to_owned();
            s.append(&escape_xml(sink));
            s.append(
                "</SinkProtocolInfo></e:property><e:property><CurrentConnectionIDs>0</CurrentConnectionIDs></e:property>",
            );
            s
        },
    }
}

/// The body of an event of a service.
pub fn event_body(service: EventService, state: &RendererState, sink: &str) -> (r: String)
    ensures
        r@ == event_text(service, state@, sink@),
{
    let mut s =
        "<?xml version=\"1.0\"?><e:propertyset xmlns:e=\"urn:schemas-upnp-org:event-1-0\">".to_owned();
    s.append(&properties_text(service, state, sink));
    s.append("</e:propertyset>");
    s
}

/// The request that tells a subscriber of an event.
pub open spec fn notify_text(
    target: TargetView,
    sid: Seq<char>,
    sequence: u32,
    body: Seq<char>,
) -> Seq<char> {
    "NOTIFY "@ + target.path + " HTTP/1.1\r\nHOST: "@ + target.host
        + "\r\nCONTENT-TYPE: text/xml; charset=utf-8\r\nNT: upnp:event\r\nNTS: upnp:propchange\r\nSID: "@
        + sid + "\r\nSEQ: "@ + decimal(sequence as nat) + "\r\nCONTENT-LENGTH: "@ + decimal(
        byte_len(body),
    ) + "\r\nCONNECTION: close\r\n\r\n"@ + body
}

/// The request that tells a subscriber of an event.
pub fn notify_request(target: &HttpTarget, sid: &str, sequence: u32, body: &str) -> (r: String)
    ensures
        r@ == notify_text(target@, sid@, sequence, body@),
{
    let mut s = "NOTIFY ".to_owned();
    s.append(&target.path);
    s.append(" HTTP/1.1\r\nHOST: ");
    s.append(&target.host);
    s.append(
        "\r\nCONTENT-TYPE: text/xml; charset=utf-8\r\nNT: upnp:event\r\nNTS: upnp:propchange\r\nSID: ",
    );
    s.append(sid);
    s.append("\r\nSEQ: ");
    s.append(&decimal_text(sequence as u64));
    s.append("\r\nCONTENT-LENGTH: ");
    s.append(&decimal_text(byte_count(body) as u64));
    s.append("\r\nCONNECTION: close\r\n\r\n");
    s.append(body);
    s
}

/// The subscriptions that are due an event after an action of a service: all to that
/// service where the action changed something, otherwise none.
pub open spec fn due(
    o: Outcome,
    service: EventService,
    subs: Seq<SubscriptionView>,
) -> Seq<Seq<char>> {
    match o {
        Ok((_, changed)) => if changed {
            sids_of(subs, service)
        } else {
            seq![]
        },
        Err(_) => seq![],
    }
}

/// The subscriptions that are due an event after an action of a service.
pub fn to_notify(
    result: &Result<Reply, UpnpError>,
    service: EventService,
    subscriptions: &Subscriptions,
) -> (r: Vec<String>)
    ensures
        views(r@) == due(outcome(*result), service, subscriptions@),
{
    let changed = match result {
        Ok(reply) => reply.changed,
        Err(_) => false,
    };
    if changed {
        subscriptions.subscribers_of(service)
    } else {
        let none: Vec<String> = Vec::new();
        assert(views(none@) =~= seq![]);
        none
    }
}

// ---------------------------------------------------------------------------
// Laws
// ---------------------------------------------------------------------------

/// A subscription can be prolonged only at the service that it is for: anywhere else
/// the request is refused and nothing changes.
pub proof fn law_renewal_only_at_own_service(
    headers: Map<Seq<char>, Seq<char>>,
    service: EventService,
    now: Span,
    subs: Seq<SubscriptionView>,
)
    requires
        looked_up(headers, "sid"@) matches Some(sid) && (find_sid(subs, sid, 0) matches Some(i)
            ==> subs[i].service != service),
    ensures
        begin_subscribe(headers, service, now, subs).1 == subs,
        begin_subscribe(headers, service, now, subs).0 matches SubscribeView::Answer(r)
            && r.status == "412 Precondition Failed"@,
{
}

/// Prolonging a subscription changes nothing but when it ends.
pub proof fn law_renewal_changes_the_end_alone(
    headers: Map<Seq<char>, Seq<char>>,
    service: EventService,
    now: Span,
    subs: Seq<SubscriptionView>,
    i: int,
)
    requires
        0 <= i < subs.len(),
    ensures
        ({
            let after = begin_subscribe(headers, service, now, subs).1;
            &&& after.len() == subs.len()
            &&& after[i] == SubscriptionView { expires_at: after[i].expires_at, ..subs[i] }
        }),
{
    if let Some(sid) = looked_up(headers, "sid"@) {
        lemma_find_sid(subs, sid, 0);
    }
}

/// A new subscription that is granted and then ended leaves the others as they
/// were.
pub proof fn law_subscribe_then_unsubscribe(
    addresses: Option<Seq<IpAddress>>,
    sub: SubscriptionView,
    timeout: u64,
    headers: Map<Seq<char>, Seq<char>>,
    subs: Seq<SubscriptionView>,
)
    requires
        orderly(subs),
        find_sid(subs, sub.sid, 0) is None,
        end_subscribe(addresses, sub, timeout, subs).0 == granted(sub.sid, timeout),
        looked_up(headers, "sid"@) == Some(sub.sid),
    ensures
        ({
            let after = end_subscribe(addresses, sub, timeout, subs).1;
            &&& after == subs.push(sub)
            &&& unsubscribed(headers, sub.service, after).0.status == "200 OK"@
            &&& unsubscribed(headers, sub.service, after).1 == subs
        }),
{
    lemma_statuses_differ(sub.sid, timeout);
    let after = end_subscribe(addresses, sub, timeout, subs).1;
    assert(after == subs.push(sub));
    lemma_find_sid(subs, sub.sid, 0);
    lemma_find_sid(after, sub.sid, 0);
    assert(after[subs.len() as int] == sub);
    let i = find_sid(after, sub.sid, 0)->0;
    assert(i == subs.len()) by {
        if i < subs.len() {
            assert(after[i] == subs[i]);
        }
    }
    assert(after.remove(i) =~= subs);
}

/// No request for a new subscription takes the number of subscriptions beyond the
/// limit, and at the limit none is granted.
pub proof fn law_subscription_limit(
    addresses: Option<Seq<IpAddress>>,
    sub: SubscriptionView,
    timeout: u64,
    subs: Seq<SubscriptionView>,
)
    requires
        orderly(subs),
    ensures
        end_subscribe(addresses, sub, timeout, subs).1.len() <= MAX_SUBSCRIPTIONS,
        subs.len() == MAX_SUBSCRIPTIONS ==> end_subscribe(addresses, sub, timeout, subs).1 == subs,
{
    lemma_find_sid(subs, sub.sid, 0);
}

/// The events of a subscription are numbered one after the other, and an event of one
/// subscription leaves the numbers of the others alone.
pub proof fn law_events_are_numbered(
    subs: Seq<SubscriptionView>,
    sid: Seq<char>,
    i: int,
)
    requires
        orderly(subs),
        0 <= i < subs.len(),
    ensures
        ({
            let after = after_event(subs, sid);
            &&& orderly(after)
            &&& after.len() == subs.len()
            &&& after[i] == SubscriptionView {
                sequence: if subs[i].sid == sid {
                    next_number(subs[i].sequence)
                } else {
                    subs[i].sequence
                },
                ..subs[i]
            }
        }),
{
    lemma_find_sid(subs, sid, 0);
}

/// How a request to subscribe is answered from begin to end, and what it makes of the
/// subscriptions. `addresses` is what the host of its callback address resolves to, and
/// `sid` the identifier that a new subscription gets.
pub open spec fn subscribed(
    headers: Map<Seq<char>, Seq<char>>,
    service: EventService,
    now: Span,
    addresses: Option<Seq<IpAddress>>,
    sid: Seq<char>,
    subs: Seq<SubscriptionView>,
) -> (ResponseView, Seq<SubscriptionView>) {
    match begin_subscribe(headers, service, now, subs) {
        (SubscribeView::Answer(response), after) => (response, after),
        (SubscribeView::Resolve { callback, socket, timeout }, after) => end_subscribe(
            addresses,
            SubscriptionView {
                sid,
                callback,
                service,
                expires_at: end_of(now, timeout),
                sequence: 0,
            },
            timeout,
            after,
        ),
    }
}

/// Of a whole request to subscribe, with an identifier that is not in use: the
/// subscriptions stay in order and within their limit, and it does one of three things. It
/// is refused and changes nothing; or it names a subscription to this service and moves
/// its end alone; or it adds one new subscription behind the others, which is told of events
/// at the address between the brackets of the request's `CALLBACK` header.
pub proof fn law_whole_subscribe_request(
    headers: Map<Seq<char>, Seq<char>>,
    service: EventService,
    now: Span,
    addresses: Option<Seq<IpAddress>>,
    sid: Seq<char>,
    subs: Seq<SubscriptionView>,
)
    requires
        orderly(subs),
        find_sid(subs, sid, 0) is None,
    ensures
        ({
            let (response, after) = subscribed(headers, service, now, addresses, sid, subs);
            let timeout = timeout_value(looked_up(headers, "timeout"@));
            &&& orderly(after)
            &&& after.len() <= MAX_SUBSCRIPTIONS
            &&& {
                ||| response.status != "200 OK"@ && after == subs
                ||| exists|i: int|
                    {
                        &&& 0 <= i < subs.len()
                        &&& looked_up(headers, "sid"@) == Some((#[trigger] subs[i]).sid)
                        &&& subs[i].service == service
                        &&& response == granted(subs[i].sid, timeout)
                        &&& after == subs.update(
                            i,
                            SubscriptionView { expires_at: end_of(now, timeout), ..subs[i] },
                        )
                    }
                ||| {
                    &&& looked_up(headers, "sid"@) is None
                    &&& looked_up(headers, "nt"@) == Some("upnp:event"@)
                    &&& addresses is Some && first_usable(addresses->0) is Some
                    &&& response == granted(sid, timeout)
                    &&& after.len() == subs.len() + 1
                    &&& after.drop_last() == subs
                    &&& after.last().sid == sid
                    &&& looked_up(headers, "callback"@) is Some
                    &&& bracketed(trim_spec(looked_up(headers, "callback"@)->0)) == Some(
                        after.last().callback,
                    )
                    &&& starts_at(after.last().callback, "http://"@, 0)
                    &&& after.last().service == service
                    &&& after.last().expires_at == end_of(now, timeout)
                    &&& after.last().sequence == 0
                }
            }
        }),
{
    reveal_strlit("200 OK");
    reveal_strlit("412 Precondition Failed");
    reveal_strlit("503 Service Unavailable");
    assert("200 OK"@[0] == '2');
    assert("412 Precondition Failed"@[0] == '4');
    assert("503 Service Unavailable"@[0] == '5');
    let (response, after) = subscribed(headers, service, now, addresses, sid, subs);
    lemma_find_sid(subs, sid, 0);
    match looked_up(headers, "sid"@) {
        Some(given) => {
            lemma_find_sid(subs, given, 0);
        },
        None => {
            if after.len() > subs.len() {
                assert(after.drop_last() =~= subs);
            }
        },
    }
}

} // verus!
