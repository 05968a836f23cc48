//! What open settings pages are told.

use vstd::prelude::*;
use vstd::string::StringExecFns;
use crate::clock::LocalTime;
use crate::json::{
    json_bool, json_bool_text, json_literal, json_string, law_json_string_is_one_line,
    lemma_one_line_bool, lemma_one_line_joined, one_line,
};
use crate::state::{copy_text, entry_time, HistoryEntry};
use crate::text::{opt_view, views};

verus! {

// ---------------------------------------------------------------------------
// Subscribers
// ---------------------------------------------------------------------------

/// Something that open settings pages are told.
#[derive(Clone, Debug)]
pub enum SettingsEvent {
    Status { running: bool, address: Option<String> },
    History(String),
}

/// An event with its texts as sequences of characters.
#[verifier::ext_equal]
pub enum EventView {
    Status { running: bool, address: Option<Seq<char>> },
    History(Seq<char>),
}

impl View for SettingsEvent {
    type V = EventView;

    open spec fn view(&self) -> EventView {
        match self {
            SettingsEvent::Status { running, address } => EventView::Status {
                running: *running,
                address: opt_view(*address),
            },
            SettingsEvent::History(payload) => EventView::History(payload@),
        }
    }
}

/// An open settings page, and what it is still to be told.
#[derive(Debug)]
pub struct Subscriber {
    id: u64,
    queue: Vec<SettingsEvent>,
}

/// A subscriber's number and what it is still to be told.
#[verifier::ext_equal]
pub struct SubscriberView {
    pub id: u64,
    pub queue: Seq<EventView>,
}

/// The views of events.
pub open spec fn event_views(v: Seq<SettingsEvent>) -> Seq<EventView> {
    Seq::new(v.len(), |i: int| v[i]@)
}

impl View for Subscriber {
    type V = SubscriberView;

    closed spec fn view(&self) -> SubscriberView {
        SubscriberView { id: self.id, queue: event_views(self.queue@) }
    }
}

/// The settings pages that are open.
#[derive(Debug)]
pub struct EventHub {
    next_id: u64,
    subscribers: Vec<Subscriber>,
}

/// The subscribers of a hub, and the number that the next one gets.
#[verifier::ext_equal]
pub struct HubView {
    pub next_id: u64,
    pub subscribers: Seq<SubscriberView>,
}

/// The views of subscribers.
pub open spec fn subscriber_views(v: Seq<Subscriber>) -> Seq<SubscriberView> {
    Seq::new(v.len(), |i: int| v[i]@)
}

impl View for EventHub {
    type V = HubView;

    closed spec fn view(&self) -> HubView {
        HubView { next_id: self.next_id, subscribers: subscriber_views(self.subscribers@) }
    }
}

/// Whether each subscriber has a number of its own, below the next.
pub open spec fn numbered(h: HubView) -> bool {
    &&& forall|i: int|
        0 <= i < h.subscribers.len() ==> (#[trigger] h.subscribers[i]).id < h.next_id
    &&& forall|i: int, j: int|
        0 <= i < j < h.subscribers.len() ==> (#[trigger] h.subscribers[i]).id != (
        #[trigger] h.subscribers[j]).id
}

/// The subscribers after each was told of an event.
pub open spec fn told(subs: Seq<SubscriberView>, event: EventView) -> Seq<SubscriberView> {
    Seq::new(
        subs.len(),
        |i: int| SubscriberView { id: subs[i].id, queue: subs[i].queue.push(event) },
    )
}

/// The subscribers but for the one with this number.
pub open spec fn without(subs: Seq<SubscriberView>, id: u64) -> Seq<SubscriberView>
    decreases subs.len(),
{
    if subs.len() == 0 {
        seq![]
    } else {
        let rest = without(subs.drop_last(), id);
        if subs.last().id == id {
            rest
        } else {
            rest.push(subs.last())
        }
    }
}

fn copy_event(event: &SettingsEvent) -> (r: SettingsEvent)
    ensures
        r@ == event@,
{
    match event {
        SettingsEvent::Status { running, address } => SettingsEvent::Status {
            running: *running,
            address: copy_text(address),
        },
        SettingsEvent::History(payload) => SettingsEvent::History(payload.clone()),
    }
}

impl EventHub {
    pub fn new() -> (r: Self)
        ensures
            r@ == (HubView { next_id: 1, subscribers: Seq::empty() }),
            numbered(r@),
    {
        let r = EventHub { next_id: 1, subscribers: Vec::new() };
        assert(subscriber_views(r.subscribers@) =~= Seq::empty());
        r
    }

    /// How many settings pages are open.
    pub fn len(&self) -> (r: usize)
        ensures
            r == self@.subscribers.len(),
    {
        self.subscribers.len()
    }

    /// Whether a number is left for one more subscriber.
    pub fn has_numbers(&self) -> (r: bool)
        ensures
            r == (self@.next_id < u64::MAX),
    {
        self.next_id < u64::MAX
    }

    /// Adds a subscriber, and hands out its number.
    pub fn subscribe(&mut self) -> (id: u64)
        requires
            numbered(old(self)@),
            old(self)@.next_id < u64::MAX,
        ensures
            id == old(self)@.next_id,
            final(self)@ == (HubView {
                next_id: (id + 1) as u64,
                subscribers: old(self)@.subscribers.push(
                    SubscriberView { id, queue: Seq::empty() },
                ),
            }),
            numbered(final(self)@),
    {
        let id: u64 = self.next_id;
        let ghost before = self.subscribers@;
        let sub = Subscriber { id, queue: Vec::new() };
        assert(event_views(sub.queue@) =~= Seq::empty());
        self.subscribers.push(sub);
        self.next_id = id + 1;
        assert(subscriber_views(self.subscribers@) =~= subscriber_views(before).push(
            SubscriberView { id, queue: Seq::empty() },
        ));
        id
    }

    /// Removes the subscriber with this number.
    pub fn unsubscribe(&mut self, id: u64)
        requires
            numbered(old(self)@),
        ensures
            final(self)@ == (HubView {
                next_id: old(self)@.next_id,
                subscribers: without(old(self)@.subscribers, id),
            }),
            numbered(final(self)@),
    {
        let ghost all = self@.subscribers;
        let mut i: usize = 0;
        let mut removed: usize = 0;
        let total: usize = self.subscribers.len();
        proof {
            assert(without(all.take(0), id) + all.skip(0) =~= all);
        }
        while i < self.subscribers.len()
            invariant
                total == all.len(),
                self.next_id == old(self)@.next_id,
                i <= self.subscribers.len(),
                self.subscribers.len() + removed == total,
                self@.subscribers == without(all.take(i + removed), id) + all.skip(i + removed),
                without(all.take(i + removed), id).len() == i,
            decreases self.subscribers.len() - i,
        {
            let ghost seen = i + removed;
            proof {
                assert(all.take(seen + 1).drop_last() =~= all.take(seen));
                assert(all.take(seen + 1).last() == all[seen]);
                assert(self@.subscribers[i as int] == all.skip(seen)[0]);
                assert(self@.subscribers[i as int] == self.subscribers@[i as int]@);
            }
            if self.subscribers[i].id == id {
                let ghost current = self.subscribers@;
                let _ = self.subscribers.remove(i);
                removed += 1;
                assert(subscriber_views(self.subscribers@) =~= subscriber_views(current).remove(
                    i as int,
                ));
                assert(self@.subscribers =~= without(all.take(seen + 1), id) + all.skip(seen + 1));
            } else {
                assert(self@.subscribers =~= without(all.take(seen + 1), id) + all.skip(seen + 1));
                i += 1;
            }
        }
        proof {
            assert(all.take(all.len() as int) =~= all);
            assert(self@.subscribers =~= without(all, id));
            law_unsubscribed_is_gone(all, id);
            lemma_without_is_numbered(old(self)@, id);
        }
    }

    /// Tells every subscriber of an event.
    fn publish(&mut self, event: &SettingsEvent)
        ensures
            final(self)@ == (HubView {
                next_id: old(self)@.next_id,
                subscribers: told(old(self)@.subscribers, event@),
            }),
    {
        let ghost all = self@.subscribers;
        let ghost after = told(all, event@);
        let mut i: usize = 0;
        assert(after.take(0) + all.skip(0) =~= all);
        while i < self.subscribers.len()
            invariant
                i <= self.subscribers.len(),
                self.subscribers.len() == all.len(),
                self.next_id == old(self)@.next_id,
                after == told(all, event@),
                self@.subscribers == after.take(i as int) + all.skip(i as int),
            decreases self.subscribers.len() - i,
        {
            let ghost current = self.subscribers@;
            assert(self@.subscribers[i as int] == all[i as int]);
            assert(self@.subscribers[i as int] == current[i as int]@);
            let mut sub = self.subscribers.remove(i);
            let ghost queue = sub.queue@;
            sub.queue.push(copy_event(event));
            assert(event_views(sub.queue@) =~= event_views(queue).push(event@));
            self.subscribers.insert(i, sub);
            assert(self.subscribers@ =~= current.update(i as int, sub));
            assert(subscriber_views(self.subscribers@) =~= subscriber_views(current).update(
                i as int,
                after[i as int],
            ));
            assert(self@.subscribers =~= after.take(i + 1) + all.skip(i + 1));
            i += 1;
        }
        assert(self@.subscribers =~= after);
    }

    /// Takes out what a subscriber is to be told next.
    pub fn next_event(&mut self, id: u64) -> (r: Option<SettingsEvent>)
        requires
            numbered(old(self)@),
        ensures
            match r {
                Some(event) => exists|i: int|
                    {
                        let sub = #[trigger] old(self)@.subscribers[i];
                        &&& 0 <= i < old(self)@.subscribers.len()
                        &&& sub.id == id
                        &&& sub.queue.len() > 0
                        &&& event@ == sub.queue[0]
                        &&& final(self)@ == (HubView {
                            next_id: old(self)@.next_id,
                            subscribers: old(self)@.subscribers.update(
                                i,
                                SubscriberView { id, queue: sub.queue.skip(1) },
                            ),
                        })
                    },
                None => final(self)@ == old(self)@ && forall|i: int|
                    0 <= i < old(self)@.subscribers.len() && (
                    #[trigger] old(self)@.subscribers[i]).id == id
                        ==> old(self)@.subscribers[i].queue.len() == 0,
            },
            numbered(final(self)@),
    {
        let mut i: usize = 0;
        while i < self.subscribers.len()
            invariant
                *self == *old(self),
                i <= self.subscribers.len(),
                numbered(self@),
                forall|j: int|
                    0 <= j < i ==> (#[trigger] self@.subscribers[j]).id == id
                        ==> self@.subscribers[j].queue.len() == 0,
            decreases self.subscribers.len() - i,
        {
            assert(self@.subscribers[i as int] == self.subscribers@[i as int]@);
            if self.subscribers[i].id == id && self.subscribers[i].queue.len() > 0 {
                let ghost current = self.subscribers@;
                let mut sub = self.subscribers.remove(i);
                let ghost queue = sub.queue@;
                let event = sub.queue.remove(0);
                assert(event_views(sub.queue@) =~= event_views(queue).skip(1));
                self.subscribers.insert(i, sub);
                assert(self.subscribers@ =~= current.update(i as int, sub));
                assert(subscriber_views(self.subscribers@) =~= subscriber_views(current).update(
                    i as int,
                    SubscriberView { id, queue: event_views(queue).skip(1) },
                ));
                assert(old(self)@.subscribers[i as int].id == id);
                return Some(event);
            }
            i += 1;
        }
        None
    }
}

/// Tells every open settings page whether the renderer's services are up.
pub fn publish_status(hub: &mut EventHub, running: bool, address: Option<String>)
    ensures
        final(hub)@ == (HubView {
            next_id: old(hub)@.next_id,
            subscribers: told(
                old(hub)@.subscribers,
                EventView::Status { running, address: opt_view(address) },
            ),
        }),
{
    hub.publish(&SettingsEvent::Status { running, address });
}

/// Tells every open settings page of the history.
pub fn publish_history(hub: &mut EventHub, payload: String)
    ensures
        final(hub)@ == (HubView {
            next_id: old(hub)@.next_id,
            subscribers: told(old(hub)@.subscribers, EventView::History(payload@)),
        }),
{
    hub.publish(&SettingsEvent::History(payload));
}

/// Telling of an event leaves the subscribers as they are, and each has the event as
/// its last.
pub proof fn law_everyone_is_told(h: HubView, event: EventView)
    requires
        numbered(h),
    ensures
        numbered(HubView { next_id: h.next_id, subscribers: told(h.subscribers, event) }),
        told(h.subscribers, event).len() == h.subscribers.len(),
        forall|i: int|
            0 <= i < h.subscribers.len() ==> (#[trigger] told(h.subscribers, event)[i]).id
                == h.subscribers[i].id && told(h.subscribers, event)[i].queue.last() == event,
{
}

/// A subscriber that was removed is gone, and all others are left as they were.
pub proof fn law_unsubscribed_is_gone(subs: Seq<SubscriberView>, id: u64)
    ensures
        forall|i: int|
            0 <= i < without(subs, id).len() ==> (#[trigger] without(subs, id)[i]).id != id
                && subs.contains(without(subs, id)[i]),
        forall|i: int|
            0 <= i < subs.len() && (#[trigger] subs[i]).id != id ==> without(subs, id).contains(
                subs[i],
            ),
    decreases subs.len(),
{
    if subs.len() > 0 {
        let front = subs.drop_last();
        let rest = without(front, id);
        let left = without(subs, id);
        law_unsubscribed_is_gone(front, id);
        assert forall|i: int| 0 <= i < left.len() implies (#[trigger] left[i]).id != id
            && subs.contains(left[i]) by {
            if i < rest.len() {
                assert(left[i] == rest[i]);
                let j = choose|j: int| 0 <= j < front.len() && front[j] == rest[i];
                assert(subs[j] == left[i]);
            } else {
                assert(left[i] == subs[subs.len() - 1]);
            }
        }
        assert forall|i: int|
            0 <= i < subs.len() && (#[trigger] subs[i]).id != id implies left.contains(subs[i]) by {
            if i < front.len() {
                assert(front[i] == subs[i]);
                let j = choose|j: int| 0 <= j < rest.len() && rest[j] == front[i];
                assert(left[j] == subs[i]);
            } else {
                assert(left[left.len() - 1] == subs[i]);
            }
        }
    }
}

/// What is left after a subscriber was removed is numbered as before.
proof fn lemma_without_is_numbered(h: HubView, id: u64)
    requires
        numbered(h),
    ensures
        numbered(HubView { next_id: h.next_id, subscribers: without(h.subscribers, id) }),
    decreases h.subscribers.len(),
{
    let subs = h.subscribers;
    if subs.len() > 0 {
        let front = subs.drop_last();
        let g = HubView { next_id: h.next_id, subscribers: front };
        assert(numbered(g)) by {
            assert forall|i: int| 0 <= i < front.len() implies (#[trigger] front[i]).id
                < h.next_id by {
                assert(front[i] == subs[i]);
            }
            assert forall|i: int, j: int| 0 <= i < j < front.len() implies (
            #[trigger] front[i]).id != (#[trigger] front[j]).id by {
                assert(front[i] == subs[i] && front[j] == subs[j]);
            }
        }
        lemma_without_is_numbered(g, id);
        law_unsubscribed_is_gone(front, id);
        let smaller = HubView { next_id: h.next_id, subscribers: without(front, id) };
        assert(numbered(smaller));
        let rest = without(front, id);
        let left = without(subs, id);
        assert forall|i: int| 0 <= i < left.len() implies (#[trigger] left[i]).id < h.next_id by {
            if i < rest.len() {
                assert(left[i] == rest[i]);
            } else {
                assert(left[i] == subs[subs.len() - 1]);
            }
        }
        assert forall|i: int, j: int| 0 <= i < j < left.len() implies (#[trigger] left[i]).id != (
        #[trigger] left[j]).id by {
            assert(left[i] == rest[i]);
            if j < rest.len() {
                assert(left[j] == rest[j]);
                assert(smaller.subscribers[i].id != smaller.subscribers[j].id);
            } else {
                assert(front.contains(rest[i]));
                let k = choose|k: int| 0 <= k < front.len() && front[k] == rest[i];
                assert(subs[k] == rest[i]);
                assert(left[j] == subs[subs.len() - 1]);
                assert(subs[k].id != subs[subs.len() - 1].id);
            }
        }
    }
}

// ---------------------------------------------------------------------------
// Payloads
// ---------------------------------------------------------------------------

/// Whether the services are up, and where they are reached, in JSON.
pub open spec fn status_payload(running: bool, address: Option<Seq<char>>) -> Seq<char> {
    "{\"address\":"@ + (match address {
        Some(a) => json_literal(a),
        None => "null"@,
    }) + ",\"running\":"@ + json_bool(running) + "}"@
}

/// Whether the services are up, and where they are reached, in JSON.
pub fn status_json(running: bool, address: &Option<String>) -> (r: String)
    ensures
        r@ == status_payload(running, opt_view(*address)),
{
    let mut s = "{\"address\":".to_owned();
    match address {
        Some(a) => {
            s.append(&json_string(a));
        },
        None => {
            s.append("null");
        },
    }
    s.append(",\"running\":");
    s.append(json_bool_text(running));
    s.append("}");
    s
}

/// An entry of the history in JSON. Media without a title goes by its address.
pub open spec fn entry_payload(
    time: Seq<char>,
    uri: Seq<char>,
    title: Option<Seq<char>>,
) -> Seq<char> {
    "{\"time\":"@ + json_literal(time) + ",\"title\":"@ + json_literal(title.unwrap_or(uri))
        + ",\"uri\":"@ + json_literal(uri) + "}"@
}

fn entry_json(entry: &HistoryEntry, local: Option<LocalTime>) -> (r: String)
    ensures
        r@ == entry_payload(
            entry_time(entry.timestamp, local),
            entry.uri@,
            opt_view(entry.title),
        ),
{
    let mut s = "{\"time\":".to_owned();
    s.append(&json_string(&entry.time_str(local)));
    s.append(",\"title\":");
    match &entry.title {
        Some(title) => {
            s.append(&json_string(title));
        },
        None => {
            s.append(&json_string(&entry.uri));
        },
    }
    s.append(",\"uri\":");
    s.append(&json_string(&entry.uri));
    s.append("}");
    s
}

/// Entries of the history from index `from` on, the last one first, with commas
/// between them.
pub open spec fn entries_payload(
    entries: Seq<HistoryEntry>,
    local: Seq<Option<LocalTime>>,
    from: int,
) -> Seq<char>
    decreases entries.len() - from,
{
    if from < 0 || from >= entries.len() {
        seq![]
    } else {
        let e = entries[from];
        let one = entry_payload(entry_time(e.timestamp, local[from]), e.uri@, opt_view(e.title));
        if from + 1 >= entries.len() {
            one
        } else {
            entries_payload(entries, local, from + 1) + ","@ + one
        }
    }
}

/// Where the part of the history begins that is shown: its last `limit` entries, and
/// always at least one.
pub open spec fn shown_from(len: int, limit: int) -> int {
    let n = if limit < 1 {
        1
    } else {
        limit
    };
    if len > n {
        len - n
    } else {
        0
    }
}

/// The part of the history that is shown, in JSON, the last entry first.
pub open spec fn history_text(
    entries: Seq<HistoryEntry>,
    local: Seq<Option<LocalTime>>,
    limit: int,
) -> Seq<char> {
    "{\"entries\":["@ + entries_payload(entries, local, shown_from(entries.len() as int, limit))
        + "]}"@
}

/// The part of the history that is shown, in JSON. `local` holds the time of each entry
/// in the machine's time zone, where that is known.
pub fn history_payload(
    entries: &Vec<HistoryEntry>,
    local: &Vec<Option<LocalTime>>,
    limit: usize,
) -> (r: String)
    requires
        entries.len() == local.len(),
    ensures
        r@ == history_text(entries@, local@, limit as int),
{
    let n: usize = if limit < 1 {
        1
    } else {
        limit
    };
    let from: usize = if entries.len() > n {
        entries.len() - n
    } else {
        0
    };
    let mut list = String::new();
    let mut i: usize = entries.len();
    assert(list@ =~= entries_payload(entries@, local@, i as int));
    while i > from
        invariant
            from <= i <= entries.len(),
            entries.len() == local.len(),
            list@ == entries_payload(entries@, local@, i as int),
        decreases i,
    {
        if i < entries.len() {
            list.append(",");
        }
        i -= 1;
        let one = entry_json(&entries[i], local[i]);
        let ghost before = list@;
        list.append(&one);
        assert(list@ =~= entries_payload(entries@, local@, i as int));
    }
    let mut s = "{\"entries\":[".to_owned();
    s.append(&list);
    s.append("]}");
    s
}

// ---------------------------------------------------------------------------
// The event stream
// ---------------------------------------------------------------------------

/// The head of the answer that events are sent in.
pub const EVENT_STREAM_HEAD: &'static str = "HTTP/1.1 200 OK\r\nContent-Type: text/event-stream; charset=utf-8\r\nCache-Control: no-store\r\nConnection: keep-alive\r\n\r\n";

/// What is sent to keep the connection open.
pub const EVENT_STREAM_PING: &'static str = ": ping\n\n";

/// An event as it is sent.
pub open spec fn event_message(name: Seq<char>, data: Seq<char>) -> Seq<char> {
    "event: "@ + name + "\ndata: "@ + data + "\n\n"@
}

/// An event as it is sent.
pub fn event_message_text(name: &str, data: &str) -> (r: String)
    ensures
        r@ == event_message(name@, data@),
{
    let mut s = "event: ".to_owned();
    s.append(name);
    s.append("\ndata: ");
    s.append(data);
    s.append("\n\n");
    s
}

/// What a page is sent for an event.
pub open spec fn streamed(event: EventView) -> Seq<char> {
    match event {
        EventView::Status { running, address } => event_message(
            "status"@,
            status_payload(running, address),
        ),
        EventView::History(payload) => event_message("history"@, payload),
    }
}

/// What a page is sent for an event.
pub fn stream_text(event: &SettingsEvent) -> (r: String)
    ensures
        r@ == streamed(event@),
{
    match event {
        SettingsEvent::Status { running, address } => event_message_text(
            "status",
            &status_json(*running, address),
        ),
        SettingsEvent::History(payload) => event_message_text("history", payload),
    }
}

/// The number of waits in vain after which a ping is sent.
pub const PING_INTERVAL: u32 = 30;

/// What is done on the stream with what comes next, after so many waits in vain, and how many
/// waits there were then.
pub open spec fn stream_next(input: StreamInput, ticks: u32) -> (StreamView, u32) {
    match input {
        StreamInput::Event(event) => (StreamView::Send(streamed(event@)), ticks),
        StreamInput::Waited => if ticks + 1 >= PING_INTERVAL {
            (StreamView::Send(EVENT_STREAM_PING@), 0)
        } else {
            (StreamView::Wait, (ticks + 1) as u32)
        },
        StreamInput::Stopped => (StreamView::End, ticks),
    }
}

/// Counts a wait in vain, and says whether a ping is due: at every thirtieth.
pub fn count_wait(ticks: &mut u32) -> (ping: bool)
    requires
        *old(ticks) < PING_INTERVAL,
    ensures
        *final(ticks) == (*old(ticks) + 1) % (PING_INTERVAL as int),
        ping == (*final(ticks) == 0),
{
    *ticks = (*ticks + 1) % PING_INTERVAL;
    *ticks == 0
}

/// What comes next on the stream of events to a page.
#[derive(Debug)]
pub enum StreamInput {
    Event(SettingsEvent),
    /// Nothing came for a while.
    Waited,
    /// The server stops, or there will be no more events.
    Stopped,
}

/// What is done on the stream.
#[derive(Debug)]
pub enum StreamStep {
    Send(String),
    Wait,
    End,
}

/// What is done on the stream, with its texts as sequences of characters.
#[verifier::ext_equal]
pub enum StreamView {
    Send(Seq<char>),
    Wait,
    End,
}

impl View for StreamStep {
    type V = StreamView;

    open spec fn view(&self) -> StreamView {
        match self {
            StreamStep::Send(text) => StreamView::Send(text@),
            StreamStep::Wait => StreamView::Wait,
            StreamStep::End => StreamView::End,
        }
    }
}

/// What is sent on the stream first: whether the services are up, and the history.
pub open spec fn stream_opening(
    running: bool,
    address: Option<Seq<char>>,
    history: Seq<char>,
) -> Seq<Seq<char>> {
    seq![
        EVENT_STREAM_HEAD@,
        streamed(EventView::Status { running, address }),
        streamed(EventView::History(history)),
    ]
}

/// What is sent on the stream first.
pub fn open_stream(running: bool, address: Option<String>, history: String) -> (r: Vec<String>)
    ensures
        views(r@) == stream_opening(running, opt_view(address), history@),
{
    let mut messages: Vec<String> = Vec::new();
    messages.push(EVENT_STREAM_HEAD.to_owned());
    messages.push(stream_text(&SettingsEvent::Status { running, address }));
    messages.push(stream_text(&SettingsEvent::History(history)));
    assert(views(messages@) =~= stream_opening(running, opt_view(address), history@));
    messages
}

/// What is done on the stream with what comes next.
pub fn stream_step(input: StreamInput, ticks: &mut u32) -> (r: StreamStep)
    requires
        *old(ticks) < PING_INTERVAL,
    ensures
        *final(ticks) < PING_INTERVAL,
        (r@, *final(ticks)) == stream_next(input, *old(ticks)),
        match input {
            StreamInput::Event(event) => r@ == StreamView::Send(streamed(event@)) && *final(ticks)
                == *old(ticks),
            StreamInput::Waited => *final(ticks) == (*old(ticks) + 1) % (PING_INTERVAL as int) && r@
                == if *final(ticks) == 0 {
                StreamView::Send(EVENT_STREAM_PING@)
            } else {
                StreamView::Wait
            },
            StreamInput::Stopped => r@ == StreamView::End && *final(ticks) == *old(ticks),
        },
{
    match input {
        StreamInput::Event(event) => StreamStep::Send(stream_text(&event)),
        StreamInput::Waited => if count_wait(ticks) {
            StreamStep::Send(EVENT_STREAM_PING.to_owned())
        } else {
            StreamStep::Wait
        },
        StreamInput::Stopped => StreamStep::End,
    }
}

/// The part of the history that is shown, and whether the services are up, are one line
/// of JSON each, whatever the titles and addresses in them. So each is one piece of data
/// of its event.
pub proof fn law_payloads_are_one_line(
    entries: Seq<HistoryEntry>,
    local: Seq<Option<LocalTime>>,
    limit: int,
    running: bool,
    address: Option<Seq<char>>,
)
    ensures
        one_line(history_text(entries, local, limit)),
        one_line(status_payload(running, address)),
{
    let from = shown_from(entries.len() as int, limit);
    let list = entries_payload(entries, local, from);
    reveal_strlit("{\"entries\":[");
    reveal_strlit("]}");
    lemma_one_line_entries(entries, local, from);
    lemma_one_line_joined("{\"entries\":["@, list);
    lemma_one_line_joined("{\"entries\":["@ + list, "]}"@);

    let place = match address {
        Some(a) => json_literal(a),
        None => "null"@,
    };
    reveal_strlit("null");
    reveal_strlit("{\"address\":");
    reveal_strlit(",\"running\":");
    reveal_strlit("}");
    if let Some(a) = address {
        law_json_string_is_one_line(a);
    }
    lemma_one_line_bool(running);
    lemma_one_line_joined("{\"address\":"@, place);
    lemma_one_line_joined("{\"address\":"@ + place, ",\"running\":"@);
    lemma_one_line_joined("{\"address\":"@ + place + ",\"running\":"@, json_bool(running));
    lemma_one_line_joined(
        "{\"address\":"@ + place + ",\"running\":"@ + json_bool(running),
        "}"@,
    );
}

proof fn lemma_one_line_entry(time: Seq<char>, uri: Seq<char>, title: Option<Seq<char>>)
    ensures
        one_line(entry_payload(time, uri, title)),
{
    let shown = title.unwrap_or(uri);
    let a = "{\"time\":"@;
    let b = ",\"title\":"@;
    let c = ",\"uri\":"@;
    reveal_strlit("{\"time\":");
    reveal_strlit(",\"title\":");
    reveal_strlit(",\"uri\":");
    reveal_strlit("}");
    law_json_string_is_one_line(time);
    law_json_string_is_one_line(shown);
    law_json_string_is_one_line(uri);
    lemma_one_line_joined(a, json_literal(time));
    lemma_one_line_joined(a + json_literal(time), b);
    lemma_one_line_joined(a + json_literal(time) + b, json_literal(shown));
    lemma_one_line_joined(a + json_literal(time) + b + json_literal(shown), c);
    let all = a + json_literal(time) + b + json_literal(shown) + c;
    lemma_one_line_joined(all, json_literal(uri));
    lemma_one_line_joined(all + json_literal(uri), "}"@);
}

proof fn lemma_one_line_entries(
    entries: Seq<HistoryEntry>,
    local: Seq<Option<LocalTime>>,
    from: int,
)
    ensures
        one_line(entries_payload(entries, local, from)),
    decreases entries.len() - from,
{
    if 0 <= from < entries.len() {
        let e = entries[from];
        let time = entry_time(e.timestamp, local[from]);
        let one = entry_payload(time, e.uri@, opt_view(e.title));
        lemma_one_line_entry(time, e.uri@, opt_view(e.title));
        if from + 1 < entries.len() {
            let more = entries_payload(entries, local, from + 1);
            reveal_strlit(",");
            lemma_one_line_entries(entries, local, from + 1);
            lemma_one_line_joined(more, ","@);
            lemma_one_line_joined(more + ","@, one);
        }
    }
}

} // verus!
