//! What the renderer is playing, and the history of what it played.

use vstd::prelude::*;
use crate::clock::{unix_time, utc_digits, utc_text, LocalTime};
use crate::number::{decimal, decimal_text};
use crate::text::opt_view;

verus! {

/// A length of time in whole seconds and nanoseconds.
#[derive(Clone, Copy, Debug, PartialEq, Eq, Structural)]
pub struct Span {
    pub secs: u64,
    pub nanos: u32,
}

/// No time at all.
pub open spec fn no_time() -> Span {
    Span { secs: 0, nanos: 0 }
}

impl Span {
    /// Whether the nanoseconds make up less than a second.
    pub open spec fn valid(self) -> bool {
        self.nanos < 1_000_000_000
    }

    /// The length in nanoseconds.
    pub open spec fn total_nanos(self) -> int {
        self.secs * 1_000_000_000 + self.nanos
    }

    /// Whether this is longer than `other`.
    pub open spec fn longer_than(self, other: Span) -> bool {
        self.secs > other.secs || (self.secs == other.secs && self.nanos > other.nanos)
    }

    pub fn zero() -> (r: Span)
        ensures
            r == no_time(),
    {
        Span { secs: 0, nanos: 0 }
    }

    pub fn from_secs(secs: u64) -> (r: Span)
        ensures
            r == (Span { secs, nanos: 0 }),
            r.valid(),
    {
        Span { secs, nanos: 0 }
    }

    /// Whether this is longer than `other`.
    pub fn exceeds(self, other: Span) -> (r: bool)
        ensures
            r == self.longer_than(other),
    {
        self.secs > other.secs || (self.secs == other.secs && self.nanos > other.nanos)
    }

    /// The sum of two lengths, where it can be held.
    pub fn plus(self, other: Span) -> (r: Option<Span>)
        requires
            self.valid(),
            other.valid(),
        ensures
            match r {
                Some(sum) => sum.valid() && sum.total_nanos() == self.total_nanos()
                    + other.total_nanos(),
                None => self.total_nanos() + other.total_nanos() >= (u64::MAX + 1) * 1_000_000_000,
            },
    {
        let nanos: u32 = self.nanos + other.nanos;
        let carry: u64 = if nanos >= 1_000_000_000 {
            1
        } else {
            0
        };
        let rest: u32 = if nanos >= 1_000_000_000 {
            nanos - 1_000_000_000
        } else {
            nanos
        };
        match self.secs.checked_add(other.secs) {
            Some(secs) => match secs.checked_add(carry) {
                Some(secs) => Some(Span { secs, nanos: rest }),
                None => None,
            },
            None => None,
        }
    }
}

/// Among valid lengths the longer one is the one with more nanoseconds.
pub proof fn law_order_of_spans(a: Span, b: Span)
    requires
        a.valid(),
        b.valid(),
    ensures
        a.longer_than(b) <==> a.total_nanos() > b.total_nanos(),
{
}

/// Whether the renderer's services are up.
#[derive(Clone, Copy, Debug, PartialEq, Eq, Structural)]
pub enum CastState {
    Stopped,
    Running,
}

/// The transport states of AVTransport.
#[derive(Clone, Copy, Debug, PartialEq, Eq, Structural)]
pub enum TransportState {
    NoMediaPresent,
    Stopped,
    Playing,
    PausedPlayback,
    Transitioning,
}

impl TransportState {
    /// The name of the state in AVTransport.
    pub open spec fn name(self) -> Seq<char> {
        match self {
            TransportState::NoMediaPresent => "NO_MEDIA_PRESENT"@,
            TransportState::Stopped => "STOPPED"@,
            TransportState::Playing => "PLAYING"@,
            TransportState::PausedPlayback => "PAUSED_PLAYBACK"@,
            TransportState::Transitioning => "TRANSITIONING"@,
        }
    }

    /// The name of the state in AVTransport.
    pub fn upnp_value(self) -> (r: &'static str)
        ensures
            r@ == self.name(),
    {
        match self {
            TransportState::NoMediaPresent => "NO_MEDIA_PRESENT",
            TransportState::Stopped => "STOPPED",
            TransportState::Playing => "PLAYING",
            TransportState::PausedPlayback => "PAUSED_PLAYBACK",
            TransportState::Transitioning => "TRANSITIONING",
        }
    }
}

/// What the renderer knows of its media and of the player.
#[derive(Clone, Debug)]
pub struct RendererState {
    pub cast: CastState,
    pub uri: Option<String>,
    pub title: Option<String>,
    pub transport: TransportState,
    pub duration: Option<Span>,
    pub position: Span,
    pub volume: u8,
    pub muted: bool,
    pub upnp_address: Option<String>,
}

/// A renderer state with its texts as sequences of characters.
#[verifier::ext_equal]
pub struct StateView {
    pub cast: CastState,
    pub uri: Option<Seq<char>>,
    pub title: Option<Seq<char>>,
    pub transport: TransportState,
    pub duration: Option<Span>,
    pub position: Span,
    pub volume: u8,
    pub muted: bool,
    pub upnp_address: Option<Seq<char>>,
}

impl View for RendererState {
    type V = StateView;

    open spec fn view(&self) -> StateView {
        StateView {
            cast: self.cast,
            uri: opt_view(self.uri),
            title: opt_view(self.title),
            transport: self.transport,
            duration: self.duration,
            position: self.position,
            volume: self.volume,
            muted: self.muted,
            upnp_address: opt_view(self.upnp_address),
        }
    }
}

/// The state of a renderer that was just started.
pub open spec fn initial_state() -> StateView {
    StateView {
        cast: CastState::Stopped,
        uri: None,
        title: None,
        transport: TransportState::NoMediaPresent,
        duration: None,
        position: no_time(),
        volume: 100,
        muted: false,
        upnp_address: None,
    }
}

impl Default for RendererState {
    fn default() -> (r: Self)
        ensures
            r@ == initial_state(),
    {
        RendererState {
            cast: CastState::Stopped,
            uri: None,
            title: None,
            transport: TransportState::NoMediaPresent,
            duration: None,
            position: Span::zero(),
            volume: 100,
            muted: false,
            upnp_address: None,
        }
    }
}

/// A copy of an optional text.
pub fn copy_text(s: &Option<String>) -> (r: Option<String>)
    ensures
        opt_view(r) == opt_view(*s),
{
    match s {
        Some(t) => Some(t.clone()),
        None => None,
    }
}

/// Media that was played, and when.
#[derive(Clone, Debug)]
pub struct HistoryEntry {
    /// Seconds since the beginning of 1970.
    pub timestamp: u64,
    pub uri: String,
    pub title: Option<String>,
}

/// The last second of the year 9999.
pub const LAST_SECOND: u64 = 253_402_300_799;

/// The time of an entry as text: the local time where the machine's time zone
/// gives one, and otherwise the time in UTC, up to the year 9999.
pub open spec fn entry_time(timestamp: u64, local: Option<LocalTime>) -> Seq<char> {
    match local {
        Some(time) => time.digits(),
        None => if timestamp > LAST_SECOND {
            decimal(timestamp as nat)
        } else {
            utc_digits(timestamp as int)
        },
    }
}

impl HistoryEntry {
    /// An entry for media that is played now.
    pub fn new(uri: String, title: Option<String>) -> (r: Self)
        ensures
            r.uri == uri,
            r.title == title,
    {
        let now = unix_time();
        HistoryEntry { timestamp: now.secs, uri, title }
    }

    /// The time of the entry as text. `local` is the entry's time in the machine's
    /// time zone, where that is known.
    pub fn time_str(&self, local: Option<LocalTime>) -> (r: String)
        ensures
            r@ == entry_time(self.timestamp, local),
    {
        match local {
            Some(time) => time.text(),
            None => if self.timestamp > LAST_SECOND {
                decimal_text(self.timestamp)
            } else {
                utc_text(self.timestamp)
            },
        }
    }
}

} // verus!
