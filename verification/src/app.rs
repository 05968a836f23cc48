//! The application: its services, and the commands that it gets.

use vstd::prelude::*;
use vstd::string::StringExecFns;
use crate::config::Config;
use crate::number::{decimal, decimal_text};
use crate::state::{
    initial_state, no_time, CastState, RendererState, Span, StateView, TransportState,
};
use crate::text::opt_view;

verus! {

/// A command to the application.
#[derive(Clone, Copy, Debug, PartialEq, Eq, Structural)]
pub enum Command {
    ToggleCast,
    OpenSettings,
    Quit,
}

/// The application.
#[derive(Debug)]
pub struct App {
    pub config: Config,
    pub state: RendererState,
    /// Whether the renderer's services are up.
    pub casting: bool,
    /// Whether the settings server is up.
    pub serving: bool,
}

/// What is to be done for a command.
#[derive(Clone, Copy, Debug, PartialEq, Eq, Structural)]
pub enum AppStep {
    StartCast,
    StopCast,
    /// The settings server is to be started, and then its page opened.
    StartAndOpenSettings,
    OpenSettings,
    /// Casting and the settings server are to be stopped, and the application ends.
    ShutDown,
}

/// The state of a renderer whose services came up at this address.
pub open spec fn cast_up(s: StateView, address: Option<Seq<char>>) -> StateView {
    StateView { cast: CastState::Running, upnp_address: address, ..s }
}

/// The state of a renderer whose services went down.
pub open spec fn cast_down(s: StateView) -> StateView {
    StateView {
        cast: CastState::Stopped,
        upnp_address: None,
        transport: TransportState::Stopped,
        position: no_time(),
        ..s
    }
}

impl App {
    /// Whether the state shows that the services are up exactly where they are.
    pub open spec fn consistent(&self) -> bool {
        self.casting <==> self.state.cast == CastState::Running
    }

    /// The application with this configuration, of which nothing runs yet.
    pub fn new(config: Config) -> (r: Self)
        ensures
            r.config == config,
            r.state@ == initial_state(),
            !r.casting,
            !r.serving,
            r.consistent(),
    {
        App { config, state: RendererState::default(), casting: false, serving: false }
    }

    /// What is to be done for a command.
    pub open spec fn step_for(&self, command: Command) -> AppStep {
        match command {
            Command::ToggleCast => if self.casting {
                AppStep::StopCast
            } else {
                AppStep::StartCast
            },
            Command::OpenSettings => if self.serving {
                AppStep::OpenSettings
            } else {
                AppStep::StartAndOpenSettings
            },
            Command::Quit => AppStep::ShutDown,
        }
    }

    /// What is to be done for a command.
    pub fn handle(&self, command: Command) -> (r: AppStep)
        ensures
            r == self.step_for(command),
    {
        match command {
            Command::ToggleCast => if self.casting {
                AppStep::StopCast
            } else {
                AppStep::StartCast
            },
            Command::OpenSettings => if self.serving {
                AppStep::OpenSettings
            } else {
                AppStep::StartAndOpenSettings
            },
            Command::Quit => AppStep::ShutDown,
        }
    }

    /// Takes note that the renderer's services came up at this address.
    pub fn cast_started(&mut self, address: Option<String>)
        ensures
            final(self).state@ == cast_up(old(self).state@, opt_view(address)),
            final(self).casting,
            final(self).consistent(),
            final(self).config == old(self).config,
            final(self).serving == old(self).serving,
    {
        self.casting = true;
        self.state.cast = CastState::Running;
        self.state.upnp_address = address;
    }

    /// Takes note that the renderer's services went down.
    pub fn cast_stopped(&mut self)
        ensures
            final(self).state@ == cast_down(old(self).state@),
            !final(self).casting,
            final(self).consistent(),
            final(self).config == old(self).config,
            final(self).serving == old(self).serving,
    {
        self.casting = false;
        self.state.cast = CastState::Stopped;
        self.state.upnp_address = None;
        self.state.transport = TransportState::Stopped;
        self.state.position = Span::zero();
    }

    /// Takes note that the settings server came up.
    pub fn settings_started(&mut self)
        ensures
            final(self).serving,
            final(self).config == old(self).config,
            final(self).state == old(self).state,
            final(self).casting == old(self).casting,
    {
        self.serving = true;
    }

    /// Takes note that the settings server went down.
    pub fn settings_stopped(&mut self)
        ensures
            !final(self).serving,
            final(self).config == old(self).config,
            final(self).state == old(self).state,
            final(self).casting == old(self).casting,
    {
        self.serving = false;
    }
}

/// How far casting was started.
#[derive(Clone, Copy, Debug, PartialEq, Eq, Structural)]
pub enum CastStart {
    /// The player is to be set up.
    Player,
    /// The server for control points is to be started.
    Server,
    /// Discovery is to be started.
    Discovery,
    /// All is up.
    Up,
    /// Something failed. The server is to be stopped where it runs.
    Abandoned { stop_server: bool },
}

impl CastStart {
    /// How far casting was started once this went so.
    pub open spec fn after(self, ok: bool) -> CastStart {
        match self {
            CastStart::Player => if ok {
                CastStart::Server
            } else {
                CastStart::Abandoned { stop_server: false }
            },
            CastStart::Server => if ok {
                CastStart::Discovery
            } else {
                CastStart::Abandoned { stop_server: false }
            },
            CastStart::Discovery => if ok {
                CastStart::Up
            } else {
                CastStart::Abandoned { stop_server: true }
            },
            _ => self,
        }
    }

    /// How far casting was started once this went so.
    pub fn next(self, ok: bool) -> (r: CastStart)
        ensures
            r == self.after(ok),
    {
        match self {
            CastStart::Player => if ok {
                CastStart::Server
            } else {
                CastStart::Abandoned { stop_server: false }
            },
            CastStart::Server => if ok {
                CastStart::Discovery
            } else {
                CastStart::Abandoned { stop_server: false }
            },
            CastStart::Discovery => if ok {
                CastStart::Up
            } else {
                CastStart::Abandoned { stop_server: true }
            },
            other => other,
        }
    }
}

/// Casting is up exactly where the player, the server and discovery were all started,
/// and where it is given up the server is stopped exactly if it had been started.
pub proof fn law_casting_is_up_or_not_at_all(player: bool, server: bool, discovery: bool)
    ensures
        CastStart::Player.after(player).after(server).after(discovery) == if player && server
            && discovery {
            CastStart::Up
        } else {
            CastStart::Abandoned { stop_server: player && server }
        },
{
}

/// The address of the renderer's services on this machine.
pub open spec fn service_address(ip: Seq<char>, port: u16) -> Seq<char> {
    "http://"@ + ip + ":"@ + decimal(port as nat)
}

/// The address of the renderer's services on this machine.
pub fn service_url(ip: &str, port: u16) -> (r: String)
    ensures
        r@ == service_address(ip@, port),
{
    let mut s = "http://".to_owned();
    s.append(ip);
    s.append(":");
    s.append(&decimal_text(port as u64));
    s
}

/// Toggling casting twice comes back to where it was: what was started is stopped, and
/// the media and the sound are kept.
pub proof fn law_toggle_twice(s: StateView, address: Option<Seq<char>>)
    ensures
        ({
            let after = cast_down(cast_up(s, address));
            &&& after.cast == CastState::Stopped
            &&& after.upnp_address is None
            &&& after.uri == s.uri
            &&& after.title == s.title
            &&& after.duration == s.duration
            &&& after.volume == s.volume
            &&& after.muted == s.muted
        }),
{
}

} // verus!
