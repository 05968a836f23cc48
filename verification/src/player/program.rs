//! The programs that play media.

use vstd::prelude::*;
use crate::player::{Cause, CauseKind, PlayerError};
use crate::text::{trim_spec, trim_text};

verus! {

/// The error with this one cause.
pub fn plain_error(message: &str) -> (r: PlayerError)
    ensures
        r.causes@.len() == 1,
        r.causes@[0].message@ == message@,
        r.causes@[0].kind == CauseKind::Other,
{
    let mut causes: Vec<Cause> = Vec::new();
    causes.push(Cause { kind: CauseKind::Other, message: message.to_owned() });
    PlayerError { causes }
}

/// How a player's program is to be treated before a command.
#[derive(Clone, Copy, Debug, PartialEq, Eq, Structural)]
pub enum SessionStep {
    /// It runs.
    Ready,
    /// It is to be started.
    Start,
    /// It does not exist, and is not tried again.
    GivenUp,
}

/// How the start of a program goes on.
#[derive(Clone, Copy, Debug, PartialEq, Eq, Structural)]
pub enum StartStep {
    /// It is ready for commands.
    Ready,
    /// It ended before it was ready.
    Exited,
    /// It took too long, and is to be ended.
    TimedOut,
    /// It is waited for.
    Again,
}

/// A player's program, and whether it runs.
#[derive(Debug)]
pub struct PlayerProgram {
    pub executable: String,
    pub running: bool,
    pub given_up: bool,
}

impl PlayerProgram {
    /// The program at this path, which must not be empty.
    pub fn new(path: &str, empty_message: &str) -> (r: Result<Self, PlayerError>)
        ensures
            match r {
                Ok(p) => trim_spec(path@).len() > 0 && p.executable@ == path@ && !p.running
                    && !p.given_up,
                Err(e) => trim_spec(path@).len() == 0 && e.causes@.len() == 1
                    && e.causes@[0].message@ == empty_message@ && e.causes@[0].kind
                    == CauseKind::Other,
            },
    {
        if trim_text(path).as_str().is_empty() {
            return Err(plain_error(empty_message));
        }
        Ok(PlayerProgram { executable: path.to_owned(), running: false, given_up: false })
    }

    /// How the program is to be treated before a command.
    pub open spec fn next_step(&self) -> SessionStep {
        if self.given_up {
            SessionStep::GivenUp
        } else if self.running {
            SessionStep::Ready
        } else {
            SessionStep::Start
        }
    }

    /// How the program is to be treated before a command.
    pub fn session_step(&self) -> (r: SessionStep)
        ensures
            r == self.next_step(),
    {
        if self.given_up {
            SessionStep::GivenUp
        } else if self.running {
            SessionStep::Ready
        } else {
            SessionStep::Start
        }
    }

    /// Takes note that the program was started.
    pub fn started(&mut self)
        ensures
            final(self).running,
            final(self).given_up == old(self).given_up,
            final(self).executable == old(self).executable,
    {
        self.running = true;
    }

    /// Takes note that the program could not be started. One that does not exist is
    /// not tried again.
    pub fn start_failed(&mut self, not_found: bool)
        ensures
            final(self).running == old(self).running,
            final(self).given_up == (old(self).given_up || not_found),
            final(self).executable == old(self).executable,
    {
        if not_found {
            self.given_up = true;
        }
    }

    /// Takes note that the program ended.
    pub fn ended(&mut self)
        ensures
            !final(self).running,
            final(self).given_up == old(self).given_up,
            final(self).executable == old(self).executable,
    {
        self.running = false;
    }
}

/// A volume in percent, at most 100.
pub open spec fn capped(volume: u8) -> u8 {
    if volume > 100 {
        100
    } else {
        volume
    }
}

} // verus!
