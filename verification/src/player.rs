//! Players that the renderer can drive.

pub mod mpv;
pub mod mpv_laws;
pub mod program;
pub mod vlc;
pub mod vlc_laws;

use vstd::prelude::*;
use vstd::string::StringExecFns;
use crate::player::program::{plain_error, PlayerProgram};
use crate::state::{no_time, Span};
use crate::text::{opt_view, same_text, trim_spec};

verus! {

/// What a player reports of itself.
#[derive(Clone, Copy, Debug, PartialEq, Eq)]
pub struct PlayerStatus {
    pub playing: bool,
    pub paused: bool,
    pub position: Span,
    pub duration: Option<Span>,
    pub volume: u8,
    pub muted: bool,
}

/// The status of a player that has no media.
pub open spec fn idle_status() -> PlayerStatus {
    PlayerStatus {
        playing: false,
        paused: false,
        position: no_time(),
        duration: None,
        volume: 100,
        muted: false,
    }
}

impl Default for PlayerStatus {
    fn default() -> (r: Self)
        ensures
            r == idle_status(),
    {
        PlayerStatus {
            playing: false,
            paused: false,
            position: Span::zero(),
            duration: None,
            volume: 100,
            muted: false,
        }
    }
}

/// The kinds of causes that are told apart in a player's failure.
#[derive(Clone, Copy, Debug, PartialEq, Eq, Structural)]
pub enum CauseKind {
    /// A program or file that does not exist.
    NotFound,
    Other,
}

/// One cause of a failure.
#[derive(Clone, Debug)]
pub struct Cause {
    pub kind: CauseKind,
    pub message: String,
}

/// Why a player did not do what it was asked: the causes, the outermost first.
#[derive(Clone, Debug)]
pub struct PlayerError {
    pub causes: Vec<Cause>,
}

/// Whether a failure goes back to a program that does not exist.
pub fn is_program_not_found(error: &PlayerError) -> (r: bool)
    ensures
        r == exists|i: int|
            0 <= i < error.causes@.len() && (#[trigger] error.causes@[i]).kind
                == CauseKind::NotFound,
{
    let mut i: usize = 0;
    while i < error.causes.len()
        invariant
            i <= error.causes.len(),
            forall|j: int| 0 <= j < i ==> (#[trigger] error.causes@[j]).kind != CauseKind::NotFound,
        decreases error.causes.len() - i,
    {
        if error.causes[i].kind == CauseKind::NotFound {
            return true;
        }
        i += 1;
    }
    false
}

/// Something that a player is asked to do.
#[derive(Clone, Debug)]
pub enum PlayerCall {
    Load { uri: String, title: Option<String> },
    Play,
    Pause,
    Stop,
    Seek(Span),
    SetVolume(u8),
    SetMute(bool),
    Status,
}

/// A call with its texts as sequences of characters.
#[verifier::ext_equal]
pub enum CallView {
    Load { uri: Seq<char>, title: Option<Seq<char>> },
    Play,
    Pause,
    Stop,
    Seek(Span),
    SetVolume(u8),
    SetMute(bool),
    Status,
}

impl View for PlayerCall {
    type V = CallView;

    open spec fn view(&self) -> CallView {
        match self {
            PlayerCall::Load { uri, title } => CallView::Load { uri: uri@, title: opt_view(*title) },
            PlayerCall::Play => CallView::Play,
            PlayerCall::Pause => CallView::Pause,
            PlayerCall::Stop => CallView::Stop,
            PlayerCall::Seek(position) => CallView::Seek(*position),
            PlayerCall::SetVolume(volume) => CallView::SetVolume(*volume),
            PlayerCall::SetMute(muted) => CallView::SetMute(*muted),
            PlayerCall::Status => CallView::Status,
        }
    }
}

/// How a player answers a call.
#[derive(Clone, Copy, Debug, PartialEq, Eq)]
pub enum Answer {
    Done,
    Failed,
    Status(PlayerStatus),
}

impl Answer {
    /// The status in the answer.
    pub open spec fn status(self) -> Option<PlayerStatus> {
        match self {
            Answer::Status(status) => Some(status),
            _ => None,
        }
    }

    /// The status in the answer.
    pub fn into_status(self) -> (r: Option<PlayerStatus>)
        ensures
            r == self.status(),
    {
        match self {
            Answer::Status(status) => Some(status),
            _ => None,
        }
    }

    /// Whether the player failed.
    pub fn failed(self) -> (r: bool)
        ensures
            r == (self is Failed),
    {
        match self {
            Answer::Failed => true,
            _ => false,
        }
    }
}

/// A player that the renderer drives.
pub trait PlayerBackend {
    fn load(&mut self, uri: &str, title: Option<&str>) -> Result<(), PlayerError>;

    fn play(&mut self) -> Result<(), PlayerError>;

    fn pause(&mut self) -> Result<(), PlayerError>;

    fn stop(&mut self) -> Result<(), PlayerError>;

    fn seek(&mut self, position: Span) -> Result<(), PlayerError>;

    fn set_volume(&mut self, volume: u8) -> Result<(), PlayerError>;

    fn set_mute(&mut self, muted: bool) -> Result<(), PlayerError>;

    fn status(&mut self) -> Result<PlayerStatus, PlayerError>;

    /// The media that the player can play.
    fn sink_protocol_info(&self) -> &str;
}

/// The answer that the result of a call stands for.
pub open spec fn done_or_failed(result: Result<(), PlayerError>) -> Answer {
    match result {
        Ok(_) => Answer::Done,
        Err(_) => Answer::Failed,
    }
}

/// The answer that the result of a status query stands for.
pub open spec fn status_or_failed(result: Result<PlayerStatus, PlayerError>) -> Answer {
    match result {
        Ok(status) => Answer::Status(status),
        Err(_) => Answer::Failed,
    }
}

/// The view of an optional text.
pub open spec fn opt_text(s: Option<&str>) -> Option<Seq<char>> {
    match s {
        Some(t) => Some(t@),
        None => None,
    }
}

/// The answer that a result stands for.
fn outcome(result: Result<(), PlayerError>) -> (r: Answer)
    ensures
        r == done_or_failed(result),
{
    match result {
        Ok(_) => Answer::Done,
        Err(_) => Answer::Failed,
    }
}

/// Whether `player` was called so and gave this answer: the method that the call stands
/// for was called with its arguments, and the answer is what that gave back.
pub open spec fn answered<P: PlayerBackend>(
    player: &mut P,
    call: CallView,
    answer: Answer,
) -> bool {
    match call {
        CallView::Load { uri, title } => exists|
            u: &str,
            t: Option<&str>,
            result: Result<(), PlayerError>,
        |
            u@ == uri && opt_text(t) == title && #[trigger] call_ensures(
                P::load,
                (player, u, t),
                result,
            ) && answer == done_or_failed(result),
        CallView::Play => exists|result: Result<(), PlayerError>|
            #[trigger] call_ensures(P::play, (player,), result) && answer == done_or_failed(result),
        CallView::Pause => exists|result: Result<(), PlayerError>|
            #[trigger] call_ensures(P::pause, (player,), result) && answer == done_or_failed(
                result,
            ),
        CallView::Stop => exists|result: Result<(), PlayerError>|
            #[trigger] call_ensures(P::stop, (player,), result) && answer == done_or_failed(result),
        CallView::Seek(position) => exists|at: Span, result: Result<(), PlayerError>|
            at == position && #[trigger] call_ensures(P::seek, (player, at), result) && answer
                == done_or_failed(result),
        CallView::SetVolume(volume) => exists|level: u8, result: Result<(), PlayerError>|
            level == volume && #[trigger] call_ensures(P::set_volume, (player, level), result)
                && answer == done_or_failed(result),
        CallView::SetMute(muted) => exists|off: bool, result: Result<(), PlayerError>|
            off == muted && #[trigger] call_ensures(P::set_mute, (player, off), result) && answer
                == done_or_failed(result),
        CallView::Status => exists|result: Result<PlayerStatus, PlayerError>|
            #[trigger] call_ensures(P::status, (player,), result) && answer == status_or_failed(
                result,
            ),
    }
}

/// A player that was called failed exactly where the method failed that the call names, and a
/// status is what its own method gave back.
pub proof fn law_calls_name_their_methods<P: PlayerBackend>(player: &mut P, answer: Answer)
    ensures
        answered(player, CallView::Play, answer) ==> exists|result: Result<(), PlayerError>|
            #[trigger] call_ensures(P::play, (player,), result) && (answer is Done <==> result is Ok)
                && (answer is Failed <==> result is Err),
        answered(player, CallView::Pause, answer) ==> exists|result: Result<(), PlayerError>|
            #[trigger] call_ensures(P::pause, (player,), result) && (answer is Done <==> result is Ok)
                && (answer is Failed <==> result is Err),
        answered(player, CallView::Stop, answer) ==> exists|result: Result<(), PlayerError>|
            #[trigger] call_ensures(P::stop, (player,), result) && (answer is Done <==> result is Ok)
                && (answer is Failed <==> result is Err),
        answered(player, CallView::Status, answer) ==> exists|
            result: Result<PlayerStatus, PlayerError>,
        |
            #[trigger] call_ensures(P::status, (player,), result) && (result matches Ok(status)
                ==> answer == Answer::Status(status)) && (result is Err ==> answer is Failed),
        forall|at: Span|
            answered(player, CallView::Seek(at), answer) ==> exists|
                result: Result<(), PlayerError>,
            |
                #[trigger] call_ensures(P::seek, (player, at), result) && (answer is Done
                    <==> result is Ok) && (answer is Failed <==> result is Err),
        forall|volume: u8|
            answered(player, CallView::SetVolume(volume), answer) ==> exists|
                result: Result<(), PlayerError>,
            |
                #[trigger] call_ensures(P::set_volume, (player, volume), result) && (answer is Done
                    <==> result is Ok) && (answer is Failed <==> result is Err),
        forall|muted: bool|
            answered(player, CallView::SetMute(muted), answer) ==> exists|
                result: Result<(), PlayerError>,
            |
                #[trigger] call_ensures(P::set_mute, (player, muted), result) && (answer is Done
                    <==> result is Ok) && (answer is Failed <==> result is Err),
        forall|uri: Seq<char>, title: Option<Seq<char>>|
            answered(player, CallView::Load { uri, title }, answer) ==> exists|
                u: &str,
                t: Option<&str>,
                result: Result<(), PlayerError>,
            |
                #[trigger] call_ensures(P::load, (player, u, t), result) && u@ == uri && opt_text(t)
                    == title && (answer is Done <==> result is Ok) && (answer is Failed
                    <==> result is Err),
{
}

/// Carries out one call: the method of the player that it stands for is called with its
/// arguments. The answer is what that gives back, and the player is as that leaves it.
/// Only a status query is answered with a status.
pub fn perform<P: PlayerBackend>(player: &mut P, call: &PlayerCall) -> (r: Answer)
    ensures
        r is Status ==> call is Status,
        call is Status ==> !(r is Done),
        exists|p: &mut P|
            *p == *old(player) && *final(p) == *final(player) && #[trigger] answered(p, call@, r),
{
    match call {
        PlayerCall::Load { uri, title } => {
            let wanted: Option<&str> = match title {
                Some(title) => Some(title),
                None => None,
            };
            let result = player.load(uri, wanted);
            let r = outcome(result);
            proof {
                let (p, u, t) = choose|p: &mut P, u: &str, t: Option<&str>|
                    *p == *old(player) && *final(p) == *final(player) && u@ == uri@ && opt_text(t)
                        == opt_view(*title)
                        && #[trigger] call_ensures(P::load, (p, u, t), result);
                assert(answered(p, call@, r));
            }
            r
        },
        PlayerCall::Play => {
            let result = player.play();
            let r = outcome(result);
            proof {
                let p = choose|p: &mut P|
                    *p == *old(player) && *final(p) == *final(player)
                        && #[trigger] call_ensures(P::play, (p,), result);
                assert(answered(p, call@, r));
            }
            r
        },
        PlayerCall::Pause => {
            let result = player.pause();
            let r = outcome(result);
            proof {
                let p = choose|p: &mut P|
                    *p == *old(player) && *final(p) == *final(player)
                        && #[trigger] call_ensures(P::pause, (p,), result);
                assert(answered(p, call@, r));
            }
            r
        },
        PlayerCall::Stop => {
            let result = player.stop();
            let r = outcome(result);
            proof {
                let p = choose|p: &mut P|
                    *p == *old(player) && *final(p) == *final(player)
                        && #[trigger] call_ensures(P::stop, (p,), result);
                assert(answered(p, call@, r));
            }
            r
        },
        PlayerCall::Seek(position) => {
            let result = player.seek(*position);
            let r = outcome(result);
            proof {
                let (p, at) = choose|p: &mut P, at: Span|
                    *p == *old(player) && *final(p) == *final(player) && at == position
                        && #[trigger] call_ensures(P::seek, (p, at), result);
                assert(answered(p, call@, r));
            }
            r
        },
        PlayerCall::SetVolume(volume) => {
            let result = player.set_volume(*volume);
            let r = outcome(result);
            proof {
                let (p, level) = choose|p: &mut P, level: u8|
                    *p == *old(player) && *final(p) == *final(player) && level == volume
                        && #[trigger] call_ensures(P::set_volume, (p, level), result);
                assert(answered(p, call@, r));
            }
            r
        },
        PlayerCall::SetMute(muted) => {
            let result = player.set_mute(*muted);
            let r = outcome(result);
            proof {
                let (p, off) = choose|p: &mut P, off: bool|
                    *p == *old(player) && *final(p) == *final(player) && off == muted
                        && #[trigger] call_ensures(P::set_mute, (p, off), result);
                assert(answered(p, call@, r));
            }
            r
        },
        PlayerCall::Status => {
            let result = player.status();
            let r = match result {
                Ok(status) => Answer::Status(status),
                Err(_) => Answer::Failed,
            };
            proof {
                let p = choose|p: &mut P|
                    *p == *old(player) && *final(p) == *final(player)
                        && #[trigger] call_ensures(P::status, (p,), result);
                assert(answered(p, call@, r));
            }
            r
        },
    }
}

/// The player that a configuration asks for, not started yet.
#[derive(Debug)]
pub enum Backend {
    Mpv(PlayerProgram),
    Vlc(PlayerProgram),
}

/// Whether `p` is the program at this path, which was not started yet.
pub open spec fn fresh_program(p: PlayerProgram, path: Seq<char>) -> bool {
    p.executable@ == path && !p.running && !p.given_up
}

/// Whether an error has this message as its one cause.
pub open spec fn says(error: PlayerError, message: Seq<char>) -> bool {
    error.causes@.len() == 1 && error.causes@[0].message@ == message && error.causes@[0].kind
        == CauseKind::Other
}

/// The player with this name. The path of its program must not be empty.
pub fn create_backend(name: &str, mpv_path: &str, vlc_path: &str) -> (r: Result<
    Backend,
    PlayerError,
>)
    ensures
        if name@ == "mpv"@ {
            match r {
                Ok(Backend::Mpv(p)) => trim_spec(mpv_path@).len() > 0 && fresh_program(p, mpv_path@),
                Ok(Backend::Vlc(_)) => false,
                Err(e) => trim_spec(mpv_path@).len() == 0 && says(
                    e,
                    "mpv executable path cannot be empty"@,
                ),
            }
        } else if name@ == "vlc"@ {
            match r {
                Ok(Backend::Vlc(p)) => trim_spec(vlc_path@).len() > 0 && fresh_program(p, vlc_path@),
                Ok(Backend::Mpv(_)) => false,
                Err(e) => trim_spec(vlc_path@).len() == 0 && says(
                    e,
                    "vlc executable path cannot be empty"@,
                ),
            }
        } else {
            r matches Err(e) && says(e, "unsupported player backend: "@ + name@)
        },
{
    if same_text(name, "mpv") {
        match PlayerProgram::new(mpv_path, "mpv executable path cannot be empty") {
            Ok(program) => Ok(Backend::Mpv(program)),
            Err(error) => Err(error),
        }
    } else if same_text(name, "vlc") {
        match PlayerProgram::new(vlc_path, "vlc executable path cannot be empty") {
            Ok(program) => Ok(Backend::Vlc(program)),
            Err(error) => Err(error),
        }
    } else {
        let mut message = "unsupported player backend: ".to_owned();
        message.append(name);
        Err(plain_error(&message))
    }
}

} // verus!
