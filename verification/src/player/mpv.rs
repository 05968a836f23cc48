//! Driving mpv by its JSON interface.

use vstd::prelude::*;
use vstd::string::StringExecFns;
use crate::clock::unix_time;
use crate::json::{
    json_bool, json_bool_text, json_literal, json_string, law_json_string_is_one_line,
    lemma_one_line_bool, lemma_one_line_decimal, lemma_one_line_joined, one_line,
};
use crate::number::{
    decimal, decimal_text, lemma_padded_value, padded, padded_text, wide_decimal_text,
};
use crate::player::{idle_status, Answer, CallView, PlayerCall, PlayerStatus};
use crate::player::program::{capped, StartStep};
use crate::state::{no_time, Span};
use crate::text::{between, chars_of, contains_text, has_text, opt_view, same_text, views};

verus! {

/// What mpv can play.
pub const MPV_PROTOCOL_INFO: &'static str = "http-get:*:audio/mpeg:*,http-get:*:audio/mp4:*,http-get:*:audio/flac:*,http-get:*:audio/ogg:*,http-get:*:audio/x-flac:*,http-get:*:audio/wav:*,http-get:*:audio/aac:*,http-get:*:video/mp4:*,http-get:*:video/webm:*,http-get:*:video/x-matroska:*,http-get:*:video/mpeg:*,http-get:*:video/quicktime:*";

// ---------------------------------------------------------------------------
// Commands
// ---------------------------------------------------------------------------

/// A command to mpv.
#[derive(Clone, Debug)]
pub enum MpvCommand {
    LoadFile { uri: String, title: Option<String> },
    SetTitle(String),
    SetPause(bool),
    Seek(Span),
    SetVolume(u8),
    SetMute(bool),
    GetProperty(&'static str),
    Quit,
}

/// A command with its texts as sequences of characters.
#[verifier::ext_equal]
pub enum MpvCommandView {
    LoadFile { uri: Seq<char>, title: Option<Seq<char>> },
    SetTitle(Seq<char>),
    SetPause(bool),
    Seek(Span),
    SetVolume(u8),
    SetMute(bool),
    GetProperty(Seq<char>),
    Quit,
}

impl View for MpvCommand {
    type V = MpvCommandView;

    open spec fn view(&self) -> MpvCommandView {
        match self {
            MpvCommand::LoadFile { uri, title } => MpvCommandView::LoadFile {
                uri: uri@,
                title: opt_view(*title),
            },
            MpvCommand::SetTitle(title) => MpvCommandView::SetTitle(title@),
            MpvCommand::SetPause(b) => MpvCommandView::SetPause(*b),
            MpvCommand::Seek(position) => MpvCommandView::Seek(*position),
            MpvCommand::SetVolume(volume) => MpvCommandView::SetVolume(*volume),
            MpvCommand::SetMute(b) => MpvCommandView::SetMute(*b),
            MpvCommand::GetProperty(name) => MpvCommandView::GetProperty(name@),
            MpvCommand::Quit => MpvCommandView::Quit,
        }
    }
}

/// `s` without the zeros at its end; one character is always left.
pub open spec fn without_zeros(s: Seq<char>) -> Seq<char>
    decreases s.len(),
{
    if s.len() > 1 && s.last() == '0' {
        without_zeros(s.drop_last())
    } else {
        s
    }
}

fn trim_zeros(s: &str) -> (r: String)
    ensures
        r@ == without_zeros(s@),
{
    let chars = chars_of(s);
    let mut n: usize = chars.len();
    assert(chars@.take(n as int) =~= chars@);
    while n > 1 && chars[n - 1] == '0'
        invariant
            n <= chars.len(),
            without_zeros(chars@) == without_zeros(chars@.take(n as int)),
        decreases n,
    {
        assert(chars@.take(n as int).drop_last() =~= chars@.take(n - 1));
        n -= 1;
    }
    assert(chars@.subrange(0, n as int) =~= chars@.take(n as int));
    between(&chars, 0, n)
}

/// A length of time in seconds, as a decimal number.
pub open spec fn seconds_decimal(t: Span) -> Seq<char> {
    decimal(t.secs as nat) + "."@ + without_zeros(padded(t.nanos as nat, 9))
}

/// A length of time in seconds, as a decimal number.
pub fn seconds_text(t: Span) -> (r: String)
    ensures
        r@ == seconds_decimal(t),
{
    let mut s = decimal_text(t.secs);
    s.append(".");
    s.append(&trim_zeros(&padded_text(t.nanos as u64, 9)));
    s
}

/// The members of a command but for its number.
pub open spec fn command_members(c: MpvCommandView) -> Seq<char> {
    match c {
        MpvCommandView::LoadFile { uri, title } => {
            let load = "\"command\":[\"loadfile\","@ + json_literal(uri) + ",\"replace\"]"@;
            match title {
                Some(title) => load + ",\"options\":{\"force-media-title\":"@ + json_literal(title)
                    + "}"@,
                None => load,
            }
        },
        MpvCommandView::SetTitle(title) => "\"command\":[\"set_property\",\"title\","@
            + json_literal(title) + "]"@,
        MpvCommandView::SetPause(b) => "\"command\":[\"set_property\",\"pause\","@ + json_bool(b)
            + "]"@,
        MpvCommandView::Seek(position) => "\"command\":[\"seek\","@ + seconds_decimal(position)
            + ",\"absolute\",\"exact\"]"@,
        MpvCommandView::SetVolume(volume) => "\"command\":[\"set_property\",\"volume\","@ + decimal(
            volume as nat,
        ) + "]"@,
        MpvCommandView::SetMute(b) => "\"command\":[\"set_property\",\"mute\","@ + json_bool(b)
            + "]"@,
        MpvCommandView::GetProperty(name) => "\"command\":[\"get_property\","@ + json_literal(name)
            + "]"@,
        MpvCommandView::Quit => "\"command\":[\"quit\"]"@,
    }
}

/// A command as it is sent, with its number where an answer is wanted.
pub open spec fn command_line(c: MpvCommandView, number: Option<u64>) -> Seq<char> {
    match number {
        Some(n) => "{"@ + command_members(c) + ",\"request_id\":"@ + decimal(n as nat) + "}\n"@,
        None => "{"@ + command_members(c) + "}\n"@,
    }
}

impl MpvCommand {
    fn members(&self) -> (r: String)
        ensures
            r@ == command_members(self@),
    {
        match self {
            MpvCommand::LoadFile { uri, title } => {
                let mut s = "\"command\":[\"loadfile\",".to_owned();
                s.append(&json_string(uri));
                s.append(",\"replace\"]");
                match title {
                    Some(title) => {
                        s.append(",\"options\":{\"force-media-title\":");
                        s.append(&json_string(title));
                        s.append("}");
                    },
                    None => {},
                }
                s
            },
            MpvCommand::SetTitle(title) => {
                let mut s = "\"command\":[\"set_property\",\"title\",".to_owned();
                s.append(&json_string(title));
                s.append("]");
                s
            },
            MpvCommand::SetPause(b) => {
                let mut s = "\"command\":[\"set_property\",\"pause\",".to_owned();
                s.append(json_bool_text(*b));
                s.append("]");
                s
            },
            MpvCommand::Seek(position) => {
                let mut s = "\"command\":[\"seek\",".to_owned();
                s.append(&seconds_text(*position));
                s.append(",\"absolute\",\"exact\"]");
                s
            },
            MpvCommand::SetVolume(volume) => {
                let mut s = "\"command\":[\"set_property\",\"volume\",".to_owned();
                s.append(&decimal_text(*volume as u64));
                s.append("]");
                s
            },
            MpvCommand::SetMute(b) => {
                let mut s = "\"command\":[\"set_property\",\"mute\",".to_owned();
                s.append(json_bool_text(*b));
                s.append("]");
                s
            },
            MpvCommand::GetProperty(name) => {
                let mut s = "\"command\":[\"get_property\",".to_owned();
                s.append(&json_string(name));
                s.append("]");
                s
            },
            MpvCommand::Quit => "\"command\":[\"quit\"]".to_owned(),
        }
    }

    /// The command as it is sent, with its number where an answer is wanted.
    pub fn line(&self, number: Option<u64>) -> (r: String)
        ensures
            r@ == command_line(self@, number),
    {
        let mut s = "{".to_owned();
        s.append(&self.members());
        match number {
            Some(n) => {
                s.append(",\"request_id\":");
                s.append(&decimal_text(n));
                s.append("}\n");
            },
            None => {
                s.append("}\n");
            },
        }
        s
    }
}

// ---------------------------------------------------------------------------
// Answers
// ---------------------------------------------------------------------------

/// What is read of a member of a JSON object: its whole number, its text, its truth value
/// and its number as text, each where it is such.
pub type MemberParts = (Option<u64>, Option<Seq<char>>, Option<bool>, Option<Seq<char>>);

/// What `serde_json` reads in a line as the member `key` of an object; `None` where the
/// line is not JSON.
pub uninterp spec fn json_member(line: Seq<char>, key: Seq<char>) -> Option<MemberParts>;

/// A member of a JSON object; nothing is there of one that is missing.
struct JsonMember {
    whole: Option<u64>,
    text: Option<String>,
    flag: Option<bool>,
    number: Option<String>,
}

/// The parts of a member, with its texts as sequences of characters.
spec fn member_view(m: Option<JsonMember>) -> Option<MemberParts> {
    match m {
        Some(m) => Some((m.whole, opt_view(m.text), m.flag, opt_view(m.number))),
        None => None,
    }
}

/// Calls `serde_json::from_str` and looks for the member `key` with `Value::get`. Which
/// lines are JSON, and what they hold, is left to its name.
#[verifier::external_body]
fn parse_json_member(line: &str, key: &str) -> (r: Option<JsonMember>)
    ensures
        member_view(r) == json_member(line@, key@),
{
    let value: serde_json::Value = serde_json::from_str(line).ok()?;
    let member = value.get(key);
    Some(JsonMember {
        whole: member.and_then(|v| v.as_u64()),
        text: member.and_then(|v| v.as_str()).map(|s| s.to_owned()),
        flag: member.and_then(|v| v.as_bool()),
        number: member.and_then(|v| v.as_number()).map(|n| n.to_string()),
    })
}

/// An answer of mpv: its number, its error, and its data where that is a truth value or a
/// number, the number as text.
#[derive(Clone, Debug)]
pub struct MpvReply {
    pub request_id: Option<u64>,
    pub error: Option<String>,
    pub flag: Option<bool>,
    pub number: Option<String>,
}

/// The parts of an answer, with its texts as sequences of characters.
pub type ReplyParts = (Option<u64>, Option<Seq<char>>, Option<bool>, Option<Seq<char>>);

/// The parts of an optional answer.
pub open spec fn reply_view(r: Option<MpvReply>) -> Option<ReplyParts> {
    match r {
        Some(reply) => Some(
            (reply.request_id, opt_view(reply.error), reply.flag, opt_view(reply.number)),
        ),
        None => None,
    }
}

/// The answer that these members make up, where all could be looked for.
pub open spec fn reply_of(
    id: Option<MemberParts>,
    error: Option<MemberParts>,
    data: Option<MemberParts>,
) -> Option<ReplyParts> {
    match (id, error, data) {
        (Some(id), Some(error), Some(data)) => Some((id.0, error.1, data.2, data.3)),
        _ => None,
    }
}

/// The answer in a line that mpv sent: its number stands under `request_id`, its error
/// under `error`, and what was asked for under `data`.
pub fn read_reply(line: &str) -> (r: Option<MpvReply>)
    ensures
        reply_view(r) == reply_of(
            json_member(line@, "request_id"@),
            json_member(line@, "error"@),
            json_member(line@, "data"@),
        ),
{
    let id = parse_json_member(line, "request_id");
    let error = parse_json_member(line, "error");
    let data = parse_json_member(line, "data");
    match (id, error, data) {
        (Some(id), Some(error), Some(data)) => Some(
            MpvReply {
                request_id: id.whole,
                error: error.text,
                flag: data.flag,
                number: data.number,
            },
        ),
        _ => None,
    }
}

impl MpvReply {
    /// Whether this is the answer to the command with this number.
    pub fn answers(&self, number: u64) -> (r: bool)
        ensures
            r == (self.request_id == Some(number)),
    {
        match self.request_id {
            Some(id) => id == number,
            None => false,
        }
    }

    /// The error that a command ended with, where it did.
    pub open spec fn failure(&self) -> Option<Seq<char>> {
        match opt_view(self.error) {
            Some(error) => if error != "success"@ {
                Some(error)
            } else {
                None
            },
            None => None,
        }
    }

    /// The message for a command that ended with an error.
    pub fn failure_message(&self) -> (r: Option<String>)
        ensures
            opt_view(r) == match self.failure() {
                Some(error) => Some("mpv command failed: "@ + json_literal(error)),
                None => None,
            },
    {
        match &self.error {
            Some(error) => if same_text(error, "success") {
                None
            } else {
                let mut s = "mpv command failed: ".to_owned();
                s.append(&json_string(error));
                Some(s)
            },
            None => None,
        }
    }
}

/// Whether an error says that mpv is gone.
pub open spec fn says_lost(message: Seq<char>) -> bool {
    ||| contains_text(message, "Broken pipe"@)
    ||| contains_text(message, "os error 32"@)
    ||| contains_text(message, "os error 232"@)
    ||| contains_text(message, "IPC closed"@)
}

/// Whether an error says that mpv is gone, so that it is to be started anew.
pub fn is_pipe_error(message: &str) -> (r: bool)
    ensures
        r == says_lost(message@),
{
    has_text(message, "Broken pipe") || has_text(message, "os error 32") || has_text(
        message,
        "os error 232",
    ) || has_text(message, "IPC closed")
}

// ---------------------------------------------------------------------------
// The player
// ---------------------------------------------------------------------------

/// What a call to the player comes down to.
#[derive(Debug)]
pub enum MpvPlan {
    /// To nothing, as mpv does not run: the answer is known.
    Answer(Answer),
    /// To ending mpv.
    End,
    /// To one command.
    Send(MpvCommand),
    /// To one command and, where that went well, to one whose failure does not matter.
    SendBoth(MpvCommand, MpvCommand),
    /// To reading the properties that the status is made up of.
    ReadStatus,
}

/// A plan with its texts as sequences of characters.
#[verifier::ext_equal]
pub enum MpvPlanView {
    Answer(Answer),
    End,
    Send(MpvCommandView),
    SendBoth(MpvCommandView, MpvCommandView),
    ReadStatus,
}

impl View for MpvPlan {
    type V = MpvPlanView;

    open spec fn view(&self) -> MpvPlanView {
        match self {
            MpvPlan::Answer(answer) => MpvPlanView::Answer(*answer),
            MpvPlan::End => MpvPlanView::End,
            MpvPlan::Send(c) => MpvPlanView::Send(c@),
            MpvPlan::SendBoth(c, d) => MpvPlanView::SendBoth(c@, d@),
            MpvPlan::ReadStatus => MpvPlanView::ReadStatus,
        }
    }
}

/// What a call comes down to. Only loading starts mpv where it does not run.
pub open spec fn mpv_planned(call: CallView, running: bool) -> MpvPlanView {
    match call {
        CallView::Load { uri, title } => match title {
            Some(t) => MpvPlanView::SendBoth(
                MpvCommandView::LoadFile { uri, title },
                MpvCommandView::SetTitle(t),
            ),
            None => MpvPlanView::Send(MpvCommandView::LoadFile { uri, title }),
        },
        CallView::Stop => MpvPlanView::End,
        CallView::Status => if running {
            MpvPlanView::ReadStatus
        } else {
            MpvPlanView::Answer(Answer::Status(idle_status()))
        },
        _ => if !running {
            MpvPlanView::Answer(Answer::Done)
        } else {
            match call {
                CallView::Play => MpvPlanView::Send(MpvCommandView::SetPause(false)),
                CallView::Pause => MpvPlanView::Send(MpvCommandView::SetPause(true)),
                CallView::Seek(position) => MpvPlanView::Send(MpvCommandView::Seek(position)),
                CallView::SetVolume(volume) => MpvPlanView::Send(
                    MpvCommandView::SetVolume(capped(volume)),
                ),
                CallView::SetMute(muted) => MpvPlanView::Send(MpvCommandView::SetMute(muted)),
                _ => MpvPlanView::Answer(Answer::Done),
            }
        },
    }
}

/// What a call comes down to.
pub fn mpv_plan(call: &PlayerCall, running: bool) -> (r: MpvPlan)
    ensures
        r@ == mpv_planned(call@, running),
{
    match call {
        PlayerCall::Load { uri, title } => match title {
            Some(t) => MpvPlan::SendBoth(
                MpvCommand::LoadFile { uri: uri.clone(), title: Some(t.clone()) },
                MpvCommand::SetTitle(t.clone()),
            ),
            None => MpvPlan::Send(MpvCommand::LoadFile { uri: uri.clone(), title: None }),
        },
        PlayerCall::Stop => MpvPlan::End,
        PlayerCall::Status => if running {
            MpvPlan::ReadStatus
        } else {
            MpvPlan::Answer(Answer::Status(PlayerStatus::default()))
        },
        PlayerCall::Play => if running {
            MpvPlan::Send(MpvCommand::SetPause(false))
        } else {
            MpvPlan::Answer(Answer::Done)
        },
        PlayerCall::Pause => if running {
            MpvPlan::Send(MpvCommand::SetPause(true))
        } else {
            MpvPlan::Answer(Answer::Done)
        },
        PlayerCall::Seek(position) => if running {
            MpvPlan::Send(MpvCommand::Seek(*position))
        } else {
            MpvPlan::Answer(Answer::Done)
        },
        PlayerCall::SetVolume(volume) => if running {
            let level: u8 = if *volume > 100 {
                100
            } else {
                *volume
            };
            MpvPlan::Send(MpvCommand::SetVolume(level))
        } else {
            MpvPlan::Answer(Answer::Done)
        },
        PlayerCall::SetMute(muted) => if running {
            MpvPlan::Send(MpvCommand::SetMute(*muted))
        } else {
            MpvPlan::Answer(Answer::Done)
        },
    }
}

/// The status that the properties of mpv make up. A property that could not be read
/// counts as that of a player that is idle, at the beginning, and at full volume.
pub open spec fn mpv_observed(
    idle: Option<bool>,
    pause: Option<bool>,
    position: Option<Span>,
    duration: Option<Span>,
    volume: Option<u8>,
    mute: Option<bool>,
) -> PlayerStatus {
    let idle = idle.unwrap_or(true);
    let pause = pause.unwrap_or(false);
    PlayerStatus {
        playing: !idle && !pause,
        paused: !idle && pause,
        position: position.unwrap_or(no_time()),
        duration,
        volume: capped(volume.unwrap_or(100)),
        muted: mute.unwrap_or(false),
    }
}

/// The status that the properties of mpv make up.
pub fn mpv_status(
    idle: Option<bool>,
    pause: Option<bool>,
    position: Option<Span>,
    duration: Option<Span>,
    volume: Option<u8>,
    mute: Option<bool>,
) -> (r: PlayerStatus)
    ensures
        r == mpv_observed(idle, pause, position, duration, volume, mute),
{
    let idle = match idle {
        Some(b) => b,
        None => true,
    };
    let pause = match pause {
        Some(b) => b,
        None => false,
    };
    let level: u8 = match volume {
        Some(v) => if v > 100 {
            100
        } else {
            v
        },
        None => 100,
    };
    PlayerStatus {
        playing: !idle && !pause,
        paused: !idle && pause,
        position: match position {
            Some(p) => p,
            None => Span::zero(),
        },
        duration,
        volume: level,
        muted: match mute {
            Some(b) => b,
            None => false,
        },
    }
}

/// No command goes to mpv while it does not run, but for those that load media and so
/// start it.
pub proof fn law_only_loading_starts_mpv(call: CallView)
    ensures
        !(call is Load) ==> (mpv_planned(call, false) is Answer || mpv_planned(call, false) is End),
{
}

// ---------------------------------------------------------------------------
// Sessions
// ---------------------------------------------------------------------------

/// The arguments that mpv is started with, to be controlled at `endpoint`.
pub open spec fn mpv_options(endpoint: Seq<char>) -> Seq<Seq<char>> {
    seq![
        "--idle=yes"@,
        "--force-window=immediate"@,
        "--no-terminal"@,
        "--keep-open=yes"@,
        "--fullscreen"@,
        "--input-ipc-server="@ + endpoint,
    ]
}

/// The arguments that mpv is started with, to be controlled at `endpoint`.
pub fn mpv_arguments(endpoint: &str) -> (r: Vec<String>)
    ensures
        views(r@) == mpv_options(endpoint@),
{
    let mut server = "--input-ipc-server=".to_owned();
    server.append(endpoint);
    let mut args: Vec<String> = Vec::new();
    args.push("--idle=yes".to_owned());
    args.push("--force-window=immediate".to_owned());
    args.push("--no-terminal".to_owned());
    args.push("--keep-open=yes".to_owned());
    args.push("--fullscreen".to_owned());
    args.push(server);
    assert(views(args@) =~= mpv_options(endpoint@));
    args
}

/// The name of the socket that a process controls mpv at, given at a time in
/// nanoseconds since the beginning of 1970.
pub open spec fn socket_name_text(process: u32, nanos: nat) -> Seq<char> {
    "mini-mdr-"@ + decimal(process as nat) + "-"@ + decimal(nanos) + ".sock"@
}

/// The name of the socket that a process controls mpv at, given at a time.
pub fn socket_name_at(process: u32, time: Span) -> (r: String)
    requires
        time.valid(),
    ensures
        r@ == socket_name_text(process, time.total_nanos() as nat),
{
    let nanos: u128 = time.secs as u128 * 1_000_000_000 + time.nanos as u128;
    let mut s = "mini-mdr-".to_owned();
    s.append(&decimal_text(process as u64));
    s.append("-");
    s.append(&wide_decimal_text(nanos));
    s.append(".sock");
    s
}

/// A new name for the socket that a process controls mpv at. Which one depends on the
/// clock.
pub fn socket_name(process: u32) -> (r: String)
    ensures
        exists|time: Span|
            time.valid() && r@ == #[trigger] socket_name_text(process, time.total_nanos() as nat),
{
    let now = unix_time();
    socket_name_at(process, now)
}

/// How the start of mpv goes on, where it was tried to connect to it.
pub open spec fn mpv_startup(connected: bool, exited: bool, elapsed: Span) -> StartStep {
    if connected {
        StartStep::Ready
    } else if exited {
        StartStep::Exited
    } else if elapsed.secs >= 5 {
        StartStep::TimedOut
    } else {
        StartStep::Again
    }
}

/// How the start of mpv goes on, where it was tried to connect to it: it is ready, or
/// it ended, or it took five seconds, or it is tried again.
pub fn mpv_start_step(connected: bool, exited: bool, elapsed: Span) -> (r: StartStep)
    ensures
        r == mpv_startup(connected, exited, elapsed),
{
    if connected {
        StartStep::Ready
    } else if exited {
        StartStep::Exited
    } else if elapsed.secs >= 5 {
        StartStep::TimedOut
    } else {
        StartStep::Again
    }
}

/// The numbers of the commands to one run of mpv.
#[derive(Debug)]
pub struct MpvLink {
    pub next_request: u64,
}

/// What is done with a line that mpv sent while an answer is waited for.
#[derive(Debug)]
pub enum MpvWaited {
    /// It is not the answer.
    More,
    Answered(MpvReply),
}

impl MpvLink {
    pub fn new() -> (r: Self)
        ensures
            r.next_request == 1,
    {
        MpvLink { next_request: 1 }
    }

    /// Gives a command its number, and hands out how it is sent.
    pub fn issue(&mut self, command: &MpvCommand) -> (r: (u64, String))
        requires
            old(self).next_request < u64::MAX,
        ensures
            r.0 == old(self).next_request,
            r.1@ == command_line(command@, Some(r.0)),
            final(self).next_request == old(self).next_request + 1,
    {
        let id: u64 = self.next_request;
        self.next_request = id + 1;
        (id, command.line(Some(id)))
    }
}

/// What is done with an answer that was read while the one with this number is waited
/// for. Lines that are no answers, and answers to other commands, are passed over.
pub fn await_reply(reply: Option<MpvReply>, number: u64) -> (r: MpvWaited)
    ensures
        match reply {
            Some(reply) => if reply.request_id == Some(number) {
                r == MpvWaited::Answered(reply)
            } else {
                r is More
            },
            None => r is More,
        },
{
    match reply {
        Some(reply) => if reply.answers(number) {
            MpvWaited::Answered(reply)
        } else {
            MpvWaited::More
        },
        None => MpvWaited::More,
    }
}

/// Whether mpv is to be started anew, and a command sent once more, after it failed
/// with this message.
pub open spec fn tried_again(message: Seq<char>, retried: bool) -> bool {
    !retried && says_lost(message)
}

/// Whether mpv is to be started anew, and a command sent once more, after it failed
/// with this message: where mpv is gone, and only once.
pub fn retries(message: &str, retried: bool) -> (r: bool)
    ensures
        r == tried_again(message@, retried),
{
    !retried && is_pipe_error(message)
}

/// The decimal number of a length of time has no line feed.
proof fn lemma_one_line_seconds(t: Span)
    ensures
        one_line(seconds_decimal(t)),
{
    let fraction = padded(t.nanos as nat, 9);
    lemma_one_line_decimal(t.secs as nat);
    lemma_padded_value(t.nanos as nat, 9);
    lemma_one_line_trimmed(fraction);
    reveal_strlit(".");
    lemma_one_line_joined(decimal(t.secs as nat), "."@);
    lemma_one_line_joined(decimal(t.secs as nat) + "."@, without_zeros(fraction));
}

proof fn lemma_one_line_trimmed(s: Seq<char>)
    requires
        one_line(s),
    ensures
        one_line(without_zeros(s)),
    decreases s.len(),
{
    if s.len() > 1 && s.last() == '0' {
        assert forall|i: int| 0 <= i < s.drop_last().len() implies #[trigger] s.drop_last()[i]
            != '\n' by {
            assert(s.drop_last()[i] == s[i]);
        }
        lemma_one_line_trimmed(s.drop_last());
    }
}

/// What stands between two texts without a line feed.
proof fn lemma_one_line_between(a: Seq<char>, b: Seq<char>, c: Seq<char>)
    requires
        one_line(a),
        one_line(b),
        one_line(c),
    ensures
        one_line(a + b + c),
{
    lemma_one_line_joined(a, b);
    lemma_one_line_joined(a + b, c);
}

proof fn lemma_one_line_members(c: MpvCommandView)
    ensures
        one_line(command_members(c)),
{
    reveal_strlit("]");
    match c {
        MpvCommandView::LoadFile { uri, title } => {
            reveal_strlit("\"command\":[\"loadfile\",");
            reveal_strlit(",\"replace\"]");
            reveal_strlit(",\"options\":{\"force-media-title\":");
            reveal_strlit("}");
            let load = "\"command\":[\"loadfile\","@ + json_literal(uri) + ",\"replace\"]"@;
            law_json_string_is_one_line(uri);
            lemma_one_line_between(
                "\"command\":[\"loadfile\","@,
                json_literal(uri),
                ",\"replace\"]"@,
            );
            if let Some(title) = title {
                let options = ",\"options\":{\"force-media-title\":"@;
                law_json_string_is_one_line(title);
                lemma_one_line_between(load, options, json_literal(title));
                lemma_one_line_joined(load + options + json_literal(title), "}"@);
            }
        },
        MpvCommandView::SetTitle(title) => {
            reveal_strlit("\"command\":[\"set_property\",\"title\",");
            law_json_string_is_one_line(title);
            lemma_one_line_between(
                "\"command\":[\"set_property\",\"title\","@,
                json_literal(title),
                "]"@,
            );
        },
        MpvCommandView::SetPause(b) => {
            reveal_strlit("\"command\":[\"set_property\",\"pause\",");
            lemma_one_line_bool(b);
            lemma_one_line_between(
                "\"command\":[\"set_property\",\"pause\","@,
                json_bool(b),
                "]"@,
            );
        },
        MpvCommandView::Seek(position) => {
            reveal_strlit("\"command\":[\"seek\",");
            reveal_strlit(",\"absolute\",\"exact\"]");
            lemma_one_line_seconds(position);
            lemma_one_line_between(
                "\"command\":[\"seek\","@,
                seconds_decimal(position),
                ",\"absolute\",\"exact\"]"@,
            );
        },
        MpvCommandView::SetVolume(volume) => {
            reveal_strlit("\"command\":[\"set_property\",\"volume\",");
            lemma_one_line_decimal(volume as nat);
            lemma_one_line_between(
                "\"command\":[\"set_property\",\"volume\","@,
                decimal(volume as nat),
                "]"@,
            );
        },
        MpvCommandView::SetMute(b) => {
            reveal_strlit("\"command\":[\"set_property\",\"mute\",");
            lemma_one_line_bool(b);
            lemma_one_line_between(
                "\"command\":[\"set_property\",\"mute\","@,
                json_bool(b),
                "]"@,
            );
        },
        MpvCommandView::GetProperty(name) => {
            reveal_strlit("\"command\":[\"get_property\",");
            law_json_string_is_one_line(name);
            lemma_one_line_between(
                "\"command\":[\"get_property\","@,
                json_literal(name),
                "]"@,
            );
        },
        MpvCommandView::Quit => {
            reveal_strlit("\"command\":[\"quit\"]");
        },
    }
}

/// Every command is one line, whatever the addresses and titles in it: it ends with a
/// line feed and holds no other.
pub proof fn law_command_is_one_line(c: MpvCommandView, number: Option<u64>)
    ensures
        command_line(c, number).last() == '\n',
        one_line(command_line(c, number).drop_last()),
{
    reveal_strlit("{");
    reveal_strlit("}");
    reveal_strlit("}\n");
    reveal_strlit(",\"request_id\":");
    let members = command_members(c);
    lemma_one_line_members(c);
    lemma_one_line_joined("{"@, members);
    match number {
        Some(n) => {
            let tag = ",\"request_id\":"@;
            let digits = decimal(n as nat);
            lemma_one_line_decimal(n as nat);
            lemma_one_line_between("{"@ + members, tag, digits);
            lemma_one_line_joined("{"@ + members + tag + digits, "}"@);
            assert(command_line(c, number).drop_last() =~= "{"@ + members + tag + digits + "}"@);
        },
        None => {
            lemma_one_line_joined("{"@ + members, "}"@);
            assert(command_line(c, number).drop_last() =~= "{"@ + members + "}"@);
        },
    }
}

} // verus!
