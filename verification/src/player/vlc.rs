//! Driving VLC by its web interface.

use vstd::prelude::*;
use vstd::string::StringExecFns;
use vstd::utf8::encode_utf8;
use crate::bytes::{byte_count, byte_len};
use crate::encoding::{base64_bytes, base64_encode, percent_bytes, percent_encode};
use crate::http::{before, text_before};
use crate::number::{decimal, decimal_text, parse_uint, uint_value};
use crate::player::program::{capped, StartStep};
use crate::player::{idle_status, Answer, CallView, PlayerCall, PlayerStatus};
use crate::state::{no_time, Span};
use crate::text::{
    between, char_index, chars_of, contains_text, find_char, find_from, find_index, has_text,
    lemma_find_char, lemma_find_from, opt_view, same_text, starts_at, trim_spec, trim_text, views,
};

verus! {

/// What VLC can play.
pub const VLC_PROTOCOL_INFO: &'static str = "http-get:*:audio/mpeg:*,http-get:*:audio/mp4:*,http-get:*:audio/flac:*,http-get:*:audio/ogg:*,http-get:*:audio/x-flac:*,http-get:*:audio/wav:*,http-get:*:audio/aac:*,http-get:*:video/mp4:*,http-get:*:video/webm:*,http-get:*:video/x-matroska:*,http-get:*:video/mpeg:*,http-get:*:video/quicktime:*,http-get:*:video/x-ms-wmv:*";

// ---------------------------------------------------------------------------
// The web interface
// ---------------------------------------------------------------------------

/// A request to VLC at this port, with this password.
pub open spec fn vlc_request_text(
    method: Seq<char>,
    path: Seq<char>,
    port: u16,
    password: Seq<char>,
    body: Seq<char>,
) -> Seq<char> {
    let head = method + " "@ + path + " HTTP/1.1\r\nHost: 127.0.0.1:"@ + decimal(port as nat)
        + "\r\nAuthorization: Basic "@ + base64_bytes(encode_utf8(":"@ + password));
    if body.len() == 0 {
        head + "\r\nConnection: close\r\n\r\n"@
    } else {
        head + "\r\nContent-Type: application/x-www-form-urlencoded\r\nContent-Length: "@ + decimal(
            byte_len(body),
        ) + "\r\nConnection: close\r\n\r\n"@ + body
    }
}

/// A request to VLC at this port, with this password.
pub fn vlc_request(method: &str, path: &str, port: u16, password: &str, body: &str) -> (r: String)
    ensures
        r@ == vlc_request_text(method@, path@, port, password@, body@),
{
    let mut credentials = ":".to_owned();
    credentials.append(password);
    let mut s = method.to_owned();
    s.append(" ");
    s.append(path);
    s.append(" HTTP/1.1\r\nHost: 127.0.0.1:");
    s.append(&decimal_text(port as u64));
    s.append("\r\nAuthorization: Basic ");
    s.append(&base64_encode(&credentials));
    if body.is_empty() {
        s.append("\r\nConnection: close\r\n\r\n");
    } else {
        s.append("\r\nContent-Type: application/x-www-form-urlencoded\r\nContent-Length: ");
        s.append(&decimal_text(byte_count(body) as u64));
        s.append("\r\nConnection: close\r\n\r\n");
        s.append(body);
    }
    s
}

/// The address of a command.
pub open spec fn command_address(command: Seq<char>) -> Seq<char> {
    "/requests/status.xml?command="@ + command
}

/// The address of a command.
pub fn command_path(command: &str) -> (r: String)
    ensures
        r@ == command_address(command@),
{
    let mut s = "/requests/status.xml?command=".to_owned();
    s.append(command);
    s
}

/// Whether the first line of an answer says that all went well.
pub fn is_success(status_line: &str) -> (r: bool)
    ensures
        r == contains_text(status_line@, "200"@),
{
    has_text(status_line, "200")
}

/// What stands between the first opening and the first closing tag, where the closing
/// one does not come first.
pub open spec fn tag_text(xml: Seq<char>, tag: Seq<char>) -> Option<Seq<char>> {
    let open = "<"@ + tag + ">"@;
    let close = "</"@ + tag + ">"@;
    match (find_from(xml, open, 0), find_from(xml, close, 0)) {
        (Some(i), Some(j)) => if i + open.len() <= j {
            Some(xml.subrange(i + open.len(), j))
        } else {
            None
        },
        _ => None,
    }
}

/// What stands in the first element of this name.
pub fn xml_tag(xml: &str, tag: &str) -> (r: Option<String>)
    ensures
        opt_view(r) == tag_text(xml@, tag@),
{
    let chars = chars_of(xml);
    let mut open = "<".to_owned();
    open.append(tag);
    open.append(">");
    let mut close = "</".to_owned();
    close.append(tag);
    close.append(">");
    let opening = chars_of(&open);
    let closing = chars_of(&close);
    proof {
        lemma_find_from(chars@, opening@, 0);
        lemma_find_from(chars@, closing@, 0);
    }
    match (find_index(&chars, &opening, 0), find_index(&chars, &closing, 0)) {
        (Some(i), Some(j)) => if opening.len() <= chars.len() && i <= chars.len() - opening.len()
            && i + opening.len() <= j {
            Some(between(&chars, i + opening.len(), j))
        } else {
            None
        },
        _ => None,
    }
}

// ---------------------------------------------------------------------------
// Volumes
// ---------------------------------------------------------------------------

/// A volume in percent on VLC's scale, on which 256 is full volume.
pub open spec fn vlc_level(percent: u8) -> nat {
    (capped(percent) * 256 / 100) as nat
}

/// A volume in percent on VLC's scale.
pub fn to_vlc_level(percent: u8) -> (r: u64)
    ensures
        r == vlc_level(percent),
        r <= 256,
{
    let level: u64 = if percent > 100 {
        100
    } else {
        percent as u64
    };
    level * 256 / 100
}

/// The volume in percent, at most 100, that VLC reports; full volume where it reports
/// none.
pub open spec fn reported_volume(xml: Seq<char>) -> u8 {
    match tag_text(xml, "volume"@) {
        Some(text) => match uint_value(text, 10, u32::MAX as int) {
            Some(v) => if v * 100 / 256 > 100 {
                100
            } else {
                (v * 100 / 256) as u8
            },
            None => 100,
        },
        None => 100,
    }
}

/// The volume in percent that VLC reports.
pub fn volume_in(xml: &str) -> (r: u8)
    ensures
        r == reported_volume(xml@),
        r <= 100,
{
    match xml_tag(xml, "volume") {
        Some(text) => match parse_uint(&text, 10, u32::MAX as u64) {
            Some(v) => {
                let percent: u64 = v * 100 / 256;
                if percent > 100 {
                    100
                } else {
                    percent as u8
                }
            },
            None => 100,
        },
        None => 100,
    }
}

/// A volume that is set and read back is at most one percent lower.
pub proof fn law_volume_round_trip(percent: u8)
    requires
        percent <= 100,
    ensures
        percent - 1 <= vlc_level(percent) * 100 / 256 <= percent,
{
}

// ---------------------------------------------------------------------------
// Calls
// ---------------------------------------------------------------------------

/// What is kept of the sound while VLC runs and between its runs.
#[derive(Clone, Copy, Debug, PartialEq, Eq, Structural)]
pub struct VlcSound {
    /// The volume in percent to go back to when the sound comes on again.
    pub pre_mute_volume: u8,
    pub muted: bool,
}

/// The sound of a new player: on, and at full volume.
pub fn full_sound() -> (r: VlcSound)
    ensures
        r == (VlcSound { pre_mute_volume: 100, muted: false }),
{
    VlcSound { pre_mute_volume: 100, muted: false }
}

/// Where in a call the answer of VLC is waited for.
#[derive(Clone, Copy, Debug, PartialEq, Eq, Structural)]
pub enum VlcWait {
    /// After a command that ends the call.
    Last,
    /// After media was loaded while the sound is off.
    Loaded,
    /// For the status, to decide how to play.
    PlayStatus,
    /// For the status, to remember the volume.
    MuteStatus,
    /// After the volume was set, to switch the sound on or off.
    Muting(bool),
    /// For the status, which is the answer.
    Status,
}

/// A step of a call.
#[derive(Debug)]
pub enum VlcStep {
    /// The call ends.
    Finished(Answer),
    /// VLC is ended, and the call with it.
    End,
    /// VLC is sent a command.
    Post(String, VlcWait),
    /// VLC is asked for its status.
    Get(VlcWait),
    /// The call ends with the status in this text.
    Report(String),
}

/// A step with its texts as sequences of characters.
#[verifier::ext_equal]
pub enum VlcStepView {
    Finished(Answer),
    End,
    Post(Seq<char>, VlcWait),
    Get(VlcWait),
    Report(Seq<char>),
}

impl View for VlcStep {
    type V = VlcStepView;

    open spec fn view(&self) -> VlcStepView {
        match self {
            VlcStep::Finished(answer) => VlcStepView::Finished(*answer),
            VlcStep::End => VlcStepView::End,
            VlcStep::Post(command, wait) => VlcStepView::Post(command@, *wait),
            VlcStep::Get(wait) => VlcStepView::Get(*wait),
            VlcStep::Report(xml) => VlcStepView::Report(xml@),
        }
    }
}

/// The command that sets the volume, on VLC's scale.
pub open spec fn volume_command(level: nat) -> Seq<char> {
    "volume&val="@ + decimal(level)
}

fn volume_command_text(level: u64) -> (r: String)
    ensures
        r@ == volume_command(level as nat),
{
    let mut s = "volume&val=".to_owned();
    s.append(&decimal_text(level));
    s
}

/// How a call begins. Only loading starts VLC where it does not run.
pub open spec fn vlc_begun(call: CallView, running: bool, sound: VlcSound) -> (
    VlcStepView,
    VlcSound,
) {
    match call {
        CallView::Load { uri, title } => {
            let command = "in_play&input="@ + percent_bytes(encode_utf8(uri));
            (
                VlcStepView::Post(
                    command,
                    if sound.muted {
                        VlcWait::Loaded
                    } else {
                        VlcWait::Last
                    },
                ),
                sound,
            )
        },
        CallView::Stop => (VlcStepView::End, sound),
        CallView::Play => if running {
            (VlcStepView::Get(VlcWait::PlayStatus), sound)
        } else {
            (VlcStepView::Finished(Answer::Done), sound)
        },
        CallView::Pause => if running {
            (VlcStepView::Post("pl_pause"@, VlcWait::Last), sound)
        } else {
            (VlcStepView::Finished(Answer::Done), sound)
        },
        CallView::Seek(position) => if running {
            (VlcStepView::Post("seek&val="@ + decimal(position.secs as nat), VlcWait::Last), sound)
        } else {
            (VlcStepView::Finished(Answer::Done), sound)
        },
        CallView::SetVolume(volume) => if sound.muted {
            (
                VlcStepView::Finished(Answer::Done),
                VlcSound { pre_mute_volume: capped(volume), ..sound },
            )
        } else if running {
            (VlcStepView::Post(volume_command(vlc_level(volume)), VlcWait::Last), sound)
        } else {
            (VlcStepView::Finished(Answer::Done), sound)
        },
        CallView::SetMute(muted) => if !running {
            (VlcStepView::Finished(Answer::Done), VlcSound { muted, ..sound })
        } else if sound.muted == muted {
            (VlcStepView::Finished(Answer::Done), sound)
        } else if muted {
            (VlcStepView::Get(VlcWait::MuteStatus), sound)
        } else {
            (
                VlcStepView::Post(
                    volume_command(vlc_level(sound.pre_mute_volume)),
                    VlcWait::Muting(false),
                ),
                sound,
            )
        },
        CallView::Status => if running {
            (VlcStepView::Get(VlcWait::Status), sound)
        } else {
            (VlcStepView::Finished(Answer::Status(idle_status())), sound)
        },
    }
}

/// Begins a call.
pub fn vlc_begin(call: &PlayerCall, running: bool, sound: &mut VlcSound) -> (r: VlcStep)
    ensures
        (r@, *final(sound)) == vlc_begun(call@, running, *old(sound)),
{
    match call {
        PlayerCall::Load { uri, title } => {
            let mut command = "in_play&input=".to_owned();
            command.append(&percent_encode(uri));
            if sound.muted {
                VlcStep::Post(command, VlcWait::Loaded)
            } else {
                VlcStep::Post(command, VlcWait::Last)
            }
        },
        PlayerCall::Stop => VlcStep::End,
        PlayerCall::Play => if running {
            VlcStep::Get(VlcWait::PlayStatus)
        } else {
            VlcStep::Finished(Answer::Done)
        },
        PlayerCall::Pause => if running {
            VlcStep::Post("pl_pause".to_owned(), VlcWait::Last)
        } else {
            VlcStep::Finished(Answer::Done)
        },
        PlayerCall::Seek(position) => if running {
            let mut command = "seek&val=".to_owned();
            command.append(&decimal_text(position.secs));
            VlcStep::Post(command, VlcWait::Last)
        } else {
            VlcStep::Finished(Answer::Done)
        },
        PlayerCall::SetVolume(volume) => {
            if sound.muted {
                sound.pre_mute_volume = if *volume > 100 {
                    100
                } else {
                    *volume
                };
                return VlcStep::Finished(Answer::Done);
            }
            if running {
                VlcStep::Post(volume_command_text(to_vlc_level(*volume)), VlcWait::Last)
            } else {
                VlcStep::Finished(Answer::Done)
            }
        },
        PlayerCall::SetMute(muted) => {
            if !running {
                sound.muted = *muted;
                return VlcStep::Finished(Answer::Done);
            }
            if sound.muted == *muted {
                VlcStep::Finished(Answer::Done)
            } else if *muted {
                VlcStep::Get(VlcWait::MuteStatus)
            } else {
                VlcStep::Post(
                    volume_command_text(to_vlc_level(sound.pre_mute_volume)),
                    VlcWait::Muting(false),
                )
            }
        },
        PlayerCall::Status => if running {
            VlcStep::Get(VlcWait::Status)
        } else {
            VlcStep::Finished(Answer::Status(PlayerStatus::default()))
        },
    }
}

/// How a call goes on with what VLC sent back; `None` where it sent nothing.
pub open spec fn vlc_went_on(wait: VlcWait, reply: Option<Seq<char>>, sound: VlcSound) -> (
    VlcStepView,
    VlcSound,
) {
    match reply {
        None => (VlcStepView::Finished(Answer::Failed), sound),
        Some(xml) => match wait {
            VlcWait::Last => (VlcStepView::Finished(Answer::Done), sound),
            VlcWait::Loaded => (VlcStepView::Post(volume_command(0), VlcWait::Last), sound),
            VlcWait::PlayStatus => if tag_text(xml, "state"@) == Some("paused"@) {
                (VlcStepView::Post("pl_pause"@, VlcWait::Last), sound)
            } else {
                (VlcStepView::Post("pl_play"@, VlcWait::Last), sound)
            },
            VlcWait::MuteStatus => (
                VlcStepView::Post(volume_command(0), VlcWait::Muting(true)),
                VlcSound { pre_mute_volume: reported_volume(xml), ..sound },
            ),
            VlcWait::Muting(muted) => (
                VlcStepView::Finished(Answer::Done),
                VlcSound { muted, ..sound },
            ),
            VlcWait::Status => (VlcStepView::Report(xml), sound),
        },
    }
}

/// Goes on with a call with what VLC sent back; `None` where it sent nothing.
pub fn vlc_advance(wait: VlcWait, reply: Option<String>, sound: &mut VlcSound) -> (r: VlcStep)
    ensures
        (r@, *final(sound)) == vlc_went_on(wait, opt_view(reply), *old(sound)),
{
    let xml = match reply {
        Some(xml) => xml,
        None => {
            return VlcStep::Finished(Answer::Failed);
        },
    };
    match wait {
        VlcWait::Last => VlcStep::Finished(Answer::Done),
        VlcWait::Loaded => VlcStep::Post(volume_command_text(0), VlcWait::Last),
        VlcWait::PlayStatus => {
            let paused = match xml_tag(&xml, "state") {
                Some(state) => same_text(&state, "paused"),
                None => false,
            };
            if paused {
                VlcStep::Post("pl_pause".to_owned(), VlcWait::Last)
            } else {
                VlcStep::Post("pl_play".to_owned(), VlcWait::Last)
            }
        },
        VlcWait::MuteStatus => {
            sound.pre_mute_volume = volume_in(&xml);
            VlcStep::Post(volume_command_text(0), VlcWait::Muting(true))
        },
        VlcWait::Muting(muted) => {
            sound.muted = muted;
            VlcStep::Finished(Answer::Done)
        },
        VlcWait::Status => VlcStep::Report(xml),
    }
}

/// The status in what VLC reports, where its time and its length were read so.
pub open spec fn vlc_observed(
    xml: Seq<char>,
    time: Option<Span>,
    length: Option<Span>,
    muted: bool,
) -> PlayerStatus {
    PlayerStatus {
        playing: tag_text(xml, "state"@) == Some("playing"@),
        paused: tag_text(xml, "state"@) == Some("paused"@),
        position: time.unwrap_or(no_time()),
        duration: length,
        volume: reported_volume(xml),
        muted,
    }
}

/// The status in what VLC reports. `time` and `length` are what the elements of these
/// names denote, where they hold a number.
pub fn vlc_status(xml: &str, time: Option<Span>, length: Option<Span>, muted: bool) -> (r:
    PlayerStatus)
    ensures
        r == vlc_observed(xml@, time, length, muted),
{
    let (playing, paused) = match xml_tag(xml, "state") {
        Some(state) => (same_text(&state, "playing"), same_text(&state, "paused")),
        None => (false, false),
    };
    PlayerStatus {
        playing,
        paused,
        position: match time {
            Some(t) => t,
            None => Span::zero(),
        },
        duration: length,
        volume: volume_in(xml),
        muted,
    }
}

/// While the sound is off, setting the volume makes no sound: VLC is sent nothing, and
/// the volume is kept for when the sound comes on again.
pub proof fn law_muted_volume_is_kept(volume: u8, running: bool, sound: VlcSound)
    requires
        sound.muted,
    ensures
        vlc_begun(CallView::SetVolume(volume), running, sound) == (
            VlcStepView::Finished(Answer::Done),
            VlcSound { pre_mute_volume: capped(volume), muted: true },
        ),
        ({
            let kept = vlc_begun(CallView::SetVolume(volume), true, sound).1;
            vlc_begun(CallView::SetMute(false), true, kept).0 == VlcStepView::Post(
                volume_command(vlc_level(volume)),
                VlcWait::Muting(false),
            )
        }),
{
}

/// Ending VLC does not switch the sound on: media that is loaded later is muted too.
pub proof fn law_mute_outlives_vlc(sound: VlcSound, uri: Seq<char>, title: Option<Seq<char>>)
    requires
        sound.muted,
    ensures
        vlc_begun(CallView::Stop, true, sound).1 == sound,
        vlc_begun(CallView::Load { uri, title }, false, sound).0 matches VlcStepView::Post(_, wait)
            && wait == VlcWait::Loaded,
        vlc_went_on(VlcWait::Loaded, Some(seq![]), sound).0 == VlcStepView::Post(
            volume_command(0),
            VlcWait::Last,
        ),
{
}

// ---------------------------------------------------------------------------
// Sessions
// ---------------------------------------------------------------------------

/// The password for the web interface that a process starts VLC with.
pub fn vlc_password(process: u32) -> (r: String)
    ensures
        r@ == "mini-mdr-"@ + decimal(process as nat),
{
    let mut s = "mini-mdr-".to_owned();
    s.append(&decimal_text(process as u64));
    s
}

/// The arguments that VLC is started with.
pub open spec fn vlc_options(port: u16, password: Seq<char>) -> Seq<Seq<char>> {
    seq![
        "--intf"@,
        "http"@,
        "--http-host"@,
        "127.0.0.1"@,
        "--http-port"@,
        decimal(port as nat),
        "--http-password"@,
        password,
        "--no-video-title-show"@,
    ]
}

/// The arguments that VLC is started with.
pub fn vlc_arguments(port: u16, password: &str) -> (r: Vec<String>)
    ensures
        views(r@) == vlc_options(port, password@),
{
    let mut args: Vec<String> = Vec::new();
    args.push("--intf".to_owned());
    args.push("http".to_owned());
    args.push("--http-host".to_owned());
    args.push("127.0.0.1".to_owned());
    args.push("--http-port".to_owned());
    args.push(decimal_text(port as u64));
    args.push("--http-password".to_owned());
    args.push(password.to_owned());
    args.push("--no-video-title-show".to_owned());
    assert(views(args@) =~= vlc_options(port, password@));
    args
}

/// How the start of VLC goes on, where it was looked whether it ended, and tried to
/// connect to it.
pub open spec fn vlc_startup(exited: bool, connected: bool, elapsed: Span) -> StartStep {
    if exited {
        StartStep::Exited
    } else if connected {
        StartStep::Ready
    } else if elapsed.secs >= 5 {
        StartStep::TimedOut
    } else {
        StartStep::Again
    }
}

/// How the start of VLC goes on, where it was looked whether it ended, and tried to
/// connect to it, five seconds at most.
pub fn vlc_start_step(exited: bool, connected: bool, elapsed: Span) -> (r: StartStep)
    ensures
        r == vlc_startup(exited, connected, elapsed),
{
    if exited {
        StartStep::Exited
    } else if connected {
        StartStep::Ready
    } else if elapsed.secs >= 5 {
        StartStep::TimedOut
    } else {
        StartStep::Again
    }
}

/// What follows the first line feed.
pub open spec fn after_line(s: Seq<char>) -> Seq<char> {
    match find_char(s, '\n', 0) {
        Some(i) => s.skip(i + 1),
        None => seq![],
    }
}

/// The first line.
pub open spec fn first_line(s: Seq<char>) -> Seq<char> {
    before(s, '\n')
}

/// What follows the first line that is empty or white.
pub open spec fn after_head(s: Seq<char>) -> Seq<char>
    decreases s.len(),
{
    if s.len() == 0 || trim_spec(first_line(s)).len() == 0 {
        after_line(s)
    } else {
        match find_char(s, '\n', 0) {
            Some(i) => if 0 <= i < s.len() {
                after_head(s.skip(i + 1))
            } else {
                seq![]
            },
            None => seq![],
        }
    }
}

/// What VLC answered with, where its first line says that all went well; otherwise that
/// line.
pub open spec fn vlc_answer(response: Seq<char>) -> Result<Seq<char>, Seq<char>> {
    if contains_text(first_line(response), "200"@) {
        Ok(after_head(after_line(response)))
    } else {
        Err(trim_spec(first_line(response)))
    }
}

fn rest_after_line(s: &str) -> (r: String)
    ensures
        r@ == after_line(s@),
{
    let chars = chars_of(s);
    match char_index(&chars, '\n', 0) {
        Some(i) => {
            assert(chars@.subrange(i + 1, chars@.len() as int) =~= s@.skip(i + 1));
            between(&chars, i + 1, chars.len())
        },
        None => String::new(),
    }
}

fn rest_after_head(s: &str) -> (r: String)
    ensures
        r@ == after_head(s@),
{
    let mut rest = s.to_owned();
    loop
        invariant
            after_head(s@) == after_head(rest@),
        decreases rest@.len(),
    {
        let line = text_before(&rest, '\n');
        proof {
            lemma_find_char(rest@, '\n', 0);
        }
        if trim_text(&line).as_str().is_empty() {
            return rest_after_line(&rest);
        }
        let next = rest_after_line(&rest);
        let more = has_text(&rest, "\n");
        proof {
            reveal_strlit("\n");
            lemma_holds_char(rest@);
            lemma_trim_of_nothing();
        }
        if !more {
            return String::new();
        }
        rest = next;
    }
}

proof fn lemma_trim_of_nothing()
    ensures
        trim_spec(seq![]).len() == 0,
{
}

/// A text holds a line feed where one is found in it.
proof fn lemma_holds_char(s: Seq<char>)
    ensures
        contains_text(s, "\n"@) == (find_char(s, '\n', 0) is Some),
{
    reveal_strlit("\n");
    lemma_find_char(s, '\n', 0);
    match find_char(s, '\n', 0) {
        Some(i) => {
            assert(s.subrange(i, i + 1) =~= "\n"@);
            assert(starts_at(s, "\n"@, i));
        },
        None => {
            if contains_text(s, "\n"@) {
                let i = choose|i: int| starts_at(s, "\n"@, i);
                assert(s.subrange(i, i + 1)[0] == '\n');
            }
        },
    }
}

/// The view of a result.
pub open spec fn vlc_answer_view(r: Result<String, String>) -> Result<Seq<char>, Seq<char>> {
    match r {
        Ok(body) => Ok(body@),
        Err(line) => Err(line@),
    }
}

/// What VLC answered with, where its first line says that all went well; otherwise that
/// line.
pub fn read_vlc_answer(response: &str) -> (r: Result<String, String>)
    ensures
        vlc_answer_view(r) == vlc_answer(response@),
{
    let line = text_before(response, '\n');
    if is_success(&line) {
        Ok(rest_after_head(&rest_after_line(response)))
    } else {
        Err(trim_text(&line))
    }
}

} // verus!
