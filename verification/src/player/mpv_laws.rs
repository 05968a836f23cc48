//! What mpv is asked to do for each call, and what its answers stand for.

use vstd::prelude::*;
use crate::json::{json_bool, json_chars, json_literal};
use crate::json_laws::{json_read, law_json_string_is_read_back};
use crate::number::{
    decimal, digits_value, lemma_decimal_value, lemma_padded_value, padded, uint_value, zeros,
};
use crate::player::mpv::{
    command_line, command_members, mpv_observed, mpv_options, mpv_planned, reply_of,
    seconds_decimal, socket_name_text, without_zeros, MemberParts, MpvCommandView, MpvPlanView,
    MpvReply,
};
use crate::player::{Answer, CallView};
use crate::reading::{behind, lacks, lemma_behind, lemma_number_is_read};
use crate::state::Span;
use crate::text::{find_char, lemma_find_char_unique};

verus! {

/// The commands that a plan sends, one after the other.
pub open spec fn sent(plan: MpvPlanView) -> Seq<MpvCommandView> {
    match plan {
        MpvPlanView::Send(c) => seq![c],
        MpvPlanView::SendBoth(c, d) => seq![c, d],
        _ => seq![],
    }
}

/// Loading sends mpv the address of the media first, whether mpv runs or not, and then its
/// title, exactly where it has one.
pub proof fn law_loading_sends_the_address(
    uri: Seq<char>,
    title: Option<Seq<char>>,
    running: bool,
)
    ensures
        ({
            let commands = sent(mpv_planned(CallView::Load { uri, title }, running));
            &&& commands.len() == if title is Some {
                2int
            } else {
                1
            }
            &&& commands[0] matches MpvCommandView::LoadFile { uri: address, title: name } && address
                == uri && name == title
            &&& title matches Some(name) ==> commands[1] == MpvCommandView::SetTitle(name)
        }),
{
}

/// While mpv runs it is sent the one command that a call stands for: to go on or to hold, the
/// place to go to, the volume, at most 100, or whether the sound is off. To stop ends it, and
/// its status is read.
pub proof fn law_calls_reach_mpv(call: CallView)
    ensures
        ({
            let plan = mpv_planned(call, true);
            &&& call == CallView::Play ==> sent(plan) == seq![MpvCommandView::SetPause(false)]
            &&& call == CallView::Pause ==> sent(plan) == seq![MpvCommandView::SetPause(true)]
            &&& call matches CallView::Seek(at) ==> sent(plan) == seq![MpvCommandView::Seek(at)]
            &&& call matches CallView::SetVolume(volume) ==> sent(plan) == seq![
                MpvCommandView::SetVolume(
                    if volume <= 100 {
                        volume
                    } else {
                        100
                    },
                ),
            ]
            &&& call matches CallView::SetMute(off) ==> sent(plan) == seq![
                MpvCommandView::SetMute(off),
            ]
            &&& call == CallView::Stop ==> plan is End
            &&& call == CallView::Status ==> plan is ReadStatus
        }),
{
}

/// While mpv does not run nothing is sent for any call but loading. Its status is that of a
/// player without media: it neither plays nor is paused, at full volume and with its sound on.
pub proof fn law_idle_mpv_is_left_alone(call: CallView)
    requires
        !(call is Load),
    ensures
        ({
            let plan = mpv_planned(call, false);
            &&& sent(plan).len() == 0 && !(plan is ReadStatus)
            &&& plan is End <==> call == CallView::Stop
            &&& call == CallView::Status ==> (plan matches MpvPlanView::Answer(
                Answer::Status(status),
            ) && !status.playing && !status.paused && status.position == Span { secs: 0, nanos: 0 }
                && status.duration is None && status.volume == 100 && !status.muted)
            &&& call != CallView::Status && call != CallView::Stop ==> plan
                == MpvPlanView::Answer(Answer::Done)
        }),
{
}

/// The status that mpv's properties stand for: an idle player neither plays nor is paused,
/// and any other one is paused where it says so and plays where it does not. What is not
/// known is taken for idle, not paused, at the beginning, at full volume and with its sound
/// on.
pub proof fn law_properties_make_up_the_status(
    idle: Option<bool>,
    pause: Option<bool>,
    position: Option<Span>,
    duration: Option<Span>,
    volume: Option<u8>,
    mute: Option<bool>,
)
    ensures
        ({
            let status = mpv_observed(idle, pause, position, duration, volume, mute);
            &&& status.playing <==> idle == Some(false) && pause != Some(true)
            &&& status.paused <==> idle == Some(false) && pause == Some(true)
            &&& status.duration == duration
            &&& position matches Some(at) ==> status.position == at
            &&& position is None ==> status.position == Span { secs: 0, nanos: 0 }
            &&& status.volume == match volume {
                Some(level) => if level <= 100 {
                    level
                } else {
                    100
                },
                None => 100,
            }
            &&& status.muted <==> mute == Some(true)
        }),
{
}

// ---------------------------------------------------------------------------
// Commands as they are sent
// ---------------------------------------------------------------------------

/// What ends a command: its number, where it has one, and the end of the line.
pub open spec fn command_end(number: Option<u64>) -> Seq<char> {
    match number {
        Some(n) => ",\"request_id\":"@ + decimal(n as nat) + "}\n"@,
        None => "}\n"@,
    }
}

proof fn lemma_command(c: MpvCommandView, number: Option<u64>, start: Seq<char>, rest: Seq<char>)
    requires
        "{"@ + command_members(c) == start + rest,
    ensures
        behind(command_line(c, number), start) == Some(rest + command_end(number)),
{
    lemma_behind(start, rest + command_end(number));
    assert(command_line(c, number) =~= start + (rest + command_end(number)));
}

/// The command that loads media names it, and says that it replaces what there was. Its
/// address and, where it has one, its title are read back as they were given.
pub proof fn law_load_command_is_read(uri: Seq<char>, title: Option<Seq<char>>, number: Option<u64>)
    ensures
        ({
            let line = command_line(MpvCommandView::LoadFile { uri, title }, number);
            &&& behind(line, "{\"command\":[\"loadfile\",\""@) matches Some(text)
            &&& json_read(text) matches Some((address, more))
            &&& address == uri
            &&& match title {
                None => more == ",\"replace\"]"@ + command_end(number),
                Some(name) => {
                    &&& behind(more, ",\"replace\"],\"options\":{\"force-media-title\":\""@) matches Some(
                        given,
                    )
                    &&& json_read(given) == Some((name, "}"@ + command_end(number)))
                },
            }
        }),
{
    let c = MpvCommandView::LoadFile { uri, title };
    let start = "{\"command\":[\"loadfile\",\""@;
    let q = seq!['"'];
    assert("{"@ + "\"command\":[\"loadfile\","@ + q == start) by {
        reveal_strlit("{");
        reveal_strlit("\"command\":[\"loadfile\",");
        reveal_strlit("{\"command\":[\"loadfile\",\"");
        assert("{"@ + "\"command\":[\"loadfile\","@ + q =~= start);
    }
    let tail = match title {
        Some(name) => ",\"replace\"]"@ + ",\"options\":{\"force-media-title\":"@ + json_literal(
            name,
        ) + "}"@,
        None => ",\"replace\"]"@,
    };
    let rest = json_chars(uri) + q + tail;
    assert("{"@ + command_members(c) =~= "{"@ + "\"command\":[\"loadfile\","@ + q + rest);
    lemma_command(c, number, start, rest);
    let more = tail + command_end(number);
    law_json_string_is_read_back(uri, more);
    assert(rest + command_end(number) =~= json_chars(uri) + q + more);
    if let Some(name) = title {
        let options = ",\"replace\"],\"options\":{\"force-media-title\":\""@;
        assert(",\"replace\"]"@ + ",\"options\":{\"force-media-title\":"@ + q == options) by {
            reveal_strlit(",\"replace\"]");
            reveal_strlit(",\"options\":{\"force-media-title\":");
            reveal_strlit(",\"replace\"],\"options\":{\"force-media-title\":\"");
            assert(",\"replace\"]"@ + ",\"options\":{\"force-media-title\":"@ + q =~= options);
        }
        let end = "}"@ + command_end(number);
        law_json_string_is_read_back(name, end);
        let given = json_chars(name) + q + end;
        assert(more =~= ",\"replace\"]"@ + ",\"options\":{\"force-media-title\":"@ + q + given);
        lemma_behind(options, given);
    }
}

/// The command that sets the title says the title.
pub proof fn law_title_command_is_read(title: Seq<char>, number: Option<u64>)
    ensures
        ({
            let line = command_line(MpvCommandView::SetTitle(title), number);
            &&& behind(line, "{\"command\":[\"set_property\",\"title\",\""@) matches Some(text)
            &&& json_read(text) == Some((title, "]"@ + command_end(number)))
        }),
{
    let c = MpvCommandView::SetTitle(title);
    let start = "{\"command\":[\"set_property\",\"title\",\""@;
    let q = seq!['"'];
    assert("{"@ + "\"command\":[\"set_property\",\"title\","@ + q == start) by {
        reveal_strlit("{");
        reveal_strlit("\"command\":[\"set_property\",\"title\",");
        reveal_strlit("{\"command\":[\"set_property\",\"title\",\"");
        assert("{"@ + "\"command\":[\"set_property\",\"title\","@ + q =~= start);
    }
    let rest = json_chars(title) + q + "]"@;
    assert("{"@ + command_members(c) =~= "{"@ + "\"command\":[\"set_property\",\"title\","@ + q
        + rest);
    lemma_command(c, number, start, rest);
    law_json_string_is_read_back(title, "]"@ + command_end(number));
    assert(rest + command_end(number) =~= json_chars(title) + q + ("]"@ + command_end(number)));
}

/// The command that asks for a property names that property.
pub proof fn law_property_command_is_read(name: Seq<char>, number: Option<u64>)
    ensures
        ({
            let line = command_line(MpvCommandView::GetProperty(name), number);
            &&& behind(line, "{\"command\":[\"get_property\",\""@) matches Some(text)
            &&& json_read(text) == Some((name, "]"@ + command_end(number)))
        }),
{
    let c = MpvCommandView::GetProperty(name);
    let start = "{\"command\":[\"get_property\",\""@;
    let q = seq!['"'];
    assert("{"@ + "\"command\":[\"get_property\","@ + q == start) by {
        reveal_strlit("{");
        reveal_strlit("\"command\":[\"get_property\",");
        reveal_strlit("{\"command\":[\"get_property\",\"");
        assert("{"@ + "\"command\":[\"get_property\","@ + q =~= start);
    }
    let rest = json_chars(name) + q + "]"@;
    assert("{"@ + command_members(c) =~= "{"@ + "\"command\":[\"get_property\","@ + q + rest);
    lemma_command(c, number, start, rest);
    law_json_string_is_read_back(name, "]"@ + command_end(number));
    assert(rest + command_end(number) =~= json_chars(name) + q + ("]"@ + command_end(number)));
}

/// The commands that hold mpv, switch its sound off and set its volume say the property that
/// is set, and what it is set to.
pub proof fn law_switches_are_read(on: bool, volume: u8, number: Option<u64>)
    ensures
        behind(
            command_line(MpvCommandView::SetPause(on), number),
            "{\"command\":[\"set_property\",\"pause\","@,
        ) == Some(
            if on {
                "true"@
            } else {
                "false"@
            } + "]"@ + command_end(number),
        ),
        behind(
            command_line(MpvCommandView::SetMute(on), number),
            "{\"command\":[\"set_property\",\"mute\","@,
        ) == Some(
            if on {
                "true"@
            } else {
                "false"@
            } + "]"@ + command_end(number),
        ),
        behind(
            command_line(MpvCommandView::SetVolume(volume), number),
            "{\"command\":[\"set_property\",\"volume\","@,
        ) == Some(decimal(volume as nat) + "]"@ + command_end(number)),
        uint_value(decimal(volume as nat), 10, u8::MAX as int) == Some(volume as nat),
        command_line(MpvCommandView::Quit, number) == "{\"command\":[\"quit\"]"@ + command_end(
            number,
        ),
{
    lemma_number_is_read(volume as nat, u8::MAX as int);
    assert("{"@ + "\"command\":[\"set_property\",\"pause\","@
        == "{\"command\":[\"set_property\",\"pause\","@) by {
        reveal_strlit("{");
        reveal_strlit("\"command\":[\"set_property\",\"pause\",");
        reveal_strlit("{\"command\":[\"set_property\",\"pause\",");
        assert("{"@ + "\"command\":[\"set_property\",\"pause\","@
            =~= "{\"command\":[\"set_property\",\"pause\","@);
    }
    assert("{"@ + "\"command\":[\"set_property\",\"mute\","@
        == "{\"command\":[\"set_property\",\"mute\","@) by {
        reveal_strlit("{");
        reveal_strlit("\"command\":[\"set_property\",\"mute\",");
        reveal_strlit("{\"command\":[\"set_property\",\"mute\",");
        assert("{"@ + "\"command\":[\"set_property\",\"mute\","@
            =~= "{\"command\":[\"set_property\",\"mute\","@);
    }
    assert("{"@ + "\"command\":[\"set_property\",\"volume\","@
        == "{\"command\":[\"set_property\",\"volume\","@) by {
        reveal_strlit("{");
        reveal_strlit("\"command\":[\"set_property\",\"volume\",");
        reveal_strlit("{\"command\":[\"set_property\",\"volume\",");
        assert("{"@ + "\"command\":[\"set_property\",\"volume\","@
            =~= "{\"command\":[\"set_property\",\"volume\","@);
    }
    assert("{"@ + "\"command\":[\"quit\"]"@ == "{\"command\":[\"quit\"]"@) by {
        reveal_strlit("{");
        reveal_strlit("\"command\":[\"quit\"]");
        reveal_strlit("{\"command\":[\"quit\"]");
        assert("{"@ + "\"command\":[\"quit\"]"@ =~= "{\"command\":[\"quit\"]"@);
    }
    let end = command_end(number);
    let b = json_bool(on);
    let pause = MpvCommandView::SetPause(on);
    assert("{"@ + command_members(pause) =~= "{"@ + "\"command\":[\"set_property\",\"pause\","@ + (b
        + "]"@));
    lemma_command(pause, number, "{\"command\":[\"set_property\",\"pause\","@, b + "]"@);
    let mute = MpvCommandView::SetMute(on);
    assert("{"@ + command_members(mute) =~= "{"@ + "\"command\":[\"set_property\",\"mute\","@ + (b
        + "]"@));
    lemma_command(mute, number, "{\"command\":[\"set_property\",\"mute\","@, b + "]"@);
    let level = MpvCommandView::SetVolume(volume);
    let n = decimal(volume as nat);
    assert("{"@ + command_members(level) =~= "{"@ + "\"command\":[\"set_property\",\"volume\","@ + (n
        + "]"@));
    lemma_command(level, number, "{\"command\":[\"set_property\",\"volume\","@, n + "]"@);
    assert(command_line(MpvCommandView::Quit, number) =~= "{"@ + "\"command\":[\"quit\"]"@ + end);
}

/// The command that goes to a place says the place in seconds, counted from the beginning.
pub proof fn law_seek_command_is_read(at: Span, number: Option<u64>)
    ensures
        behind(command_line(MpvCommandView::Seek(at), number), "{\"command\":[\"seek\","@) == Some(
            seconds_decimal(at) + ",\"absolute\",\"exact\"]"@ + command_end(number),
        ),
{
    assert("{"@ + "\"command\":[\"seek\","@ == "{\"command\":[\"seek\","@) by {
        reveal_strlit("{");
        reveal_strlit("\"command\":[\"seek\",");
        reveal_strlit("{\"command\":[\"seek\",");
        assert("{"@ + "\"command\":[\"seek\","@ =~= "{\"command\":[\"seek\","@);
    }
    let c = MpvCommandView::Seek(at);
    let rest = seconds_decimal(at) + ",\"absolute\",\"exact\"]"@;
    assert("{"@ + command_members(c) =~= "{"@ + "\"command\":[\"seek\","@ + rest);
    lemma_command(c, number, "{\"command\":[\"seek\","@, rest);
}

/// A command that is to be answered says its number, and so the answer can be told from
/// others.
pub proof fn law_numbers_are_read(c: MpvCommandView, n: u64)
    ensures
        ({
            let line = command_line(c, Some(n));
            &&& line == "{"@ + command_members(c) + ",\"request_id\":"@ + (decimal(n as nat)
                + "}\n"@)
            &&& uint_value(decimal(n as nat), 10, u64::MAX as int) == Some(n as nat)
        }),
{
    lemma_number_is_read(n as nat, u64::MAX as int);
    assert(command_line(c, Some(n)) =~= "{"@ + command_members(c) + ",\"request_id\":"@ + (decimal(
        n as nat,
    ) + "}\n"@));
}

proof fn lemma_zeros_back(s: Seq<char>)
    requires
        s.len() > 0,
    ensures
        1 <= without_zeros(s).len() <= s.len(),
        without_zeros(s) + zeros(s.len() - without_zeros(s).len()) == s,
    decreases s.len(),
{
    let w = without_zeros(s);
    if s.len() > 1 && s.last() == '0' {
        lemma_zeros_back(s.drop_last());
        let k = s.len() - 1 - w.len();
        assert(w + zeros(k + 1) =~= s.drop_last().push('0'));
        assert(s.drop_last().push('0') =~= s);
    } else {
        assert(w + zeros(0) =~= s);
    }
}

/// A length of time in seconds is its whole seconds, a point, and what is left of a second as
/// a decimal fraction.
pub proof fn law_seconds_are_read(t: Span)
    requires
        t.valid(),
    ensures
        ({
            let text = seconds_decimal(t);
            &&& find_char(text, '.', 0) matches Some(i)
            &&& uint_value(text.take(i), 10, u64::MAX as int) == Some(t.secs as nat)
            &&& ({
                let fraction = text.skip(i + 1);
                &&& 1 <= fraction.len() <= 9
                &&& digits_value(fraction + zeros(9 - fraction.len()), 10) == Some(t.nanos as nat)
            })
        }),
{
    reveal_strlit(".");
    let whole = decimal(t.secs as nat);
    let nine = padded(t.nanos as nat, 9);
    let text = seconds_decimal(t);
    lemma_number_is_read(t.secs as nat, u64::MAX as int);
    assert(lacks(whole, '.'));
    let i = whole.len() as int;
    assert forall|j: int| 0 <= j < i implies text[j] != '.' by {
        assert(text[j] == whole[j]);
    }
    lemma_find_char_unique(text, '.', 0, i);
    assert(text.take(i) =~= whole);
    assert(text.skip(i + 1) =~= without_zeros(nine));
    lemma_padded_value(t.nanos as nat, 9);
    lemma_nine_digits(t.nanos as nat);
    lemma_zeros_back(nine);
}

proof fn lemma_nine_digits(n: nat)
    requires
        n < 1_000_000_000,
    ensures
        padded(n, 9).len() == 9,
{
    reveal_with_fuel(decimal, 10);
}

// ---------------------------------------------------------------------------
// Answers and sessions
// ---------------------------------------------------------------------------

/// mpv is told where it is to be controlled, stays when there is nothing to play, and keeps
/// its window open at the end of media.
pub proof fn law_mpv_is_started_to_be_controlled(endpoint: Seq<char>)
    ensures
        mpv_options(endpoint).contains("--input-ipc-server="@ + endpoint),
        mpv_options(endpoint).contains("--idle=yes"@),
        mpv_options(endpoint).contains("--keep-open=yes"@),
{
    let options = mpv_options(endpoint);
    assert(options[5] == "--input-ipc-server="@ + endpoint);
    assert(options[0] == "--idle=yes"@);
    assert(options[3] == "--keep-open=yes"@);
}

/// Two processes, or one at two times, control mpv at different sockets.
pub proof fn law_sockets_differ(p: u32, m: nat, q: u32, n: nat)
    requires
        socket_name_text(p, m) == socket_name_text(q, n),
    ensures
        p == q && m == n,
{
    reveal_strlit("mini-mdr-");
    reveal_strlit("-");
    reveal_strlit(".sock");
    let s = socket_name_text(p, m);
    let t = socket_name_text(q, n);
    let a = decimal(p as nat);
    let b = decimal(q as nat);
    lemma_number_is_read(p as nat, u32::MAX as int);
    lemma_number_is_read(q as nat, u32::MAX as int);
    assert(lacks(a, '-') && lacks(b, '-'));
    let i = (9 + a.len()) as int;
    let j = (9 + b.len()) as int;
    assert(s[i] == '-' && t[j] == '-');
    if i < j {
        assert(t[i] == b[i - 9]);
    }
    if j < i {
        assert(s[j] == a[j - 9]);
    }
    assert(a =~= s.subrange(9, i));
    assert(b =~= t.subrange(9, j));
    let c = decimal(m);
    let d = decimal(n);
    lemma_decimal_value(m);
    lemma_decimal_value(n);
    assert(c =~= s.subrange(i + 1, s.len() - 5));
    assert(d =~= t.subrange(j + 1, t.len() - 5));
}

/// An answer of mpv is made up of the number under `request_id`, the text under `error`, and the
/// truth value or the number under `data`; a line of which one of them could not be looked for
/// is none.
pub proof fn law_reply_is_made_up_of_its_members(
    id: MemberParts,
    error: MemberParts,
    data: MemberParts,
)
    ensures
        reply_of(Some(id), Some(error), Some(data)) matches Some((number, text, flag, value))
            && number == id.0 && text == error.1 && flag == data.2 && value == data.3,
        reply_of(None, Some(error), Some(data)) is None,
        reply_of(Some(id), None, Some(data)) is None,
        reply_of(Some(id), Some(error), None) is None,
{
}

/// A command failed where its answer names an error other than success.
pub proof fn law_failures_are_named(reply: MpvReply)
    ensures
        reply.error is None ==> reply.failure() is None,
        reply.error matches Some(error) ==> (error@ == "success"@ ==> reply.failure() is None) && (
        error@ != "success"@ ==> reply.failure() == Some(error@)),
{
}

} // verus!
