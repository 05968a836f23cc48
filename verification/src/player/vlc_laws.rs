//! What VLC is asked to do for each call, and what its answers stand for.

use vstd::prelude::*;
use vstd::utf8::{decode_utf8, encode_utf8, encode_utf8_decode_utf8, encode_utf8_valid_utf8};
use crate::encoding::{
    base64_bytes, base64_char, base64_meaning, form_text, law_base64_is_read_back,
    law_percent_encoding_survives, FormError,
};
use crate::bytes::byte_len;
use crate::http::header_value_in;
use crate::number::{decimal, uint_value};
use crate::player::vlc::{
    after_head, after_line, command_address, first_line, reported_volume, tag_text, vlc_begun, vlc_level, vlc_observed, vlc_options,
    vlc_answer, vlc_request_text, vlc_went_on, VlcSound, VlcStepView, VlcWait,
};
use crate::player::{Answer, CallView};
use crate::reading::{
    behind, head_text, header_gap, header_line, lacks, lemma_behind, lemma_head_front,
    lemma_header_one_line, lemma_body_is_read, lemma_first_line,
    lemma_header_behind_first, lemma_joined, lemma_lacks_joined, lemma_names_differ,
    lemma_next_header, lemma_no_headers_yet, lemma_nothing_added, lemma_number_is_read,
    lemma_trim_nothing, nameless, proper, rest_behind, unbroken,
};
use crate::state::Span;
use crate::text::{
    contains_text, find_char, is_white, lemma_find_char_unique, lines_spec, lower, trim_end_spec,
    trim_spec, trim_start_spec,
};

verus! {

/// The volume on VLC's scale that a command sets; none where it sets none.
pub open spec fn level_set(command: Seq<char>) -> Option<nat> {
    match behind(command, "volume&val="@) {
        Some(text) => uint_value(text, 10, u64::MAX as int),
        None => None,
    }
}

/// Whether a volume on VLC's scale, on which 256 is full volume, is that of a volume in
/// percent: the greatest one that is not louder.
pub open spec fn level_of(level: nat, percent: int) -> bool {
    level * 100 <= percent * 256 < (level + 1) * 100
}

/// The volume in percent, at most 100.
pub open spec fn at_most_full(percent: u8) -> int {
    if percent <= 100 {
        percent as int
    } else {
        100
    }
}

proof fn lemma_level_set(level: nat)
    requires
        level <= 256,
    ensures
        level_set("volume&val="@ + decimal(level)) == Some(level),
{
    lemma_behind("volume&val="@, decimal(level));
    lemma_number_is_read(level, u64::MAX as int);
}

/// Loading sends VLC the address of the media, whether VLC runs or not: what the command
/// names is, decoded, that address. The sound is then switched off where it was off.
pub proof fn law_loading_sends_the_address_to_vlc(
    uri: Seq<char>,
    title: Option<Seq<char>>,
    running: bool,
    sound: VlcSound,
)
    ensures
        ({
            let (step, after) = vlc_begun(CallView::Load { uri, title }, running, sound);
            &&& after == sound
            &&& step matches VlcStepView::Post(command, wait)
            &&& behind(command, "in_play&input="@) matches Some(text)
            &&& form_text(text) == Ok::<Seq<char>, FormError>(uri)
            &&& wait == if sound.muted {
                VlcWait::Loaded
            } else {
                VlcWait::Last
            }
        }),
{
    let text = crate::encoding::percent_bytes(encode_utf8(uri));
    lemma_behind("in_play&input="@, text);
    law_percent_encoding_survives(uri);
}

/// Once media was loaded while the sound is off, the volume is set to nothing, and that ends
/// the call.
pub proof fn law_loaded_media_stays_silent(reply: Seq<char>, sound: VlcSound)
    ensures
        ({
            let (step, after) = vlc_went_on(VlcWait::Loaded, Some(reply), sound);
            &&& after == sound
            &&& step matches VlcStepView::Post(command, wait)
            &&& level_set(command) == Some(0nat)
            &&& wait == VlcWait::Last
        }),
{
    lemma_level_set(0);
}

/// While VLC runs it is sent the command that a call stands for: to hold, the whole second to
/// go to, or the volume. To play, to switch the sound off and for its status it is asked for
/// its status first, and to stop ends it.
pub proof fn law_calls_reach_vlc(call: CallView, sound: VlcSound)
    ensures
        ({
            let (step, after) = vlc_begun(call, true, sound);
            &&& call == CallView::Pause ==> step == VlcStepView::Post("pl_pause"@, VlcWait::Last)
                && after == sound
            &&& call matches CallView::Seek(at) ==> after == sound && (step matches VlcStepView::Post(
                command,
                wait,
            ) && wait == VlcWait::Last && (behind(command, "seek&val="@) matches Some(text)
                && uint_value(text, 10, u64::MAX as int) == Some(at.secs as nat)))
            &&& call == CallView::Play ==> step == VlcStepView::Get(VlcWait::PlayStatus) && after
                == sound
            &&& call == CallView::Status ==> step == VlcStepView::Get(VlcWait::Status) && after
                == sound
            &&& call == CallView::Stop ==> step == VlcStepView::End && after == sound
        }),
{
    if let CallView::Seek(at) = call {
        lemma_behind("seek&val="@, decimal(at.secs as nat));
        lemma_number_is_read(at.secs as nat, u64::MAX as int);
    }
}

/// Setting the volume sets that of VLC while its sound is on. While the sound is off VLC is
/// sent nothing, and the volume is kept for later.
pub proof fn law_volume_reaches_vlc(volume: u8, running: bool, sound: VlcSound)
    ensures
        ({
            let (step, after) = vlc_begun(CallView::SetVolume(volume), running, sound);
            &&& !sound.muted ==> after == sound
            &&& !sound.muted && running ==> (step matches VlcStepView::Post(command, wait) && wait
                == VlcWait::Last && (level_set(command) matches Some(level) && level_of(
                level,
                at_most_full(volume),
            )))
            &&& !sound.muted && !running ==> step == VlcStepView::Finished(Answer::Done)
            &&& sound.muted ==> step == VlcStepView::Finished(Answer::Done) && after.muted
                && after.pre_mute_volume == at_most_full(volume)
        }),
{
    lemma_level_set(vlc_level(volume));
}

/// Switching the sound off asks VLC for its volume, keeps it, and sets the volume to nothing;
/// only then the sound counts as off. Switching it on sets the volume that was kept; only then
/// it counts as on. What is so already is left alone.
pub proof fn law_muting_keeps_the_volume(sound: VlcSound, status: Seq<char>, done: Seq<char>)
    ensures
        ({
            let off = CallView::SetMute(true);
            let on = CallView::SetMute(false);
            &&& sound.muted ==> vlc_begun(off, true, sound) == (
                VlcStepView::Finished(Answer::Done),
                sound,
            )
            &&& !sound.muted ==> vlc_begun(on, true, sound) == (
                VlcStepView::Finished(Answer::Done),
                sound,
            )
            &&& !sound.muted ==> vlc_begun(off, true, sound) == (
                VlcStepView::Get(VlcWait::MuteStatus),
                sound,
            )
            &&& ({
                let (step, kept) = vlc_went_on(VlcWait::MuteStatus, Some(status), sound);
                &&& step matches VlcStepView::Post(command, wait) && level_set(command) == Some(
                    0nat,
                ) && wait == VlcWait::Muting(true)
                &&& kept.pre_mute_volume == reported_volume(status) && kept.muted == sound.muted
            })
            &&& vlc_went_on(VlcWait::Muting(true), Some(done), sound) == (
                VlcStepView::Finished(Answer::Done),
                VlcSound { pre_mute_volume: sound.pre_mute_volume, muted: true },
            )
            &&& sound.muted ==> ({
                let (step, after) = vlc_begun(on, true, sound);
                &&& after == sound
                &&& step matches VlcStepView::Post(command, wait) && wait == VlcWait::Muting(false)
                    && (level_set(command) matches Some(level) && level_of(
                    level,
                    at_most_full(sound.pre_mute_volume),
                ))
            })
            &&& vlc_went_on(VlcWait::Muting(false), Some(done), sound) == (
                VlcStepView::Finished(Answer::Done),
                VlcSound { pre_mute_volume: sound.pre_mute_volume, muted: false },
            )
        }),
{
    lemma_level_set(0);
    lemma_level_set(vlc_level(sound.pre_mute_volume));
}

/// While VLC does not run nothing is sent for any call but loading. Only whether the sound is
/// off is kept, for when VLC runs again.
pub proof fn law_idle_vlc_is_left_alone(call: CallView, sound: VlcSound)
    requires
        !(call is Load),
    ensures
        ({
            let (step, after) = vlc_begun(call, false, sound);
            &&& !(step is Post) && !(step is Get) && !(step is Report)
            &&& step is End <==> call == CallView::Stop
            &&& call == CallView::Status ==> (step matches VlcStepView::Finished(
                Answer::Status(status),
            ) && !status.playing && !status.paused && status.position == Span { secs: 0, nanos: 0 }
                && status.duration is None && status.volume == 100 && !status.muted)
            &&& call != CallView::Status && call != CallView::Stop ==> step
                == VlcStepView::Finished(Answer::Done)
            &&& call matches CallView::SetMute(off) ==> after.muted == off && after.pre_mute_volume
                == sound.pre_mute_volume
            &&& !(call is SetMute) && !(call is SetVolume) ==> after == sound
        }),
{
}

/// Where VLC sends nothing back the call failed, and nothing is kept of it. A paused VLC is
/// told to pause once more, which lets it go on, and any other to play. Its status, once it is
/// there, is reported as it stands.
pub proof fn law_replies_move_calls_on(reply: Seq<char>, wait: VlcWait, sound: VlcSound)
    ensures
        vlc_went_on(wait, None, sound) == (VlcStepView::Finished(Answer::Failed), sound),
        vlc_went_on(VlcWait::Last, Some(reply), sound) == (
            VlcStepView::Finished(Answer::Done),
            sound,
        ),
        vlc_went_on(VlcWait::Status, Some(reply), sound) == (VlcStepView::Report(reply), sound),
        vlc_went_on(VlcWait::PlayStatus, Some(reply), sound) == (
            VlcStepView::Post(
                if tag_text(reply, "state"@) == Some("paused"@) {
                    "pl_pause"@
                } else {
                    "pl_play"@
                },
                VlcWait::Last,
            ),
            sound,
        ),
{
}

/// VLC plays exactly where its state says so, and is paused exactly where that says so. The
/// volume is what it reports, in percent and at most 100, and full where it reports none.
pub proof fn law_vlc_status_is_what_it_reports(
    xml: Seq<char>,
    time: Option<Span>,
    length: Option<Span>,
    muted: bool,
)
    ensures
        ({
            let status = vlc_observed(xml, time, length, muted);
            let level = match tag_text(xml, "volume"@) {
                Some(text) => uint_value(text, 10, u32::MAX as int),
                None => None,
            };
            &&& status.playing <==> tag_text(xml, "state"@) == Some("playing"@)
            &&& status.paused <==> tag_text(xml, "state"@) == Some("paused"@)
            &&& !(status.playing && status.paused)
            &&& status.duration == length
            &&& time matches Some(at) ==> status.position == at
            &&& time is None ==> status.position == Span { secs: 0, nanos: 0 }
            &&& status.muted == muted
            &&& status.volume <= 100
            &&& level is None ==> status.volume == 100
            &&& level matches Some(n) ==> (if n >= 256 {
                status.volume == 100
            } else {
                status.volume * 256 <= n * 100 < (status.volume + 1) * 256
            })
        }),
{
    reveal_strlit("playing");
    reveal_strlit("paused");
    assert("playing"@.len() == 7 && "paused"@.len() == 6);
}

/// A command is sent to the address of VLC's status, by its name.
pub proof fn law_commands_have_an_address(command: Seq<char>)
    ensures
        behind(command_address(command), "/requests/status.xml?command="@) == Some(command),
{
    lemma_behind("/requests/status.xml?command="@, command);
}

/// VLC is started with its web interface, at this port of this machine alone, and with this
/// password.
pub proof fn law_vlc_is_started_to_be_controlled(port: u16, password: Seq<char>)
    ensures
        ({
            let options = vlc_options(port, password);
            &&& options.len() >= 8
            &&& options[0] == "--intf"@ && options[1] == "http"@
            &&& options[2] == "--http-host"@ && options[3] == "127.0.0.1"@
            &&& options[4] == "--http-port"@ && uint_value(options[5], 10, u16::MAX as int) == Some(
                port as nat,
            )
            &&& options[6] == "--http-password"@ && options[7] == password
        }),
{
    lemma_number_is_read(port as nat, u16::MAX as int);
}

/// The password that a request carries, read back from its Base64, is the one that it was
/// made with, behind an empty user name.
pub proof fn law_credentials_are_read(password: Seq<char>)
    ensures
        ({
            let bytes = base64_meaning(base64_bytes(encode_utf8(":"@ + password)));
            decode_utf8(bytes) == ":"@ + password
        }),
{
    law_base64_is_read_back(encode_utf8(":"@ + password));
    encode_utf8_valid_utf8(":"@ + password);
    encode_utf8_decode_utf8(":"@ + password);
}

/// Base64 holds letters, digits and a few signs alone.
proof fn lemma_base64_plain(s: Seq<u8>)
    ensures
        forall|i: int|
            0 <= i < base64_bytes(s).len() ==> '+' <= #[trigger] base64_bytes(s)[i] <= 'z',
        s.len() > 0 ==> base64_bytes(s).len() > 0,
    decreases s.len(),
{
    if s.len() > 0 {
        let t = base64_bytes(s);
        assert(forall|v: int| 0 <= v < 64 ==> '+' <= #[trigger] base64_char(v) <= 'z');
        if s.len() > 3 {
            lemma_base64_plain(s.skip(3));
            assert forall|i: int| 0 <= i < t.len() implies '+' <= #[trigger] t[i] <= 'z' by {
                if i >= 4 {
                    assert(t[i] == base64_bytes(s.skip(3))[i - 4]);
                }
            }
        }
    }
}

/// The headers of a request to VLC without a body.
spec fn query_headers(method: Seq<char>, path: Seq<char>, port: u16, password: Seq<char>) -> Seq<(Seq<char>, Seq<char>)> {
    seq![
        ("Host"@, "127.0.0.1:"@ + decimal(port as nat)),
        ("Authorization"@, "Basic "@ + base64_bytes(encode_utf8(":"@ + password))),
        ("Connection"@, "close"@),
    ]
}

#[verifier::rlimit(40)]
proof fn lemma_query_shape(method: Seq<char>, path: Seq<char>, port: u16, password: Seq<char>)
    requires
        lacks(method, '\n'),
        lacks(path, '\n'),
    ensures
        vlc_request_text(method, path, port, password, Seq::empty()) == method + " "@ + path + " HTTP/1.1"@ + seq!['\r', '\n'] + head_text(query_headers(method, path, port, password)) + seq!['\r', '\n'],
        proper(query_headers(method, path, port, password)),
        lacks(method + " "@ + path + " HTTP/1.1"@, '\n'),
{
    lemma_number_is_read(port as nat, u16::MAX as int);
    lemma_base64_plain(encode_utf8(":"@ + password));
    assert(lacks(decimal(port as nat), '\n'));
    let e = seq!['\r', '\n'];
    let first = method + " "@ + path + " HTTP/1.1"@;
    let tail: Seq<char> = seq!['\r', '\n'];
    let h = query_headers(method, path, port, password);
    assert(" HTTP/1.1\r\nHost: 127.0.0.1:"@ == " HTTP/1.1"@ + header_gap("Host"@) + "127.0.0.1:"@) by {
        reveal_strlit(" HTTP/1.1\r\nHost: 127.0.0.1:");
        reveal_strlit(" HTTP/1.1");
        reveal_strlit("Host");
        reveal_strlit("127.0.0.1:");
        assert(" HTTP/1.1\r\nHost: 127.0.0.1:"@ =~= " HTTP/1.1"@ + header_gap("Host"@) + "127.0.0.1:"@);
    }
    assert("\r\nAuthorization: Basic "@ == header_gap("Authorization"@) + "Basic "@) by {
        reveal_strlit("\r\nAuthorization: Basic ");
        reveal_strlit("Authorization");
        reveal_strlit("Basic ");
        assert("\r\nAuthorization: Basic "@ =~= header_gap("Authorization"@) + "Basic "@);
    }
    assert("\r\nConnection: close"@ == header_gap("Connection"@) + "close"@) by {
        reveal_strlit("\r\nConnection: close");
        reveal_strlit("Connection");
        reveal_strlit("close");
        assert("\r\nConnection: close"@ =~= header_gap("Connection"@) + "close"@);
    }
    let x0 = first;
    let h0 = Seq::<(Seq<char>, Seq<char>)>::empty();
    lemma_no_headers_yet(first);
    let x1 = x0 + header_gap("Host"@) + ("127.0.0.1:"@ + decimal(port as nat));
    let h1 = h0.push(("Host"@, "127.0.0.1:"@ + decimal(port as nat)));
    lemma_next_header(x0, first, h0, "Host"@, "127.0.0.1:"@ + decimal(port as nat));
    let x2 = x1 + header_gap("Authorization"@) + ("Basic "@ + base64_bytes(encode_utf8(":"@ + password)));
    let h2 = h1.push(("Authorization"@, "Basic "@ + base64_bytes(encode_utf8(":"@ + password))));
    lemma_next_header(x1, first, h1, "Authorization"@, "Basic "@ + base64_bytes(encode_utf8(":"@ + password)));
    let x3 = x2 + header_gap("Connection"@) + "close"@;
    let h3 = h2.push(("Connection"@, "close"@));
    lemma_next_header(x2, first, h2, "Connection"@, "close"@);
    assert(h3 =~= h);
    let s1 = method;
    let s2 = s1 + " "@;
    let s3 = s2 + path;
    let s4 = s3 + " HTTP/1.1\r\nHost: 127.0.0.1:"@;
    let s5 = s4 + decimal(port as nat);
    let s6 = s5 + "\r\nAuthorization: Basic "@;
    let s7 = s6 + base64_bytes(encode_utf8(":"@ + password));
    let s8 = s7 + "\r\nConnection: close"@;
    let f1 = method;
    assert(s1 == f1);
    let f2 = f1 + " "@;
    assert(s2 == f2);
    let f3 = f2 + path;
    assert(s3 == f3);
    let f4 = f3 + " HTTP/1.1"@ + header_gap("Host"@) + "127.0.0.1:"@;
    assert(s4 =~= f4);
    let f5 = f4 + decimal(port as nat);
    assert(s5 == f5);
    let f6 = f5 + header_gap("Authorization"@) + "Basic "@;
    assert(s6 =~= f6);
    let f7 = f6 + base64_bytes(encode_utf8(":"@ + password));
    assert(s7 == f7);
    let f8 = f7 + header_gap("Connection"@) + "close"@;
    assert(s8 =~= f8);
    assert(f8 =~= x3);
    assert(vlc_request_text(method, path, port, password, Seq::empty()) == x3 + e + tail) by {
        reveal_strlit("\r\n\r\n");
        assert(s8 + "\r\n\r\n"@ =~= x3 + e + tail);
        assert("\r\nConnection: close\r\n\r\n"@ == "\r\nConnection: close"@ + "\r\n\r\n"@) by {
            reveal_strlit("\r\nConnection: close\r\n\r\n");
            reveal_strlit("\r\nConnection: close");
            reveal_strlit("\r\n\r\n");
            assert("\r\nConnection: close\r\n\r\n"@ =~= "\r\nConnection: close"@ + "\r\n\r\n"@);
        }
        lemma_joined(s7, "\r\nConnection: close"@, "\r\n\r\n"@);
        assert(vlc_request_text(method, path, port, password, Seq::empty()) =~= s8 + "\r\n\r\n"@);
    }
    assert(vlc_request_text(method, path, port, password, Seq::empty()) == first + e + head_text(h) + tail);
    assert(proper(h)) by {
        reveal_strlit("Host");
        reveal_strlit("127.0.0.1:");
        reveal_strlit("Authorization");
        reveal_strlit("Basic ");
        reveal_strlit("Connection");
        reveal_strlit("close");
        lemma_lacks_joined("127.0.0.1:"@, decimal(port as nat), '\n');
        lemma_lacks_joined("Basic "@, base64_bytes(encode_utf8(":"@ + password)), '\n');
        assert forall|k: int| 0 <= k < h.len() implies lacks((#[trigger] h[k]).0, ':') && lacks(
            h[k].0,
            '\n',
        ) && lacks(h[k].1, '\n') by {}
    }
    assert(lacks(first, '\n')) by {
        reveal_strlit(" ");
        reveal_strlit(" HTTP/1.1");
        lemma_lacks_joined(method, " "@, '\n');
        lemma_lacks_joined(method + " "@, path, '\n');
        lemma_lacks_joined(method + " "@ + path, " HTTP/1.1"@, '\n');
    }
}

#[verifier::rlimit(40)]
proof fn lemma_query_read(method: Seq<char>, path: Seq<char>, port: u16, password: Seq<char>)
    requires
        lacks(method, '\n'),
        lacks(path, '\n'),
    ensures
        ({
            let lines = lines_spec(vlc_request_text(method, path, port, password, Seq::empty()));
            &&& lines.len() > 0 && lines[0] == method + " "@ + path + " HTTP/1.1"@
            &&& header_value_in(lines.skip(1), "Host"@) == Some(trim_spec("127.0.0.1:"@ + decimal(port as nat)))
            &&& header_value_in(lines.skip(1), "Authorization"@) == Some(trim_spec("Basic "@ + base64_bytes(encode_utf8(":"@ + password))))
            &&& header_value_in(lines.skip(1), "Connection"@) == Some(trim_spec("close"@))
        }),
{
    lemma_query_shape(method, path, port, password);
    let first = method + " "@ + path + " HTTP/1.1"@;
    let tail: Seq<char> = seq!['\r', '\n'];
    let h = query_headers(method, path, port, password);
    lemma_first_line(first, h, tail);
    assert(nameless(h.take(0), "Host"@)) by {
        reveal_strlit("Host");
        assert forall|k: int| 0 <= k < h.take(0).len() implies lower((#[trigger] h.take(0)[k]).0) != lower(
            "Host"@,
        ) by {
            assert(h.take(0)[k] == h[k]);
        }
    }
    lemma_header_behind_first(first, h, tail, 0, "Host"@);
    assert(nameless(h.take(1), "Authorization"@)) by {
        reveal_strlit("Authorization");
        reveal_strlit("Host");
        lemma_names_differ("Host"@, "Authorization"@, 0);
        assert forall|k: int| 0 <= k < h.take(1).len() implies lower((#[trigger] h.take(1)[k]).0) != lower(
            "Authorization"@,
        ) by {
            assert(h.take(1)[k] == h[k]);
        }
    }
    lemma_header_behind_first(first, h, tail, 1, "Authorization"@);
    assert(nameless(h.take(2), "Connection"@)) by {
        reveal_strlit("Connection");
        reveal_strlit("Host");
        reveal_strlit("Authorization");
        lemma_names_differ("Host"@, "Connection"@, 0);
        lemma_names_differ("Authorization"@, "Connection"@, 0);
        assert forall|k: int| 0 <= k < h.take(2).len() implies lower((#[trigger] h.take(2)[k]).0) != lower(
            "Connection"@,
        ) by {
            assert(h.take(2)[k] == h[k]);
        }
    }
    lemma_header_behind_first(first, h, tail, 2, "Connection"@);
}

/// The headers of a request to VLC with a body.
spec fn form_headers(method: Seq<char>, path: Seq<char>, port: u16, password: Seq<char>, body: Seq<char>) -> Seq<(Seq<char>, Seq<char>)> {
    seq![
        ("Host"@, "127.0.0.1:"@ + decimal(port as nat)),
        ("Authorization"@, "Basic "@ + base64_bytes(encode_utf8(":"@ + password))),
        ("Content-Type"@, "application/x-www-form-urlencoded"@),
        ("Content-Length"@, decimal(byte_len(body))),
        ("Connection"@, "close"@),
    ]
}

#[verifier::rlimit(40)]
proof fn lemma_form_shape(method: Seq<char>, path: Seq<char>, port: u16, password: Seq<char>, body: Seq<char>)
    requires
        body.len() > 0,
        lacks(method, '\n'),
        lacks(path, '\n'),
    ensures
        vlc_request_text(method, path, port, password, body) == method + " "@ + path + " HTTP/1.1"@ + seq!['\r', '\n'] + head_text(form_headers(method, path, port, password, body)) + (seq!['\r', '\n'] + body),
        proper(form_headers(method, path, port, password, body)),
        lacks(method + " "@ + path + " HTTP/1.1"@, '\n'),
{
    lemma_number_is_read(port as nat, u16::MAX as int);
    lemma_base64_plain(encode_utf8(":"@ + password));
    assert(lacks(decimal(port as nat), '\n'));
    lemma_number_is_read(byte_len(body), byte_len(body) as int);
    assert(lacks(decimal(byte_len(body)), '\n'));
    let e = seq!['\r', '\n'];
    let first = method + " "@ + path + " HTTP/1.1"@;
    let tail: Seq<char> = seq!['\r', '\n'] + body;
    let h = form_headers(method, path, port, password, body);
    assert(" HTTP/1.1\r\nHost: 127.0.0.1:"@ == " HTTP/1.1"@ + header_gap("Host"@) + "127.0.0.1:"@) by {
        reveal_strlit(" HTTP/1.1\r\nHost: 127.0.0.1:");
        reveal_strlit(" HTTP/1.1");
        reveal_strlit("Host");
        reveal_strlit("127.0.0.1:");
        assert(" HTTP/1.1\r\nHost: 127.0.0.1:"@ =~= " HTTP/1.1"@ + header_gap("Host"@) + "127.0.0.1:"@);
    }
    assert("\r\nAuthorization: Basic "@ == header_gap("Authorization"@) + "Basic "@) by {
        reveal_strlit("\r\nAuthorization: Basic ");
        reveal_strlit("Authorization");
        reveal_strlit("Basic ");
        assert("\r\nAuthorization: Basic "@ =~= header_gap("Authorization"@) + "Basic "@);
    }
    assert("\r\nContent-Type: application/x-www-form-urlencoded\r\nContent-Length: "@ == header_gap("Content-Type"@) + "application/x-www-form-urlencoded"@ + header_gap("Content-Length"@)) by {
        reveal_strlit("\r\nContent-Type: application/x-www-form-urlencoded\r\nContent-Length: ");
        reveal_strlit("Content-Type");
        reveal_strlit("application/x-www-form-urlencoded");
        reveal_strlit("Content-Length");
        assert("\r\nContent-Type: application/x-www-form-urlencoded\r\nContent-Length: "@ =~= header_gap("Content-Type"@) + "application/x-www-form-urlencoded"@ + header_gap("Content-Length"@));
    }
    assert("\r\nConnection: close"@ == header_gap("Connection"@) + "close"@) by {
        reveal_strlit("\r\nConnection: close");
        reveal_strlit("Connection");
        reveal_strlit("close");
        assert("\r\nConnection: close"@ =~= header_gap("Connection"@) + "close"@);
    }
    let x0 = first;
    let h0 = Seq::<(Seq<char>, Seq<char>)>::empty();
    lemma_no_headers_yet(first);
    let x1 = x0 + header_gap("Host"@) + ("127.0.0.1:"@ + decimal(port as nat));
    let h1 = h0.push(("Host"@, "127.0.0.1:"@ + decimal(port as nat)));
    lemma_next_header(x0, first, h0, "Host"@, "127.0.0.1:"@ + decimal(port as nat));
    let x2 = x1 + header_gap("Authorization"@) + ("Basic "@ + base64_bytes(encode_utf8(":"@ + password)));
    let h2 = h1.push(("Authorization"@, "Basic "@ + base64_bytes(encode_utf8(":"@ + password))));
    lemma_next_header(x1, first, h1, "Authorization"@, "Basic "@ + base64_bytes(encode_utf8(":"@ + password)));
    let x3 = x2 + header_gap("Content-Type"@) + "application/x-www-form-urlencoded"@;
    let h3 = h2.push(("Content-Type"@, "application/x-www-form-urlencoded"@));
    lemma_next_header(x2, first, h2, "Content-Type"@, "application/x-www-form-urlencoded"@);
    let x4 = x3 + header_gap("Content-Length"@) + decimal(byte_len(body));
    let h4 = h3.push(("Content-Length"@, decimal(byte_len(body))));
    lemma_next_header(x3, first, h3, "Content-Length"@, decimal(byte_len(body)));
    let x5 = x4 + header_gap("Connection"@) + "close"@;
    let h5 = h4.push(("Connection"@, "close"@));
    lemma_next_header(x4, first, h4, "Connection"@, "close"@);
    assert(h5 =~= h);
    let s1 = method;
    let s2 = s1 + " "@;
    let s3 = s2 + path;
    let s4 = s3 + " HTTP/1.1\r\nHost: 127.0.0.1:"@;
    let s5 = s4 + decimal(port as nat);
    let s6 = s5 + "\r\nAuthorization: Basic "@;
    let s7 = s6 + base64_bytes(encode_utf8(":"@ + password));
    let s8 = s7 + "\r\nContent-Type: application/x-www-form-urlencoded\r\nContent-Length: "@;
    let s9 = s8 + decimal(byte_len(body));
    let s10 = s9 + "\r\nConnection: close"@;
    let f1 = method;
    assert(s1 == f1);
    let f2 = f1 + " "@;
    assert(s2 == f2);
    let f3 = f2 + path;
    assert(s3 == f3);
    let f4 = f3 + " HTTP/1.1"@ + header_gap("Host"@) + "127.0.0.1:"@;
    assert(s4 =~= f4);
    let f5 = f4 + decimal(port as nat);
    assert(s5 == f5);
    let f6 = f5 + header_gap("Authorization"@) + "Basic "@;
    assert(s6 =~= f6);
    let f7 = f6 + base64_bytes(encode_utf8(":"@ + password));
    assert(s7 == f7);
    let f8 = f7 + header_gap("Content-Type"@) + "application/x-www-form-urlencoded"@ + header_gap("Content-Length"@);
    assert(s8 =~= f8);
    let f9 = f8 + decimal(byte_len(body));
    assert(s9 == f9);
    let f10 = f9 + header_gap("Connection"@) + "close"@;
    assert(s10 =~= f10);
    assert(f10 =~= x5);
    assert(vlc_request_text(method, path, port, password, body) == x5 + e + tail) by {
        reveal_strlit("\r\n\r\n");
        assert(s10 + "\r\n\r\n"@ + body =~= x5 + e + tail);
        assert("\r\nConnection: close\r\n\r\n"@ == "\r\nConnection: close"@ + "\r\n\r\n"@) by {
            reveal_strlit("\r\nConnection: close\r\n\r\n");
            reveal_strlit("\r\nConnection: close");
            reveal_strlit("\r\n\r\n");
            assert("\r\nConnection: close\r\n\r\n"@ =~= "\r\nConnection: close"@ + "\r\n\r\n"@);
        }
        lemma_joined(s9, "\r\nConnection: close"@, "\r\n\r\n"@);
        assert(vlc_request_text(method, path, port, password, body) =~= s10 + "\r\n\r\n"@ + body);
    }
    assert(vlc_request_text(method, path, port, password, body) == first + e + head_text(h) + tail);
    assert(proper(h)) by {
        reveal_strlit("Host");
        reveal_strlit("127.0.0.1:");
        reveal_strlit("Authorization");
        reveal_strlit("Basic ");
        reveal_strlit("Content-Type");
        reveal_strlit("application/x-www-form-urlencoded");
        reveal_strlit("Content-Length");
        reveal_strlit("Connection");
        reveal_strlit("close");
        lemma_lacks_joined("127.0.0.1:"@, decimal(port as nat), '\n');
        lemma_lacks_joined("Basic "@, base64_bytes(encode_utf8(":"@ + password)), '\n');
        assert forall|k: int| 0 <= k < h.len() implies lacks((#[trigger] h[k]).0, ':') && lacks(
            h[k].0,
            '\n',
        ) && lacks(h[k].1, '\n') by {}
    }
    assert(lacks(first, '\n')) by {
        reveal_strlit(" ");
        reveal_strlit(" HTTP/1.1");
        lemma_lacks_joined(method, " "@, '\n');
        lemma_lacks_joined(method + " "@, path, '\n');
        lemma_lacks_joined(method + " "@ + path, " HTTP/1.1"@, '\n');
    }
}

#[verifier::rlimit(40)]
proof fn lemma_form_read(method: Seq<char>, path: Seq<char>, port: u16, password: Seq<char>, body: Seq<char>)
    requires
        body.len() > 0,
        lacks(method, '\n'),
        lacks(path, '\n'),
    ensures
        ({
            let lines = lines_spec(vlc_request_text(method, path, port, password, body));
            &&& lines.len() > 0 && lines[0] == method + " "@ + path + " HTTP/1.1"@
            &&& header_value_in(lines.skip(1), "Host"@) == Some(trim_spec("127.0.0.1:"@ + decimal(port as nat)))
            &&& header_value_in(lines.skip(1), "Authorization"@) == Some(trim_spec("Basic "@ + base64_bytes(encode_utf8(":"@ + password))))
            &&& header_value_in(lines.skip(1), "Content-Type"@) == Some(trim_spec("application/x-www-form-urlencoded"@))
            &&& header_value_in(lines.skip(1), "Content-Length"@) == Some(trim_spec(decimal(byte_len(body))))
            &&& header_value_in(lines.skip(1), "Connection"@) == Some(trim_spec("close"@))
        }),
{
    lemma_form_shape(method, path, port, password, body);
    let first = method + " "@ + path + " HTTP/1.1"@;
    let tail: Seq<char> = seq!['\r', '\n'] + body;
    let h = form_headers(method, path, port, password, body);
    lemma_first_line(first, h, tail);
    assert(nameless(h.take(0), "Host"@)) by {
        reveal_strlit("Host");
        assert forall|k: int| 0 <= k < h.take(0).len() implies lower((#[trigger] h.take(0)[k]).0) != lower(
            "Host"@,
        ) by {
            assert(h.take(0)[k] == h[k]);
        }
    }
    lemma_header_behind_first(first, h, tail, 0, "Host"@);
    assert(nameless(h.take(1), "Authorization"@)) by {
        reveal_strlit("Authorization");
        reveal_strlit("Host");
        lemma_names_differ("Host"@, "Authorization"@, 0);
        assert forall|k: int| 0 <= k < h.take(1).len() implies lower((#[trigger] h.take(1)[k]).0) != lower(
            "Authorization"@,
        ) by {
            assert(h.take(1)[k] == h[k]);
        }
    }
    lemma_header_behind_first(first, h, tail, 1, "Authorization"@);
    assert(nameless(h.take(2), "Content-Type"@)) by {
        reveal_strlit("Content-Type");
        reveal_strlit("Host");
        reveal_strlit("Authorization");
        lemma_names_differ("Host"@, "Content-Type"@, 0);
        lemma_names_differ("Authorization"@, "Content-Type"@, 0);
        assert forall|k: int| 0 <= k < h.take(2).len() implies lower((#[trigger] h.take(2)[k]).0) != lower(
            "Content-Type"@,
        ) by {
            assert(h.take(2)[k] == h[k]);
        }
    }
    lemma_header_behind_first(first, h, tail, 2, "Content-Type"@);
    assert(nameless(h.take(3), "Content-Length"@)) by {
        reveal_strlit("Content-Length");
        reveal_strlit("Host");
        reveal_strlit("Authorization");
        reveal_strlit("Content-Type");
        lemma_names_differ("Host"@, "Content-Length"@, 0);
        lemma_names_differ("Authorization"@, "Content-Length"@, 0);
        lemma_names_differ("Content-Type"@, "Content-Length"@, 0);
        assert forall|k: int| 0 <= k < h.take(3).len() implies lower((#[trigger] h.take(3)[k]).0) != lower(
            "Content-Length"@,
        ) by {
            assert(h.take(3)[k] == h[k]);
        }
    }
    lemma_header_behind_first(first, h, tail, 3, "Content-Length"@);
    assert(nameless(h.take(4), "Connection"@)) by {
        reveal_strlit("Connection");
        reveal_strlit("Host");
        reveal_strlit("Authorization");
        reveal_strlit("Content-Type");
        reveal_strlit("Content-Length");
        lemma_names_differ("Host"@, "Connection"@, 0);
        lemma_names_differ("Authorization"@, "Connection"@, 0);
        lemma_names_differ("Content-Type"@, "Connection"@, 0);
        lemma_names_differ("Content-Length"@, "Connection"@, 0);
        assert forall|k: int| 0 <= k < h.take(4).len() implies lower((#[trigger] h.take(4)[k]).0) != lower(
            "Connection"@,
        ) by {
            assert(h.take(4)[k] == h[k]);
        }
    }
    lemma_header_behind_first(first, h, tail, 4, "Connection"@);
}

/// Whether a header carries this password, behind an empty user name.
pub open spec fn carries(value: Seq<char>, password: Seq<char>) -> bool {
    behind(value, "Basic "@) matches Some(text) && decode_utf8(base64_meaning(text)) == ":"@
        + password
}

/// Whether a header names this port of this machine.
pub open spec fn names_this_machine(value: Seq<char>, port: u16) -> bool {
    behind(value, "127.0.0.1:"@) matches Some(text) && uint_value(text, 10, u16::MAX as int)
        == Some(port as nat)
}

proof fn lemma_request_values(port: u16, password: Seq<char>)
    ensures
        carries(
            trim_spec("Basic "@ + base64_bytes(encode_utf8(":"@ + password))),
            password,
        ),
        names_this_machine(trim_spec("127.0.0.1:"@ + decimal(port as nat)), port),
        trim_spec("close"@) == "close"@,
{
    let text = base64_bytes(encode_utf8(":"@ + password));
    let number = decimal(port as nat);
    lemma_base64_plain(encode_utf8(":"@ + password));
    law_credentials_are_read(password);
    assert(base64_bytes(Seq::<u8>::empty()).len() == 0);
    assert(encode_utf8(":"@ + password).len() > 0) by {
        reveal_strlit(":");
        if encode_utf8(":"@ + password).len() == 0 {
            encode_utf8_decode_utf8(":"@ + password);
            assert(encode_utf8(":"@ + password) =~= encode_utf8(Seq::<char>::empty()));
            encode_utf8_decode_utf8(Seq::<char>::empty());
            assert((":"@ + password).len() > 0);
        }
    }
    lemma_number_is_read(port as nat, u16::MAX as int);
    reveal_strlit("Basic ");
    reveal_strlit("127.0.0.1:");
    reveal_strlit("close");
    let value = "Basic "@ + text;
    assert(value.last() == text.last());
    assert(text.last() == text[text.len() - 1]);
    lemma_trim_nothing(value);
    lemma_behind("Basic "@, text);
    crate::number::lemma_decimal_value(port as nat);
    let host = "127.0.0.1:"@ + number;
    assert(host.last() == number[number.len() - 1]);
    lemma_trim_nothing(host);
    lemma_behind("127.0.0.1:"@, number);
    lemma_trim_nothing("close"@);
}

/// A request to VLC, read back: its first line says the method and the address, its headers the
/// port of this machine and the password, and where it has a body, the length of that, which
/// stands behind them.
pub proof fn law_vlc_request_is_read(
    method: Seq<char>,
    path: Seq<char>,
    port: u16,
    password: Seq<char>,
    body: Seq<char>,
)
    requires
        lacks(method, '\n'),
        lacks(path, '\n'),
    ensures
        ({
            let text = vlc_request_text(method, path, port, password, body);
            let lines = lines_spec(text);
            let headers = lines.skip(1);
            &&& lines.len() > 0 && lines[0] == method + " "@ + path + " HTTP/1.1"@
            &&& header_value_in(headers, "Host"@) matches Some(value) && names_this_machine(
                value,
                port,
            )
            &&& header_value_in(headers, "Authorization"@) matches Some(value) && carries(
                value,
                password,
            )
            &&& header_value_in(headers, "Connection"@) == Some("close"@)
            &&& body.len() > 0 ==> (header_value_in(headers, "Content-Length"@) matches Some(length)
                && uint_value(length, 10, byte_len(body) as int) == Some(byte_len(body)))
            &&& lacks(method, '\r') && lacks(path, '\r') ==> rest_behind(text, "\r\n\r\n"@) == Some(
                body,
            )
        }),
{
    lemma_request_values(port, password);
    let first = method + " "@ + path + " HTTP/1.1"@;
    let plain = lacks(method, '\r') && lacks(path, '\r');
    assert(plain ==> lacks(first, '\r')) by {
        if plain {
            reveal_strlit(" ");
            reveal_strlit(" HTTP/1.1");
            lemma_lacks_joined(method, " "@, '\r');
            lemma_lacks_joined(method + " "@, path, '\r');
            lemma_lacks_joined(method + " "@ + path, " HTTP/1.1"@, '\r');
        }
    }
    if body.len() == 0 {
        assert(body =~= Seq::empty());
        lemma_query_read(method, path, port, password);
        if plain {
            let h = query_headers(method, path, port, password);
            lemma_query_shape(method, path, port, password);
            lemma_request_unbroken(port, password);
            assert(unbroken(h)) by {
                reveal_strlit("Host");
                reveal_strlit("Authorization");
                reveal_strlit("Connection");
                reveal_strlit("close");
            }
            lemma_body_is_read(first, h, body);
            lemma_nothing_added(seq!['\r', '\n']);
        }
    } else {
        lemma_form_read(method, path, port, password, body);
        lemma_number_is_read(byte_len(body), byte_len(body) as int);
        if plain {
            let h = form_headers(method, path, port, password, body);
            lemma_form_shape(method, path, port, password, body);
            lemma_request_unbroken(port, password);
            assert(unbroken(h)) by {
                assert(lacks(decimal(byte_len(body)), '\r'));
                reveal_strlit("Host");
                reveal_strlit("Authorization");
                reveal_strlit("Content-Type");
                reveal_strlit("application/x-www-form-urlencoded");
                reveal_strlit("Content-Length");
                reveal_strlit("Connection");
                reveal_strlit("close");
            }
            lemma_body_is_read(first, h, body);
        }
    }
}

proof fn lemma_request_unbroken(port: u16, password: Seq<char>)
    ensures
        lacks("127.0.0.1:"@ + decimal(port as nat), '\r'),
        lacks("Basic "@ + base64_bytes(encode_utf8(":"@ + password)), '\r'),
{
    let text = base64_bytes(encode_utf8(":"@ + password));
    lemma_number_is_read(port as nat, u16::MAX as int);
    lemma_base64_plain(encode_utf8(":"@ + password));
    assert(lacks(text, '\r')) by {
        assert forall|i: int| 0 <= i < text.len() implies #[trigger] text[i] != '\r' by {}
    }
    reveal_strlit("127.0.0.1:");
    reveal_strlit("Basic ");
    lemma_lacks_joined("127.0.0.1:"@, decimal(port as nat), '\r');
    lemma_lacks_joined("Basic "@, text, '\r');
}

/// A text with something in it that is no white space does not become empty when it is trimmed.
proof fn lemma_trim_keeps(s: Seq<char>, i: int)
    requires
        0 <= i < s.len(),
        !is_white(s[i]),
    ensures
        trim_spec(s).len() > 0,
{
    lemma_trim_start_keeps(s, i);
}

proof fn lemma_trim_start_keeps(s: Seq<char>, i: int)
    requires
        0 <= i < s.len(),
        !is_white(s[i]),
    ensures
        trim_spec(s).len() > 0,
    decreases s.len(),
{
    if is_white(s[0]) {
        let rest = s.skip(1);
        assert(rest[i - 1] == s[i]);
        lemma_trim_start_keeps(rest, i - 1);
    } else {
        lemma_trim_end_keeps(s, i);
    }
}

proof fn lemma_trim_end_keeps(s: Seq<char>, i: int)
    requires
        0 <= i < s.len(),
        !is_white(s[i]),
    ensures
        trim_end_spec(s).len() > 0,
    decreases s.len(),
{
    if is_white(s.last()) {
        assert(s.drop_last()[i] == s[i]);
        lemma_trim_end_keeps(s.drop_last(), i);
    }
}

proof fn lemma_line_split(line: Seq<char>, rest: Seq<char>)
    requires
        lacks(line, '\n'),
    ensures
        ({
            let s = line + seq!['\r', '\n'] + rest;
            &&& find_char(s, '\n', 0) == Some((line.len() + 1) as int)
            &&& first_line(s) == line + seq!['\r']
            &&& after_line(s) == rest
        }),
{
    let s = line + seq!['\r', '\n'] + rest;
    let n = line.len() as int;
    assert forall|j: int| 0 <= j < n + 1 implies s[j] != '\n' by {
        if j < n {
            assert(s[j] == line[j]);
        }
    }
    lemma_find_char_unique(s, '\n', 0, n + 1);
    assert(s.take(n + 1) =~= line + seq!['\r']);
    assert(s.skip(n + 2) =~= rest);
}

proof fn lemma_head_is_passed(h: Seq<(Seq<char>, Seq<char>)>, body: Seq<char>)
    requires
        proper(h),
    ensures
        after_head(head_text(h) + (seq!['\r', '\n'] + body)) == body,
    decreases h.len(),
{
    let e = seq!['\r', '\n'];
    if h.len() == 0 {
        let none = Seq::<char>::empty();
        lemma_line_split(none, body);
        assert(head_text(h) + (e + body) =~= none + e + body);
        assert(is_white('\r'));
        assert((none + seq!['\r']).skip(1) =~= none);
        assert(trim_start_spec(none + seq!['\r']) == trim_start_spec(none));
    } else {
        let rest = h.skip(1);
        let (name, value) = h[0];
        assert(proper(rest)) by {
            assert forall|k: int| 0 <= k < rest.len() implies lacks((#[trigger] rest[k]).0, ':')
                && lacks(rest[k].0, '\n') && lacks(rest[k].1, '\n') by {
                assert(rest[k] == h[k + 1]);
            }
        }
        lemma_head_is_passed(rest, body);
        lemma_head_front(h);
        let line = header_line(name, value);
        let more = head_text(rest) + (e + body);
        lemma_header_one_line(name, value);
        lemma_line_split(line, more);
        let s = line + e + more;
        assert(head_text(h) + (e + body) =~= s);
        let first = line + seq!['\r'];
        assert(first[name.len() as int] == ':');
        lemma_trim_keeps(first, name.len() as int);
        assert(s.skip((line.len() + 2) as int) =~= more);
    }
}

/// What VLC answers with, where its first line says that all went well, is what stands behind the
/// headers of its answer; otherwise the first line says what went wrong.
pub proof fn law_vlc_answer_is_read(
    first: Seq<char>,
    h: Seq<(Seq<char>, Seq<char>)>,
    body: Seq<char>,
)
    requires
        lacks(first, '\n'),
        proper(h),
    ensures
        ({
            let answer = vlc_answer(
                first + seq!['\r', '\n'] + (head_text(h) + (seq!['\r', '\n'] + body)),
            );
            &&& contains_text(first + seq!['\r'], "200"@) ==> answer == Ok::<Seq<char>, Seq<char>>(
                body,
            )
            &&& !contains_text(first + seq!['\r'], "200"@) ==> answer == Err::<
                Seq<char>,
                Seq<char>,
            >(trim_spec(first + seq!['\r']))
        }),
{
    lemma_line_split(first, head_text(h) + (seq!['\r', '\n'] + body));
    lemma_head_is_passed(h, body);
}

} // verus!
