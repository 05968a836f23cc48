//! What the settings server says to those who read it.

use vstd::prelude::*;
use vstd::utf8::{encode_utf8, encode_utf8_decode_utf8, encode_utf8_valid_utf8};
use crate::bytes::{byte_len, bytes_at, lemma_first_match};
use crate::clock::LocalTime;
use crate::config::ConfigView;
use crate::encoding::form_fields;
use crate::fields::looked_up;
use crate::http::{head_end_mark, header_value_in};
use crate::http_laws::is_word;
use crate::i18n::{message, Language};
use crate::json::{json_bool, json_chars, json_literal};
use crate::json_laws::{json_read, law_json_string_is_read_back};
use crate::number::{decimal, uint_value};
use crate::reading::{
    behind, clear_of, differs_soon, head_text, header_gap, lacks, lemma_behind, lemma_body_is_read,
    lemma_clear_joined, lemma_clear_plain, lemma_clear_text, lemma_first_line,
    lemma_header_behind_first, lemma_joined, lemma_lacks_joined, lemma_mark_found,
    lemma_names_differ, lemma_next_header, lemma_no_headers_yet, lemma_number_is_read,
    lemma_trim_nothing, lemma_value_behind, nameless, proper, rest_behind, unbroken, value_behind,
};
use crate::state::{entry_time, CastState, HistoryEntry, StateView};
use crate::text::{
    find_from, is_control, lemma_find_from, lines_spec, lower, opt_view, replace_all, split_spec,
    starts_at, trim_spec,
};
use crate::web::events::{
    entries_payload, entry_payload, event_message, history_text, law_payloads_are_one_line,
    shown_from, status_payload, stream_next, stream_opening, streamed, EventView, SettingsEvent,
    StreamInput, StreamView, EVENT_STREAM_HEAD,
};
use crate::web::page::{
    indicator_color, indicator_key, language_choice, mpv_page_vars, option_text, page,
    page_language, page_vars, rendered, selected,
};
use crate::web::request::{
    answer_text, bytes_head, first_length, from_origins, is_whole, length_in, request_body,
    request_line, settings_fed, settings_routed, SettingsFed, SettingsRequestError, SettingsRoute,
};
use crate::web::serve::{own_request, served, ServedView, SiteView};
use crate::web::settings::{
    field_text, mpv_settings_fault, saved_payload, saved_text, settings_fault, with_mpv_settings,
    with_settings,
};
use crate::xml::escape_html_spec;
use crate::xml_laws::{
    law_escaped_html_has_no_markup, law_escaped_stands_for_the_text, unescaped,
};

verus! {

// ---------------------------------------------------------------------------
// Payloads
// ---------------------------------------------------------------------------

/// The JSON string at the beginning of a text, and what follows it.
pub open spec fn json_text(s: Seq<char>) -> Option<(Seq<char>, Seq<char>)> {
    if s.len() > 0 && s[0] == '"' {
        json_read(s.skip(1))
    } else {
        None
    }
}

/// What a member of a JSON object says that is a string, and what follows it. `front` is what
/// stands before the string.
pub open spec fn member(s: Seq<char>, front: Seq<char>) -> Option<(Seq<char>, Seq<char>)> {
    match behind(s, front) {
        Some(rest) => json_text(rest),
        None => None,
    }
}

proof fn lemma_member(front: Seq<char>, text: Seq<char>, rest: Seq<char>)
    ensures
        member(front + json_literal(text) + rest, front) == Some((text, rest)),
{
    lemma_joined(front, json_literal(text), rest);
    lemma_behind(front, json_literal(text) + rest);
    law_json_string_is_read_back(text, rest);
    let more = json_chars(text) + seq!['"'] + rest;
    assert((seq!['"'] + more).skip(1) =~= more);
}

/// Whether the services are up and where they are reached is read back from what is told of
/// it.
pub proof fn law_status_is_read(running: bool, address: Option<Seq<char>>)
    ensures
        ({
            let text = status_payload(running, address);
            let end = ",\"running\":"@ + (if running {
                "true"@
            } else {
                "false"@
            }) + "}"@;
            match address {
                Some(a) => member(text, "{\"address\":"@) == Some((a, end)),
                None => behind(text, "{\"address\":"@) == Some("null"@ + end),
            }
        }),
{
    let front = "{\"address\":"@;
    let a = ",\"running\":"@;
    let b = json_bool(running);
    let c = "}"@;
    let value = match address {
        Some(a) => json_literal(a),
        None => "null"@,
    };
    assert(status_payload(running, address) =~= front + value + (a + b + c));
    match address {
        Some(at) => {
            lemma_member(front, at, a + b + c);
        },
        None => {
            lemma_joined(front, value, a + b + c);
            lemma_behind(front, value + (a + b + c));
        },
    }
}

/// The time, the title and the address of an entry of the history are read back from what is
/// told of it; media without a title goes by its address.
pub proof fn law_entry_is_read(time: Seq<char>, uri: Seq<char>, title: Option<Seq<char>>)
    ensures
        ({
            let text = entry_payload(time, uri, title);
            &&& member(text, "{\"time\":"@) matches Some((said, rest)) && said == time && (member(
                rest,
                ",\"title\":"@,
            ) matches Some((name, more)) && name == (match title {
                Some(t) => t,
                None => uri,
            }) && member(more, ",\"uri\":"@) == Some((uri, "}"@)))
        }),
{
    let name = title.unwrap_or(uri);
    let more = ",\"uri\":"@ + json_literal(uri) + "}"@;
    let rest = ",\"title\":"@ + json_literal(name) + more;
    assert(entry_payload(time, uri, title) =~= "{\"time\":"@ + json_literal(time) + rest);
    lemma_member("{\"time\":"@, time, rest);
    lemma_member(",\"title\":"@, name, more);
    lemma_member(",\"uri\":"@, uri, "}"@);
}

/// Whether settings were saved, and what the user is told, is read back from the answer.
pub proof fn law_saved_is_read(ok: bool, text: Seq<char>)
    ensures
        member(saved_payload(ok, text), "{\"message\":"@) == Some(
            (
                text,
                ",\"ok\":"@ + (if ok {
                    "true"@
                } else {
                    "false"@
                }) + "}"@,
            ),
        ),
{
    let end = ",\"ok\":"@ + json_bool(ok) + "}"@;
    assert(saved_payload(ok, text) =~= "{\"message\":"@ + json_literal(text) + end);
    lemma_member("{\"message\":"@, text, end);
}

/// Texts with commas between them.
pub open spec fn listed(items: Seq<Seq<char>>) -> Seq<char>
    decreases items.len(),
{
    if items.len() == 0 {
        seq![]
    } else if items.len() == 1 {
        items[0]
    } else {
        listed(items.drop_last()) + ","@ + items.last()
    }
}

/// What is told of the last `n` entries of the history, the last one first.
pub open spec fn last_entries(
    entries: Seq<HistoryEntry>,
    local: Seq<Option<LocalTime>>,
    n: nat,
) -> Seq<Seq<char>> {
    Seq::new(
        n,
        |k: int|
            {
                let i = entries.len() - 1 - k;
                entry_payload(
                    entry_time(entries[i].timestamp, local[i]),
                    entries[i].uri@,
                    opt_view(entries[i].title),
                )
            },
    )
}

/// The history shows its last entries, as many as are to be shown but always at least one where
/// there are any, and the last one first.
pub proof fn law_history_shows_the_last_entries(
    entries: Seq<HistoryEntry>,
    local: Seq<Option<LocalTime>>,
    limit: int,
    n: nat,
)
    requires
        n <= entries.len(),
        1 <= limit ==> n == limit || n == entries.len() < limit,
        limit < 1 ==> n == 1 || n == entries.len() == 0,
    ensures
        history_text(entries, local, limit) == "{\"entries\":["@ + listed(
            last_entries(entries, local, n),
        ) + "]}"@,
{
    assert(shown_from(entries.len() as int, limit) == entries.len() - n);
    lemma_last_entries(entries, local, n);
}

proof fn lemma_last_entries(
    entries: Seq<HistoryEntry>,
    local: Seq<Option<LocalTime>>,
    n: nat,
)
    requires
        n <= entries.len(),
    ensures
        entries_payload(entries, local, entries.len() - n) == listed(
            last_entries(entries, local, n),
        ),
    decreases n,
{
    let items = last_entries(entries, local, n);
    if n > 1 {
        lemma_last_entries(entries, local, (n - 1) as nat);
        assert(items.drop_last() =~= last_entries(entries, local, (n - 1) as nat));
    }
}

/// An event, read back, says its name and its data.
pub proof fn law_event_is_read(name: Seq<char>, data: Seq<char>)
    requires
        lacks(name, '\n'),
        lacks(name, 'd'),
        lacks(data, '\n'),
    ensures
        value_behind(event_message(name, data), "event: "@, '\n') == Some(name),
        value_behind(event_message(name, data), "data: "@, '\n') == Some(data),
{
    let first = "event: "@;
    let second = "data: "@;
    let line = seq!['\n'];
    assert("\ndata: "@ == line + second) by {
        reveal_strlit("\ndata: ");
        reveal_strlit("data: ");
        assert("\ndata: "@ =~= line + second);
    }
    assert("\n\n"@ == line + line) by {
        reveal_strlit("\n\n");
        assert("\n\n"@ =~= line + line);
    }
    let none = Seq::<char>::empty();
    assert(clear_of(none, first));
    lemma_value_behind(none, first, name, '\n', second + data + (line + line));
    assert(clear_of(first, second) && clear_of(name, second) && clear_of(line, second)) by {
        reveal_strlit("event: ");
        reveal_strlit("data: ");
        lemma_clear_plain(first, second);
        lemma_clear_plain(name, second);
        lemma_clear_plain(line, second);
    }
    lemma_clear_joined(first, name, second);
    lemma_clear_joined(first + name, line, second);
    lemma_value_behind(first + name + line, second, data, '\n', line);
    assert(event_message(name, data) =~= none + first + name + line + (second + data + (line
        + line)));
    assert(event_message(name, data) =~= first + name + line + second + data + line + line);
}

/// What a page is sent for an event says which kind of event it is, and what is told of it.
pub proof fn law_events_are_streamed(event: EventView)
    requires
        event matches EventView::History(payload) ==> lacks(payload, '\n'),
    ensures
        value_behind(streamed(event), "event: "@, '\n') == Some(
            match event {
                EventView::Status { .. } => "status"@,
                EventView::History(_) => "history"@,
            },
        ),
        value_behind(streamed(event), "data: "@, '\n') == Some(
            match event {
                EventView::Status { running, address } => status_payload(running, address),
                EventView::History(payload) => payload,
            },
        ),
{
    reveal_strlit("status");
    reveal_strlit("history");
    match event {
        EventView::Status { running, address } => {
            law_payloads_are_one_line(Seq::empty(), Seq::empty(), 1, running, address);
            assert(lacks(status_payload(running, address), '\n'));
            law_event_is_read("status"@, status_payload(running, address));
        },
        EventView::History(payload) => {
            law_event_is_read("history"@, payload);
        },
    }
}

/// A page that asks for events is told first whether the services are up, and then of the
/// history.
pub proof fn law_stream_begins_with_what_there_is(
    running: bool,
    address: Option<Seq<char>>,
    history: Seq<char>,
)
    requires
        lacks(history, '\n'),
    ensures
        ({
            let messages = stream_opening(running, address, history);
            &&& messages.len() == 3
            &&& messages[0] == EVENT_STREAM_HEAD@
            &&& value_behind(messages[1], "event: "@, '\n') == Some("status"@)
            &&& value_behind(messages[1], "data: "@, '\n') == Some(status_payload(running, address))
            &&& value_behind(messages[2], "event: "@, '\n') == Some("history"@)
            &&& value_behind(messages[2], "data: "@, '\n') == Some(history)
        }),
{
    law_events_are_streamed(EventView::Status { running, address });
    law_events_are_streamed(EventView::History(history));
}

// ---------------------------------------------------------------------------
// Answers
// ---------------------------------------------------------------------------

/// The headers of an answer.
spec fn page_headers(status: Seq<char>, content_type: Seq<char>, body: Seq<char>) -> Seq<(Seq<char>, Seq<char>)> {
    seq![
        ("Content-Type"@, content_type),
        ("Content-Length"@, decimal(byte_len(body))),
        ("Cache-Control"@, "no-store"@),
        ("X-Content-Type-Options"@, "nosniff"@),
        ("Connection"@, "close"@),
    ]
}

#[verifier::rlimit(40)]
proof fn lemma_page_shape(status: Seq<char>, content_type: Seq<char>, body: Seq<char>)
    requires
        lacks(status, '\n'),
        lacks(content_type, '\n'),
    ensures
        answer_text(status, content_type, body) == "HTTP/1.1 "@ + status + seq!['\r', '\n'] + head_text(page_headers(status, content_type, body)) + (seq!['\r', '\n'] + body),
        proper(page_headers(status, content_type, body)),
        lacks("HTTP/1.1 "@ + status, '\n'),
{
    lemma_number_is_read(byte_len(body), byte_len(body) as int);
    assert(lacks(decimal(byte_len(body)), '\n'));
    let e = seq!['\r', '\n'];
    let first = "HTTP/1.1 "@ + status;
    let tail: Seq<char> = seq!['\r', '\n'] + body;
    let h = page_headers(status, content_type, body);
    assert("\r\nContent-Type: "@ == header_gap("Content-Type"@)) by {
        reveal_strlit("\r\nContent-Type: ");
        reveal_strlit("Content-Type");
        assert("\r\nContent-Type: "@ =~= header_gap("Content-Type"@));
    }
    assert("\r\nContent-Length: "@ == header_gap("Content-Length"@)) by {
        reveal_strlit("\r\nContent-Length: ");
        reveal_strlit("Content-Length");
        assert("\r\nContent-Length: "@ =~= header_gap("Content-Length"@));
    }
    assert("\r\nCache-Control: no-store\r\nX-Content-Type-Options: nosniff\r\nConnection: close"@ == header_gap("Cache-Control"@) + "no-store"@ + header_gap("X-Content-Type-Options"@) + "nosniff"@ + header_gap("Connection"@) + "close"@) by {
        reveal_strlit("\r\nCache-Control: no-store\r\nX-Content-Type-Options: nosniff\r\nConnection: close");
        reveal_strlit("Cache-Control");
        reveal_strlit("no-store");
        reveal_strlit("X-Content-Type-Options");
        reveal_strlit("nosniff");
        reveal_strlit("Connection");
        reveal_strlit("close");
        assert("\r\nCache-Control: no-store\r\nX-Content-Type-Options: nosniff\r\nConnection: close"@ =~= header_gap("Cache-Control"@) + "no-store"@ + header_gap("X-Content-Type-Options"@) + "nosniff"@ + header_gap("Connection"@) + "close"@);
    }
    let x0 = first;
    let h0 = Seq::<(Seq<char>, Seq<char>)>::empty();
    lemma_no_headers_yet(first);
    let x1 = x0 + header_gap("Content-Type"@) + content_type;
    let h1 = h0.push(("Content-Type"@, content_type));
    lemma_next_header(x0, first, h0, "Content-Type"@, content_type);
    let x2 = x1 + header_gap("Content-Length"@) + decimal(byte_len(body));
    let h2 = h1.push(("Content-Length"@, decimal(byte_len(body))));
    lemma_next_header(x1, first, h1, "Content-Length"@, decimal(byte_len(body)));
    let x3 = x2 + header_gap("Cache-Control"@) + "no-store"@;
    let h3 = h2.push(("Cache-Control"@, "no-store"@));
    lemma_next_header(x2, first, h2, "Cache-Control"@, "no-store"@);
    let x4 = x3 + header_gap("X-Content-Type-Options"@) + "nosniff"@;
    let h4 = h3.push(("X-Content-Type-Options"@, "nosniff"@));
    lemma_next_header(x3, first, h3, "X-Content-Type-Options"@, "nosniff"@);
    let x5 = x4 + header_gap("Connection"@) + "close"@;
    let h5 = h4.push(("Connection"@, "close"@));
    lemma_next_header(x4, first, h4, "Connection"@, "close"@);
    assert(h5 =~= h);
    let s1 = "HTTP/1.1 "@;
    let s2 = s1 + status;
    let s3 = s2 + "\r\nContent-Type: "@;
    let s4 = s3 + content_type;
    let s5 = s4 + "\r\nContent-Length: "@;
    let s6 = s5 + decimal(byte_len(body));
    let s7 = s6 + "\r\nCache-Control: no-store\r\nX-Content-Type-Options: nosniff\r\nConnection: close"@;
    let f1 = "HTTP/1.1 "@;
    assert(s1 == f1);
    let f2 = f1 + status;
    assert(s2 == f2);
    let f3 = f2 + header_gap("Content-Type"@);
    assert(s3 == f3);
    let f4 = f3 + content_type;
    assert(s4 == f4);
    let f5 = f4 + header_gap("Content-Length"@);
    assert(s5 == f5);
    let f6 = f5 + decimal(byte_len(body));
    assert(s6 == f6);
    let f7 = f6 + header_gap("Cache-Control"@) + "no-store"@ + header_gap("X-Content-Type-Options"@) + "nosniff"@ + header_gap("Connection"@) + "close"@;
    assert(s7 =~= f7);
    assert(f7 =~= x5);
    assert(answer_text(status, content_type, body) == x5 + e + tail) by {
        reveal_strlit("\r\n\r\n");
        assert(s7 + "\r\n\r\n"@ + body =~= x5 + e + tail);
        assert("\r\nCache-Control: no-store\r\nX-Content-Type-Options: nosniff\r\nConnection: close\r\n\r\n"@ == "\r\nCache-Control: no-store\r\nX-Content-Type-Options: nosniff\r\nConnection: close"@ + "\r\n\r\n"@) by {
            reveal_strlit("\r\nCache-Control: no-store\r\nX-Content-Type-Options: nosniff\r\nConnection: close\r\n\r\n");
            reveal_strlit("\r\nCache-Control: no-store\r\nX-Content-Type-Options: nosniff\r\nConnection: close");
            reveal_strlit("\r\n\r\n");
            assert("\r\nCache-Control: no-store\r\nX-Content-Type-Options: nosniff\r\nConnection: close\r\n\r\n"@ =~= "\r\nCache-Control: no-store\r\nX-Content-Type-Options: nosniff\r\nConnection: close"@ + "\r\n\r\n"@);
        }
        lemma_joined(s6, "\r\nCache-Control: no-store\r\nX-Content-Type-Options: nosniff\r\nConnection: close"@, "\r\n\r\n"@);
        assert(answer_text(status, content_type, body) =~= s7 + "\r\n\r\n"@ + body);
    }
    assert(answer_text(status, content_type, body) == first + e + head_text(h) + tail);
    assert(proper(h)) by {
        reveal_strlit("Content-Type");
        reveal_strlit("Content-Length");
        reveal_strlit("Cache-Control");
        reveal_strlit("no-store");
        reveal_strlit("X-Content-Type-Options");
        reveal_strlit("nosniff");
        reveal_strlit("Connection");
        reveal_strlit("close");
        assert forall|k: int| 0 <= k < h.len() implies lacks((#[trigger] h[k]).0, ':') && lacks(
            h[k].0,
            '\n',
        ) && lacks(h[k].1, '\n') by {}
    }
    assert(lacks(first, '\n')) by {
        reveal_strlit("HTTP/1.1 ");
        lemma_lacks_joined("HTTP/1.1 "@, status, '\n');
    }
}

#[verifier::rlimit(40)]
proof fn lemma_page_read(status: Seq<char>, content_type: Seq<char>, body: Seq<char>)
    requires
        lacks(status, '\n'),
        lacks(content_type, '\n'),
    ensures
        ({
            let lines = lines_spec(answer_text(status, content_type, body));
            &&& lines.len() > 0 && lines[0] == "HTTP/1.1 "@ + status
            &&& header_value_in(lines.skip(1), "Content-Type"@) == Some(trim_spec(content_type))
            &&& header_value_in(lines.skip(1), "Content-Length"@) == Some(trim_spec(decimal(byte_len(body))))
            &&& header_value_in(lines.skip(1), "Cache-Control"@) == Some(trim_spec("no-store"@))
            &&& header_value_in(lines.skip(1), "X-Content-Type-Options"@) == Some(trim_spec("nosniff"@))
        }),
{
    lemma_page_shape(status, content_type, body);
    let first = "HTTP/1.1 "@ + status;
    let tail: Seq<char> = seq!['\r', '\n'] + body;
    let h = page_headers(status, content_type, body);
    lemma_first_line(first, h, tail);
    assert(nameless(h.take(0), "Content-Type"@)) by {
        reveal_strlit("Content-Type");
        assert forall|k: int| 0 <= k < h.take(0).len() implies lower((#[trigger] h.take(0)[k]).0) != lower(
            "Content-Type"@,
        ) by {
            assert(h.take(0)[k] == h[k]);
        }
    }
    lemma_header_behind_first(first, h, tail, 0, "Content-Type"@);
    assert(nameless(h.take(1), "Content-Length"@)) by {
        reveal_strlit("Content-Length");
        reveal_strlit("Content-Type");
        lemma_names_differ("Content-Type"@, "Content-Length"@, 0);
        assert forall|k: int| 0 <= k < h.take(1).len() implies lower((#[trigger] h.take(1)[k]).0) != lower(
            "Content-Length"@,
        ) by {
            assert(h.take(1)[k] == h[k]);
        }
    }
    lemma_header_behind_first(first, h, tail, 1, "Content-Length"@);
    assert(nameless(h.take(2), "Cache-Control"@)) by {
        reveal_strlit("Cache-Control");
        reveal_strlit("Content-Type");
        reveal_strlit("Content-Length");
        lemma_names_differ("Content-Type"@, "Cache-Control"@, 0);
        lemma_names_differ("Content-Length"@, "Cache-Control"@, 0);
        assert forall|k: int| 0 <= k < h.take(2).len() implies lower((#[trigger] h.take(2)[k]).0) != lower(
            "Cache-Control"@,
        ) by {
            assert(h.take(2)[k] == h[k]);
        }
    }
    lemma_header_behind_first(first, h, tail, 2, "Cache-Control"@);
    assert(nameless(h.take(3), "X-Content-Type-Options"@)) by {
        reveal_strlit("X-Content-Type-Options");
        reveal_strlit("Content-Type");
        reveal_strlit("Content-Length");
        reveal_strlit("Cache-Control");
        lemma_names_differ("Content-Type"@, "X-Content-Type-Options"@, 0);
        lemma_names_differ("Content-Length"@, "X-Content-Type-Options"@, 0);
        lemma_names_differ("Cache-Control"@, "X-Content-Type-Options"@, 0);
        assert forall|k: int| 0 <= k < h.take(3).len() implies lower((#[trigger] h.take(3)[k]).0) != lower(
            "X-Content-Type-Options"@,
        ) by {
            assert(h.take(3)[k] == h[k]);
        }
    }
    lemma_header_behind_first(first, h, tail, 3, "X-Content-Type-Options"@);
}

/// The headers of an answer with bytes.
spec fn bytes_headers(content_type: Seq<char>, length: nat) -> Seq<(Seq<char>, Seq<char>)> {
    seq![
        ("Content-Type"@, content_type),
        ("Content-Length"@, decimal(length)),
        ("Cache-Control"@, "no-store"@),
        ("Connection"@, "close"@),
    ]
}

#[verifier::rlimit(40)]
proof fn lemma_bytes_shape(content_type: Seq<char>, length: nat)
    requires
        lacks(content_type, '\n'),
    ensures
        bytes_head(content_type, length) == "HTTP/1.1 200 OK"@ + seq!['\r', '\n'] + head_text(bytes_headers(content_type, length)) + seq!['\r', '\n'],
        proper(bytes_headers(content_type, length)),
        lacks("HTTP/1.1 200 OK"@, '\n'),
{
    lemma_number_is_read(length, length as int);
    assert(lacks(decimal(length), '\n'));
    let e = seq!['\r', '\n'];
    let first = "HTTP/1.1 200 OK"@;
    let tail: Seq<char> = seq!['\r', '\n'];
    let h = bytes_headers(content_type, length);
    assert("HTTP/1.1 200 OK\r\nContent-Type: "@ == "HTTP/1.1 200 OK"@ + header_gap("Content-Type"@)) by {
        reveal_strlit("HTTP/1.1 200 OK\r\nContent-Type: ");
        reveal_strlit("HTTP/1.1 200 OK");
        reveal_strlit("Content-Type");
        assert("HTTP/1.1 200 OK\r\nContent-Type: "@ =~= "HTTP/1.1 200 OK"@ + header_gap("Content-Type"@));
    }
    assert("\r\nContent-Length: "@ == header_gap("Content-Length"@)) by {
        reveal_strlit("\r\nContent-Length: ");
        reveal_strlit("Content-Length");
        assert("\r\nContent-Length: "@ =~= header_gap("Content-Length"@));
    }
    assert("\r\nCache-Control: no-store\r\nConnection: close"@ == header_gap("Cache-Control"@) + "no-store"@ + header_gap("Connection"@) + "close"@) by {
        reveal_strlit("\r\nCache-Control: no-store\r\nConnection: close");
        reveal_strlit("Cache-Control");
        reveal_strlit("no-store");
        reveal_strlit("Connection");
        reveal_strlit("close");
        assert("\r\nCache-Control: no-store\r\nConnection: close"@ =~= header_gap("Cache-Control"@) + "no-store"@ + header_gap("Connection"@) + "close"@);
    }
    let x0 = first;
    let h0 = Seq::<(Seq<char>, Seq<char>)>::empty();
    lemma_no_headers_yet(first);
    let x1 = x0 + header_gap("Content-Type"@) + content_type;
    let h1 = h0.push(("Content-Type"@, content_type));
    lemma_next_header(x0, first, h0, "Content-Type"@, content_type);
    let x2 = x1 + header_gap("Content-Length"@) + decimal(length);
    let h2 = h1.push(("Content-Length"@, decimal(length)));
    lemma_next_header(x1, first, h1, "Content-Length"@, decimal(length));
    let x3 = x2 + header_gap("Cache-Control"@) + "no-store"@;
    let h3 = h2.push(("Cache-Control"@, "no-store"@));
    lemma_next_header(x2, first, h2, "Cache-Control"@, "no-store"@);
    let x4 = x3 + header_gap("Connection"@) + "close"@;
    let h4 = h3.push(("Connection"@, "close"@));
    lemma_next_header(x3, first, h3, "Connection"@, "close"@);
    assert(h4 =~= h);
    let s1 = "HTTP/1.1 200 OK\r\nContent-Type: "@;
    let s2 = s1 + content_type;
    let s3 = s2 + "\r\nContent-Length: "@;
    let s4 = s3 + decimal(length);
    let s5 = s4 + "\r\nCache-Control: no-store\r\nConnection: close"@;
    let f1 = "HTTP/1.1 200 OK"@ + header_gap("Content-Type"@);
    assert(s1 == f1);
    let f2 = f1 + content_type;
    assert(s2 == f2);
    let f3 = f2 + header_gap("Content-Length"@);
    assert(s3 == f3);
    let f4 = f3 + decimal(length);
    assert(s4 == f4);
    let f5 = f4 + header_gap("Cache-Control"@) + "no-store"@ + header_gap("Connection"@) + "close"@;
    assert(s5 =~= f5);
    assert(f5 =~= x4);
    assert(bytes_head(content_type, length) == x4 + e + tail) by {
        reveal_strlit("\r\n\r\n");
        assert(s5 + "\r\n\r\n"@ =~= x4 + e + tail);
        assert("\r\nCache-Control: no-store\r\nConnection: close\r\n\r\n"@ == "\r\nCache-Control: no-store\r\nConnection: close"@ + "\r\n\r\n"@) by {
            reveal_strlit("\r\nCache-Control: no-store\r\nConnection: close\r\n\r\n");
            reveal_strlit("\r\nCache-Control: no-store\r\nConnection: close");
            reveal_strlit("\r\n\r\n");
            assert("\r\nCache-Control: no-store\r\nConnection: close\r\n\r\n"@ =~= "\r\nCache-Control: no-store\r\nConnection: close"@ + "\r\n\r\n"@);
        }
        lemma_joined(s4, "\r\nCache-Control: no-store\r\nConnection: close"@, "\r\n\r\n"@);
        assert(bytes_head(content_type, length) =~= s5 + "\r\n\r\n"@);
    }
    assert(bytes_head(content_type, length) == first + e + head_text(h) + tail);
    assert(proper(h)) by {
        reveal_strlit("Content-Type");
        reveal_strlit("Content-Length");
        reveal_strlit("Cache-Control");
        reveal_strlit("no-store");
        reveal_strlit("Connection");
        reveal_strlit("close");
        assert forall|k: int| 0 <= k < h.len() implies lacks((#[trigger] h[k]).0, ':') && lacks(
            h[k].0,
            '\n',
        ) && lacks(h[k].1, '\n') by {}
    }
    assert(lacks(first, '\n')) by {
        reveal_strlit("HTTP/1.1 200 OK");
    }
}

#[verifier::rlimit(40)]
proof fn lemma_bytes_read(content_type: Seq<char>, length: nat)
    requires
        lacks(content_type, '\n'),
    ensures
        ({
            let lines = lines_spec(bytes_head(content_type, length));
            &&& lines.len() > 0 && lines[0] == "HTTP/1.1 200 OK"@
            &&& header_value_in(lines.skip(1), "Content-Type"@) == Some(trim_spec(content_type))
            &&& header_value_in(lines.skip(1), "Content-Length"@) == Some(trim_spec(decimal(length)))
        }),
{
    lemma_bytes_shape(content_type, length);
    let first = "HTTP/1.1 200 OK"@;
    let tail: Seq<char> = seq!['\r', '\n'];
    let h = bytes_headers(content_type, length);
    lemma_first_line(first, h, tail);
    assert(nameless(h.take(0), "Content-Type"@)) by {
        reveal_strlit("Content-Type");
        assert forall|k: int| 0 <= k < h.take(0).len() implies lower((#[trigger] h.take(0)[k]).0) != lower(
            "Content-Type"@,
        ) by {
            assert(h.take(0)[k] == h[k]);
        }
    }
    lemma_header_behind_first(first, h, tail, 0, "Content-Type"@);
    assert(nameless(h.take(1), "Content-Length"@)) by {
        reveal_strlit("Content-Length");
        reveal_strlit("Content-Type");
        lemma_names_differ("Content-Type"@, "Content-Length"@, 0);
        assert forall|k: int| 0 <= k < h.take(1).len() implies lower((#[trigger] h.take(1)[k]).0) != lower(
            "Content-Length"@,
        ) by {
            assert(h.take(1)[k] == h[k]);
        }
    }
    lemma_header_behind_first(first, h, tail, 1, "Content-Length"@);
}

/// An answer, read back: its first line says the status, its headers the type and the length of
/// the body, and that it is not to be kept; the body stands behind them.
pub proof fn law_settings_answer_is_read(
    status: Seq<char>,
    content_type: Seq<char>,
    body: Seq<char>,
)
    requires
        lacks(status, '\n'),
        lacks(content_type, '\n'),
    ensures
        ({
            let text = answer_text(status, content_type, body);
            let lines = lines_spec(text);
            let headers = lines.skip(1);
            &&& lines.len() > 0 && lines[0] == "HTTP/1.1 "@ + status
            &&& header_value_in(headers, "Content-Type"@) == Some(trim_spec(content_type))
            &&& header_value_in(headers, "Content-Length"@) matches Some(length) && uint_value(
                length,
                10,
                byte_len(body) as int,
            ) == Some(byte_len(body))
            &&& header_value_in(headers, "Cache-Control"@) == Some("no-store"@)
            &&& header_value_in(headers, "X-Content-Type-Options"@) == Some("nosniff"@)
            &&& lacks(status, '\r') && lacks(content_type, '\r') ==> rest_behind(
                text,
                "\r\n\r\n"@,
            ) == Some(body)
        }),
{
    lemma_page_read(status, content_type, body);
    lemma_number_is_read(byte_len(body), byte_len(body) as int);
    assert(trim_spec("no-store"@) == "no-store"@ && trim_spec("nosniff"@) == "nosniff"@) by {
        reveal_strlit("no-store");
        reveal_strlit("nosniff");
        lemma_trim_nothing("no-store"@);
        lemma_trim_nothing("nosniff"@);
    }
    if lacks(status, '\r') && lacks(content_type, '\r') {
        lemma_page_shape(status, content_type, body);
        let h = page_headers(status, content_type, body);
        let first = "HTTP/1.1 "@ + status;
        assert(lacks(first, '\r')) by {
            reveal_strlit("HTTP/1.1 ");
            lemma_lacks_joined("HTTP/1.1 "@, status, '\r');
        }
        assert(unbroken(h)) by {
            assert(lacks(decimal(byte_len(body)), '\r'));
            reveal_strlit("Content-Type");
            reveal_strlit("Content-Length");
            reveal_strlit("Cache-Control");
            reveal_strlit("no-store");
            reveal_strlit("X-Content-Type-Options");
            reveal_strlit("nosniff");
            reveal_strlit("Connection");
            reveal_strlit("close");
        }
        lemma_body_is_read(first, h, body);
    }
}

/// The head of an answer with bytes, read back, says their type and how many they are.
pub proof fn law_head_for_bytes_is_read(content_type: Seq<char>, length: nat)
    requires
        lacks(content_type, '\n'),
    ensures
        ({
            let lines = lines_spec(bytes_head(content_type, length));
            let headers = lines.skip(1);
            &&& lines.len() > 0 && lines[0] == "HTTP/1.1 200 OK"@
            &&& header_value_in(headers, "Content-Type"@) == Some(trim_spec(content_type))
            &&& header_value_in(headers, "Content-Length"@) matches Some(n) && uint_value(
                n,
                10,
                length as int,
            ) == Some(length)
        }),
{
    lemma_bytes_read(content_type, length);
    lemma_number_is_read(length, length as int);
}

// ---------------------------------------------------------------------------
// Requests
// ---------------------------------------------------------------------------

/// The body of a request is what stands behind its first empty line, and its first line names
/// the method and the address.
pub proof fn law_settings_request_is_read(
    method: Seq<char>,
    path: Seq<char>,
    version: Seq<char>,
    h: Seq<(Seq<char>, Seq<char>)>,
    body: Seq<char>,
)
    requires
        is_word(method),
        is_word(path),
        lacks(version, '\n'),
        lacks(version, '\r'),
        unbroken(h),
    ensures
        ({
            let first = method + seq![' '] + (path + (seq![' '] + version));
            let request = first + seq!['\r', '\n'] + head_text(h) + (seq!['\r', '\n'] + body);
            &&& request_line(request) == (method, path)
            &&& request_body(request) == body
        }),
{
    let end = seq![' '] + version;
    let first = method + seq![' '] + (path + end);
    assert(lacks(method, '\n') && lacks(path, '\n') && lacks(method, '\r') && lacks(path, '\r'));
    lemma_lacks_joined(seq![' '], version, '\n');
    lemma_lacks_joined(path, end, '\n');
    lemma_lacks_joined(method, seq![' '], '\n');
    lemma_lacks_joined(method + seq![' '], path + end, '\n');
    lemma_lacks_joined(seq![' '], version, '\r');
    lemma_lacks_joined(path, end, '\r');
    lemma_lacks_joined(method, seq![' '], '\r');
    lemma_lacks_joined(method + seq![' '], path + end, '\r');
    let tail = seq!['\r', '\n'] + body;
    lemma_first_line(first, h, tail);
    crate::http_laws::lemma_next_word(path, end);
    crate::http_laws::lemma_next_word(method, seq![' '] + (path + end));
    lemma_joined(method, seq![' '], path + end);
    lemma_body_is_read(first, h, body);
    assert("\r\n\r\n"@.len() == 4) by {
        reveal_strlit("\r\n\r\n");
    }
}

/// A request is as long as its first `Content-Length` header with a number says, and has no
/// body where there is none.
pub proof fn law_length_is_the_first_one(lines: Seq<Seq<char>>, i: int, n: nat)
    ensures
        0 <= i < lines.len() && length_in(lines[i]) == Some(n) && (forall|k: int|
            0 <= k < i ==> length_in(#[trigger] lines[k]) is None) ==> first_length(lines) == n,
        (forall|k: int| 0 <= k < lines.len() ==> length_in(#[trigger] lines[k]) is None)
            ==> first_length(lines) == 0,
    decreases lines.len(),
{
    if lines.len() > 0 {
        let rest = lines.skip(1);
        assert forall|k: int| 0 <= k < rest.len() implies #[trigger] rest[k] == lines[k + 1] by {}
        law_length_is_the_first_one(rest, i - 1, n);
    }
}

/// A request ends where the client closes the connection, and is refused where it is too large;
/// the text that was sent is the text that is read, and as long as bytes are missing none of
/// those that came is lost.
pub proof fn law_settings_bytes_are_taken_in(data: Seq<u8>, chunk: Seq<u8>, text: Seq<char>)
    ensures
        chunk.len() == 0 && data == encode_utf8(text) ==> settings_fed(data, chunk)
            == SettingsFed::Complete(text),
        chunk.len() > 0 && data.len() + chunk.len() > 65536 ==> settings_fed(data, chunk)
            == SettingsFed::Failed(SettingsRequestError::TooLarge),
        chunk.len() > 0 && data.len() + chunk.len() <= 65536 && is_whole(data + chunk) && data
            + chunk == encode_utf8(text) ==> settings_fed(data, chunk) == SettingsFed::Complete(
            text,
        ),
        chunk.len() > 0 && data.len() + chunk.len() <= 65536 && !is_whole(data + chunk)
            ==> settings_fed(data, chunk) == SettingsFed::More(data + chunk),
        (forall|i: int| !bytes_at(data, seq![13u8, 10u8, 13u8, 10u8], i)) ==> !is_whole(data),
{
    encode_utf8_valid_utf8(text);
    encode_utf8_decode_utf8(text);
    let mark = seq![13u8, 10u8, 13u8, 10u8];
    if forall|i: int| !bytes_at(data, mark, i) {
        assert(head_end_mark() == mark);
        lemma_first_match(data, mark, None);
    }
}

/// Each address of the site leads to one thing, and all others lead nowhere.
pub proof fn law_site_is_found(method: Seq<char>, path: Seq<char>)
    ensures
        ({
            let route = settings_routed(method, path);
            &&& route == SettingsRoute::Page <==> method == "GET"@ && path == "/"@
            &&& route == SettingsRoute::History <==> method == "GET"@ && path == "/history"@
            &&& route == SettingsRoute::Events <==> method == "GET"@ && path == "/events"@
            &&& route == SettingsRoute::Icon <==> method == "GET"@ && path == "/icon.png"@
            &&& route == SettingsRoute::Favicon <==> method == "GET"@ && path == "/favicon.ico"@
            &&& route == SettingsRoute::Save <==> method == "POST"@ && path == "/settings"@
            &&& route == SettingsRoute::Health <==> method == "GET"@ && path == "/health"@
        }),
{
    reveal_strlit("GET");
    reveal_strlit("POST");
    reveal_strlit("/");
    reveal_strlit("/history");
    reveal_strlit("/events");
    reveal_strlit("/icon.png");
    reveal_strlit("/favicon.ico");
    reveal_strlit("/settings");
    reveal_strlit("/health");
    assert("GET"@.len() == 3 && "POST"@.len() == 4 && "/"@.len() == 1 && "/history"@.len() == 8
        && "/events"@.len() == 7 && "/icon.png"@.len() == 9 && "/favicon.ico"@.len() == 12
        && "/settings"@.len() == 9 && "/health"@.len() == 7);
    assert("/events"@[1] == 'e' && "/health"@[1] == 'h');
}

/// A request that names a page of another site as its origin, or that the browser calls
/// cross-site, is none of the site's own; one that names no origin is.
pub proof fn law_other_sites_are_told_apart(
    headers: Map<Seq<char>, Seq<char>>,
    own: Seq<char>,
    other: Seq<char>,
)
    ensures
        looked_up(headers, "origin"@) matches Some(origin) ==> lower(origin) != lower(own) && lower(
            origin,
        ) != lower(other) ==> !from_origins(headers, own, other),
        looked_up(headers, "sec-fetch-site"@) == Some("cross-site"@) ==> !from_origins(
            headers,
            own,
            other,
        ),
        looked_up(headers, "origin"@) is None && looked_up(headers, "sec-fetch-site"@) is None
            ==> from_origins(headers, own, other),
        looked_up(headers, "origin"@) == Some(own) && looked_up(headers, "sec-fetch-site"@) is None
            ==> from_origins(headers, own, other),
        looked_up(headers, "origin"@) == Some(other) && looked_up(headers, "sec-fetch-site"@) is None
            ==> from_origins(headers, own, other),
{
}

/// A request from a page of another site is refused, whatever it asks for. The page, the
/// history and a sign of life are answered, the settings in a form are saved, and what there is
/// not is said not to be there.
pub proof fn law_requests_are_served(
    request: Seq<char>,
    site: SiteView,
    language: Language,
    c: ConfigView,
    s: StateView,
    entries: Seq<HistoryEntry>,
    local: Seq<Option<LocalTime>>,
)
    ensures
        ({
            let done = served(request, site, language, c, s, entries, local);
            let (method, path) = request_line(request);
            let own = own_request(request, site);
            let get = own && method == "GET"@;
            &&& !own ==> (done matches ServedView::Answer(text) && lines_spec(text).len() > 0
                && lines_spec(text)[0] == "HTTP/1.1 403 Forbidden"@ && rest_behind(
                text,
                "\r\n\r\n"@,
            ) == Some(message(language, "error-cross-origin"@) + "\n"@))
            &&& get && path == "/"@ ==> (done matches ServedView::Answer(text) && lines_spec(
                text,
            ).len() > 0 && lines_spec(text)[0] == "HTTP/1.1 200 OK"@ && rest_behind(
                text,
                "\r\n\r\n"@,
            ) == Some(
                page(
                    site.template,
                    language,
                    c,
                    s.cast == CastState::Running,
                    site.config_dir,
                    site.version,
                ),
            ))
            &&& get && path == "/history"@ ==> (done matches ServedView::Answer(text) && lines_spec(
                text,
            ).len() > 0 && lines_spec(text)[0] == "HTTP/1.1 200 OK"@ && rest_behind(
                text,
                "\r\n\r\n"@,
            ) == Some(history_text(entries, local, c.max_history as int)))
            &&& get && path == "/health"@ ==> (done matches ServedView::Answer(text) && lines_spec(
                text,
            ).len() > 0 && lines_spec(text)[0] == "HTTP/1.1 200 OK"@ && rest_behind(
                text,
                "\r\n\r\n"@,
            ) == Some("ok\n"@))
            &&& get && path == "/events"@ ==> done == ServedView::Events
            &&& get && path == "/icon.png"@ ==> done == ServedView::Icon
            &&& get && path == "/favicon.ico"@ ==> done == ServedView::Favicon
            &&& own && method == "POST"@ && path == "/settings"@ ==> done == match form_fields(
                split_spec(request_body(request), '&'),
            ) {
                Ok(fields) => ServedView::Save(fields),
                Err(e) => ServedView::Dropped(e),
            }
            &&& own && method != "GET"@ && method != "POST"@ ==> (done matches ServedView::Answer(
                text,
            ) && lines_spec(text).len() > 0 && lines_spec(text)[0] == "HTTP/1.1 404 Not Found"@
                && rest_behind(text, "\r\n\r\n"@) == Some(message(language, "error-not-found"@)
                + "\n"@))
        }),
{
    let (method, path) = request_line(request);
    law_site_is_found(method, path);
    lemma_statuses();
    law_settings_answer_is_read(
        "403 Forbidden"@,
        "text/plain; charset=utf-8"@,
        message(language, "error-cross-origin"@) + "\n"@,
    );
    law_settings_answer_is_read(
        "404 Not Found"@,
        "text/plain; charset=utf-8"@,
        message(language, "error-not-found"@) + "\n"@,
    );
    law_settings_answer_is_read("200 OK"@, "text/plain; charset=utf-8"@, "ok\n"@);
    law_settings_answer_is_read(
        "200 OK"@,
        "application/json; charset=utf-8"@,
        history_text(entries, local, c.max_history as int),
    );
    law_settings_answer_is_read(
        "200 OK"@,
        "text/html; charset=utf-8"@,
        page(
            site.template,
            language,
            c,
            s.cast == CastState::Running,
            site.config_dir,
            site.version,
        ),
    );
}

proof fn lemma_statuses()
    ensures
        lacks("403 Forbidden"@, '\n') && lacks("403 Forbidden"@, '\r'),
        lacks("404 Not Found"@, '\n') && lacks("404 Not Found"@, '\r'),
        lacks("200 OK"@, '\n') && lacks("200 OK"@, '\r'),
        lacks("text/plain; charset=utf-8"@, '\n') && lacks("text/plain; charset=utf-8"@, '\r'),
        lacks("text/html; charset=utf-8"@, '\n') && lacks("text/html; charset=utf-8"@, '\r'),
        lacks("application/json; charset=utf-8"@, '\n') && lacks(
            "application/json; charset=utf-8"@,
            '\r',
        ),
        "HTTP/1.1 "@ + "403 Forbidden"@ == "HTTP/1.1 403 Forbidden"@,
        "HTTP/1.1 "@ + "404 Not Found"@ == "HTTP/1.1 404 Not Found"@,
        "HTTP/1.1 "@ + "200 OK"@ == "HTTP/1.1 200 OK"@,
{
    reveal_strlit("403 Forbidden");
    reveal_strlit("404 Not Found");
    reveal_strlit("200 OK");
    reveal_strlit("text/plain; charset=utf-8");
    reveal_strlit("text/html; charset=utf-8");
    reveal_strlit("application/json; charset=utf-8");
    reveal_strlit("HTTP/1.1 ");
    reveal_strlit("HTTP/1.1 403 Forbidden");
    reveal_strlit("HTTP/1.1 404 Not Found");
    reveal_strlit("HTTP/1.1 200 OK");
    assert("HTTP/1.1 "@ + "403 Forbidden"@ =~= "HTTP/1.1 403 Forbidden"@);
    assert("HTTP/1.1 "@ + "404 Not Found"@ =~= "HTTP/1.1 404 Not Found"@);
    assert("HTTP/1.1 "@ + "200 OK"@ =~= "HTTP/1.1 200 OK"@);
}

// ---------------------------------------------------------------------------
// Settings
// ---------------------------------------------------------------------------

/// A form is accepted exactly where its language, if it names one, is known, its name is there,
/// not too long and without control characters, its player is one of the two, and the path of
/// that player is there.
pub proof fn law_accepted_forms(fields: Map<Seq<char>, Seq<char>>)
    ensures
        ({
            let language = field_text(fields, "language"@);
            let name = field_text(fields, "device_name"@);
            let player = field_text(fields, "backend"@);
            let named = (language.len() == 0 || language == "en"@ || language == "zh-CN"@)
                && name.len() > 0 && byte_len(name) <= 128 && (forall|i: int|
                0 <= i < name.len() ==> !is_control(#[trigger] name[i]));
            &&& settings_fault(fields) is None <==> named && (player == "mpv"@ && field_text(
                fields,
                "mpv_path"@,
            ).len() > 0 || player == "vlc"@ && field_text(fields, "vlc_path"@).len() > 0)
            &&& mpv_settings_fault(fields) is None <==> named && player == "mpv"@ && field_text(
                fields,
                "mpv_path"@,
            ).len() > 0
        }),
{
    reveal_strlit("mpv");
    reveal_strlit("vlc");
    assert("mpv"@[0] == 'm' && "vlc"@[0] == 'v');
}

/// What is wrong with a form is said by name: the language first, then the name, then the
/// player and its path.
pub proof fn law_faults_of_forms(fields: Map<Seq<char>, Seq<char>>)
    ensures
        ({
            let language = field_text(fields, "language"@);
            let name = field_text(fields, "device_name"@);
            let player = field_text(fields, "backend"@);
            let known = language.len() == 0 || language == "en"@ || language == "zh-CN"@;
            let short = name.len() > 0 && byte_len(name) <= 128;
            let clean = forall|i: int| 0 <= i < name.len() ==> !is_control(#[trigger] name[i]);
            let named = known && short && clean;
            &&& !known ==> settings_fault(fields) == Some("error-language-invalid"@)
            &&& known && !short ==> settings_fault(fields) == Some("error-name-length"@)
            &&& known && short && !clean ==> settings_fault(fields) == Some("error-name-control"@)
            &&& named && player != "mpv"@ && player != "vlc"@ ==> settings_fault(fields) == Some(
                "error-unsupported-backend"@,
            )
            &&& named && player == "mpv"@ && field_text(fields, "mpv_path"@).len() == 0
                ==> settings_fault(fields) == Some("error-player-path-empty"@)
            &&& named && player == "vlc"@ && field_text(fields, "vlc_path"@).len() == 0
                ==> settings_fault(fields) == Some("error-player-path-empty"@)
            &&& !named ==> mpv_settings_fault(fields) == settings_fault(fields)
            &&& named && player != "mpv"@ ==> mpv_settings_fault(fields) == Some("error-only-mpv"@)
            &&& named && player == "mpv"@ && field_text(fields, "mpv_path"@).len() == 0
                ==> mpv_settings_fault(fields) == Some("error-mpv-path-empty"@)
        }),
{
    reveal_strlit("mpv");
    reveal_strlit("vlc");
    assert("mpv"@[0] == 'm' && "vlc"@[0] == 'v');
}

/// A form that is accepted changes what it names and nothing else: each setting is what stands
/// in its field, without white space round it, and the length of the history is a number from 1
/// up to its limit.
pub proof fn law_forms_are_taken_over(
    c: ConfigView,
    fields: Map<Seq<char>, Seq<char>>,
    name: Seq<char>,
    n: nat,
)
    requires
        n <= usize::MAX,
    ensures
        ({
            let after = with_settings(c, fields);
            let history = looked_up(fields, "max_history"@);
            &&& looked_up(fields, "device_name"@) == Some(name) ==> after.name == trim_spec(name)
            &&& looked_up(fields, "backend"@) == Some(name) ==> after.backend == trim_spec(name)
            &&& looked_up(fields, "mpv_path"@) == Some(name) ==> after.mpv_path == trim_spec(name)
            &&& looked_up(fields, "vlc_path"@) == Some(name) ==> after.vlc_path == trim_spec(name)
            &&& looked_up(fields, "language"@) == Some(name) ==> after.language == trim_spec(name)
            &&& looked_up(fields, "language"@) is None ==> after.language.len() == 0
            &&& history == Some(decimal(n)) && 1 <= n <= 10000 ==> after.max_history == n
            &&& history == Some(decimal(n)) && n > 10000 ==> after.max_history == 10000
            &&& after.udn == c.udn && after.port == c.port
        }),
        ({
            let after = with_mpv_settings(c, fields);
            let history = looked_up(fields, "max_history"@);
            &&& looked_up(fields, "device_name"@) == Some(name) ==> after.name == trim_spec(name)
            &&& looked_up(fields, "backend"@) == Some(name) ==> after.backend == trim_spec(name)
            &&& looked_up(fields, "mpv_path"@) == Some(name) ==> after.mpv_path == trim_spec(name)
            &&& looked_up(fields, "language"@) == Some(name) ==> after.language == trim_spec(name)
            &&& history == Some(decimal(n)) && n <= 10000 ==> after.max_history == n
            &&& history == Some(decimal(n)) && n > 10000 ==> after.max_history == 10000
            &&& after.vlc_path == c.vlc_path
            &&& after.udn == c.udn && after.port == c.port
        }),
{
    lemma_number_is_read(n, usize::MAX as int);
}

/// The user is told that settings were saved, or that they were not and why.
pub proof fn law_user_is_told_how_saving_went(error: Seq<char>, language: Language)
    ensures
        member(saved_text(None, language), "{\"message\":"@) == Some(
            (message(language, "settings-saved"@), ",\"ok\":"@ + "true"@ + "}"@),
        ),
        member(saved_text(Some(error), language), "{\"message\":"@) == Some(
            (
                message(language, "error-save-failed"@) + ": "@ + error,
                ",\"ok\":"@ + "false"@ + "}"@,
            ),
        ),
{
    law_saved_is_read(true, message(language, "settings-saved"@));
    law_saved_is_read(false, message(language, "error-save-failed"@) + ": "@ + error);
}

/// On a stream each event is sent as it comes, a ping is sent at every thirtieth wait in vain, and
/// the stream ends where the server stops.
pub proof fn law_stream_goes_on(event: SettingsEvent, ticks: u32)
    requires
        ticks < 30,
    ensures
        stream_next(StreamInput::Event(event), ticks) == (StreamView::Send(streamed(event@)), ticks),
        ticks < 29 ==> stream_next(StreamInput::Waited, ticks) == (
            StreamView::Wait,
            (ticks + 1) as u32,
        ),
        ticks == 29 ==> stream_next(StreamInput::Waited, ticks) == (
            StreamView::Send(": ping\n\n"@),
            0u32,
        ),
        stream_next(StreamInput::Stopped, ticks) == (StreamView::End, ticks),
{
}

// ---------------------------------------------------------------------------
// The page
// ---------------------------------------------------------------------------

/// In a text with one mark, what the mark stands for is filled in there, and the rest stays.
pub proof fn lemma_replaced(front: Seq<char>, mark: Seq<char>, back: Seq<char>, with: Seq<char>)
    requires
        mark.len() > 0,
        clear_of(front, mark),
        forall|j: int| !#[trigger] starts_at(back, mark, j),
    ensures
        replace_all(front + mark + back, mark, with) == front + with + back,
{
    let s = front + mark + back;
    let i = front.len() as int;
    lemma_mark_found(front, mark, back);
    lemma_find_from(back, mark, 0);
    assert(s.take(i) =~= front);
    assert(s.skip(i + mark.len()) =~= back);
    assert(replace_all(back, mark, with) == back);
}

/// Where a template names a value once, the value stands there in the page, escaped, and the
/// rest of the template stays as it is.
pub proof fn law_placeholder_is_filled_in(
    front: Seq<char>,
    name: Seq<char>,
    value: Seq<char>,
    back: Seq<char>,
)
    requires
        clear_of(front, "{{"@ + name + "}}"@),
        forall|j: int| !#[trigger] starts_at(back, "{{"@ + name + "}}"@, j),
    ensures
        ({
            let filled = rendered(front + ("{{"@ + name + "}}"@) + back, seq![(name, value)]);
            &&& filled == front + escape_html_spec(value) + back
            &&& unescaped(escape_html_spec(value)) == value
        }),
{
    let mark = "{{"@ + name + "}}"@;
    let vars = seq![(name, value)];
    reveal_strlit("{{");
    reveal_with_fuel(rendered, 2);
    assert(vars.drop_last() =~= Seq::empty());
    lemma_replaced(front, mark, back, escape_html_spec(value));
    law_escaped_stands_for_the_text(value);
}

/// A template without placeholders stays as it is.
pub proof fn law_plain_template_stays(template: Seq<char>, vars: Seq<(Seq<char>, Seq<char>)>)
    requires
        lacks(template, '{'),
    ensures
        rendered(template, vars) == template,
    decreases vars.len(),
{
    if vars.len() > 0 {
        law_plain_template_stays(template, vars.drop_last());
        let mark = "{{"@ + vars.last().0 + "}}"@;
        reveal_strlit("{{");
        assert(mark[0] == '{');
        lemma_find_from(template, mark, 0);
        if let Some(i) = find_from(template, mark, 0) {
            assert(template.subrange(i, i + mark.len())[0] == template[i]);
        }
    }
}

/// An entry in a choice, read back, names its value, and is marked exactly where it is the one
/// that is chosen.
pub proof fn law_option_is_read(value: Seq<char>, chosen: bool, label: Seq<char>)
    ensures
        value_behind(option_text(value, chosen, label), "value=\""@, '"') == Some(
            escape_html_spec(value),
        ),
        option_text(value, chosen, label) == "<option value=\""@ + escape_html_spec(value) + (
        if chosen {
            "\" selected>"@
        } else {
            "\">"@
        }) + escape_html_spec(label) + "</option>"@,
{
    let shown = escape_html_spec(value);
    law_escaped_html_has_no_markup(value);
    assert(lacks(shown, '"'));
    let mark = "value=\""@;
    let front = "<option "@;
    assert("<option value=\""@ == front + mark) by {
        reveal_strlit("<option value=\"");
        reveal_strlit("<option ");
        reveal_strlit("value=\"");
        assert("<option value=\""@ =~= front + mark);
    }
    assert("\""@ == seq!['"']) by {
        reveal_strlit("\"");
        assert("\""@ =~= seq!['"']);
    }
    assert(clear_of(front, mark)) by {
        reveal_strlit("<option ");
        reveal_strlit("value=\"");
        assert forall|j: int| 0 <= j < front.len() implies #[trigger] differs_soon(
            front,
            mark,
            j,
        ) by {}
        lemma_clear_text(front, mark);
    }
    let sign = if chosen {
        " selected"@
    } else {
        ""@
    };
    let rest = sign + ">"@ + escape_html_spec(label) + "</option>"@;
    lemma_value_behind(front, mark, shown, '"', rest);
    let start = front + mark + shown + seq!['"'];
    assert(option_text(value, chosen, label) =~= start + rest);
    assert(seq!['"'] + sign + ">"@ == if chosen {
        "\" selected>"@
    } else {
        "\">"@
    }) by {
        reveal_strlit(" selected");
        reveal_strlit("");
        reveal_strlit(">");
        reveal_strlit("\" selected>");
        reveal_strlit("\">");
        if chosen {
            assert(seq!['"'] + sign + ">"@ =~= "\" selected>"@);
        } else {
            assert(seq!['"'] + sign + ">"@ =~= "\">"@);
        }
    }
    let close = seq!['"'] + sign + ">"@;
    assert(start + rest =~= front + mark + shown + close + escape_html_spec(label) + "</option>"@);
}

/// The choice of languages is that of the system and the two that there are, and marks the one
/// that is configured.
pub proof fn law_configured_language_is_marked(language: Language, current: Seq<char>)
    ensures
        ({
            let system = message(language, "settings-language-system"@);
            let none = Seq::<char>::empty();
            let all = language_choice(language, current);
            &&& current.len() == 0 ==> all == option_text(none, true, system) + option_text(
                "en"@,
                false,
                "English"@,
            ) + option_text("zh-CN"@, false, "中文"@)
            &&& current == "en"@ ==> all == option_text(none, false, system) + option_text(
                "en"@,
                true,
                "English"@,
            ) + option_text("zh-CN"@, false, "中文"@)
            &&& current == "zh-CN"@ ==> all == option_text(none, false, system) + option_text(
                "en"@,
                false,
                "English"@,
            ) + option_text("zh-CN"@, true, "中文"@)
        }),
{
    reveal_strlit("en");
    reveal_strlit("zh-CN");
    assert("en"@.len() == 2 && "zh-CN"@.len() == 5);
}

/// The page says on top what it is, and whether the services are up.
#[verifier::rlimit(40)]
pub proof fn law_page_says_whether_services_are_up(
    language: Language,
    c: ConfigView,
    running: bool,
    config_dir: Seq<char>,
    version: Seq<char>,
)
    ensures
        ({
            let vars = page_vars(language, c, running, config_dir, version);
            &&& vars.contains(("HTML_LANG"@, match language {
                Language::Zh => "zh-CN"@,
                Language::En => "en"@,
            }))
            &&& vars.contains(("TITLE"@, message(language, "settings-title"@)))
            &&& vars.contains(("TAB_SETTINGS"@, message(language, "tab-settings"@)))
            &&& vars.contains(("TAB_HISTORY"@, message(language, "tab-history"@)))
            &&& vars.contains(("TAB_GUIDE"@, message(language, "tab-guide"@)))
            &&& vars.contains(("TAB_ABOUT"@, message(language, "tab-about"@)))
            &&& vars.contains(("SUBTITLE"@, message(language, "settings-subtitle"@)))
            &&& vars.contains(("STATUS_LABEL"@, message(language, "settings-status"@)))
            &&& vars.contains(("LABEL_LANGUAGE"@, message(language, "settings-language"@)))
            &&& vars.contains(("INDICATOR_COLOR"@, if running {
                "#22c55e"@
            } else {
                "#ef4444"@
            }))
            &&& vars.contains(("INDICATOR_TEXT"@, if running {
                message(language, "cast-running"@)
            } else {
                message(language, "cast-stopped"@)
            }))
            &&& vars.contains(("STATUS_RUNNING"@, message(language, "cast-running"@)))
            &&& vars.contains(("STATUS_STOPPED"@, message(language, "cast-stopped"@)))
        }),
{
    let vars = page_vars(language, c, running, config_dir, version);
    assert(vars[0] == ("HTML_LANG"@, page_language(language)));
    assert(vars[1] == ("TITLE"@, message(language, "settings-title"@)));
    assert(vars[2] == ("TAB_SETTINGS"@, message(language, "tab-settings"@)));
    assert(vars[3] == ("TAB_HISTORY"@, message(language, "tab-history"@)));
    assert(vars[4] == ("TAB_GUIDE"@, message(language, "tab-guide"@)));
    assert(vars[5] == ("TAB_ABOUT"@, message(language, "tab-about"@)));
    assert(vars[6] == ("SUBTITLE"@, message(language, "settings-subtitle"@)));
    assert(vars[7] == ("STATUS_LABEL"@, message(language, "settings-status"@)));
    assert(vars[8] == ("LABEL_LANGUAGE"@, message(language, "settings-language"@)));
    assert(vars[9] == ("INDICATOR_COLOR"@, indicator_color(running)));
    assert(vars[10] == ("INDICATOR_TEXT"@, message(language, indicator_key(running))));
    assert(vars[11] == ("STATUS_RUNNING"@, message(language, "cast-running"@)));
    assert(vars[12] == ("STATUS_STOPPED"@, message(language, "cast-stopped"@)));
}

/// The fields of the form are labelled.
#[verifier::rlimit(40)]
pub proof fn law_form_is_labelled(
    language: Language,
    c: ConfigView,
    running: bool,
    config_dir: Seq<char>,
    version: Seq<char>,
)
    ensures
        ({
            let vars = page_vars(language, c, running, config_dir, version);
            &&& vars.contains(("SETTINGS_HEADING"@, message(language, "settings-section-settings"@)))
            &&& vars.contains(("SETTINGS_HINT"@, message(language, "settings-hint"@)))
            &&& vars.contains(("LABEL_NAME"@, message(language, "settings-device-name"@)))
            &&& vars.contains(("LABEL_BACKEND"@, message(language, "settings-player-backend"@)))
            &&& vars.contains(("LABEL_MPV_PATH"@, message(language, "settings-mpv-path"@)))
            &&& vars.contains(("LABEL_VLC_PATH"@, message(language, "settings-vlc-path"@)))
            &&& vars.contains(("LABEL_MAX_HISTORY"@, message(language, "settings-max-history"@)))
        }),
{
    let vars = page_vars(language, c, running, config_dir, version);
    assert(vars[13] == ("SETTINGS_HEADING"@, message(language, "settings-section-settings"@)));
    assert(vars[14] == ("SETTINGS_HINT"@, message(language, "settings-hint"@)));
    assert(vars[15] == ("LABEL_NAME"@, message(language, "settings-device-name"@)));
    assert(vars[16] == ("LABEL_BACKEND"@, message(language, "settings-player-backend"@)));
    assert(vars[17] == ("LABEL_MPV_PATH"@, message(language, "settings-mpv-path"@)));
    assert(vars[18] == ("LABEL_VLC_PATH"@, message(language, "settings-vlc-path"@)));
    assert(vars[19] == ("LABEL_MAX_HISTORY"@, message(language, "settings-max-history"@)));
}

/// The form holds what is configured, and marks the player that is.
#[verifier::rlimit(40)]
pub proof fn law_form_holds_the_configuration(
    language: Language,
    c: ConfigView,
    running: bool,
    config_dir: Seq<char>,
    version: Seq<char>,
)
    ensures
        ({
            let vars = page_vars(language, c, running, config_dir, version);
            &&& vars.contains(("DEVICE_NAME"@, c.name))
            &&& vars.contains(("BACKEND_VALUE"@, c.backend))
            &&& vars.contains(("MPV_SELECTED"@, if c.backend == "mpv"@ {
                "selected"@
            } else {
                ""@
            }))
            &&& vars.contains(("VLC_SELECTED"@, if c.backend == "vlc"@ {
                "selected"@
            } else {
                ""@
            }))
            &&& vars.contains(("MPV_PATH"@, c.mpv_path))
            &&& vars.contains(("VLC_PATH"@, c.vlc_path))
            &&& vars.contains(("MAX_HISTORY"@, decimal(c.max_history as nat)))
        }),
{
    let vars = page_vars(language, c, running, config_dir, version);
    assert(vars[20] == ("DEVICE_NAME"@, c.name));
    assert(vars[21] == ("BACKEND_VALUE"@, c.backend));
    assert(vars[22] == ("MPV_SELECTED"@, selected(c.backend == "mpv"@)));
    assert(vars[23] == ("VLC_SELECTED"@, selected(c.backend == "vlc"@)));
    assert(vars[24] == ("MPV_PATH"@, c.mpv_path));
    assert(vars[25] == ("VLC_PATH"@, c.vlc_path));
    assert(vars[26] == ("MAX_HISTORY"@, decimal(c.max_history as nat)));
}

/// The page has texts for the history and for how saving went.
#[verifier::rlimit(40)]
pub proof fn law_page_tells_of_the_history(
    language: Language,
    c: ConfigView,
    running: bool,
    config_dir: Seq<char>,
    version: Seq<char>,
)
    ensures
        ({
            let vars = page_vars(language, c, running, config_dir, version);
            &&& vars.contains(("SAVE_BTN"@, message(language, "settings-save"@)))
            &&& vars.contains(("HISTORY_HEADING"@, message(language, "settings-section-history"@)))
            &&& vars.contains(("HISTORY_EMPTY"@, message(language, "settings-history-empty"@)))
            &&& vars.contains(("HISTORY_EMPTY_SUB"@, message(language, "settings-history-empty-sub"@)))
            &&& vars.contains(("HISTORY_SUBTITLE"@, message(language, "settings-history-subtitle"@)))
            &&& vars.contains(("TIME_COL"@, message(language, "settings-history-time"@)))
            &&& vars.contains(("TITLE_COL"@, message(language, "settings-history-title"@)))
            &&& vars.contains(("INDEX_COL"@, message(language, "settings-history-index"@)))
            &&& vars.contains(("COPY_LINK"@, message(language, "settings-history-copy-link"@)))
            &&& vars.contains(("OPEN_IN_BROWSER"@, message(language, "settings-history-open-in-browser"@)))
            &&& vars.contains(("COPIED_MSG"@, message(language, "settings-history-copied"@)))
            &&& vars.contains(("SAVED_MSG"@, message(language, "settings-saved"@)))
            &&& vars.contains(("SAVE_ERR_MSG"@, message(language, "error-save-failed"@)))
        }),
{
    let vars = page_vars(language, c, running, config_dir, version);
    assert(vars[27] == ("SAVE_BTN"@, message(language, "settings-save"@)));
    assert(vars[28] == ("HISTORY_HEADING"@, message(language, "settings-section-history"@)));
    assert(vars[29] == ("HISTORY_EMPTY"@, message(language, "settings-history-empty"@)));
    assert(vars[30] == ("HISTORY_EMPTY_SUB"@, message(language, "settings-history-empty-sub"@)));
    assert(vars[31] == ("HISTORY_SUBTITLE"@, message(language, "settings-history-subtitle"@)));
    assert(vars[32] == ("TIME_COL"@, message(language, "settings-history-time"@)));
    assert(vars[33] == ("TITLE_COL"@, message(language, "settings-history-title"@)));
    assert(vars[34] == ("INDEX_COL"@, message(language, "settings-history-index"@)));
    assert(vars[35] == ("COPY_LINK"@, message(language, "settings-history-copy-link"@)));
    assert(vars[36] == ("OPEN_IN_BROWSER"@, message(language, "settings-history-open-in-browser"@)));
    assert(vars[37] == ("COPIED_MSG"@, message(language, "settings-history-copied"@)));
    assert(vars[38] == ("SAVED_MSG"@, message(language, "settings-saved"@)));
    assert(vars[39] == ("SAVE_ERR_MSG"@, message(language, "error-save-failed"@)));
}

/// The page says what the program is, where its configuration is, and how it is used.
#[verifier::rlimit(40)]
pub proof fn law_page_tells_of_the_program(
    language: Language,
    c: ConfigView,
    running: bool,
    config_dir: Seq<char>,
    version: Seq<char>,
)
    ensures
        ({
            let vars = page_vars(language, c, running, config_dir, version);
            &&& vars.contains(("ABOUT_TITLE"@, message(language, "about-title"@)))
            &&& vars.contains(("ABOUT_SUBTITLE"@, message(language, "about-subtitle"@)))
            &&& vars.contains(("ABOUT_DESC"@, message(language, "about-description"@)))
            &&& vars.contains(("ABOUT_VERSION"@, message(language, "about-version"@)))
            &&& vars.contains(("ABOUT_REPOSITORY"@, message(language, "about-repository"@)))
            &&& vars.contains(("ABOUT_LICENSE"@, message(language, "about-license"@)))
            &&& vars.contains(("STATUS_UPNP"@, message(language, "status-upnp"@)))
            &&& vars.contains(("GUIDE_TITLE"@, message(language, "guide-title"@)))
            &&& vars.contains(("GUIDE_INTRO"@, message(language, "guide-intro"@)))
            &&& vars.contains(("GUIDE_PLAYER_HEADING"@, message(language, "guide-player-heading"@)))
            &&& vars.contains(("GUIDE_PLAYER_TEXT"@, message(language, "guide-player-text"@)))
            &&& vars.contains(("GUIDE_CONFIG_HEADING"@, message(language, "guide-config-heading"@)))
            &&& vars.contains(("GUIDE_CONFIG_TEXT"@, message(language, "guide-config-text"@)))
            &&& vars.contains(("GUIDE_USAGE_HEADING"@, message(language, "guide-usage-heading"@)))
            &&& vars.contains(("GUIDE_USAGE_TEXT"@, message(language, "guide-usage-text"@)))
            &&& vars.contains(("CONFIG_DIR"@, config_dir))
            &&& vars.contains(("VERSION"@, version))
        }),
{
    let vars = page_vars(language, c, running, config_dir, version);
    assert(vars[40] == ("ABOUT_TITLE"@, message(language, "about-title"@)));
    assert(vars[41] == ("ABOUT_SUBTITLE"@, message(language, "about-subtitle"@)));
    assert(vars[42] == ("ABOUT_DESC"@, message(language, "about-description"@)));
    assert(vars[43] == ("ABOUT_VERSION"@, message(language, "about-version"@)));
    assert(vars[44] == ("ABOUT_REPOSITORY"@, message(language, "about-repository"@)));
    assert(vars[45] == ("ABOUT_LICENSE"@, message(language, "about-license"@)));
    assert(vars[46] == ("STATUS_UPNP"@, message(language, "status-upnp"@)));
    assert(vars[47] == ("GUIDE_TITLE"@, message(language, "guide-title"@)));
    assert(vars[48] == ("GUIDE_INTRO"@, message(language, "guide-intro"@)));
    assert(vars[49] == ("GUIDE_PLAYER_HEADING"@, message(language, "guide-player-heading"@)));
    assert(vars[50] == ("GUIDE_PLAYER_TEXT"@, message(language, "guide-player-text"@)));
    assert(vars[51] == ("GUIDE_CONFIG_HEADING"@, message(language, "guide-config-heading"@)));
    assert(vars[52] == ("GUIDE_CONFIG_TEXT"@, message(language, "guide-config-text"@)));
    assert(vars[53] == ("GUIDE_USAGE_HEADING"@, message(language, "guide-usage-heading"@)));
    assert(vars[54] == ("GUIDE_USAGE_TEXT"@, message(language, "guide-usage-text"@)));
    assert(vars[55] == ("CONFIG_DIR"@, config_dir));
    assert(vars[56] == ("VERSION"@, version));
}

/// The page where mpv is the only player says the same of what it tells.
#[verifier::rlimit(40)]
pub proof fn law_mpv_page_says_what_is_configured(
    language: Language,
    running: bool,
    c: ConfigView,
    options: Seq<char>,
    version: Seq<char>,
)
    ensures
        ({
            let vars = mpv_page_vars(Seq::empty(), language, running, c, options, version);
            &&& vars.contains(("HTML_LANG"@, match language {
                Language::Zh => "zh-CN"@,
                Language::En => "en"@,
            }))
            &&& vars.contains(("TITLE"@, message(language, "settings-title"@)))
            &&& vars.contains(("TAB_SETTINGS"@, message(language, "tab-settings"@)))
            &&& vars.contains(("TAB_HISTORY"@, message(language, "tab-history"@)))
            &&& vars.contains(("TAB_ABOUT"@, message(language, "tab-about"@)))
            &&& vars.contains(("SUBTITLE"@, message(language, "settings-subtitle"@)))
            &&& vars.contains(("STATUS_LABEL"@, message(language, "settings-status"@)))
            &&& vars.contains(("LABEL_LANGUAGE"@, message(language, "settings-language"@)))
            &&& vars.contains(("LANGUAGE_OPTIONS"@, options))
            &&& vars.contains(("INDICATOR_COLOR"@, if running {
                "#22c55e"@
            } else {
                "#ef4444"@
            }))
            &&& vars.contains(("INDICATOR_TEXT"@, if running {
                message(language, "cast-running"@)
            } else {
                message(language, "cast-stopped"@)
            }))
            &&& vars.contains(("SETTINGS_HEADING"@, message(language, "settings-section-settings"@)))
            &&& vars.contains(("LABEL_NAME"@, message(language, "settings-device-name"@)))
            &&& vars.contains(("LABEL_BACKEND"@, message(language, "settings-player-backend"@)))
            &&& vars.contains(("LABEL_MPV_PATH"@, message(language, "settings-mpv-path"@)))
            &&& vars.contains(("LABEL_MAX_HISTORY"@, message(language, "settings-max-history"@)))
            &&& vars.contains(("DEVICE_NAME"@, c.name))
            &&& vars.contains(("MPV_PATH"@, c.mpv_path))
            &&& vars.contains(("MAX_HISTORY"@, decimal(c.max_history as nat)))
            &&& vars.contains(("SAVE_BTN"@, message(language, "settings-save"@)))
            &&& vars.contains(("HISTORY_HEADING"@, message(language, "settings-section-history"@)))
            &&& vars.contains(("HISTORY_EMPTY"@, message(language, "settings-history-empty"@)))
            &&& vars.contains(("TIME_COL"@, message(language, "settings-history-time"@)))
            &&& vars.contains(("TITLE_COL"@, message(language, "settings-history-title"@)))
            &&& vars.contains(("SAVED_MSG"@, message(language, "settings-saved"@)))
            &&& vars.contains(("SAVE_ERR_MSG"@, message(language, "error-save-failed"@)))
            &&& vars.contains(("ABOUT_TITLE"@, message(language, "about-title"@)))
            &&& vars.contains(("ABOUT_DESC"@, message(language, "about-description"@)))
            &&& vars.contains(("VERSION"@, version))
        }),
{
    let vars = mpv_page_vars(Seq::empty(), language, running, c, options, version);
    assert(vars[0] == ("HTML_LANG"@, page_language(language)));
    assert(vars[1] == ("TITLE"@, message(language, "settings-title"@)));
    assert(vars[2] == ("TAB_SETTINGS"@, message(language, "tab-settings"@)));
    assert(vars[3] == ("TAB_HISTORY"@, message(language, "tab-history"@)));
    assert(vars[4] == ("TAB_ABOUT"@, message(language, "tab-about"@)));
    assert(vars[5] == ("SUBTITLE"@, message(language, "settings-subtitle"@)));
    assert(vars[6] == ("STATUS_LABEL"@, message(language, "settings-status"@)));
    assert(vars[7] == ("LABEL_LANGUAGE"@, message(language, "settings-language"@)));
    assert(vars[8] == ("LANGUAGE_OPTIONS"@, options));
    assert(vars[9] == ("INDICATOR_COLOR"@, indicator_color(running)));
    assert(vars[10] == ("INDICATOR_TEXT"@, message(language, indicator_key(running))));
    assert(vars[11] == ("SETTINGS_HEADING"@, message(language, "settings-section-settings"@)));
    assert(vars[12] == ("LABEL_NAME"@, message(language, "settings-device-name"@)));
    assert(vars[13] == ("LABEL_BACKEND"@, message(language, "settings-player-backend"@)));
    assert(vars[14] == ("LABEL_MPV_PATH"@, message(language, "settings-mpv-path"@)));
    assert(vars[15] == ("LABEL_MAX_HISTORY"@, message(language, "settings-max-history"@)));
    assert(vars[16] == ("DEVICE_NAME"@, c.name));
    assert(vars[17] == ("MPV_PATH"@, c.mpv_path));
    assert(vars[18] == ("MAX_HISTORY"@, decimal(c.max_history as nat)));
    assert(vars[19] == ("SAVE_BTN"@, message(language, "settings-save"@)));
    assert(vars[20] == ("HISTORY_HEADING"@, message(language, "settings-section-history"@)));
    assert(vars[21] == ("HISTORY_EMPTY"@, message(language, "settings-history-empty"@)));
    assert(vars[22] == ("TIME_COL"@, message(language, "settings-history-time"@)));
    assert(vars[23] == ("TITLE_COL"@, message(language, "settings-history-title"@)));
    assert(vars[24] == ("SAVED_MSG"@, message(language, "settings-saved"@)));
    assert(vars[25] == ("SAVE_ERR_MSG"@, message(language, "error-save-failed"@)));
    assert(vars[26] == ("ABOUT_TITLE"@, message(language, "about-title"@)));
    assert(vars[27] == ("ABOUT_DESC"@, message(language, "about-description"@)));
    assert(vars[28] == ("VERSION"@, version));
}

/// Whether this is the name of a value other than the choice of languages.
spec fn other_name(name: Seq<char>) -> bool {
    name.len() > 0 && lacks(name, '}') && (name[0] != 'L' || name.len() != 16)
}

#[verifier::rlimit(40)]
proof fn lemma_head_names(
    language: Language,
    c: ConfigView,
    running: bool,
    config_dir: Seq<char>,
    version: Seq<char>,
)
    ensures
        ({
            let vars = page_vars(language, c, running, config_dir, version);
            forall|k: int| 0 <= k < 13 ==> other_name((#[trigger] vars[k]).0)
        }),
{
    let vars = page_vars(language, c, running, config_dir, version);
    assert(other_name("HTML_LANG"@)) by {
        reveal_strlit("HTML_LANG");
    }
    assert(vars[0].0 == "HTML_LANG"@);
    assert(other_name("TITLE"@)) by {
        reveal_strlit("TITLE");
    }
    assert(vars[1].0 == "TITLE"@);
    assert(other_name("TAB_SETTINGS"@)) by {
        reveal_strlit("TAB_SETTINGS");
    }
    assert(vars[2].0 == "TAB_SETTINGS"@);
    assert(other_name("TAB_HISTORY"@)) by {
        reveal_strlit("TAB_HISTORY");
    }
    assert(vars[3].0 == "TAB_HISTORY"@);
    assert(other_name("TAB_GUIDE"@)) by {
        reveal_strlit("TAB_GUIDE");
    }
    assert(vars[4].0 == "TAB_GUIDE"@);
    assert(other_name("TAB_ABOUT"@)) by {
        reveal_strlit("TAB_ABOUT");
    }
    assert(vars[5].0 == "TAB_ABOUT"@);
    assert(other_name("SUBTITLE"@)) by {
        reveal_strlit("SUBTITLE");
    }
    assert(vars[6].0 == "SUBTITLE"@);
    assert(other_name("STATUS_LABEL"@)) by {
        reveal_strlit("STATUS_LABEL");
    }
    assert(vars[7].0 == "STATUS_LABEL"@);
    assert(other_name("LABEL_LANGUAGE"@)) by {
        reveal_strlit("LABEL_LANGUAGE");
    }
    assert(vars[8].0 == "LABEL_LANGUAGE"@);
    assert(other_name("INDICATOR_COLOR"@)) by {
        reveal_strlit("INDICATOR_COLOR");
    }
    assert(vars[9].0 == "INDICATOR_COLOR"@);
    assert(other_name("INDICATOR_TEXT"@)) by {
        reveal_strlit("INDICATOR_TEXT");
    }
    assert(vars[10].0 == "INDICATOR_TEXT"@);
    assert(other_name("STATUS_RUNNING"@)) by {
        reveal_strlit("STATUS_RUNNING");
    }
    assert(vars[11].0 == "STATUS_RUNNING"@);
    assert(other_name("STATUS_STOPPED"@)) by {
        reveal_strlit("STATUS_STOPPED");
    }
    assert(vars[12].0 == "STATUS_STOPPED"@);
}

#[verifier::rlimit(40)]
proof fn lemma_labels_names(
    language: Language,
    c: ConfigView,
    running: bool,
    config_dir: Seq<char>,
    version: Seq<char>,
)
    ensures
        ({
            let vars = page_vars(language, c, running, config_dir, version);
            forall|k: int| 13 <= k < 20 ==> other_name((#[trigger] vars[k]).0)
        }),
{
    let vars = page_vars(language, c, running, config_dir, version);
    assert(other_name("SETTINGS_HEADING"@)) by {
        reveal_strlit("SETTINGS_HEADING");
    }
    assert(vars[13].0 == "SETTINGS_HEADING"@);
    assert(other_name("SETTINGS_HINT"@)) by {
        reveal_strlit("SETTINGS_HINT");
    }
    assert(vars[14].0 == "SETTINGS_HINT"@);
    assert(other_name("LABEL_NAME"@)) by {
        reveal_strlit("LABEL_NAME");
    }
    assert(vars[15].0 == "LABEL_NAME"@);
    assert(other_name("LABEL_BACKEND"@)) by {
        reveal_strlit("LABEL_BACKEND");
    }
    assert(vars[16].0 == "LABEL_BACKEND"@);
    assert(other_name("LABEL_MPV_PATH"@)) by {
        reveal_strlit("LABEL_MPV_PATH");
    }
    assert(vars[17].0 == "LABEL_MPV_PATH"@);
    assert(other_name("LABEL_VLC_PATH"@)) by {
        reveal_strlit("LABEL_VLC_PATH");
    }
    assert(vars[18].0 == "LABEL_VLC_PATH"@);
    assert(other_name("LABEL_MAX_HISTORY"@)) by {
        reveal_strlit("LABEL_MAX_HISTORY");
    }
    assert(vars[19].0 == "LABEL_MAX_HISTORY"@);
}

#[verifier::rlimit(40)]
proof fn lemma_values_names(
    language: Language,
    c: ConfigView,
    running: bool,
    config_dir: Seq<char>,
    version: Seq<char>,
)
    ensures
        ({
            let vars = page_vars(language, c, running, config_dir, version);
            forall|k: int| 20 <= k < 27 ==> other_name((#[trigger] vars[k]).0)
        }),
{
    let vars = page_vars(language, c, running, config_dir, version);
    assert(other_name("DEVICE_NAME"@)) by {
        reveal_strlit("DEVICE_NAME");
    }
    assert(vars[20].0 == "DEVICE_NAME"@);
    assert(other_name("BACKEND_VALUE"@)) by {
        reveal_strlit("BACKEND_VALUE");
    }
    assert(vars[21].0 == "BACKEND_VALUE"@);
    assert(other_name("MPV_SELECTED"@)) by {
        reveal_strlit("MPV_SELECTED");
    }
    assert(vars[22].0 == "MPV_SELECTED"@);
    assert(other_name("VLC_SELECTED"@)) by {
        reveal_strlit("VLC_SELECTED");
    }
    assert(vars[23].0 == "VLC_SELECTED"@);
    assert(other_name("MPV_PATH"@)) by {
        reveal_strlit("MPV_PATH");
    }
    assert(vars[24].0 == "MPV_PATH"@);
    assert(other_name("VLC_PATH"@)) by {
        reveal_strlit("VLC_PATH");
    }
    assert(vars[25].0 == "VLC_PATH"@);
    assert(other_name("MAX_HISTORY"@)) by {
        reveal_strlit("MAX_HISTORY");
    }
    assert(vars[26].0 == "MAX_HISTORY"@);
}

#[verifier::rlimit(40)]
proof fn lemma_history_names(
    language: Language,
    c: ConfigView,
    running: bool,
    config_dir: Seq<char>,
    version: Seq<char>,
)
    ensures
        ({
            let vars = page_vars(language, c, running, config_dir, version);
            forall|k: int| 27 <= k < 40 ==> other_name((#[trigger] vars[k]).0)
        }),
{
    let vars = page_vars(language, c, running, config_dir, version);
    assert(other_name("SAVE_BTN"@)) by {
        reveal_strlit("SAVE_BTN");
    }
    assert(vars[27].0 == "SAVE_BTN"@);
    assert(other_name("HISTORY_HEADING"@)) by {
        reveal_strlit("HISTORY_HEADING");
    }
    assert(vars[28].0 == "HISTORY_HEADING"@);
    assert(other_name("HISTORY_EMPTY"@)) by {
        reveal_strlit("HISTORY_EMPTY");
    }
    assert(vars[29].0 == "HISTORY_EMPTY"@);
    assert(other_name("HISTORY_EMPTY_SUB"@)) by {
        reveal_strlit("HISTORY_EMPTY_SUB");
    }
    assert(vars[30].0 == "HISTORY_EMPTY_SUB"@);
    assert(other_name("HISTORY_SUBTITLE"@)) by {
        reveal_strlit("HISTORY_SUBTITLE");
    }
    assert(vars[31].0 == "HISTORY_SUBTITLE"@);
    assert(other_name("TIME_COL"@)) by {
        reveal_strlit("TIME_COL");
    }
    assert(vars[32].0 == "TIME_COL"@);
    assert(other_name("TITLE_COL"@)) by {
        reveal_strlit("TITLE_COL");
    }
    assert(vars[33].0 == "TITLE_COL"@);
    assert(other_name("INDEX_COL"@)) by {
        reveal_strlit("INDEX_COL");
    }
    assert(vars[34].0 == "INDEX_COL"@);
    assert(other_name("COPY_LINK"@)) by {
        reveal_strlit("COPY_LINK");
    }
    assert(vars[35].0 == "COPY_LINK"@);
    assert(other_name("OPEN_IN_BROWSER"@)) by {
        reveal_strlit("OPEN_IN_BROWSER");
    }
    assert(vars[36].0 == "OPEN_IN_BROWSER"@);
    assert(other_name("COPIED_MSG"@)) by {
        reveal_strlit("COPIED_MSG");
    }
    assert(vars[37].0 == "COPIED_MSG"@);
    assert(other_name("SAVED_MSG"@)) by {
        reveal_strlit("SAVED_MSG");
    }
    assert(vars[38].0 == "SAVED_MSG"@);
    assert(other_name("SAVE_ERR_MSG"@)) by {
        reveal_strlit("SAVE_ERR_MSG");
    }
    assert(vars[39].0 == "SAVE_ERR_MSG"@);
}

#[verifier::rlimit(40)]
proof fn lemma_about_names(
    language: Language,
    c: ConfigView,
    running: bool,
    config_dir: Seq<char>,
    version: Seq<char>,
)
    ensures
        ({
            let vars = page_vars(language, c, running, config_dir, version);
            forall|k: int| 40 <= k < 57 ==> other_name((#[trigger] vars[k]).0)
        }),
{
    let vars = page_vars(language, c, running, config_dir, version);
    assert(other_name("ABOUT_TITLE"@)) by {
        reveal_strlit("ABOUT_TITLE");
    }
    assert(vars[40].0 == "ABOUT_TITLE"@);
    assert(other_name("ABOUT_SUBTITLE"@)) by {
        reveal_strlit("ABOUT_SUBTITLE");
    }
    assert(vars[41].0 == "ABOUT_SUBTITLE"@);
    assert(other_name("ABOUT_DESC"@)) by {
        reveal_strlit("ABOUT_DESC");
    }
    assert(vars[42].0 == "ABOUT_DESC"@);
    assert(other_name("ABOUT_VERSION"@)) by {
        reveal_strlit("ABOUT_VERSION");
    }
    assert(vars[43].0 == "ABOUT_VERSION"@);
    assert(other_name("ABOUT_REPOSITORY"@)) by {
        reveal_strlit("ABOUT_REPOSITORY");
    }
    assert(vars[44].0 == "ABOUT_REPOSITORY"@);
    assert(other_name("ABOUT_LICENSE"@)) by {
        reveal_strlit("ABOUT_LICENSE");
    }
    assert(vars[45].0 == "ABOUT_LICENSE"@);
    assert(other_name("STATUS_UPNP"@)) by {
        reveal_strlit("STATUS_UPNP");
    }
    assert(vars[46].0 == "STATUS_UPNP"@);
    assert(other_name("GUIDE_TITLE"@)) by {
        reveal_strlit("GUIDE_TITLE");
    }
    assert(vars[47].0 == "GUIDE_TITLE"@);
    assert(other_name("GUIDE_INTRO"@)) by {
        reveal_strlit("GUIDE_INTRO");
    }
    assert(vars[48].0 == "GUIDE_INTRO"@);
    assert(other_name("GUIDE_PLAYER_HEADING"@)) by {
        reveal_strlit("GUIDE_PLAYER_HEADING");
    }
    assert(vars[49].0 == "GUIDE_PLAYER_HEADING"@);
    assert(other_name("GUIDE_PLAYER_TEXT"@)) by {
        reveal_strlit("GUIDE_PLAYER_TEXT");
    }
    assert(vars[50].0 == "GUIDE_PLAYER_TEXT"@);
    assert(other_name("GUIDE_CONFIG_HEADING"@)) by {
        reveal_strlit("GUIDE_CONFIG_HEADING");
    }
    assert(vars[51].0 == "GUIDE_CONFIG_HEADING"@);
    assert(other_name("GUIDE_CONFIG_TEXT"@)) by {
        reveal_strlit("GUIDE_CONFIG_TEXT");
    }
    assert(vars[52].0 == "GUIDE_CONFIG_TEXT"@);
    assert(other_name("GUIDE_USAGE_HEADING"@)) by {
        reveal_strlit("GUIDE_USAGE_HEADING");
    }
    assert(vars[53].0 == "GUIDE_USAGE_HEADING"@);
    assert(other_name("GUIDE_USAGE_TEXT"@)) by {
        reveal_strlit("GUIDE_USAGE_TEXT");
    }
    assert(vars[54].0 == "GUIDE_USAGE_TEXT"@);
    assert(other_name("CONFIG_DIR"@)) by {
        reveal_strlit("CONFIG_DIR");
    }
    assert(vars[55].0 == "CONFIG_DIR"@);
    assert(other_name("VERSION"@)) by {
        reveal_strlit("VERSION");
    }
    assert(vars[56].0 == "VERSION"@);
}

proof fn lemma_choice_is_left(
    front: Seq<char>,
    back: Seq<char>,
    vars: Seq<(Seq<char>, Seq<char>)>,
)
    requires
        lacks(front, '{'),
        lacks(back, '{'),
        forall|k: int| 0 <= k < vars.len() ==> other_name((#[trigger] vars[k]).0),
    ensures
        rendered(front + "{{LANGUAGE_OPTIONS}}"@ + back, vars) == front + "{{LANGUAGE_OPTIONS}}"@
            + back,
    decreases vars.len(),
{
    let choice = "{{LANGUAGE_OPTIONS}}"@;
    let template = front + choice + back;
    if vars.len() > 0 {
        let rest = vars.drop_last();
        assert forall|k: int| 0 <= k < rest.len() implies other_name((#[trigger] rest[k]).0) by {
            assert(rest[k] == vars[k]);
        }
        lemma_choice_is_left(front, back, rest);
        let name = vars[vars.len() - 1].0;
        let mark = "{{"@ + name + "}}"@;
        reveal_strlit("{{");
        reveal_strlit("}}");
        lemma_find_from(template, mark, 0);
        if let Some(i) = find_from(template, mark, 0) {
            reveal_strlit("{{LANGUAGE_OPTIONS}}");
            let n = front.len() as int;
            let here = template.subrange(i, i + mark.len());
            assert forall|q: int| 0 <= q < mark.len() implies #[trigger] template[i + q]
                == mark[q] by {
                assert(here[q] == template[i + q]);
            }
            assert(template[i + 0] == '{');
            assert(template[i + 1] == '{');
            if i < n {
                assert(template[i] == front[i]);
            } else if i >= n + choice.len() {
                assert(template[i] == back[i - n - choice.len()]);
            }
            assert(template[i] == choice[i - n]);
            if i > n {
                assert(i - n == 1);
                assert(template[i + 1] == choice[2]);
            }
            assert(i == n);
            assert(template[i + 2] == mark[2] == name[0]);
            assert(template[i + 2] == choice[2]);
            let m = name.len() as int;
            assert(mark[2 + m] == '}');
            assert(template[i + 2 + m] == mark[2 + m]);
            if m < 16 {
                assert(template[i + 2 + m] == choice[2 + m]);
                assert(choice[2 + m] != '}');
            } else if m > 16 {
                assert(template[i + 18] == mark[18] == name[16]);
                assert(template[i + 18] == choice[18]);
            }
        }
    }
}

/// Where the template of the page names the choice of languages, the choice stands in the page.
pub proof fn law_page_offers_the_languages(
    front: Seq<char>,
    back: Seq<char>,
    language: Language,
    c: ConfigView,
    running: bool,
    config_dir: Seq<char>,
    version: Seq<char>,
)
    requires
        lacks(front, '{'),
        lacks(back, '{'),
    ensures
        page(
            front + "{{LANGUAGE_OPTIONS}}"@ + back,
            language,
            c,
            running,
            config_dir,
            version,
        ) == front + language_choice(language, c.language) + back,
{
    let vars = page_vars(language, c, running, config_dir, version);
    let mark = "{{LANGUAGE_OPTIONS}}"@;
    lemma_head_names(language, c, running, config_dir, version);
    lemma_labels_names(language, c, running, config_dir, version);
    lemma_values_names(language, c, running, config_dir, version);
    lemma_history_names(language, c, running, config_dir, version);
    lemma_about_names(language, c, running, config_dir, version);
    assert(vars.len() == 57);
    lemma_choice_is_left(front, back, vars);
    assert(mark[0] == '{' && mark.len() > 0) by {
        reveal_strlit("{{LANGUAGE_OPTIONS}}");
    }
    lemma_clear_plain(front, mark);
    assert forall|j: int| !#[trigger] starts_at(back, mark, j) by {
        if starts_at(back, mark, j) {
            assert(back.subrange(j, j + mark.len())[0] == back[j]);
        }
    }
    lemma_replaced(front, mark, back, language_choice(language, c.language));
}

} // verus!
