//! What subscribing grants, and what subscribers are sent.

use vstd::prelude::*;
use crate::bytes::byte_len;
use crate::fields::looked_up;
use crate::http::{header_value_in, ResponseView};
use crate::net::{first_usable, IpAddress};
use crate::number::{decimal, uint_value};
use crate::reading::{
    behind, head_text, header_gap, lacks, lemma_behind, lemma_body_is_read, lemma_first_line,
    lemma_header_behind_first, lemma_joined, lemma_lacks_joined, lemma_names_differ,
    lemma_next_header, lemma_no_headers_yet, lemma_number_is_read, lemma_trim_nothing, nameless,
    proper, rest_behind, unbroken,
};
use crate::state::Span;
use crate::text::{
    lemma_find_char, lemma_find_char_unique, lemma_rsplit_once,
    lemma_rsplit_once_none, lines_spec, lower, starts_at, strip_prefix_spec, trim_spec,
};
use crate::upnp::action::Outcome;
use crate::upnp::gena::{
    bracketed, due, granted, lemma_find_sid, names_port, next_number, notify_text, orderly,
    sids_of, subscribed, target_of, unsubscribed, SubscriptionView, TargetView,
};
use crate::upnp::soap::{timeout_value, EventService};

verus! {

/// The headers of a message to a subscriber.
spec fn notice_headers(target: TargetView, sid: Seq<char>, sequence: u32, body: Seq<char>) -> Seq<(Seq<char>, Seq<char>)> {
    seq![
        ("HOST"@, target.host),
        ("CONTENT-TYPE"@, "text/xml; charset=utf-8"@),
        ("NT"@, "upnp:event"@),
        ("NTS"@, "upnp:propchange"@),
        ("SID"@, sid),
        ("SEQ"@, decimal(sequence as nat)),
        ("CONTENT-LENGTH"@, decimal(byte_len(body))),
        ("CONNECTION"@, "close"@),
    ]
}

#[verifier::rlimit(40)]
proof fn lemma_notice_shape(target: TargetView, sid: Seq<char>, sequence: u32, body: Seq<char>)
    requires
        lacks(target.path, '\n'),
        lacks(target.host, '\n'),
        lacks(sid, '\n'),
    ensures
        notify_text(target, sid, sequence, body) == "NOTIFY "@ + target.path + " HTTP/1.1"@ + seq!['\r', '\n'] + head_text(notice_headers(target, sid, sequence, body)) + (seq!['\r', '\n'] + body),
        proper(notice_headers(target, sid, sequence, body)),
        lacks("NOTIFY "@ + target.path + " HTTP/1.1"@, '\n'),
{
    lemma_number_is_read(sequence as nat, u32::MAX as int);
    lemma_number_is_read(byte_len(body), byte_len(body) as int);
    assert(lacks(decimal(sequence as nat), '\n') && lacks(decimal(byte_len(body)), '\n'));
    let e = seq!['\r', '\n'];
    let first = "NOTIFY "@ + target.path + " HTTP/1.1"@;
    let tail: Seq<char> = seq!['\r', '\n'] + body;
    let h = notice_headers(target, sid, sequence, body);
    assert(" HTTP/1.1\r\nHOST: "@ == " HTTP/1.1"@ + header_gap("HOST"@)) by {
        reveal_strlit(" HTTP/1.1\r\nHOST: ");
        reveal_strlit(" HTTP/1.1");
        reveal_strlit("HOST");
        assert(" HTTP/1.1\r\nHOST: "@ =~= " HTTP/1.1"@ + header_gap("HOST"@));
    }
    assert("\r\nCONTENT-TYPE: text/xml; charset=utf-8\r\nNT: upnp:event\r\nNTS: upnp:propchange\r\nSID: "@ == header_gap("CONTENT-TYPE"@) + "text/xml; charset=utf-8"@ + header_gap("NT"@) + "upnp:event"@ + header_gap("NTS"@) + "upnp:propchange"@ + header_gap("SID"@)) by {
        reveal_strlit("\r\nCONTENT-TYPE: text/xml; charset=utf-8\r\nNT: upnp:event\r\nNTS: upnp:propchange\r\nSID: ");
        reveal_strlit("CONTENT-TYPE");
        reveal_strlit("text/xml; charset=utf-8");
        reveal_strlit("NT");
        reveal_strlit("upnp:event");
        reveal_strlit("NTS");
        reveal_strlit("upnp:propchange");
        reveal_strlit("SID");
        assert("\r\nCONTENT-TYPE: text/xml; charset=utf-8\r\nNT: upnp:event\r\nNTS: upnp:propchange\r\nSID: "@ =~= header_gap("CONTENT-TYPE"@) + "text/xml; charset=utf-8"@ + header_gap("NT"@) + "upnp:event"@ + header_gap("NTS"@) + "upnp:propchange"@ + header_gap("SID"@));
    }
    assert("\r\nSEQ: "@ == header_gap("SEQ"@)) by {
        reveal_strlit("\r\nSEQ: ");
        reveal_strlit("SEQ");
        assert("\r\nSEQ: "@ =~= header_gap("SEQ"@));
    }
    assert("\r\nCONTENT-LENGTH: "@ == header_gap("CONTENT-LENGTH"@)) by {
        reveal_strlit("\r\nCONTENT-LENGTH: ");
        reveal_strlit("CONTENT-LENGTH");
        assert("\r\nCONTENT-LENGTH: "@ =~= header_gap("CONTENT-LENGTH"@));
    }
    assert("\r\nCONNECTION: close"@ == header_gap("CONNECTION"@) + "close"@) by {
        reveal_strlit("\r\nCONNECTION: close");
        reveal_strlit("CONNECTION");
        reveal_strlit("close");
        assert("\r\nCONNECTION: close"@ =~= header_gap("CONNECTION"@) + "close"@);
    }
    let x0 = first;
    let h0 = Seq::<(Seq<char>, Seq<char>)>::empty();
    lemma_no_headers_yet(first);
    let x1 = x0 + header_gap("HOST"@) + target.host;
    let h1 = h0.push(("HOST"@, target.host));
    lemma_next_header(x0, first, h0, "HOST"@, target.host);
    let x2 = x1 + header_gap("CONTENT-TYPE"@) + "text/xml; charset=utf-8"@;
    let h2 = h1.push(("CONTENT-TYPE"@, "text/xml; charset=utf-8"@));
    lemma_next_header(x1, first, h1, "CONTENT-TYPE"@, "text/xml; charset=utf-8"@);
    let x3 = x2 + header_gap("NT"@) + "upnp:event"@;
    let h3 = h2.push(("NT"@, "upnp:event"@));
    lemma_next_header(x2, first, h2, "NT"@, "upnp:event"@);
    let x4 = x3 + header_gap("NTS"@) + "upnp:propchange"@;
    let h4 = h3.push(("NTS"@, "upnp:propchange"@));
    lemma_next_header(x3, first, h3, "NTS"@, "upnp:propchange"@);
    let x5 = x4 + header_gap("SID"@) + sid;
    let h5 = h4.push(("SID"@, sid));
    lemma_next_header(x4, first, h4, "SID"@, sid);
    let x6 = x5 + header_gap("SEQ"@) + decimal(sequence as nat);
    let h6 = h5.push(("SEQ"@, decimal(sequence as nat)));
    lemma_next_header(x5, first, h5, "SEQ"@, decimal(sequence as nat));
    let x7 = x6 + header_gap("CONTENT-LENGTH"@) + decimal(byte_len(body));
    let h7 = h6.push(("CONTENT-LENGTH"@, decimal(byte_len(body))));
    lemma_next_header(x6, first, h6, "CONTENT-LENGTH"@, decimal(byte_len(body)));
    let x8 = x7 + header_gap("CONNECTION"@) + "close"@;
    let h8 = h7.push(("CONNECTION"@, "close"@));
    lemma_next_header(x7, first, h7, "CONNECTION"@, "close"@);
    assert(h8 =~= h);
    let s1 = "NOTIFY "@;
    let s2 = s1 + target.path;
    let s3 = s2 + " HTTP/1.1\r\nHOST: "@;
    let s4 = s3 + target.host;
    let s5 = s4 + "\r\nCONTENT-TYPE: text/xml; charset=utf-8\r\nNT: upnp:event\r\nNTS: upnp:propchange\r\nSID: "@;
    let s6 = s5 + sid;
    let s7 = s6 + "\r\nSEQ: "@;
    let s8 = s7 + decimal(sequence as nat);
    let s9 = s8 + "\r\nCONTENT-LENGTH: "@;
    let s10 = s9 + decimal(byte_len(body));
    let s11 = s10 + "\r\nCONNECTION: close"@;
    let f1 = "NOTIFY "@;
    assert(s1 == f1);
    let f2 = f1 + target.path;
    assert(s2 == f2);
    let f3 = f2 + " HTTP/1.1"@ + header_gap("HOST"@);
    assert(s3 =~= f3);
    let f4 = f3 + target.host;
    assert(s4 == f4);
    let f5 = f4 + header_gap("CONTENT-TYPE"@) + "text/xml; charset=utf-8"@ + header_gap("NT"@) + "upnp:event"@ + header_gap("NTS"@) + "upnp:propchange"@ + header_gap("SID"@);
    assert(s5 =~= f5);
    let f6 = f5 + sid;
    assert(s6 == f6);
    let f7 = f6 + header_gap("SEQ"@);
    assert(s7 == f7);
    let f8 = f7 + decimal(sequence as nat);
    assert(s8 == f8);
    let f9 = f8 + header_gap("CONTENT-LENGTH"@);
    assert(s9 == f9);
    let f10 = f9 + decimal(byte_len(body));
    assert(s10 == f10);
    let f11 = f10 + header_gap("CONNECTION"@) + "close"@;
    assert(s11 =~= f11);
    assert(f11 =~= x8);
    assert(notify_text(target, sid, sequence, body) == x8 + e + tail) by {
        reveal_strlit("\r\n\r\n");
        assert(s11 + "\r\n\r\n"@ + body =~= x8 + e + tail);
        assert("\r\nCONNECTION: close\r\n\r\n"@ == "\r\nCONNECTION: close"@ + "\r\n\r\n"@) by {
            reveal_strlit("\r\nCONNECTION: close\r\n\r\n");
            reveal_strlit("\r\nCONNECTION: close");
            reveal_strlit("\r\n\r\n");
            assert("\r\nCONNECTION: close\r\n\r\n"@ =~= "\r\nCONNECTION: close"@ + "\r\n\r\n"@);
        }
        lemma_joined(s10, "\r\nCONNECTION: close"@, "\r\n\r\n"@);
        assert(notify_text(target, sid, sequence, body) =~= s11 + "\r\n\r\n"@ + body);
    }
    assert(notify_text(target, sid, sequence, body) == first + e + head_text(h) + tail);
    assert(proper(h)) by {
        reveal_strlit("HOST");
        reveal_strlit("CONTENT-TYPE");
        reveal_strlit("text/xml; charset=utf-8");
        reveal_strlit("NT");
        reveal_strlit("upnp:event");
        reveal_strlit("NTS");
        reveal_strlit("upnp:propchange");
        reveal_strlit("SID");
        reveal_strlit("SEQ");
        reveal_strlit("CONTENT-LENGTH");
        reveal_strlit("CONNECTION");
        reveal_strlit("close");
        assert forall|k: int| 0 <= k < h.len() implies lacks((#[trigger] h[k]).0, ':') && lacks(
            h[k].0,
            '\n',
        ) && lacks(h[k].1, '\n') by {}
    }
    assert(lacks(first, '\n')) by {
        reveal_strlit("NOTIFY ");
        reveal_strlit(" HTTP/1.1");
        lemma_lacks_joined("NOTIFY "@, target.path, '\n');
        lemma_lacks_joined("NOTIFY "@ + target.path, " HTTP/1.1"@, '\n');
    }
}

#[verifier::rlimit(40)]
proof fn lemma_notice_read(target: TargetView, sid: Seq<char>, sequence: u32, body: Seq<char>)
    requires
        lacks(target.path, '\n'),
        lacks(target.host, '\n'),
        lacks(sid, '\n'),
    ensures
        ({
            let lines = lines_spec(notify_text(target, sid, sequence, body));
            &&& lines.len() > 0 && lines[0] == "NOTIFY "@ + target.path + " HTTP/1.1"@
            &&& header_value_in(lines.skip(1), "HOST"@) == Some(trim_spec(target.host))
            &&& header_value_in(lines.skip(1), "CONTENT-TYPE"@) == Some(trim_spec("text/xml; charset=utf-8"@))
            &&& header_value_in(lines.skip(1), "NT"@) == Some(trim_spec("upnp:event"@))
            &&& header_value_in(lines.skip(1), "NTS"@) == Some(trim_spec("upnp:propchange"@))
            &&& header_value_in(lines.skip(1), "SID"@) == Some(trim_spec(sid))
            &&& header_value_in(lines.skip(1), "SEQ"@) == Some(trim_spec(decimal(sequence as nat)))
            &&& header_value_in(lines.skip(1), "CONTENT-LENGTH"@) == Some(trim_spec(decimal(byte_len(body))))
        }),
{
    lemma_notice_shape(target, sid, sequence, body);
    let first = "NOTIFY "@ + target.path + " HTTP/1.1"@;
    let tail: Seq<char> = seq!['\r', '\n'] + body;
    let h = notice_headers(target, sid, sequence, body);
    lemma_first_line(first, h, tail);
    assert(nameless(h.take(0), "HOST"@)) by {
        reveal_strlit("HOST");
        assert forall|k: int| 0 <= k < h.take(0).len() implies lower((#[trigger] h.take(0)[k]).0) != lower(
            "HOST"@,
        ) by {
            assert(h.take(0)[k] == h[k]);
        }
    }
    lemma_header_behind_first(first, h, tail, 0, "HOST"@);
    assert(nameless(h.take(1), "CONTENT-TYPE"@)) by {
        reveal_strlit("CONTENT-TYPE");
        reveal_strlit("HOST");
        lemma_names_differ("HOST"@, "CONTENT-TYPE"@, 0);
        assert forall|k: int| 0 <= k < h.take(1).len() implies lower((#[trigger] h.take(1)[k]).0) != lower(
            "CONTENT-TYPE"@,
        ) by {
            assert(h.take(1)[k] == h[k]);
        }
    }
    lemma_header_behind_first(first, h, tail, 1, "CONTENT-TYPE"@);
    assert(nameless(h.take(2), "NT"@)) by {
        reveal_strlit("NT");
        reveal_strlit("HOST");
        reveal_strlit("CONTENT-TYPE");
        lemma_names_differ("HOST"@, "NT"@, 0);
        lemma_names_differ("CONTENT-TYPE"@, "NT"@, 0);
        assert forall|k: int| 0 <= k < h.take(2).len() implies lower((#[trigger] h.take(2)[k]).0) != lower(
            "NT"@,
        ) by {
            assert(h.take(2)[k] == h[k]);
        }
    }
    lemma_header_behind_first(first, h, tail, 2, "NT"@);
    assert(nameless(h.take(3), "NTS"@)) by {
        reveal_strlit("NTS");
        reveal_strlit("HOST");
        reveal_strlit("CONTENT-TYPE");
        reveal_strlit("NT");
        lemma_names_differ("HOST"@, "NTS"@, 0);
        lemma_names_differ("CONTENT-TYPE"@, "NTS"@, 0);
        lemma_names_differ("NT"@, "NTS"@, 0);
        assert forall|k: int| 0 <= k < h.take(3).len() implies lower((#[trigger] h.take(3)[k]).0) != lower(
            "NTS"@,
        ) by {
            assert(h.take(3)[k] == h[k]);
        }
    }
    lemma_header_behind_first(first, h, tail, 3, "NTS"@);
    assert(nameless(h.take(4), "SID"@)) by {
        reveal_strlit("SID");
        reveal_strlit("HOST");
        reveal_strlit("CONTENT-TYPE");
        reveal_strlit("NT");
        reveal_strlit("NTS");
        lemma_names_differ("HOST"@, "SID"@, 0);
        lemma_names_differ("CONTENT-TYPE"@, "SID"@, 0);
        lemma_names_differ("NT"@, "SID"@, 0);
        lemma_names_differ("NTS"@, "SID"@, 0);
        assert forall|k: int| 0 <= k < h.take(4).len() implies lower((#[trigger] h.take(4)[k]).0) != lower(
            "SID"@,
        ) by {
            assert(h.take(4)[k] == h[k]);
        }
    }
    lemma_header_behind_first(first, h, tail, 4, "SID"@);
    assert(nameless(h.take(5), "SEQ"@)) by {
        reveal_strlit("SEQ");
        reveal_strlit("HOST");
        reveal_strlit("CONTENT-TYPE");
        reveal_strlit("NT");
        reveal_strlit("NTS");
        reveal_strlit("SID");
        lemma_names_differ("HOST"@, "SEQ"@, 0);
        lemma_names_differ("CONTENT-TYPE"@, "SEQ"@, 0);
        lemma_names_differ("NT"@, "SEQ"@, 0);
        lemma_names_differ("NTS"@, "SEQ"@, 0);
        lemma_names_differ("SID"@, "SEQ"@, 1);
        assert forall|k: int| 0 <= k < h.take(5).len() implies lower((#[trigger] h.take(5)[k]).0) != lower(
            "SEQ"@,
        ) by {
            assert(h.take(5)[k] == h[k]);
        }
    }
    lemma_header_behind_first(first, h, tail, 5, "SEQ"@);
    assert(nameless(h.take(6), "CONTENT-LENGTH"@)) by {
        reveal_strlit("CONTENT-LENGTH");
        reveal_strlit("HOST");
        reveal_strlit("CONTENT-TYPE");
        reveal_strlit("NT");
        reveal_strlit("NTS");
        reveal_strlit("SID");
        reveal_strlit("SEQ");
        lemma_names_differ("HOST"@, "CONTENT-LENGTH"@, 0);
        lemma_names_differ("CONTENT-TYPE"@, "CONTENT-LENGTH"@, 0);
        lemma_names_differ("NT"@, "CONTENT-LENGTH"@, 0);
        lemma_names_differ("NTS"@, "CONTENT-LENGTH"@, 0);
        lemma_names_differ("SID"@, "CONTENT-LENGTH"@, 0);
        lemma_names_differ("SEQ"@, "CONTENT-LENGTH"@, 0);
        assert forall|k: int| 0 <= k < h.take(6).len() implies lower((#[trigger] h.take(6)[k]).0) != lower(
            "CONTENT-LENGTH"@,
        ) by {
            assert(h.take(6)[k] == h[k]);
        }
    }
    lemma_header_behind_first(first, h, tail, 6, "CONTENT-LENGTH"@);
}

/// A message to a subscriber, read back: it is a notification for the path of the callback
/// address, of a change of properties. Its headers name the host, the subscription, the
/// number of the event and the length of the body, and the body stands behind them.
pub proof fn law_notification_is_read(
    target: TargetView,
    sid: Seq<char>,
    sequence: u32,
    body: Seq<char>,
)
    requires
        lacks(target.path, '\n'),
        lacks(target.host, '\n'),
        lacks(sid, '\n'),
    ensures
        ({
            let text = notify_text(target, sid, sequence, body);
            let lines = lines_spec(text);
            let headers = lines.skip(1);
            &&& lines.len() > 0 && lines[0] == "NOTIFY "@ + target.path + " HTTP/1.1"@
            &&& header_value_in(headers, "HOST"@) == Some(trim_spec(target.host))
            &&& header_value_in(headers, "CONTENT-TYPE"@) == Some("text/xml; charset=utf-8"@)
            &&& header_value_in(headers, "NT"@) == Some("upnp:event"@)
            &&& header_value_in(headers, "NTS"@) == Some("upnp:propchange"@)
            &&& header_value_in(headers, "SID"@) == Some(trim_spec(sid))
            &&& header_value_in(headers, "SEQ"@) matches Some(number) && uint_value(
                number,
                10,
                u32::MAX as int,
            ) == Some(sequence as nat)
            &&& header_value_in(headers, "CONTENT-LENGTH"@) matches Some(length) && uint_value(
                length,
                10,
                byte_len(body) as int,
            ) == Some(byte_len(body))
        }),
        lacks(target.path, '\r') && lacks(target.host, '\r') && lacks(sid, '\r') ==> rest_behind(
            notify_text(target, sid, sequence, body),
            "\r\n\r\n"@,
        ) == Some(body),
{
    lemma_notice_read(target, sid, sequence, body);
    lemma_number_is_read(sequence as nat, u32::MAX as int);
    lemma_number_is_read(byte_len(body), byte_len(body) as int);
    assert(trim_spec("text/xml; charset=utf-8"@) == "text/xml; charset=utf-8"@) by {
        reveal_strlit("text/xml; charset=utf-8");
        lemma_trim_nothing("text/xml; charset=utf-8"@);
    }
    assert(trim_spec("upnp:event"@) == "upnp:event"@) by {
        reveal_strlit("upnp:event");
        lemma_trim_nothing("upnp:event"@);
    }
    assert(trim_spec("upnp:propchange"@) == "upnp:propchange"@) by {
        reveal_strlit("upnp:propchange");
        lemma_trim_nothing("upnp:propchange"@);
    }
    if lacks(target.path, '\r') && lacks(target.host, '\r') && lacks(sid, '\r') {
        lemma_notice_shape(target, sid, sequence, body);
        let first = "NOTIFY "@ + target.path + " HTTP/1.1"@;
        let h = notice_headers(target, sid, sequence, body);
        assert(lacks(first, '\r')) by {
            reveal_strlit("NOTIFY ");
            reveal_strlit(" HTTP/1.1");
            lemma_lacks_joined("NOTIFY "@, target.path, '\r');
            lemma_lacks_joined("NOTIFY "@ + target.path, " HTTP/1.1"@, '\r');
        }
        assert(unbroken(h)) by {
            assert(lacks(decimal(sequence as nat), '\r') && lacks(decimal(byte_len(body)), '\r'));
            reveal_strlit("HOST");
            reveal_strlit("CONTENT-TYPE");
            reveal_strlit("text/xml; charset=utf-8");
            reveal_strlit("NT");
            reveal_strlit("upnp:event");
            reveal_strlit("NTS");
            reveal_strlit("upnp:propchange");
            reveal_strlit("SID");
            reveal_strlit("SEQ");
            reveal_strlit("CONTENT-LENGTH");
            reveal_strlit("CONNECTION");
            reveal_strlit("close");
        }
        lemma_body_is_read(first, h, body);
    }
}

/// A client is granted the time that it asks for, between a minute and a day; half an hour
/// where it asks for none, or for something that is no number of seconds.
pub proof fn law_timeout_is_what_was_asked_for(n: u64, other: Seq<char>)
    ensures
        60 <= n <= 86400 ==> timeout_value(Some("Second-"@ + decimal(n as nat))) == n,
        n < 60 ==> timeout_value(Some("Second-"@ + decimal(n as nat))) == 60,
        n > 86400 ==> timeout_value(Some("Second-"@ + decimal(n as nat))) == 86400,
        timeout_value(None) == 1800,
        !starts_at(other, "Second-"@, 0) ==> timeout_value(Some(other)) == 1800,
        uint_value(other, 10, u64::MAX as int) is None ==> timeout_value(Some("Second-"@ + other))
            == 1800,
{
    lemma_number_is_read(n as nat, u64::MAX as int);
    lemma_behind("Second-"@, decimal(n as nat));
    lemma_behind("Second-"@, other);
}

/// Whether an answer grants a subscription with this identifier for this many seconds.
pub open spec fn grants(response: ResponseView, sid: Seq<char>, seconds: u64) -> bool {
    &&& response.status == "200 OK"@
    &&& response.headers.len() == 2
    &&& response.headers[0] == ("SID"@, sid)
    &&& response.headers[1].0 == "TIMEOUT"@
    &&& behind(response.headers[1].1, "Second-"@) matches Some(text) && uint_value(
        text,
        10,
        u64::MAX as int,
    ) == Some(seconds as nat)
    &&& response.body.len() == 0
}

proof fn lemma_granted(sid: Seq<char>, seconds: u64)
    ensures
        grants(granted(sid, seconds), sid, seconds),
{
    lemma_number_is_read(seconds as nat, u64::MAX as int);
    lemma_behind("Second-"@, decimal(seconds as nat));
}

/// An HTTP address leads to the host that it names, at the port that it names, and to the path
/// behind the host.
pub proof fn law_address_leads_to_its_host(host: Seq<char>, path: Seq<char>, port: u16)
    requires
        host.len() > 0,
        lacks(host, '/'),
        path.len() > 0 ==> path[0] == '/',
    ensures
        ({
            let url = "http://"@ + host + path;
            &&& target_of(url) matches Some(target)
            &&& target.host == host
            &&& path.len() > 0 ==> target.path == path
            &&& path.len() == 0 ==> target.path == "/"@
            &&& lacks(host, ':') ==> target.socket == host + ":80"@
        }),
        ({
            let named = host + seq![':'] + decimal(port as nat);
            target_of("http://"@ + named + path) matches Some(target) && target.host == named
                && target.socket == named
        }),
{
    lemma_target(host, path);
    if lacks(host, ':') {
        lemma_rsplit_once_none(host, ':');
    }
    let number = decimal(port as nat);
    let named = host + seq![':'] + number;
    let n = host.len() as int;
    lemma_number_is_read(port as nat, u16::MAX as int);
    assert(lacks(number, '/') && lacks(number, ':'));
    lemma_lacks_joined(host, seq![':'], '/');
    lemma_lacks_joined(host + seq![':'], number, '/');
    lemma_target(named, path);
    assert forall|j: int| n < j < named.len() implies named[j] != ':' by {
        assert(named[j] == number[j - n - 1]);
    }
    lemma_rsplit_once(named, ':', n);
    assert(named.skip(n + 1) =~= number);
}

proof fn lemma_target(host: Seq<char>, path: Seq<char>)
    requires
        host.len() > 0,
        lacks(host, '/'),
        path.len() > 0 ==> path[0] == '/',
    ensures
        ({
            let url = "http://"@ + host + path;
            &&& starts_at(url, "http://"@, 0)
            &&& target_of(url) matches Some(target)
            &&& target.host == host
            &&& target.path == if path.len() > 0 {
                path
            } else {
                "/"@
            }
            &&& target.socket == if names_port(host) {
                host
            } else {
                host + ":80"@
            }
        }),
{
    let rest = host + path;
    lemma_behind("http://"@, rest);
    lemma_joined("http://"@, host, path);
    assert(strip_prefix_spec("http://"@ + host + path, "http://"@) == Some(rest));
    let n = host.len() as int;
    if path.len() > 0 {
        assert forall|j: int| 0 <= j < n implies rest[j] != '/' by {
            assert(rest[j] == host[j]);
        }
        assert(rest[n] == path[0]);
        lemma_find_char_unique(rest, '/', 0, n);
        assert(rest.take(n) =~= host);
        assert(rest.skip(n) =~= path);
    } else {
        assert(rest =~= host);
        lemma_find_char(rest, '/', 0);
    }
}

/// There is a usable address exactly where one of the addresses is usable, and the first one
/// is taken.
pub proof fn law_first_usable_address_is_taken(addresses: Seq<IpAddress>)
    ensures
        first_usable(addresses) is None <==> forall|i: int|
            0 <= i < addresses.len() ==> !(#[trigger] addresses[i]).usable(),
        first_usable(addresses) matches Some(i) ==> 0 <= i < addresses.len()
            && addresses[i].usable() && forall|j: int|
            0 <= j < i ==> !(#[trigger] addresses[j]).usable(),
    decreases addresses.len(),
{
    if addresses.len() > 0 {
        let front = addresses.drop_last();
        law_first_usable_address_is_taken(front);
        assert forall|i: int| 0 <= i < front.len() implies #[trigger] addresses[i] == front[i] by {}
        assert(addresses.last() == addresses[addresses.len() - 1]);
        if let Some(i) = first_usable(front) {
            assert(addresses[i] == front[i]);
            assert(addresses[i].usable());
        } else {
            assert forall|i: int| 0 <= i < front.len() implies !(
            #[trigger] addresses[i]).usable() by {
                assert(front[i] == addresses[i]);
                assert(!front[i].usable());
            }
        }
    }
}

/// A client that asks for events at an address that can be used is granted a subscription: it
/// is told the identifier and the time that it was granted, which is the time that it asked
/// for, and the new subscription is at that address, ends that much later, and begins with
/// event 0. The others stay as they are.
pub proof fn law_subscription_is_granted(
    headers: Map<Seq<char>, Seq<char>>,
    service: EventService,
    now: Span,
    addresses: Seq<IpAddress>,
    i: int,
    sid: Seq<char>,
    subs: Seq<SubscriptionView>,
    host: Seq<char>,
    path: Seq<char>,
    seconds: u64,
)
    requires
        looked_up(headers, "sid"@) is None,
        looked_up(headers, "nt"@) == Some("upnp:event"@),
        looked_up(headers, "callback"@) == Some(
            seq!['<'] + ("http://"@ + host + path) + seq!['>'],
        ),
        looked_up(headers, "timeout"@) == Some("Second-"@ + decimal(seconds as nat)),
        60 <= seconds <= 86400,
        host.len() > 0,
        lacks(host, '/'),
        path.len() > 0 ==> path[0] == '/',
        byte_len("http://"@ + host + path) <= 512,
        0 <= i < addresses.len(),
        addresses[i].usable(),
        subs.len() < 64,
        forall|k: int| 0 <= k < subs.len() ==> (#[trigger] subs[k]).sid != sid,
        now.secs + seconds <= u64::MAX,
    ensures
        ({
            let (response, after) = subscribed(headers, service, now, Some(addresses), sid, subs);
            &&& grants(response, sid, seconds)
            &&& after.len() == subs.len() + 1
            &&& after.drop_last() == subs
            &&& after.last().sid == sid
            &&& after.last().callback == "http://"@ + host + path
            &&& after.last().service == service
            &&& after.last().expires_at.secs == now.secs + seconds
            &&& after.last().expires_at.nanos == now.nanos
            &&& after.last().sequence == 0
        }),
{
    let url = "http://"@ + host + path;
    let given = seq!['<'] + url + seq!['>'];
    lemma_target(host, path);
    lemma_trim_nothing(given);
    assert(given.subrange(1, given.len() - 1) =~= url);
    assert(bracketed(given) == Some(url));
    law_timeout_is_what_was_asked_for(seconds, seq![]);
    law_first_usable_address_is_taken(addresses);
    lemma_find_sid(subs, sid, 0);
    lemma_granted(sid, seconds);
    let after = subscribed(headers, service, now, Some(addresses), sid, subs).1;
    assert(after.drop_last() =~= subs);
}

/// A request for a new subscription that lacks what it needs is refused, and nothing changes:
/// one that is not for events, one without a callback address between brackets, one whose
/// address is none of HTTP or too long, one whose host is not to be had, and one too many.
pub proof fn law_unusable_subscriptions_are_refused(
    headers: Map<Seq<char>, Seq<char>>,
    service: EventService,
    now: Span,
    addresses: Option<Seq<IpAddress>>,
    sid: Seq<char>,
    subs: Seq<SubscriptionView>,
    value: Seq<char>,
)
    requires
        looked_up(headers, "sid"@) is None,
    ensures
        ({
            let (response, after) = subscribed(headers, service, now, addresses, sid, subs);
            let callback = looked_up(headers, "callback"@);
            let refused = response.status == "412 Precondition Failed"@ && after == subs;
            &&& looked_up(headers, "nt"@) != Some("upnp:event"@) ==> refused
            &&& callback is None ==> refused
            &&& callback == Some(value) && value == trim_spec(value) && (value.len() < 2
                || value[0] != '<' || value.last() != '>') ==> refused
            &&& callback == Some(seq!['<'] + value + seq!['>']) && (!starts_at(
                value,
                "http://"@,
                0,
            ) || byte_len(value) > 512) ==> refused
            &&& addresses is None ==> refused
            &&& addresses matches Some(known) ==> (forall|i: int|
                0 <= i < known.len() ==> !(#[trigger] known[i]).usable()) ==> refused
            &&& subs.len() >= 64 ==> after == subs && (refused || response.status
                == "503 Service Unavailable"@)
        }),
{
    let given = seq!['<'] + value + seq!['>'];
    lemma_trim_nothing(given);
    assert(given.subrange(1, given.len() - 1) =~= value);
    if let Some(known) = addresses {
        law_first_usable_address_is_taken(known);
    }
}

/// A client that names its subscription is granted more time: the subscription then ends when
/// that time is over, and all else stays as it is.
pub proof fn law_subscription_is_prolonged(
    headers: Map<Seq<char>, Seq<char>>,
    service: EventService,
    now: Span,
    addresses: Option<Seq<IpAddress>>,
    sid: Seq<char>,
    subs: Seq<SubscriptionView>,
    i: int,
    seconds: u64,
)
    requires
        orderly(subs),
        0 <= i < subs.len(),
        looked_up(headers, "sid"@) == Some(subs[i].sid),
        looked_up(headers, "timeout"@) == Some("Second-"@ + decimal(seconds as nat)),
        60 <= seconds <= 86400,
        now.secs + seconds <= u64::MAX,
    ensures
        ({
            let (response, after) = subscribed(headers, service, now, addresses, sid, subs);
            if subs[i].service == service {
                &&& grants(response, subs[i].sid, seconds)
                &&& after.len() == subs.len()
                &&& forall|k: int| 0 <= k < subs.len() && k != i ==> #[trigger] after[k] == subs[k]
                &&& after[i].expires_at.secs == now.secs + seconds
                &&& after[i].expires_at.nanos == now.nanos
                &&& after[i].sid == subs[i].sid
                &&& after[i].callback == subs[i].callback
                &&& after[i].service == service
                &&& after[i].sequence == subs[i].sequence
            } else {
                response.status == "412 Precondition Failed"@ && after == subs
            }
        }),
{
    law_timeout_is_what_was_asked_for(seconds, seq![]);
    lemma_find_sid(subs, subs[i].sid, 0);
    lemma_granted(subs[i].sid, seconds);
}

/// A client that names its subscription ends it, and that one alone. One that names none, or
/// none of this service, is refused, and nothing changes.
pub proof fn law_subscription_is_ended(
    headers: Map<Seq<char>, Seq<char>>,
    service: EventService,
    subs: Seq<SubscriptionView>,
    i: int,
)
    requires
        orderly(subs),
        0 <= i < subs.len(),
    ensures
        ({
            let (response, after) = unsubscribed(headers, service, subs);
            let named = looked_up(headers, "sid"@);
            let refused = response.status == "412 Precondition Failed"@ && after == subs;
            &&& named is None ==> refused
            &&& named == Some(subs[i].sid) && subs[i].service != service ==> refused
            &&& (forall|k: int| 0 <= k < subs.len() ==> Some((#[trigger] subs[k]).sid) != named)
                ==> refused
            &&& named == Some(subs[i].sid) && subs[i].service == service ==> response.status
                == "200 OK"@ && after == subs.take(i) + subs.skip(i + 1)
        }),
{
    if let Some(sid) = looked_up(headers, "sid"@) {
        lemma_find_sid(subs, sid, 0);
        if sid == subs[i].sid {
            assert(subs.remove(i) =~= subs.take(i) + subs.skip(i + 1));
        }
    }
}

/// Events are numbered from one to the next, and behind the greatest number begin again.
pub proof fn law_next_event_has_the_next_number(n: u32)
    ensures
        n < u32::MAX ==> next_number(n) == n + 1,
        n == u32::MAX ==> next_number(n) == 0,
{
}

/// A change is told to exactly those that subscribed to the service that it happened in, and
/// to each once. An action that changed nothing or failed is told to nobody.
pub proof fn law_changes_are_told_to_subscribers(
    end: Outcome,
    service: EventService,
    subs: Seq<SubscriptionView>,
    sid: Seq<char>,
)
    requires
        orderly(subs),
    ensures
        ({
            let told = due(end, service, subs);
            &&& end is Err ==> told.len() == 0
            &&& end matches Ok(reply) ==> !reply.1 ==> told.len() == 0
            &&& end matches Ok(reply) ==> reply.1 ==> (told.contains(sid) <==> exists|i: int|
                0 <= i < subs.len() && (#[trigger] subs[i]).sid == sid && subs[i].service
                    == service)
            &&& told.no_duplicates()
        }),
{
    lemma_sids(service, subs);
    let told = sids_of(subs, service);
    if told.contains(sid) {
        let k = choose|k: int| 0 <= k < told.len() && told[k] == sid;
        assert(subscribed_as(service, subs, told[k]));
    }
}

/// Whether there is a subscription to a service with this identifier.
spec fn subscribed_as(
    service: EventService,
    subs: Seq<SubscriptionView>,
    sid: Seq<char>,
) -> bool {
    exists|i: int|
        0 <= i < subs.len() && (#[trigger] subs[i]).sid == sid && subs[i].service == service
}

proof fn lemma_sids(service: EventService, subs: Seq<SubscriptionView>)
    requires
        orderly(subs),
    ensures
        forall|i: int|
            0 <= i < subs.len() && (#[trigger] subs[i]).service == service ==> sids_of(
                subs,
                service,
            ).contains(subs[i].sid),
        forall|k: int|
            0 <= k < sids_of(subs, service).len() ==> subscribed_as(
                service,
                subs,
                #[trigger] sids_of(subs, service)[k],
            ),
        sids_of(subs, service).no_duplicates(),
    decreases subs.len(),
{
    let told = sids_of(subs, service);
    if subs.len() > 0 {
        let front = subs.drop_last();
        let n = subs.len() - 1;
        let rest = sids_of(front, service);
        assert(subs.last() == subs[n]);
        assert(orderly(front)) by {
            assert forall|i: int, j: int| 0 <= i < j < front.len() implies (
            #[trigger] front[i]).sid != (#[trigger] front[j]).sid by {
                assert(front[i] == subs[i] && front[j] == subs[j]);
            }
        }
        lemma_sids(service, front);
        assert forall|k: int| 0 <= k < rest.len() implies #[trigger] told[k] == rest[k] by {}
        assert forall|k: int| 0 <= k < told.len() implies subscribed_as(
            service,
            subs,
            #[trigger] told[k],
        ) by {
            if k < rest.len() {
                assert(subscribed_as(service, front, rest[k]));
                let i = choose|i: int|
                    0 <= i < front.len() && (#[trigger] front[i]).sid == rest[k] && front[i].service
                        == service;
                assert(subs[i] == front[i]);
                assert(subs[i].sid == told[k]);
            } else {
                assert(subs[n].sid == told[k]);
            }
        }
        assert forall|i: int|
            0 <= i < subs.len() && (#[trigger] subs[i]).service == service implies told.contains(
            subs[i].sid,
        ) by {
            if i < n {
                assert(front[i] == subs[i]);
                let k = choose|k: int| 0 <= k < rest.len() && rest[k] == front[i].sid;
                assert(told[k] == subs[i].sid);
            } else {
                assert(told[told.len() - 1] == subs[i].sid);
            }
        }
        if subs[n].service == service {
            assert forall|k: int| 0 <= k < rest.len() implies #[trigger] rest[k] != subs[n].sid by {
                assert(subscribed_as(service, front, rest[k]));
                let i = choose|i: int|
                    0 <= i < front.len() && (#[trigger] front[i]).sid == rest[k] && front[i].service
                        == service;
                assert(subs[i] == front[i]);
                assert(subs[i].sid != subs[n].sid);
            }
            assert(told == rest.push(subs[n].sid));
        } else {
            assert(told == rest);
        }
    }
}

} // verus!
