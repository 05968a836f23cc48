//! What discovery messages say to those who read them.

use vstd::prelude::*;
use crate::http::header_value_in;
use crate::reading::{
    head_text, header_gap, header_line, lacks, lemma_first_line, lemma_head_line, lemma_header_is_missing,
    lemma_header_is_read, lemma_header_one_line, lemma_header_other, lemma_joined,
    lemma_lacks_joined, lemma_names_differ, lemma_next_header,
    lemma_no_header, lemma_no_headers_yet, lemma_number_is_read, lemma_trim_nothing, nameless,
    proper,
};
use crate::net::Ipv4;
use crate::number::decimal;
use crate::ssdp::{
    advertised, announcement, announcements, find_target, location_at, next_announcement,
    requested, search_answer, search_answers, searched, service_name,
    AnnounceAction, DEVICE_TYPE, UDN,
};
use crate::text::{lemma_find_char_unique, lines_spec, lower, rsplit_once_spec, trim_spec};
use crate::upnp::gena::{target_of, TargetView};
use crate::upnp::soap::EventService;

verus! {

/// A unique service name is one line where its target is.
proof fn lemma_service_name_one_line(target: Seq<char>)
    requires
        lacks(target, '\n'),
    ensures
        lacks(service_name(target), '\n'),
{
    reveal_strlit("uuid:mini-mdr");
    reveal_strlit("::");
    lemma_lacks_joined(UDN@, "::"@, '\n');
    lemma_lacks_joined(UDN@ + "::"@, target, '\n');
}

/// The headers of an announcement of a renderer that is there.
spec fn presence_headers(target: Seq<char>, location: Seq<char>, name: Seq<char>, nts: Seq<char>, date: Seq<char>) -> Seq<(Seq<char>, Seq<char>)> {
    seq![
        ("HOST"@, "239.255.255.250:1900"@),
        ("NT"@, target),
        ("NTS"@, nts),
        ("USN"@, service_name(target)),
        ("SERVER"@, name),
        ("DATE"@, date),
        ("CACHE-CONTROL"@, "max-age=1800"@),
        ("LOCATION"@, location),
    ]
}

#[verifier::rlimit(30)]
proof fn lemma_presence_shape(target: Seq<char>, location: Seq<char>, name: Seq<char>, nts: Seq<char>, date: Seq<char>)
    requires
        nts == "ssdp:alive"@,
        lacks(target, '\n'),
        lacks(location, '\n'),
        lacks(name, '\n'),
        lacks(nts, '\n'),
        lacks(date, '\n'),
    ensures
        announcement(target, location, name, nts, date) == "NOTIFY * HTTP/1.1"@ + seq!['\r', '\n'] + head_text(presence_headers(target, location, name, nts, date)) + seq!['\r', '\n'],
        proper(presence_headers(target, location, name, nts, date)),
        lacks("NOTIFY * HTTP/1.1"@, ':'),
        lacks("NOTIFY * HTTP/1.1"@, '\n'),
{
    lemma_service_name_one_line(target);
    let e = seq!['\r', '\n'];
    let first = "NOTIFY * HTTP/1.1"@;
    let tail: Seq<char> = seq!['\r', '\n'];
    let h = presence_headers(target, location, name, nts, date);
    assert("NOTIFY * HTTP/1.1\r\nHOST: 239.255.255.250:1900\r\nNT: "@ == "NOTIFY * HTTP/1.1"@ + header_gap("HOST"@) + "239.255.255.250:1900"@ + header_gap("NT"@)) by {
        reveal_strlit("NOTIFY * HTTP/1.1\r\nHOST: 239.255.255.250:1900\r\nNT: ");
        reveal_strlit("NOTIFY * HTTP/1.1");
        reveal_strlit("HOST");
        reveal_strlit("239.255.255.250:1900");
        reveal_strlit("NT");
        assert("NOTIFY * HTTP/1.1\r\nHOST: 239.255.255.250:1900\r\nNT: "@ =~= "NOTIFY * HTTP/1.1"@ + header_gap("HOST"@) + "239.255.255.250:1900"@ + header_gap("NT"@));
    }
    assert("\r\nNTS: "@ == header_gap("NTS"@)) by {
        reveal_strlit("\r\nNTS: ");
        reveal_strlit("NTS");
        assert("\r\nNTS: "@ =~= header_gap("NTS"@));
    }
    assert("\r\nUSN: "@ == header_gap("USN"@)) by {
        reveal_strlit("\r\nUSN: ");
        reveal_strlit("USN");
        assert("\r\nUSN: "@ =~= header_gap("USN"@));
    }
    assert("\r\nSERVER: "@ == header_gap("SERVER"@)) by {
        reveal_strlit("\r\nSERVER: ");
        reveal_strlit("SERVER");
        assert("\r\nSERVER: "@ =~= header_gap("SERVER"@));
    }
    assert("\r\nDATE: "@ == header_gap("DATE"@)) by {
        reveal_strlit("\r\nDATE: ");
        reveal_strlit("DATE");
        assert("\r\nDATE: "@ =~= header_gap("DATE"@));
    }
    assert("\r\nCACHE-CONTROL: max-age=1800\r\nLOCATION: "@ == header_gap("CACHE-CONTROL"@) + "max-age=1800"@ + header_gap("LOCATION"@)) by {
        reveal_strlit("\r\nCACHE-CONTROL: max-age=1800\r\nLOCATION: ");
        reveal_strlit("CACHE-CONTROL");
        reveal_strlit("max-age=1800");
        reveal_strlit("LOCATION");
        assert("\r\nCACHE-CONTROL: max-age=1800\r\nLOCATION: "@ =~= header_gap("CACHE-CONTROL"@) + "max-age=1800"@ + header_gap("LOCATION"@));
    }
    let x0 = first;
    let h0 = Seq::<(Seq<char>, Seq<char>)>::empty();
    lemma_no_headers_yet(first);
    let x1 = x0 + header_gap("HOST"@) + "239.255.255.250:1900"@;
    let h1 = h0.push(("HOST"@, "239.255.255.250:1900"@));
    lemma_next_header(x0, first, h0, "HOST"@, "239.255.255.250:1900"@);
    let x2 = x1 + header_gap("NT"@) + target;
    let h2 = h1.push(("NT"@, target));
    lemma_next_header(x1, first, h1, "NT"@, target);
    let x3 = x2 + header_gap("NTS"@) + nts;
    let h3 = h2.push(("NTS"@, nts));
    lemma_next_header(x2, first, h2, "NTS"@, nts);
    let x4 = x3 + header_gap("USN"@) + service_name(target);
    let h4 = h3.push(("USN"@, service_name(target)));
    lemma_next_header(x3, first, h3, "USN"@, service_name(target));
    let x5 = x4 + header_gap("SERVER"@) + name;
    let h5 = h4.push(("SERVER"@, name));
    lemma_next_header(x4, first, h4, "SERVER"@, name);
    let x6 = x5 + header_gap("DATE"@) + date;
    let h6 = h5.push(("DATE"@, date));
    lemma_next_header(x5, first, h5, "DATE"@, date);
    let x7 = x6 + header_gap("CACHE-CONTROL"@) + "max-age=1800"@;
    let h7 = h6.push(("CACHE-CONTROL"@, "max-age=1800"@));
    lemma_next_header(x6, first, h6, "CACHE-CONTROL"@, "max-age=1800"@);
    let x8 = x7 + header_gap("LOCATION"@) + location;
    let h8 = h7.push(("LOCATION"@, location));
    lemma_next_header(x7, first, h7, "LOCATION"@, location);
    assert(h8 =~= h);
    let s1 = "NOTIFY * HTTP/1.1\r\nHOST: 239.255.255.250:1900\r\nNT: "@;
    let s2 = s1 + target;
    let s3 = s2 + "\r\nNTS: "@;
    let s4 = s3 + nts;
    let s5 = s4 + "\r\nUSN: "@;
    let s6 = s5 + service_name(target);
    let s7 = s6 + "\r\nSERVER: "@;
    let s8 = s7 + name;
    let s9 = s8 + "\r\nDATE: "@;
    let s10 = s9 + date;
    let s11 = s10 + "\r\nCACHE-CONTROL: max-age=1800\r\nLOCATION: "@;
    let s12 = s11 + location;
    let f1 = "NOTIFY * HTTP/1.1"@ + header_gap("HOST"@) + "239.255.255.250:1900"@ + header_gap("NT"@);
    assert(s1 == f1);
    let f2 = f1 + target;
    assert(s2 == f2);
    let f3 = f2 + header_gap("NTS"@);
    assert(s3 == f3);
    let f4 = f3 + nts;
    assert(s4 == f4);
    let f5 = f4 + header_gap("USN"@);
    assert(s5 == f5);
    let f6 = f5 + service_name(target);
    assert(s6 == f6);
    let f7 = f6 + header_gap("SERVER"@);
    assert(s7 == f7);
    let f8 = f7 + name;
    assert(s8 == f8);
    let f9 = f8 + header_gap("DATE"@);
    assert(s9 == f9);
    let f10 = f9 + date;
    assert(s10 == f10);
    let f11 = f10 + header_gap("CACHE-CONTROL"@) + "max-age=1800"@ + header_gap("LOCATION"@);
    assert(s11 =~= f11);
    let f12 = f11 + location;
    assert(s12 == f12);
    assert(f12 =~= x8);
    assert(announcement(target, location, name, nts, date) == x8 + e + tail) by {
        reveal_strlit("\r\n");
        assert(s12 + "\r\n"@ + "\r\n"@ =~= x8 + e + tail);
        reveal_strlit("CACHE-CONTROL: max-age=1800\r\nLOCATION: ");
        reveal_strlit("\r\nCACHE-CONTROL: max-age=1800\r\nLOCATION: ");
        assert("\r\n"@ + "CACHE-CONTROL: max-age=1800\r\nLOCATION: "@
            =~= "\r\nCACHE-CONTROL: max-age=1800\r\nLOCATION: "@);
        let head = s10 + "\r\n"@;
        assert(head + "CACHE-CONTROL: max-age=1800\r\nLOCATION: "@ =~= s10 + ("\r\n"@
            + "CACHE-CONTROL: max-age=1800\r\nLOCATION: "@));
        assert(announcement(target, location, name, nts, date) =~= s12 + "\r\n"@ + "\r\n"@);
    }
    assert(announcement(target, location, name, nts, date) == first + e + head_text(h) + tail);
    assert(proper(h)) by {
        reveal_strlit("HOST");
        reveal_strlit("239.255.255.250:1900");
        reveal_strlit("NT");
        reveal_strlit("NTS");
        reveal_strlit("USN");
        reveal_strlit("SERVER");
        reveal_strlit("DATE");
        reveal_strlit("CACHE-CONTROL");
        reveal_strlit("max-age=1800");
        reveal_strlit("LOCATION");
        assert forall|k: int| 0 <= k < h.len() implies lacks((#[trigger] h[k]).0, ':') && lacks(
            h[k].0,
            '\n',
        ) && lacks(h[k].1, '\n') by {}
    }
    assert(lacks(first, ':') && lacks(first, '\n')) by {
        reveal_strlit("NOTIFY * HTTP/1.1");
    }
}

#[verifier::rlimit(30)]
proof fn lemma_presence_read(target: Seq<char>, location: Seq<char>, name: Seq<char>, nts: Seq<char>, date: Seq<char>)
    requires
        nts == "ssdp:alive"@,
        lacks(target, '\n'),
        lacks(location, '\n'),
        lacks(name, '\n'),
        lacks(nts, '\n'),
        lacks(date, '\n'),
    ensures
        ({
            let lines = lines_spec(announcement(target, location, name, nts, date));
            &&& lines.len() > 0 && lines[0] == "NOTIFY * HTTP/1.1"@
            &&& header_value_in(lines, "HOST"@) == Some(trim_spec("239.255.255.250:1900"@))
            &&& header_value_in(lines, "NT"@) == Some(trim_spec(target))
            &&& header_value_in(lines, "NTS"@) == Some(trim_spec(nts))
            &&& header_value_in(lines, "USN"@) == Some(trim_spec(service_name(target)))
            &&& header_value_in(lines, "SERVER"@) == Some(trim_spec(name))
            &&& header_value_in(lines, "DATE"@) == Some(trim_spec(date))
            &&& header_value_in(lines, "CACHE-CONTROL"@) == Some(trim_spec("max-age=1800"@))
            &&& header_value_in(lines, "LOCATION"@) == Some(trim_spec(location))
        }),
{
    lemma_presence_shape(target, location, name, nts, date);
    let first = "NOTIFY * HTTP/1.1"@;
    let tail: Seq<char> = seq!['\r', '\n'];
    let h = presence_headers(target, location, name, nts, date);
    lemma_first_line(first, h, tail);
    assert(nameless(h.take(0), "HOST"@)) by {
        reveal_strlit("HOST");
        assert forall|k: int| 0 <= k < h.take(0).len() implies lower((#[trigger] h.take(0)[k]).0) != lower(
            "HOST"@,
        ) by {
            assert(h.take(0)[k] == h[k]);
        }
    }
    lemma_header_is_read(first, h, tail, 0, "HOST"@);
    assert(nameless(h.take(1), "NT"@)) by {
        reveal_strlit("NT");
        reveal_strlit("HOST");
        lemma_names_differ("HOST"@, "NT"@, 0);
        assert forall|k: int| 0 <= k < h.take(1).len() implies lower((#[trigger] h.take(1)[k]).0) != lower(
            "NT"@,
        ) by {
            assert(h.take(1)[k] == h[k]);
        }
    }
    lemma_header_is_read(first, h, tail, 1, "NT"@);
    assert(nameless(h.take(2), "NTS"@)) by {
        reveal_strlit("NTS");
        reveal_strlit("HOST");
        reveal_strlit("NT");
        lemma_names_differ("HOST"@, "NTS"@, 0);
        lemma_names_differ("NT"@, "NTS"@, 0);
        assert forall|k: int| 0 <= k < h.take(2).len() implies lower((#[trigger] h.take(2)[k]).0) != lower(
            "NTS"@,
        ) by {
            assert(h.take(2)[k] == h[k]);
        }
    }
    lemma_header_is_read(first, h, tail, 2, "NTS"@);
    assert(nameless(h.take(3), "USN"@)) by {
        reveal_strlit("USN");
        reveal_strlit("HOST");
        reveal_strlit("NT");
        reveal_strlit("NTS");
        lemma_names_differ("HOST"@, "USN"@, 0);
        lemma_names_differ("NT"@, "USN"@, 0);
        lemma_names_differ("NTS"@, "USN"@, 0);
        assert forall|k: int| 0 <= k < h.take(3).len() implies lower((#[trigger] h.take(3)[k]).0) != lower(
            "USN"@,
        ) by {
            assert(h.take(3)[k] == h[k]);
        }
    }
    lemma_header_is_read(first, h, tail, 3, "USN"@);
    assert(nameless(h.take(4), "SERVER"@)) by {
        reveal_strlit("SERVER");
        reveal_strlit("HOST");
        reveal_strlit("NT");
        reveal_strlit("NTS");
        reveal_strlit("USN");
        lemma_names_differ("HOST"@, "SERVER"@, 0);
        lemma_names_differ("NT"@, "SERVER"@, 0);
        lemma_names_differ("NTS"@, "SERVER"@, 0);
        lemma_names_differ("USN"@, "SERVER"@, 0);
        assert forall|k: int| 0 <= k < h.take(4).len() implies lower((#[trigger] h.take(4)[k]).0) != lower(
            "SERVER"@,
        ) by {
            assert(h.take(4)[k] == h[k]);
        }
    }
    lemma_header_is_read(first, h, tail, 4, "SERVER"@);
    assert(nameless(h.take(5), "DATE"@)) by {
        reveal_strlit("DATE");
        reveal_strlit("HOST");
        reveal_strlit("NT");
        reveal_strlit("NTS");
        reveal_strlit("USN");
        reveal_strlit("SERVER");
        lemma_names_differ("HOST"@, "DATE"@, 0);
        lemma_names_differ("NT"@, "DATE"@, 0);
        lemma_names_differ("NTS"@, "DATE"@, 0);
        lemma_names_differ("USN"@, "DATE"@, 0);
        lemma_names_differ("SERVER"@, "DATE"@, 0);
        assert forall|k: int| 0 <= k < h.take(5).len() implies lower((#[trigger] h.take(5)[k]).0) != lower(
            "DATE"@,
        ) by {
            assert(h.take(5)[k] == h[k]);
        }
    }
    lemma_header_is_read(first, h, tail, 5, "DATE"@);
    assert(nameless(h.take(6), "CACHE-CONTROL"@)) by {
        reveal_strlit("CACHE-CONTROL");
        reveal_strlit("HOST");
        reveal_strlit("NT");
        reveal_strlit("NTS");
        reveal_strlit("USN");
        reveal_strlit("SERVER");
        reveal_strlit("DATE");
        lemma_names_differ("HOST"@, "CACHE-CONTROL"@, 0);
        lemma_names_differ("NT"@, "CACHE-CONTROL"@, 0);
        lemma_names_differ("NTS"@, "CACHE-CONTROL"@, 0);
        lemma_names_differ("USN"@, "CACHE-CONTROL"@, 0);
        lemma_names_differ("SERVER"@, "CACHE-CONTROL"@, 0);
        lemma_names_differ("DATE"@, "CACHE-CONTROL"@, 0);
        assert forall|k: int| 0 <= k < h.take(6).len() implies lower((#[trigger] h.take(6)[k]).0) != lower(
            "CACHE-CONTROL"@,
        ) by {
            assert(h.take(6)[k] == h[k]);
        }
    }
    lemma_header_is_read(first, h, tail, 6, "CACHE-CONTROL"@);
    assert(nameless(h.take(7), "LOCATION"@)) by {
        reveal_strlit("LOCATION");
        reveal_strlit("HOST");
        reveal_strlit("NT");
        reveal_strlit("NTS");
        reveal_strlit("USN");
        reveal_strlit("SERVER");
        reveal_strlit("DATE");
        reveal_strlit("CACHE-CONTROL");
        lemma_names_differ("HOST"@, "LOCATION"@, 0);
        lemma_names_differ("NT"@, "LOCATION"@, 0);
        lemma_names_differ("NTS"@, "LOCATION"@, 0);
        lemma_names_differ("USN"@, "LOCATION"@, 0);
        lemma_names_differ("SERVER"@, "LOCATION"@, 0);
        lemma_names_differ("DATE"@, "LOCATION"@, 0);
        lemma_names_differ("CACHE-CONTROL"@, "LOCATION"@, 0);
        assert forall|k: int| 0 <= k < h.take(7).len() implies lower((#[trigger] h.take(7)[k]).0) != lower(
            "LOCATION"@,
        ) by {
            assert(h.take(7)[k] == h[k]);
        }
    }
    lemma_header_is_read(first, h, tail, 7, "LOCATION"@);
}

/// The headers of an announcement of a renderer that leaves.
spec fn absence_headers(target: Seq<char>, location: Seq<char>, name: Seq<char>, nts: Seq<char>, date: Seq<char>) -> Seq<(Seq<char>, Seq<char>)> {
    seq![
        ("HOST"@, "239.255.255.250:1900"@),
        ("NT"@, target),
        ("NTS"@, nts),
        ("USN"@, service_name(target)),
        ("SERVER"@, name),
        ("DATE"@, date),
    ]
}

#[verifier::rlimit(30)]
proof fn lemma_absence_shape(target: Seq<char>, location: Seq<char>, name: Seq<char>, nts: Seq<char>, date: Seq<char>)
    requires
        nts != "ssdp:alive"@,
        lacks(target, '\n'),
        lacks(location, '\n'),
        lacks(name, '\n'),
        lacks(nts, '\n'),
        lacks(date, '\n'),
    ensures
        announcement(target, location, name, nts, date) == "NOTIFY * HTTP/1.1"@ + seq!['\r', '\n'] + head_text(absence_headers(target, location, name, nts, date)) + seq!['\r', '\n'],
        proper(absence_headers(target, location, name, nts, date)),
        lacks("NOTIFY * HTTP/1.1"@, ':'),
        lacks("NOTIFY * HTTP/1.1"@, '\n'),
{
    lemma_service_name_one_line(target);
    let e = seq!['\r', '\n'];
    let first = "NOTIFY * HTTP/1.1"@;
    let tail: Seq<char> = seq!['\r', '\n'];
    let h = absence_headers(target, location, name, nts, date);
    assert("NOTIFY * HTTP/1.1\r\nHOST: 239.255.255.250:1900\r\nNT: "@ == "NOTIFY * HTTP/1.1"@ + header_gap("HOST"@) + "239.255.255.250:1900"@ + header_gap("NT"@)) by {
        reveal_strlit("NOTIFY * HTTP/1.1\r\nHOST: 239.255.255.250:1900\r\nNT: ");
        reveal_strlit("NOTIFY * HTTP/1.1");
        reveal_strlit("HOST");
        reveal_strlit("239.255.255.250:1900");
        reveal_strlit("NT");
        assert("NOTIFY * HTTP/1.1\r\nHOST: 239.255.255.250:1900\r\nNT: "@ =~= "NOTIFY * HTTP/1.1"@ + header_gap("HOST"@) + "239.255.255.250:1900"@ + header_gap("NT"@));
    }
    assert("\r\nNTS: "@ == header_gap("NTS"@)) by {
        reveal_strlit("\r\nNTS: ");
        reveal_strlit("NTS");
        assert("\r\nNTS: "@ =~= header_gap("NTS"@));
    }
    assert("\r\nUSN: "@ == header_gap("USN"@)) by {
        reveal_strlit("\r\nUSN: ");
        reveal_strlit("USN");
        assert("\r\nUSN: "@ =~= header_gap("USN"@));
    }
    assert("\r\nSERVER: "@ == header_gap("SERVER"@)) by {
        reveal_strlit("\r\nSERVER: ");
        reveal_strlit("SERVER");
        assert("\r\nSERVER: "@ =~= header_gap("SERVER"@));
    }
    assert("\r\nDATE: "@ == header_gap("DATE"@)) by {
        reveal_strlit("\r\nDATE: ");
        reveal_strlit("DATE");
        assert("\r\nDATE: "@ =~= header_gap("DATE"@));
    }
    let x0 = first;
    let h0 = Seq::<(Seq<char>, Seq<char>)>::empty();
    lemma_no_headers_yet(first);
    let x1 = x0 + header_gap("HOST"@) + "239.255.255.250:1900"@;
    let h1 = h0.push(("HOST"@, "239.255.255.250:1900"@));
    lemma_next_header(x0, first, h0, "HOST"@, "239.255.255.250:1900"@);
    let x2 = x1 + header_gap("NT"@) + target;
    let h2 = h1.push(("NT"@, target));
    lemma_next_header(x1, first, h1, "NT"@, target);
    let x3 = x2 + header_gap("NTS"@) + nts;
    let h3 = h2.push(("NTS"@, nts));
    lemma_next_header(x2, first, h2, "NTS"@, nts);
    let x4 = x3 + header_gap("USN"@) + service_name(target);
    let h4 = h3.push(("USN"@, service_name(target)));
    lemma_next_header(x3, first, h3, "USN"@, service_name(target));
    let x5 = x4 + header_gap("SERVER"@) + name;
    let h5 = h4.push(("SERVER"@, name));
    lemma_next_header(x4, first, h4, "SERVER"@, name);
    let x6 = x5 + header_gap("DATE"@) + date;
    let h6 = h5.push(("DATE"@, date));
    lemma_next_header(x5, first, h5, "DATE"@, date);
    assert(h6 =~= h);
    let s1 = "NOTIFY * HTTP/1.1\r\nHOST: 239.255.255.250:1900\r\nNT: "@;
    let s2 = s1 + target;
    let s3 = s2 + "\r\nNTS: "@;
    let s4 = s3 + nts;
    let s5 = s4 + "\r\nUSN: "@;
    let s6 = s5 + service_name(target);
    let s7 = s6 + "\r\nSERVER: "@;
    let s8 = s7 + name;
    let s9 = s8 + "\r\nDATE: "@;
    let s10 = s9 + date;
    let f1 = "NOTIFY * HTTP/1.1"@ + header_gap("HOST"@) + "239.255.255.250:1900"@ + header_gap("NT"@);
    assert(s1 == f1);
    let f2 = f1 + target;
    assert(s2 == f2);
    let f3 = f2 + header_gap("NTS"@);
    assert(s3 == f3);
    let f4 = f3 + nts;
    assert(s4 == f4);
    let f5 = f4 + header_gap("USN"@);
    assert(s5 == f5);
    let f6 = f5 + service_name(target);
    assert(s6 == f6);
    let f7 = f6 + header_gap("SERVER"@);
    assert(s7 == f7);
    let f8 = f7 + name;
    assert(s8 == f8);
    let f9 = f8 + header_gap("DATE"@);
    assert(s9 == f9);
    let f10 = f9 + date;
    assert(s10 == f10);
    assert(f10 =~= x6);
    assert(announcement(target, location, name, nts, date) == x6 + e + tail) by {
        reveal_strlit("\r\n");
        assert(s10 + "\r\n"@ + "\r\n"@ =~= x6 + e + tail);
        assert(announcement(target, location, name, nts, date) =~= s10 + "\r\n"@ + "\r\n"@);
    }
    assert(announcement(target, location, name, nts, date) == first + e + head_text(h) + tail);
    assert(proper(h)) by {
        reveal_strlit("HOST");
        reveal_strlit("239.255.255.250:1900");
        reveal_strlit("NT");
        reveal_strlit("NTS");
        reveal_strlit("USN");
        reveal_strlit("SERVER");
        reveal_strlit("DATE");
        assert forall|k: int| 0 <= k < h.len() implies lacks((#[trigger] h[k]).0, ':') && lacks(
            h[k].0,
            '\n',
        ) && lacks(h[k].1, '\n') by {}
    }
    assert(lacks(first, ':') && lacks(first, '\n')) by {
        reveal_strlit("NOTIFY * HTTP/1.1");
    }
}

#[verifier::rlimit(30)]
proof fn lemma_absence_read(target: Seq<char>, location: Seq<char>, name: Seq<char>, nts: Seq<char>, date: Seq<char>)
    requires
        nts != "ssdp:alive"@,
        lacks(target, '\n'),
        lacks(location, '\n'),
        lacks(name, '\n'),
        lacks(nts, '\n'),
        lacks(date, '\n'),
    ensures
        ({
            let lines = lines_spec(announcement(target, location, name, nts, date));
            &&& lines.len() > 0 && lines[0] == "NOTIFY * HTTP/1.1"@
            &&& header_value_in(lines, "HOST"@) == Some(trim_spec("239.255.255.250:1900"@))
            &&& header_value_in(lines, "NT"@) == Some(trim_spec(target))
            &&& header_value_in(lines, "NTS"@) == Some(trim_spec(nts))
            &&& header_value_in(lines, "USN"@) == Some(trim_spec(service_name(target)))
            &&& header_value_in(lines, "SERVER"@) == Some(trim_spec(name))
            &&& header_value_in(lines, "DATE"@) == Some(trim_spec(date))
            &&& header_value_in(lines, "LOCATION"@) == header_value_in(lines_spec(seq!['\r', '\n']), "LOCATION"@)
        }),
{
    lemma_absence_shape(target, location, name, nts, date);
    let first = "NOTIFY * HTTP/1.1"@;
    let tail: Seq<char> = seq!['\r', '\n'];
    let h = absence_headers(target, location, name, nts, date);
    lemma_first_line(first, h, tail);
    assert(nameless(h.take(0), "HOST"@)) by {
        reveal_strlit("HOST");
        assert forall|k: int| 0 <= k < h.take(0).len() implies lower((#[trigger] h.take(0)[k]).0) != lower(
            "HOST"@,
        ) by {
            assert(h.take(0)[k] == h[k]);
        }
    }
    lemma_header_is_read(first, h, tail, 0, "HOST"@);
    assert(nameless(h.take(1), "NT"@)) by {
        reveal_strlit("NT");
        reveal_strlit("HOST");
        lemma_names_differ("HOST"@, "NT"@, 0);
        assert forall|k: int| 0 <= k < h.take(1).len() implies lower((#[trigger] h.take(1)[k]).0) != lower(
            "NT"@,
        ) by {
            assert(h.take(1)[k] == h[k]);
        }
    }
    lemma_header_is_read(first, h, tail, 1, "NT"@);
    assert(nameless(h.take(2), "NTS"@)) by {
        reveal_strlit("NTS");
        reveal_strlit("HOST");
        reveal_strlit("NT");
        lemma_names_differ("HOST"@, "NTS"@, 0);
        lemma_names_differ("NT"@, "NTS"@, 0);
        assert forall|k: int| 0 <= k < h.take(2).len() implies lower((#[trigger] h.take(2)[k]).0) != lower(
            "NTS"@,
        ) by {
            assert(h.take(2)[k] == h[k]);
        }
    }
    lemma_header_is_read(first, h, tail, 2, "NTS"@);
    assert(nameless(h.take(3), "USN"@)) by {
        reveal_strlit("USN");
        reveal_strlit("HOST");
        reveal_strlit("NT");
        reveal_strlit("NTS");
        lemma_names_differ("HOST"@, "USN"@, 0);
        lemma_names_differ("NT"@, "USN"@, 0);
        lemma_names_differ("NTS"@, "USN"@, 0);
        assert forall|k: int| 0 <= k < h.take(3).len() implies lower((#[trigger] h.take(3)[k]).0) != lower(
            "USN"@,
        ) by {
            assert(h.take(3)[k] == h[k]);
        }
    }
    lemma_header_is_read(first, h, tail, 3, "USN"@);
    assert(nameless(h.take(4), "SERVER"@)) by {
        reveal_strlit("SERVER");
        reveal_strlit("HOST");
        reveal_strlit("NT");
        reveal_strlit("NTS");
        reveal_strlit("USN");
        lemma_names_differ("HOST"@, "SERVER"@, 0);
        lemma_names_differ("NT"@, "SERVER"@, 0);
        lemma_names_differ("NTS"@, "SERVER"@, 0);
        lemma_names_differ("USN"@, "SERVER"@, 0);
        assert forall|k: int| 0 <= k < h.take(4).len() implies lower((#[trigger] h.take(4)[k]).0) != lower(
            "SERVER"@,
        ) by {
            assert(h.take(4)[k] == h[k]);
        }
    }
    lemma_header_is_read(first, h, tail, 4, "SERVER"@);
    assert(nameless(h.take(5), "DATE"@)) by {
        reveal_strlit("DATE");
        reveal_strlit("HOST");
        reveal_strlit("NT");
        reveal_strlit("NTS");
        reveal_strlit("USN");
        reveal_strlit("SERVER");
        lemma_names_differ("HOST"@, "DATE"@, 0);
        lemma_names_differ("NT"@, "DATE"@, 0);
        lemma_names_differ("NTS"@, "DATE"@, 0);
        lemma_names_differ("USN"@, "DATE"@, 0);
        lemma_names_differ("SERVER"@, "DATE"@, 0);
        assert forall|k: int| 0 <= k < h.take(5).len() implies lower((#[trigger] h.take(5)[k]).0) != lower(
            "DATE"@,
        ) by {
            assert(h.take(5)[k] == h[k]);
        }
    }
    lemma_header_is_read(first, h, tail, 5, "DATE"@);
    assert(nameless(h, "LOCATION"@)) by {
        reveal_strlit("LOCATION");
        reveal_strlit("HOST");
        reveal_strlit("NT");
        reveal_strlit("NTS");
        reveal_strlit("USN");
        reveal_strlit("SERVER");
        reveal_strlit("DATE");
        lemma_names_differ("HOST"@, "LOCATION"@, 0);
        lemma_names_differ("NT"@, "LOCATION"@, 0);
        lemma_names_differ("NTS"@, "LOCATION"@, 0);
        lemma_names_differ("USN"@, "LOCATION"@, 0);
        lemma_names_differ("SERVER"@, "LOCATION"@, 0);
        lemma_names_differ("DATE"@, "LOCATION"@, 0);
        assert forall|k: int| 0 <= k < h.len() implies lower((#[trigger] h[k]).0) != lower(
            "LOCATION"@,
        ) by {
            assert(h[k] == h[k]);
        }
    }
    lemma_header_is_missing(first, h, tail, "LOCATION"@);
}

/// A line end alone holds no header.
proof fn lemma_blank_line(target: Seq<char>)
    ensures
        header_value_in(lines_spec(seq!['\r', '\n']), target) is None,
{
    let blank = seq!['\r', '\n'];
    lemma_head_line(seq![], seq![]);
    assert(seq![] + blank + seq![] =~= blank);
    assert(lines_spec(seq![]) =~= seq![]);
    lemma_no_header(seq![], target, seq![]);
    assert(seq![Seq::<char>::empty()] + Seq::<Seq<char>>::empty() =~= seq![Seq::<char>::empty()]);
}

/// The headers of an announcement, read back, say what it was made for: the target, whether
/// it is there or leaves, and its unique name. Where the renderer says that it is there it
/// says where its description is found, and otherwise it does not.
pub proof fn law_announcement_is_read(
    target: Seq<char>,
    location: Seq<char>,
    name: Seq<char>,
    nts: Seq<char>,
    date: Seq<char>,
)
    requires
        lacks(target, '\n'),
        lacks(location, '\n'),
        lacks(name, '\n'),
        lacks(nts, '\n'),
        lacks(date, '\n'),
    ensures
        ({
            let lines = lines_spec(announcement(target, location, name, nts, date));
            &&& lines.len() > 0 && lines[0] == "NOTIFY * HTTP/1.1"@
            &&& header_value_in(lines, "HOST"@) == Some("239.255.255.250:1900"@)
            &&& header_value_in(lines, "NT"@) == Some(trim_spec(target))
            &&& header_value_in(lines, "NTS"@) == Some(trim_spec(nts))
            &&& header_value_in(lines, "USN"@) == Some(
                trim_spec(
                    if target == "uuid:mini-mdr"@ {
                        target
                    } else {
                        "uuid:mini-mdr"@ + "::"@ + target
                    },
                ),
            )
            &&& header_value_in(lines, "SERVER"@) == Some(trim_spec(name))
            &&& header_value_in(lines, "DATE"@) == Some(trim_spec(date))
            &&& header_value_in(lines, "LOCATION"@) == if nts == "ssdp:alive"@ {
                Some(trim_spec(location))
            } else {
                None
            }
            &&& nts == "ssdp:alive"@ ==> header_value_in(lines, "CACHE-CONTROL"@) == Some(
                "max-age=1800"@,
            )
        }),
{
    reveal_strlit("239.255.255.250:1900");
    lemma_trim_nothing("239.255.255.250:1900"@);
    reveal_strlit("max-age=1800");
    lemma_trim_nothing("max-age=1800"@);
    lemma_blank_line("LOCATION"@);
    if nts == "ssdp:alive"@ {
        lemma_presence_read(target, location, name, nts, date);
    } else {
        lemma_absence_read(target, location, name, nts, date);
    }
}

/// The host stands before the first slash of an address, and the path behind it.
proof fn lemma_location_target(ip: Ipv4, port: u16)
    ensures
        ({
            let here = ip.dotted() + ":"@ + decimal(port as nat);
            target_of(location_at(ip, port)) == Some(
                TargetView { host: here, socket: here, path: "/device.xml"@ },
            )
        }),
{
    let here = ip.dotted() + ":"@ + decimal(port as nat);
    let url = location_at(ip, port);
    let path = "/device.xml"@;
    lemma_number_is_read(port as nat, u16::MAX as int);
    lemma_dotted_plain(ip);
    reveal_strlit(":");
    assert(lacks(decimal(port as nat), '/') && lacks(decimal(port as nat), ':'));
    lemma_lacks_joined(ip.dotted(), ":"@, '/');
    lemma_lacks_joined(ip.dotted() + ":"@, decimal(port as nat), '/');
    let rest = here + path;
    assert(url =~= "http://"@ + rest);
    assert(url.subrange(0, "http://"@.len() as int) =~= "http://"@);
    assert(url.skip("http://"@.len() as int) =~= rest);
    reveal_strlit("/device.xml");
    assert forall|j: int| 0 <= j < here.len() implies rest[j] != '/' by {
        assert(rest[j] == here[j]);
    }
    lemma_find_char_unique(rest, '/', 0, here.len() as int);
    assert(rest.take(here.len() as int) =~= here);
    assert(rest.skip(here.len() as int) =~= path);
    lemma_last_colon(ip.dotted(), decimal(port as nat));
    assert(here =~= ip.dotted() + seq![':'] + decimal(port as nat));
    assert(here.len() > 0);
}

/// What stands behind the last colon.
proof fn lemma_last_colon(a: Seq<char>, b: Seq<char>)
    requires
        lacks(b, ':'),
    ensures
        rsplit_once_spec(a + seq![':'] + b, ':') == Some((a, b)),
    decreases b.len(),
{
    let s = a + seq![':'] + b;
    if b.len() == 0 {
        assert(s.last() == ':');
        assert(s.drop_last() =~= a);
        assert(b =~= seq![]);
    } else {
        let c = b.drop_last();
        assert(lacks(c, ':')) by {
            assert forall|i: int| 0 <= i < c.len() implies #[trigger] c[i] != ':' by {
                assert(c[i] == b[i]);
            }
        }
        lemma_last_colon(a, c);
        assert(s.drop_last() =~= a + seq![':'] + c);
        assert(s.last() == b[b.len() - 1]);
        assert(c.push(b.last()) =~= b);
    }
}

/// An address is written in digits and dots.
proof fn lemma_dotted_plain(ip: Ipv4)
    ensures
        lacks(ip.dotted(), '/'),
{
    reveal_strlit(".");
    let a = decimal(ip.a as nat);
    let b = decimal(ip.b as nat);
    let c = decimal(ip.c as nat);
    let d = decimal(ip.d as nat);
    lemma_number_is_read(ip.a as nat, 255);
    lemma_number_is_read(ip.b as nat, 255);
    lemma_number_is_read(ip.c as nat, 255);
    lemma_number_is_read(ip.d as nat, 255);
    assert(lacks(a, '/') && lacks(b, '/') && lacks(c, '/') && lacks(d, '/'));
    lemma_lacks_joined(a, "."@, '/');
    lemma_lacks_joined(a + "."@, b, '/');
    lemma_lacks_joined(a + "."@ + b, "."@, '/');
    lemma_lacks_joined(a + "."@ + b + "."@, c, '/');
    lemma_lacks_joined(a + "."@ + b + "."@ + c, "."@, '/');
    lemma_lacks_joined(a + "."@ + b + "."@ + c + "."@, d, '/');
}

/// What an answer to a search says behind its first headers.
spec fn search_answer_body(
    location: Seq<char>,
    name: Seq<char>,
    target: Seq<char>,
    date: Seq<char>,
) -> Seq<char> {
    "EXT"@ + "\r\nLOCATION: "@ + location + "\r\nSERVER: "@ + name + "\r\nST: "@ + target + "\r\nUSN: "@ + service_name(target) + "\r\nDATE: "@ + date + "\r\n\r\n"@
}

/// The headers of the answer to a search, behind the empty one.
spec fn found_headers(location: Seq<char>, name: Seq<char>, target: Seq<char>, date: Seq<char>) -> Seq<(Seq<char>, Seq<char>)> {
    seq![
        ("LOCATION"@, location),
        ("SERVER"@, name),
        ("ST"@, target),
        ("USN"@, service_name(target)),
        ("DATE"@, date),
    ]
}

#[verifier::rlimit(40)]
proof fn lemma_found_shape(location: Seq<char>, name: Seq<char>, target: Seq<char>, date: Seq<char>)
    requires
        lacks(location, '\n'),
        lacks(name, '\n'),
        lacks(target, '\n'),
        lacks(date, '\n'),
    ensures
        search_answer_body(location, name, target, date) == "EXT"@ + seq!['\r', '\n'] + head_text(found_headers(location, name, target, date)) + seq!['\r', '\n'],
        proper(found_headers(location, name, target, date)),
        lacks("EXT"@, ':'),
        lacks("EXT"@, '\n'),
{
    lemma_service_name_one_line(target);
    let e = seq!['\r', '\n'];
    let first = "EXT"@;
    let tail: Seq<char> = seq!['\r', '\n'];
    let h = found_headers(location, name, target, date);
    assert("\r\nLOCATION: "@ == header_gap("LOCATION"@)) by {
        reveal_strlit("\r\nLOCATION: ");
        reveal_strlit("LOCATION");
        assert("\r\nLOCATION: "@ =~= header_gap("LOCATION"@));
    }
    assert("\r\nSERVER: "@ == header_gap("SERVER"@)) by {
        reveal_strlit("\r\nSERVER: ");
        reveal_strlit("SERVER");
        assert("\r\nSERVER: "@ =~= header_gap("SERVER"@));
    }
    assert("\r\nST: "@ == header_gap("ST"@)) by {
        reveal_strlit("\r\nST: ");
        reveal_strlit("ST");
        assert("\r\nST: "@ =~= header_gap("ST"@));
    }
    assert("\r\nUSN: "@ == header_gap("USN"@)) by {
        reveal_strlit("\r\nUSN: ");
        reveal_strlit("USN");
        assert("\r\nUSN: "@ =~= header_gap("USN"@));
    }
    assert("\r\nDATE: "@ == header_gap("DATE"@)) by {
        reveal_strlit("\r\nDATE: ");
        reveal_strlit("DATE");
        assert("\r\nDATE: "@ =~= header_gap("DATE"@));
    }
    let x0 = first;
    let h0 = Seq::<(Seq<char>, Seq<char>)>::empty();
    lemma_no_headers_yet(first);
    let x1 = x0 + header_gap("LOCATION"@) + location;
    let h1 = h0.push(("LOCATION"@, location));
    lemma_next_header(x0, first, h0, "LOCATION"@, location);
    let x2 = x1 + header_gap("SERVER"@) + name;
    let h2 = h1.push(("SERVER"@, name));
    lemma_next_header(x1, first, h1, "SERVER"@, name);
    let x3 = x2 + header_gap("ST"@) + target;
    let h3 = h2.push(("ST"@, target));
    lemma_next_header(x2, first, h2, "ST"@, target);
    let x4 = x3 + header_gap("USN"@) + service_name(target);
    let h4 = h3.push(("USN"@, service_name(target)));
    lemma_next_header(x3, first, h3, "USN"@, service_name(target));
    let x5 = x4 + header_gap("DATE"@) + date;
    let h5 = h4.push(("DATE"@, date));
    lemma_next_header(x4, first, h4, "DATE"@, date);
    assert(h5 =~= h);
    let s1 = "EXT"@;
    let s2 = s1 + "\r\nLOCATION: "@;
    let s3 = s2 + location;
    let s4 = s3 + "\r\nSERVER: "@;
    let s5 = s4 + name;
    let s6 = s5 + "\r\nST: "@;
    let s7 = s6 + target;
    let s8 = s7 + "\r\nUSN: "@;
    let s9 = s8 + service_name(target);
    let s10 = s9 + "\r\nDATE: "@;
    let s11 = s10 + date;
    let f1 = "EXT"@;
    assert(s1 == f1);
    let f2 = f1 + header_gap("LOCATION"@);
    assert(s2 == f2);
    let f3 = f2 + location;
    assert(s3 == f3);
    let f4 = f3 + header_gap("SERVER"@);
    assert(s4 == f4);
    let f5 = f4 + name;
    assert(s5 == f5);
    let f6 = f5 + header_gap("ST"@);
    assert(s6 == f6);
    let f7 = f6 + target;
    assert(s7 == f7);
    let f8 = f7 + header_gap("USN"@);
    assert(s8 == f8);
    let f9 = f8 + service_name(target);
    assert(s9 == f9);
    let f10 = f9 + header_gap("DATE"@);
    assert(s10 == f10);
    let f11 = f10 + date;
    assert(s11 == f11);
    assert(f11 =~= x5);
    assert(search_answer_body(location, name, target, date) == x5 + e + tail) by {
        reveal_strlit("\r\n\r\n");
        assert(s11 + "\r\n\r\n"@ =~= x5 + e + tail);
        assert(search_answer_body(location, name, target, date) =~= s11 + "\r\n\r\n"@);
    }
    assert(search_answer_body(location, name, target, date) == first + e + head_text(h) + tail);
    assert(proper(h)) by {
        reveal_strlit("LOCATION");
        reveal_strlit("SERVER");
        reveal_strlit("ST");
        reveal_strlit("USN");
        reveal_strlit("DATE");
        assert forall|k: int| 0 <= k < h.len() implies lacks((#[trigger] h[k]).0, ':') && lacks(
            h[k].0,
            '\n',
        ) && lacks(h[k].1, '\n') by {}
    }
    assert(lacks(first, ':') && lacks(first, '\n')) by {
        reveal_strlit("EXT");
    }
}

#[verifier::rlimit(40)]
proof fn lemma_found_read(location: Seq<char>, name: Seq<char>, target: Seq<char>, date: Seq<char>)
    requires
        lacks(location, '\n'),
        lacks(name, '\n'),
        lacks(target, '\n'),
        lacks(date, '\n'),
    ensures
        ({
            let lines = lines_spec(search_answer_body(location, name, target, date));
            &&& lines.len() > 0 && lines[0] == "EXT"@
            &&& header_value_in(lines, "LOCATION"@) == Some(trim_spec(location))
            &&& header_value_in(lines, "SERVER"@) == Some(trim_spec(name))
            &&& header_value_in(lines, "ST"@) == Some(trim_spec(target))
            &&& header_value_in(lines, "USN"@) == Some(trim_spec(service_name(target)))
            &&& header_value_in(lines, "DATE"@) == Some(trim_spec(date))
        }),
{
    lemma_found_shape(location, name, target, date);
    let first = "EXT"@;
    let tail: Seq<char> = seq!['\r', '\n'];
    let h = found_headers(location, name, target, date);
    lemma_first_line(first, h, tail);
    assert(nameless(h.take(0), "LOCATION"@)) by {
        reveal_strlit("LOCATION");
        assert forall|k: int| 0 <= k < h.take(0).len() implies lower((#[trigger] h.take(0)[k]).0) != lower(
            "LOCATION"@,
        ) by {
            assert(h.take(0)[k] == h[k]);
        }
    }
    lemma_header_is_read(first, h, tail, 0, "LOCATION"@);
    assert(nameless(h.take(1), "SERVER"@)) by {
        reveal_strlit("SERVER");
        reveal_strlit("LOCATION");
        lemma_names_differ("LOCATION"@, "SERVER"@, 0);
        assert forall|k: int| 0 <= k < h.take(1).len() implies lower((#[trigger] h.take(1)[k]).0) != lower(
            "SERVER"@,
        ) by {
            assert(h.take(1)[k] == h[k]);
        }
    }
    lemma_header_is_read(first, h, tail, 1, "SERVER"@);
    assert(nameless(h.take(2), "ST"@)) by {
        reveal_strlit("ST");
        reveal_strlit("LOCATION");
        reveal_strlit("SERVER");
        lemma_names_differ("LOCATION"@, "ST"@, 0);
        lemma_names_differ("SERVER"@, "ST"@, 0);
        assert forall|k: int| 0 <= k < h.take(2).len() implies lower((#[trigger] h.take(2)[k]).0) != lower(
            "ST"@,
        ) by {
            assert(h.take(2)[k] == h[k]);
        }
    }
    lemma_header_is_read(first, h, tail, 2, "ST"@);
    assert(nameless(h.take(3), "USN"@)) by {
        reveal_strlit("USN");
        reveal_strlit("LOCATION");
        reveal_strlit("SERVER");
        reveal_strlit("ST");
        lemma_names_differ("LOCATION"@, "USN"@, 0);
        lemma_names_differ("SERVER"@, "USN"@, 0);
        lemma_names_differ("ST"@, "USN"@, 0);
        assert forall|k: int| 0 <= k < h.take(3).len() implies lower((#[trigger] h.take(3)[k]).0) != lower(
            "USN"@,
        ) by {
            assert(h.take(3)[k] == h[k]);
        }
    }
    lemma_header_is_read(first, h, tail, 3, "USN"@);
    assert(nameless(h.take(4), "DATE"@)) by {
        reveal_strlit("DATE");
        reveal_strlit("LOCATION");
        reveal_strlit("SERVER");
        reveal_strlit("ST");
        reveal_strlit("USN");
        lemma_names_differ("LOCATION"@, "DATE"@, 0);
        lemma_names_differ("SERVER"@, "DATE"@, 0);
        lemma_names_differ("ST"@, "DATE"@, 0);
        lemma_names_differ("USN"@, "DATE"@, 0);
        assert forall|k: int| 0 <= k < h.take(4).len() implies lower((#[trigger] h.take(4)[k]).0) != lower(
            "DATE"@,
        ) by {
            assert(h.take(4)[k] == h[k]);
        }
    }
    lemma_header_is_read(first, h, tail, 4, "DATE"@);
}

/// A line that is a name and a colon is passed over where another name is looked for.
proof fn lemma_empty_header(name: Seq<char>, target: Seq<char>, rest: Seq<Seq<char>>)
    requires
        lacks(name, ':'),
        lower(name) != lower(target),
    ensures
        header_value_in(seq![name + seq![':']] + rest, target) == header_value_in(rest, target),
{
    let line = name + seq![':'];
    let n = name.len() as int;
    assert forall|j: int| 0 <= j < n implies line[j] != ':' by {
        assert(line[j] == name[j]);
    }
    lemma_find_char_unique(line, ':', 0, n);
    assert(line.take(n) =~= name);
    let all = seq![line] + rest;
    assert(all[0] == line);
    assert(all.skip(1) =~= rest);
}

/// What an answer to a search says behind its first lines.
spec fn search_answer_rest(
    location: Seq<char>,
    name: Seq<char>,
    target: Seq<char>,
    date: Seq<char>,
) -> Seq<char> {
    "\r\nLOCATION: "@ + location + "\r\nSERVER: "@ + name + "\r\nST: "@ + target + "\r\nUSN: "@ + service_name(target) + "\r\nDATE: "@ + date + "\r\n\r\n"@
}

proof fn lemma_search_rest(
    front: Seq<char>,
    location: Seq<char>,
    name: Seq<char>,
    target: Seq<char>,
    date: Seq<char>,
)
    ensures
        front + search_answer_rest(location, name, target, date) == front + "\r\nLOCATION: "@ + location + "\r\nSERVER: "@ + name + "\r\nST: "@ + target + "\r\nUSN: "@ + service_name(target) + "\r\nDATE: "@ + date + "\r\n\r\n"@,
{
    lemma_joined(front, "\r\nLOCATION: "@ + location + "\r\nSERVER: "@ + name + "\r\nST: "@ + target + "\r\nUSN: "@ + service_name(target) + "\r\nDATE: "@ + date, "\r\n\r\n"@);
    lemma_joined(front, "\r\nLOCATION: "@ + location + "\r\nSERVER: "@ + name + "\r\nST: "@ + target + "\r\nUSN: "@ + service_name(target) + "\r\nDATE: "@, date);
    lemma_joined(front, "\r\nLOCATION: "@ + location + "\r\nSERVER: "@ + name + "\r\nST: "@ + target + "\r\nUSN: "@ + service_name(target), "\r\nDATE: "@);
    lemma_joined(front, "\r\nLOCATION: "@ + location + "\r\nSERVER: "@ + name + "\r\nST: "@ + target + "\r\nUSN: "@, service_name(target));
    lemma_joined(front, "\r\nLOCATION: "@ + location + "\r\nSERVER: "@ + name + "\r\nST: "@ + target, "\r\nUSN: "@);
    lemma_joined(front, "\r\nLOCATION: "@ + location + "\r\nSERVER: "@ + name + "\r\nST: "@, target);
    lemma_joined(front, "\r\nLOCATION: "@ + location + "\r\nSERVER: "@ + name, "\r\nST: "@);
    lemma_joined(front, "\r\nLOCATION: "@ + location + "\r\nSERVER: "@, name);
    lemma_joined(front, "\r\nLOCATION: "@ + location, "\r\nSERVER: "@);
    lemma_joined(front, "\r\nLOCATION: "@, location);
}

/// The headers of an answer to a search begin behind its first lines.
proof fn lemma_search_answer_lines(
    location: Seq<char>,
    name: Seq<char>,
    target: Seq<char>,
    date: Seq<char>,
    wanted: Seq<char>,
)
    requires
        lacks(location, '\n'),
        lacks(name, '\n'),
        lacks(target, '\n'),
        lacks(date, '\n'),
        lower(wanted) != lower("CACHE-CONTROL"@),
        lower(wanted) != lower("EXT"@),
    ensures
        ({
            let lines = lines_spec(search_answer(location, name, target, date));
            &&& lines.len() > 0 && lines[0] == "HTTP/1.1 200 OK"@
            &&& header_value_in(lines, wanted) == header_value_in(
                lines_spec(search_answer_body(location, name, target, date)),
                wanted,
            )
        }),
{
    let e = seq!['\r', '\n'];
    lemma_found_shape(location, name, target, date);
    let more = head_text(found_headers(location, name, target, date)) + e;
    let first = "HTTP/1.1 200 OK"@;
    let cache = header_line("CACHE-CONTROL"@, "max-age=1800"@);
    let ext = "EXT"@ + seq![':'];
    let body = search_answer_body(location, name, target, date);
    lemma_joined("EXT"@ + e, head_text(found_headers(location, name, target, date)), e);
    assert(body == "EXT"@ + e + more);
    assert(lacks(first, ':') && lacks(first, '\n') && lacks(cache, '\n') && lacks(ext, '\n')
        && lacks("EXT"@, ':') && lacks("EXT"@, '\n') && lacks("CACHE-CONTROL"@, ':')) by {
        reveal_strlit("HTTP/1.1 200 OK");
        reveal_strlit("CACHE-CONTROL");
        reveal_strlit("max-age=1800");
        reveal_strlit("EXT");
        lemma_header_one_line("CACHE-CONTROL"@, "max-age=1800"@);
    }
    let front = "HTTP/1.1 200 OK\r\nCACHE-CONTROL: max-age=1800\r\nEXT:"@;
    assert("HTTP/1.1 200 OK\r\nCACHE-CONTROL: max-age=1800\r\nEXT:\r\nLOCATION: "@ == front
        + "\r\nLOCATION: "@) by {
        reveal_strlit("HTTP/1.1 200 OK\r\nCACHE-CONTROL: max-age=1800\r\nEXT:\r\nLOCATION: ");
        reveal_strlit("HTTP/1.1 200 OK\r\nCACHE-CONTROL: max-age=1800\r\nEXT:");
        reveal_strlit("\r\nLOCATION: ");
        assert("HTTP/1.1 200 OK\r\nCACHE-CONTROL: max-age=1800\r\nEXT:\r\nLOCATION: "@ =~= front
            + "\r\nLOCATION: "@);
    }
    assert(front == first + e + (cache + e + ext)) by {
        reveal_strlit("HTTP/1.1 200 OK\r\nCACHE-CONTROL: max-age=1800\r\nEXT:");
        reveal_strlit("HTTP/1.1 200 OK");
        reveal_strlit("CACHE-CONTROL");
        reveal_strlit("max-age=1800");
        reveal_strlit("EXT");
        assert(front =~= first + e + (cache + e + ext));
    }
    let rest = search_answer_rest(location, name, target, date);
    lemma_search_rest("EXT"@, location, name, target, date);
    lemma_search_rest(front, location, name, target, date);
    assert(body == "EXT"@ + rest);
    assert(rest == e + more) by {
        assert(("EXT"@ + rest).skip("EXT"@.len() as int) =~= rest);
        assert(("EXT"@ + e + more).skip("EXT"@.len() as int) =~= e + more);
    }
    let answer = search_answer(location, name, target, date);
    assert(answer == front + rest);
    let third = ext + e + more;
    let second = cache + e + third;
    assert(front + (e + more) =~= first + e + second);
    lemma_head_line(first, second);
    lemma_head_line(cache, third);
    lemma_head_line(ext, more);
    lemma_head_line("EXT"@, more);
    lemma_no_header(first, wanted, lines_spec(second));
    lemma_header_other("CACHE-CONTROL"@, "max-age=1800"@, wanted, lines_spec(third));
    lemma_empty_header("EXT"@, wanted, lines_spec(more));
    lemma_no_header("EXT"@, wanted, lines_spec(more));
}

/// The headers of an answer to a search, read back, say what was found, under which unique
/// name, and where its description is.
pub proof fn law_search_answer_is_read(
    location: Seq<char>,
    name: Seq<char>,
    target: Seq<char>,
    date: Seq<char>,
)
    requires
        lacks(location, '\n'),
        lacks(name, '\n'),
        lacks(target, '\n'),
        lacks(date, '\n'),
    ensures
        ({
            let lines = lines_spec(search_answer(location, name, target, date));
            &&& lines.len() > 0 && lines[0] == "HTTP/1.1 200 OK"@
            &&& header_value_in(lines, "LOCATION"@) == Some(trim_spec(location))
            &&& header_value_in(lines, "SERVER"@) == Some(trim_spec(name))
            &&& header_value_in(lines, "ST"@) == Some(trim_spec(target))
            &&& header_value_in(lines, "USN"@) == Some(
                trim_spec(
                    if target == "uuid:mini-mdr"@ {
                        target
                    } else {
                        "uuid:mini-mdr"@ + "::"@ + target
                    },
                ),
            )
            &&& header_value_in(lines, "DATE"@) == Some(trim_spec(date))
        }),
{
    lemma_found_read(location, name, target, date);
    assert(forall|s: Seq<char>| lower(s).len() == s.len());
    reveal_strlit("CACHE-CONTROL");
    reveal_strlit("EXT");
    reveal_strlit("LOCATION");
    reveal_strlit("SERVER");
    reveal_strlit("ST");
    reveal_strlit("USN");
    reveal_strlit("DATE");
    lemma_names_differ("USN"@, "EXT"@, 0);
    lemma_search_answer_lines(location, name, target, date, "LOCATION"@);
    lemma_search_answer_lines(location, name, target, date, "SERVER"@);
    lemma_search_answer_lines(location, name, target, date, "ST"@);
    lemma_search_answer_lines(location, name, target, date, "USN"@);
    lemma_search_answer_lines(location, name, target, date, "DATE"@);
}

/// The targets are those of the device and of each of its three services, one line each.
pub proof fn law_all_services_are_advertised(service: EventService)
    ensures
        advertised().contains("upnp:rootdevice"@),
        advertised().contains("uuid:mini-mdr"@),
        advertised().contains("urn:schemas-upnp-org:device:MediaRenderer:1"@),
        advertised().contains(service.urn_spec()),
        advertised().len() == 6,
        forall|i: int| 0 <= i < 6 ==> lacks(#[trigger] advertised()[i], '\n'),
{
    let all = advertised();
    assert(all[0] == "upnp:rootdevice"@);
    assert(all[1] == "uuid:mini-mdr"@);
    assert(all[2] == "urn:schemas-upnp-org:device:MediaRenderer:1"@);
    assert(all[3] == EventService::AvTransport.urn_spec());
    assert(all[4] == EventService::RenderingControl.urn_spec());
    assert(all[5] == EventService::ConnectionManager.urn_spec());
    reveal_strlit("upnp:rootdevice");
    reveal_strlit("uuid:mini-mdr");
    reveal_strlit("urn:schemas-upnp-org:device:MediaRenderer:1");
    reveal_strlit("urn:schemas-upnp-org:service:AVTransport:1");
    reveal_strlit("urn:schemas-upnp-org:service:RenderingControl:1");
    reveal_strlit("urn:schemas-upnp-org:service:ConnectionManager:1");
    assert(forall|i: int| 0 <= i < 6 ==> lacks(#[trigger] all[i], '\n'));
}

/// Each target is announced once: its message names it, and all say whether the renderer is
/// there or leaves.
pub proof fn law_every_target_is_announced(
    location: Seq<char>,
    name: Seq<char>,
    nts: Seq<char>,
    date: Seq<char>,
    i: int,
)
    requires
        0 <= i < 6,
        lacks(location, '\n'),
        lacks(name, '\n'),
        lacks(nts, '\n'),
        lacks(date, '\n'),
    ensures
        ({
            let messages = announcements(location, name, nts, date);
            let lines = lines_spec(messages[i]);
            &&& messages.len() == 6
            &&& header_value_in(lines, "NT"@) == Some(trim_spec(advertised()[i]))
            &&& header_value_in(lines, "NTS"@) == Some(trim_spec(nts))
            &&& header_value_in(lines, "LOCATION"@) is Some <==> nts == "ssdp:alive"@
        }),
{
    law_all_services_are_advertised(EventService::AvTransport);
    law_announcement_is_read(advertised()[i], location, name, nts, date);
}

/// Each target that a search finds is answered once, and its answer names it and says where
/// the description is.
pub proof fn law_every_found_target_is_answered(
    location: Seq<char>,
    name: Seq<char>,
    targets: Seq<Seq<char>>,
    date: Seq<char>,
    i: int,
)
    requires
        0 <= i < targets.len(),
        lacks(location, '\n'),
        lacks(name, '\n'),
        lacks(targets[i], '\n'),
        lacks(date, '\n'),
    ensures
        ({
            let messages = search_answers(location, name, targets, date);
            let lines = lines_spec(messages[i]);
            &&& messages.len() == targets.len()
            &&& header_value_in(lines, "ST"@) == Some(trim_spec(targets[i]))
            &&& header_value_in(lines, "LOCATION"@) == Some(trim_spec(location))
        }),
{
    law_search_answer_is_read(location, name, targets[i], date);
}

/// A search for everything finds all targets, one for the newer device type finds the device,
/// and one for what is not advertised finds nothing. All that is found is advertised.
pub proof fn law_searches_find_what_is_advertised(name: Seq<char>)
    ensures
        lower(name) == lower("ssdp:all"@) ==> searched(name) == advertised(),
        lower(name) == lower("urn:schemas-upnp-org:device:MediaRenderer:3"@) && lower(name)
            != lower("ssdp:all"@) ==> searched(name) == seq![
            "urn:schemas-upnp-org:device:MediaRenderer:1"@,
        ],
        lower(name) != lower("ssdp:all"@) && lower(name) != lower(
            "urn:schemas-upnp-org:device:MediaRenderer:3"@,
        ) && (forall|i: int| 0 <= i < 6 ==> lower(name) != lower(#[trigger] advertised()[i]))
            ==> searched(name).len() == 0,
        forall|k: int| 0 <= k < searched(name).len() ==> advertised().contains(
            #[trigger] searched(name)[k],
        ),
{
    reveal_with_fuel(find_target, 7);
    let all = advertised();
    assert(all[2] == DEVICE_TYPE@);
    assert forall|k: int| 0 <= k < searched(name).len() implies all.contains(
        #[trigger] searched(name)[k],
    ) by {
        if lower(name) == lower("ssdp:all"@) {
            assert(all[k] == searched(name)[k]);
        } else if lower(name) == lower("urn:schemas-upnp-org:device:MediaRenderer:3"@) {
            assert(searched(name)[k] == all[2]);
        } else if let Some(i) = find_target(name, 0) {
            assert(searched(name)[k] == all[i]);
        }
    }
}

/// A message is a search where its first line says so, in any case. It searches for what its
/// header `ST` names, and any other message for nothing.
pub proof fn law_only_searches_are_answered(request: Seq<char>)
    ensures
        ({
            let lines = lines_spec(request);
            let search = lines.len() > 0 && lower(lines[0]) == lower("M-SEARCH * HTTP/1.1"@);
            &&& !search ==> requested(request).len() == 0
            &&& search ==> requested(request) == searched(
                header_value_in(lines, "ST"@).unwrap_or(seq![]),
            )
        }),
{
}

/// The place of the description is an address that leads to this machine, at its port, and
/// there to the description.
pub proof fn law_location_leads_to_the_description(ip: Ipv4, port: u16)
    ensures
        ({
            let here = ip.dotted() + ":"@ + decimal(port as nat);
            target_of(location_at(ip, port)) == Some(
                TargetView { host: here, socket: here, path: "/device.xml"@ },
            )
        }),
{
    lemma_location_target(ip, port);
}

/// Discovery begins with three announcements, one after the other. From then on the renderer
/// announces itself anew after fifteen minutes, and listens meanwhile. It takes its leave only
/// once it does not run any more, and then it does, unless an announcement is due.
pub proof fn law_announcements_are_made_in_turn(sent_first: u32, since_last: u64, running: bool)
    ensures
        ({
            let next = next_announcement(sent_first, since_last, running);
            &&& next == AnnounceAction::First <==> sent_first < 3
            &&& next == AnnounceAction::Repeat <==> sent_first >= 3 && since_last >= 900
            &&& next == AnnounceAction::Farewell <==> sent_first >= 3 && since_last < 900
                && !running
        }),
{
}

} // verus!
