use mini_mdr::clock::{
    civil_date, http_date_text, is_leap, timestamp_rfc1123, utc_text, Date, LocalTime,
};
use mini_mdr::net::{
    find_best_local_ip, find_matching_interface, is_rfc1918, is_same_subnet, list_local_ipv4,
    IpAddress, Ipv4,
};
use mini_mdr::ssdp::{
    announce, announce_at, announce_step, announcement_copies, location, requested_targets,
    respond_to_search, sanitize_header_value, search_reply, search_targets, usn, AnnounceAction,
    DEVICE_TYPE, UDN,
};

#[test]
fn builds_correct_usn() {
    assert_eq!(usn(UDN), UDN);
    assert_eq!(usn(DEVICE_TYPE), format!("{UDN}::{DEVICE_TYPE}"));
}

#[test]
fn sanitizes_control_characters_in_header_values() {
    assert_eq!(
        sanitize_header_value("TV\r\nX-Injected: 1"),
        "TV  X-Injected: 1"
    );
    assert_eq!(sanitize_header_value("客厅"), "客厅");
}

#[test]
fn subnet_matching_covers_common_private_ranges() {
    let local = Ipv4::new(192, 168, 1, 100);
    assert!(is_same_subnet(local, Ipv4::new(192, 168, 1, 50)));
    assert!(!is_same_subnet(local, Ipv4::new(192, 168, 2, 50)));

    let local10 = Ipv4::new(10, 0, 0, 1);
    assert!(is_same_subnet(local10, Ipv4::new(10, 0, 0, 50)));
    assert!(!is_same_subnet(local10, Ipv4::new(10, 1, 0, 50)));

    let local172 = Ipv4::new(172, 16, 5, 1);
    assert!(is_same_subnet(local172, Ipv4::new(172, 16, 5, 50)));
    assert!(!is_same_subnet(local172, Ipv4::new(172, 17, 5, 50)));
}

#[test]
fn finds_best_local_ip_prefers_rfc1918() {
    let ips = vec![Ipv4::new(172, 217, 22, 14)];
    assert_eq!(find_best_local_ip(&ips), Ipv4::new(172, 217, 22, 14));

    let ips = vec![
        Ipv4::new(172, 217, 22, 14),
        Ipv4::new(192, 168, 1, 100),
    ];
    assert_eq!(find_best_local_ip(&ips), Ipv4::new(192, 168, 1, 100));
    assert_eq!(find_best_local_ip(&Vec::new()), Ipv4::new(127, 0, 0, 1));
}

#[test]
fn rfc1918_detection() {
    assert!(is_rfc1918(Ipv4::new(10, 0, 0, 1)));
    assert!(is_rfc1918(Ipv4::new(172, 16, 0, 1)));
    assert!(is_rfc1918(Ipv4::new(192, 168, 0, 1)));
    assert!(!is_rfc1918(Ipv4::new(8, 8, 8, 8)));
    assert!(!is_rfc1918(Ipv4::new(172, 32, 0, 1)));
}

#[test]
fn matches_interfaces_to_peers() {
    let ips = vec![Ipv4::new(8, 8, 8, 8), Ipv4::new(192, 168, 1, 2)];
    let near = Some(Ipv4::new(192, 168, 1, 77));
    assert_eq!(find_matching_interface(&ips, near), Some(Ipv4::new(192, 168, 1, 2)));
    let far = Some(Ipv4::new(10, 0, 0, 1));
    assert_eq!(find_matching_interface(&ips, far), Some(Ipv4::new(8, 8, 8, 8)));
    assert_eq!(find_matching_interface(&ips, None), None);
    assert_eq!(find_matching_interface(&Vec::new(), near), None);
    let all = vec![
        IpAddress::V4([127, 0, 0, 1]),
        IpAddress::V6([0, 0, 0, 0, 0, 0, 0, 1]),
        IpAddress::V4([192, 168, 1, 2]),
    ];
    assert_eq!(list_local_ipv4(&all), vec![Ipv4::new(192, 168, 1, 2)]);
}

#[test]
fn timestamp_rfc1123_format() {
    let ts = timestamp_rfc1123();
    assert!(ts.ends_with(" GMT"));
    assert!(ts.contains("2026"));
}

#[test]
fn knows_the_calendar() {
    assert_eq!(civil_date(0), Date { year: 1970, month: 1, day: 1 });
    assert_eq!(civil_date(59), Date { year: 1970, month: 3, day: 1 });
    assert_eq!(civil_date(11_016), Date { year: 2000, month: 2, day: 29 });
    assert_eq!(civil_date(20_454), Date { year: 2026, month: 1, day: 1 });
    assert_eq!(civil_date(20_453), Date { year: 2025, month: 12, day: 31 });
    assert!(is_leap(2000) && is_leap(2024) && !is_leap(1900) && !is_leap(2026));
    assert_eq!(utc_text(951_827_696), "2000-02-29 12:34:56");
    assert_eq!(utc_text(253_402_300_799), "9999-12-31 23:59:59");
    assert_eq!(http_date_text(951_827_696), "Tue, 29 Feb 2000 12:34:56 GMT");
    assert_eq!(http_date_text(0), "Thu, 01 Jan 1970 00:00:00 GMT");
    let local = LocalTime { year: 2026, month: 3, day: 4, hour: 5, minute: 6, second: 7 };
    assert_eq!(local.text(), "2026-03-04 05:06:07");
}

#[test]
fn finds_what_is_searched_for() {
    assert_eq!(search_targets("SSDP:ALL").len(), 6);
    assert_eq!(search_targets("upnp:RootDevice"), vec!["upnp:rootdevice"]);
    assert_eq!(search_targets(UDN), vec![UDN]);
    assert_eq!(
        search_targets("urn:schemas-upnp-org:device:MediaRenderer:3"),
        vec![DEVICE_TYPE]
    );
    assert_eq!(
        search_targets("urn:schemas-upnp-org:service:avtransport:1"),
        vec!["urn:schemas-upnp-org:service:AVTransport:1"]
    );
    assert!(search_targets("urn:other").is_empty());
    let search = "m-search * http/1.1\r\nHOST: x\r\nst: ssdp:all\r\n\r\n";
    assert_eq!(requested_targets(search).len(), 6);
    assert!(requested_targets("M-SEARCH * HTTP/1.1\r\n\r\n").is_empty());
    assert!(requested_targets("NOTIFY * HTTP/1.1\r\nST: ssdp:all\r\n\r\n").is_empty());
    assert!(requested_targets("").is_empty());
}

#[test]
fn answers_searches() {
    let ips = vec![Ipv4::new(10, 0, 0, 1), Ipv4::new(192, 168, 1, 2)];
    let senders = vec![Ipv4::new(192, 168, 1, 2)];
    let request = "M-SEARCH * HTTP/1.1\r\nST: upnp:rootdevice\r\n\r\n";
    let reply = search_reply(
        request,
        Some(Ipv4::new(192, 168, 1, 9)),
        "http://default/",
        "TV",
        &ips,
        &senders,
        8080,
        "DATE",
    );
    assert_eq!(reply.sender, Some(0));
    assert_eq!(
        reply.messages,
        vec![
            "HTTP/1.1 200 OK\r\nCACHE-CONTROL: max-age=1800\r\nEXT:\r\n\
             LOCATION: http://192.168.1.2:8080/device.xml\r\nSERVER: TV\r\nST: upnp:rootdevice\r\n\
             USN: uuid:mini-mdr::upnp:rootdevice\r\nDATE: DATE\r\n\r\n"
        ]
    );
    let elsewhere = search_reply(request, None, "http://default/", "TV", &ips, &senders, 1, "D");
    assert_eq!(elsewhere.sender, None);
    assert!(elsewhere.messages[0].contains("LOCATION: http://default/\r\n"));
    let packet = b"M-SEARCH * HTTP/1.1\r\nST: ssdp:all\r\nX: \xff\r\n\r\n";
    let now = respond_to_search(packet, None, "http://l/", "TV", &ips, &senders, 1);
    assert_eq!(now.messages.len(), 6);
    assert!(now.messages[1].contains("ST: uuid:mini-mdr\r\nUSN: uuid:mini-mdr\r\n"));
    assert!(now.messages[5].ends_with(" GMT\r\n\r\n"));
}

#[test]
fn announces_and_takes_leave() {
    assert_eq!(location(Ipv4::new(1, 2, 3, 4), 80), "http://1.2.3.4:80/device.xml");
    let alive = announce_at("http://l/", "TV", "ssdp:alive", "D");
    assert_eq!(alive.len(), 6);
    assert_eq!(
        alive[0],
        "NOTIFY * HTTP/1.1\r\nHOST: 239.255.255.250:1900\r\nNT: upnp:rootdevice\r\nNTS: ssdp:alive\r\n\
         USN: uuid:mini-mdr::upnp:rootdevice\r\nSERVER: TV\r\nDATE: D\r\n\
         CACHE-CONTROL: max-age=1800\r\nLOCATION: http://l/\r\n\r\n"
    );
    let leave = announce("http://l/", "TV", "ssdp:byebye");
    assert!(!leave[0].contains("LOCATION"));
    assert!(leave[0].ends_with(" GMT\r\n\r\n"));
    assert_eq!(announcement_copies("ssdp:alive"), 2);
    assert_eq!(announcement_copies("ssdp:byebye"), 1);
}

#[test]
fn announces_on_schedule() {
    for sent in 0..3 {
        assert_eq!(announce_step(sent, 0, true), AnnounceAction::First);
        assert_eq!(announce_step(sent, 1_000, false), AnnounceAction::First);
    }
    assert_eq!(announce_step(3, 899, true), AnnounceAction::Listen);
    assert_eq!(announce_step(3, 900, true), AnnounceAction::Repeat);
    assert_eq!(announce_step(3, 0, false), AnnounceAction::Farewell);
}
