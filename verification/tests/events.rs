use mini_mdr::fields::Fields;
use mini_mdr::http::{HttpRequest, HttpResponse};
use mini_mdr::net::IpAddress;
use mini_mdr::state::{RendererState, Span, TransportState};
use mini_mdr::upnp::action::Reply;
use mini_mdr::upnp::gena::{
    event_body, finish_subscribe, notify_request, parse_http_url, start_subscribe, to_notify,
    unsubscribe, SubscribeStep, Subscription, Subscriptions, MAX_CALLBACK_SIZE, MAX_SUBSCRIPTIONS,
};
use mini_mdr::upnp::soap::{EventService, UpnpError};

fn subscribe_request(headers: &[(&str, &str)]) -> HttpRequest {
    let mut fields = Fields::new();
    for (name, value) in headers {
        fields.insert((*name).to_owned(), (*value).to_owned());
    }
    HttpRequest {
        method: "SUBSCRIBE".into(),
        path: "/AVTransport/event".into(),
        headers: fields,
        body: String::new(),
    }
}

/// The addresses that a numeric host stands for.
fn resolve(socket: &str) -> Option<Vec<IpAddress>> {
    let (host, _) = socket.rsplit_once(':')?;
    let octets: Vec<u8> = host.split('.').filter_map(|part| part.parse().ok()).collect();
    let octets: [u8; 4] = octets.try_into().ok()?;
    Some(vec![IpAddress::V4(octets)])
}

fn subscribe(
    request: &HttpRequest,
    service: EventService,
    subscriptions: &mut Subscriptions,
) -> HttpResponse {
    let now = Span::from_secs(100);
    match start_subscribe(request, service, now, subscriptions) {
        SubscribeStep::Answer(response) => response,
        SubscribeStep::Resolve { callback, socket, timeout } => {
            let addresses = resolve(&socket);
            finish_subscribe(
                addresses.as_ref(),
                callback,
                service,
                "uuid:new",
                timeout,
                now,
                subscriptions,
            )
            .0
        }
    }
}

fn insert_subscription(subscriptions: &mut Subscriptions, sid: &str, service: EventService) {
    subscriptions.insert(Subscription {
        sid: sid.to_owned(),
        callback: "http://127.0.0.1:9/".into(),
        service,
        expires_at: Span::from_secs(160),
        sequence: 0,
    });
}

#[test]
fn rejects_renewal_on_wrong_service() {
    let mut subscriptions = Subscriptions::new();
    insert_subscription(&mut subscriptions, "uuid:test", EventService::RenderingControl);
    let request = subscribe_request(&[("sid", "uuid:test")]);
    let response = subscribe(&request, EventService::AvTransport, &mut subscriptions);
    assert_eq!(response.status, "412 Precondition Failed");
    assert_eq!(response.body, "SID does not match this service\n");
}

#[test]
fn renews_on_its_own_service() {
    let mut subscriptions = Subscriptions::new();
    insert_subscription(&mut subscriptions, "uuid:test", EventService::AvTransport);
    let request = subscribe_request(&[("sid", "uuid:test"), ("timeout", "Second-300")]);
    let response = subscribe(&request, EventService::AvTransport, &mut subscriptions);
    assert_eq!(response.status, "200 OK");
    assert_eq!(
        response.headers,
        vec![
            ("SID".to_owned(), "uuid:test".to_owned()),
            ("TIMEOUT".to_owned(), "Second-300".to_owned()),
        ]
    );
    assert_eq!(subscriptions.remove_expired(Span::from_secs(399)), 0);
    assert_eq!(subscriptions.remove_expired(Span::from_secs(400)), 1);
    let unknown = subscribe_request(&[("sid", "uuid:other")]);
    let response = subscribe(&unknown, EventService::AvTransport, &mut subscriptions);
    assert_eq!(response.body, "unknown SID\n");
}

#[test]
fn rejects_callback_without_host() {
    let mut subscriptions = Subscriptions::new();
    let request = subscribe_request(&[("nt", "upnp:event"), ("callback", "<http://>")]);
    let response = subscribe(&request, EventService::AvTransport, &mut subscriptions);
    assert_eq!(response.status, "412 Precondition Failed");
}

#[test]
fn rejects_oversized_callback() {
    let mut subscriptions = Subscriptions::new();
    let callback = format!("<http://127.0.0.1:9/{}>", "a".repeat(MAX_CALLBACK_SIZE));
    let request = subscribe_request(&[("nt", "upnp:event"), ("callback", &callback)]);
    let response = subscribe(&request, EventService::AvTransport, &mut subscriptions);
    assert_eq!(response.status, "412 Precondition Failed");
    assert_eq!(response.body, "CALLBACK is too long\n");
}

#[test]
fn enforces_subscription_limit() {
    let mut subscriptions = Subscriptions::new();
    for index in 0..MAX_SUBSCRIPTIONS {
        insert_subscription(
            &mut subscriptions,
            &format!("uuid:test-{index}"),
            EventService::AvTransport,
        );
    }
    let request =
        subscribe_request(&[("nt", "upnp:event"), ("callback", "<http://192.168.1.100:9/>")]);
    let response = subscribe(&request, EventService::AvTransport, &mut subscriptions);
    assert_eq!(response.status, "503 Service Unavailable");
    assert_eq!(subscriptions.len(), MAX_SUBSCRIPTIONS);
}

#[test]
fn rejects_loopback_or_unspecified_callback() {
    for callback in ["<http://127.0.0.1:9/>", "<http://0.0.0.0:9/>"] {
        let mut subscriptions = Subscriptions::new();
        let request = subscribe_request(&[("nt", "upnp:event"), ("callback", callback)]);
        let response = subscribe(&request, EventService::AvTransport, &mut subscriptions);
        assert_eq!(response.status, "412 Precondition Failed", "{callback}");
        assert_eq!(subscriptions.len(), 0);
    }
}

#[test]
fn rejects_requests_that_lack_something() {
    let mut subscriptions = Subscriptions::new();
    let mut reason = |headers: &[(&str, &str)]| {
        subscribe(&subscribe_request(headers), EventService::AvTransport, &mut subscriptions).body
    };
    assert_eq!(reason(&[]), "NT must be upnp:event\n");
    assert_eq!(reason(&[("nt", "upnp:event")]), "CALLBACK is required\n");
    assert_eq!(reason(&[("nt", "upnp:event"), ("callback", "http://h/")]), "CALLBACK is required\n");
    assert_eq!(
        reason(&[("nt", "upnp:event"), ("callback", "<https://h/>")]),
        "only HTTP callbacks are supported\n"
    );
    assert_eq!(
        reason(&[("nt", "upnp:event"), ("callback", "<http://nowhere/>")]),
        "CALLBACK is not usable\n"
    );
}

#[test]
fn subscribes_counts_and_unsubscribes() {
    let mut subscriptions = Subscriptions::new();
    insert_subscription(&mut subscriptions, "uuid:old", EventService::RenderingControl);
    let request =
        subscribe_request(&[("nt", "upnp:event"), ("callback", " <http://192.168.1.9:80/cb> ")]);
    let response = subscribe(&request, EventService::AvTransport, &mut subscriptions);
    assert_eq!(response.status, "200 OK");
    assert_eq!(response.headers[1].1, "Second-1800");
    assert_eq!(subscriptions.subscribers_of(EventService::AvTransport), vec!["uuid:new"]);
    let first = subscriptions.next_notification("uuid:new").unwrap();
    assert_eq!((first.sequence, first.callback.as_str()), (0, "http://192.168.1.9:80/cb"));
    assert_eq!(subscriptions.next_notification("uuid:new").unwrap().sequence, 1);
    assert!(subscriptions.next_notification("uuid:none").is_none());
    let gone = subscribe_request(&[("sid", "uuid:new")]);
    let wrong = unsubscribe(&gone, EventService::RenderingControl, &mut subscriptions);
    assert_eq!(wrong.status, "412 Precondition Failed");
    let right = unsubscribe(&gone, EventService::AvTransport, &mut subscriptions);
    assert_eq!(right.status, "200 OK");
    assert_eq!(subscriptions.len(), 1);
    let none = unsubscribe(&subscribe_request(&[]), EventService::AvTransport, &mut subscriptions);
    assert_eq!(none.body, "SID is required\n");
}

#[test]
fn event_numbers_begin_anew_after_the_last() {
    let mut subscriptions = Subscriptions::new();
    subscriptions.insert(Subscription {
        sid: "uuid:x".to_owned(),
        callback: "http://h/".to_owned(),
        service: EventService::AvTransport,
        expires_at: Span::from_secs(1),
        sequence: u32::MAX,
    });
    assert_eq!(subscriptions.next_notification("uuid:x").unwrap().sequence, u32::MAX);
    assert_eq!(subscriptions.next_notification("uuid:x").unwrap().sequence, 0);
}

#[test]
fn reads_callback_addresses() {
    let plain = parse_http_url("http://host").unwrap();
    assert_eq!((plain.host.as_str(), plain.socket.as_str(), plain.path.as_str()), ("host", "host:80", "/"));
    let full = parse_http_url("http://host:8080/a/b?c").unwrap();
    assert_eq!(
        (full.host.as_str(), full.socket.as_str(), full.path.as_str()),
        ("host:8080", "host:8080", "/a/b?c")
    );
    let odd = parse_http_url("http://host:99999/").unwrap();
    assert_eq!(odd.socket, "host:99999:80");
    assert!(parse_http_url("https://host/").is_none());
}

#[test]
fn tells_usable_addresses() {
    let v6 = |last: u16, first: u16| IpAddress::V6([first, 0, 0, 0, 0, 0, 0, last]);
    assert!(!v6(1, 0).is_usable());
    assert!(!v6(0, 0).is_usable());
    assert!(!v6(1, 0xff02).is_usable());
    assert!(v6(1, 0xfe80).is_usable());
    assert!(!IpAddress::V4([224, 0, 0, 1]).is_usable());
    assert!(!IpAddress::V4([239, 255, 255, 250]).is_usable());
    assert!(IpAddress::V4([240, 0, 0, 1]).is_usable());
    assert!(IpAddress::V4([10, 0, 0, 1]).is_usable());
}

#[test]
fn writes_events() {
    let state = RendererState {
        uri: Some("http://x/?a&b".to_owned()),
        transport: TransportState::Playing,
        position: Span::from_secs(61),
        volume: 30,
        muted: true,
        ..RendererState::default()
    };
    assert_eq!(
        event_body(EventService::RenderingControl, &state, ""),
        "<?xml version=\"1.0\"?><e:propertyset xmlns:e=\"urn:schemas-upnp-org:event-1-0\">\
         <e:property><LastChange>&lt;Event xmlns=&quot;urn:schemas-upnp-org:metadata-1-0/RCS/&quot;&gt;\
         &lt;InstanceID val=&quot;0&quot;&gt;&lt;Volume channel=&quot;Master&quot; val=&quot;30&quot;/&gt;\
         &lt;Mute channel=&quot;Master&quot; val=&quot;1&quot;/&gt;&lt;/InstanceID&gt;&lt;/Event&gt;\
         </LastChange></e:property></e:propertyset>"
    );
    let transport = event_body(EventService::AvTransport, &state, "");
    assert!(transport.contains("TransportState val=&quot;PLAYING&quot;"));
    assert!(transport.contains("CurrentTrackURI val=&quot;http://x/?a&amp;amp;b&quot;"));
    assert!(transport.contains("RelativeTimePosition val=&quot;00:01:01&quot;"));
    let manager = event_body(EventService::ConnectionManager, &state, "a,b");
    assert!(manager.contains("<SinkProtocolInfo>a,b</SinkProtocolInfo>"));
    let target = parse_http_url("http://h:8/cb").unwrap();
    assert_eq!(
        notify_request(&target, "uuid:1", 7, "é"),
        "NOTIFY /cb HTTP/1.1\r\nHOST: h:8\r\nCONTENT-TYPE: text/xml; charset=utf-8\r\nNT: upnp:event\r\n\
         NTS: upnp:propchange\r\nSID: uuid:1\r\nSEQ: 7\r\nCONTENT-LENGTH: 2\r\nCONNECTION: close\r\n\r\né"
    );
}

#[test]
fn events_go_out_where_something_changed() {
    let mut subscriptions = Subscriptions::new();
    insert_subscription(&mut subscriptions, "uuid:a", EventService::AvTransport);
    insert_subscription(&mut subscriptions, "uuid:b", EventService::RenderingControl);
    insert_subscription(&mut subscriptions, "uuid:c", EventService::AvTransport);
    let reply = |changed: bool| Ok(Reply { body: String::new(), changed });
    let service = EventService::AvTransport;
    assert_eq!(to_notify(&reply(true), service, &subscriptions), vec!["uuid:a", "uuid:c"]);
    assert!(to_notify(&reply(false), service, &subscriptions).is_empty());
    let fault = Err(UpnpError::new(501, "Action Failed"));
    assert!(to_notify(&fault, service, &subscriptions).is_empty());
}
