//! Requests to the renderer, and where they lead.

use vstd::prelude::*;
use crate::fields::{looked_up, pair_views};
use crate::http::{HttpRequest, HttpResponse, RequestView, ResponseView};
use crate::text::{between, chars_of, opt_view, rsplit_once, rsplit_once_spec, same_text};
use crate::upnp::action::{outcome, Outcome, Reply};
use crate::upnp::description::{
    described, device_xml, SERVICE_AVTRANSPORT, SERVICE_CONNECTION, SERVICE_RENDERING,
};
use crate::upnp::soap::{
    envelope, fault_text, soap_envelope, soap_fault, EventService, Fault, UpnpError,
};

verus! {

/// An answer that is a text.
pub open spec fn plain(status: Seq<char>, body: Seq<char>) -> ResponseView {
    ResponseView {
        status,
        content_type: "text/plain; charset=utf-8"@,
        headers: Seq::empty(),
        body,
    }
}

/// An answer that is a text.
pub fn plain_response(status: &'static str, body: &str) -> (r: HttpResponse)
    ensures
        r@ == plain(status@, body@),
{
    let r = HttpResponse {
        status,
        content_type: "text/plain; charset=utf-8",
        headers: Vec::new(),
        body: body.to_owned(),
    };
    assert(pair_views(r.headers@) =~= Seq::empty());
    r
}

/// An answer that is a document.
pub open spec fn document(body: Seq<char>) -> ResponseView {
    ResponseView {
        status: "200 OK"@,
        content_type: "text/xml; charset=utf-8"@,
        headers: Seq::empty(),
        body,
    }
}

/// An answer that is a document.
pub fn xml_response(body: String) -> (r: HttpResponse)
    ensures
        r@ == document(body@),
{
    let r = HttpResponse {
        status: "200 OK",
        content_type: "text/xml; charset=utf-8",
        headers: Vec::new(),
        body,
    };
    assert(pair_views(r.headers@) =~= Seq::empty());
    r
}

/// The answer that reports a fault.
pub open spec fn fault_answer(fault: Fault) -> ResponseView {
    ResponseView {
        status: "500 Internal Server Error"@,
        content_type: "text/xml; charset=utf-8"@,
        headers: Seq::empty(),
        body: envelope(fault_text(fault)),
    }
}

/// The answer that reports a fault.
pub fn soap_fault_response(code: u16, description: &str) -> (r: HttpResponse)
    ensures
        r@ == fault_answer(Fault { code, description: description@ }),
{
    let r = HttpResponse {
        status: "500 Internal Server Error",
        content_type: "text/xml; charset=utf-8",
        headers: Vec::new(),
        body: soap_envelope(&soap_fault(code, description)),
    };
    assert(pair_views(r.headers@) =~= Seq::empty());
    r
}

/// The answer to a control request whose action ended so.
pub open spec fn control_answer(o: Outcome) -> ResponseView {
    match o {
        Ok((body, _)) => ResponseView {
            status: "200 OK"@,
            content_type: "text/xml; charset=utf-8"@,
            headers: seq![("EXT"@, Seq::empty())],
            body: envelope(body),
        },
        Err(fault) => fault_answer(fault),
    }
}

/// The answer to a control request whose action ended so.
pub fn control_response(result: &Result<Reply, UpnpError>) -> (r: HttpResponse)
    ensures
        r@ == control_answer(outcome(*result)),
{
    match result {
        Ok(reply) => {
            let mut headers: Vec<(String, String)> = Vec::new();
            headers.push(("EXT".to_owned(), String::new()));
            let r = HttpResponse {
                status: "200 OK",
                content_type: "text/xml; charset=utf-8",
                headers,
                body: soap_envelope(&reply.body),
            };
            assert(pair_views(r.headers@) =~= seq![("EXT"@, Seq::empty())]);
            r
        },
        Err(error) => soap_fault_response(error.code, error.description),
    }
}

// ---------------------------------------------------------------------------
// The action of a control request
// ---------------------------------------------------------------------------

/// Whether `c` is a quotation mark.
pub open spec fn is_quote(c: char) -> bool {
    c == '"' || c == '\''
}

/// `s` without the quotation marks in front.
pub open spec fn unquoted_front(s: Seq<char>) -> Seq<char>
    decreases s.len(),
{
    if s.len() > 0 && is_quote(s[0]) {
        unquoted_front(s.skip(1))
    } else {
        s
    }
}

/// `s` without the quotation marks at its end.
pub open spec fn unquoted_end(s: Seq<char>) -> Seq<char>
    decreases s.len(),
{
    if s.len() > 0 && is_quote(s.last()) {
        unquoted_end(s.drop_last())
    } else {
        s
    }
}

/// `s` without quotation marks round it.
pub fn unquote(s: &str) -> (r: String)
    ensures
        r@ == unquoted_end(unquoted_front(s@)),
{
    let chars = chars_of(s);
    let mut from: usize = 0;
    assert(chars@.skip(0) =~= chars@);
    while from < chars.len() && (chars[from] == '"' || chars[from] == '\'')
        invariant
            from <= chars.len(),
            chars@ == s@,
            unquoted_front(s@) == unquoted_front(chars@.skip(from as int)),
        decreases chars.len() - from,
    {
        assert(chars@.skip(from as int).skip(1) =~= chars@.skip(from + 1));
        from += 1;
    }
    let mut to: usize = chars.len();
    let ghost rest = chars@.skip(from as int);
    assert(unquoted_front(s@) == rest);
    assert(chars@.subrange(from as int, to as int) =~= rest);
    while from < to && (chars[to - 1] == '"' || chars[to - 1] == '\'')
        invariant
            from <= to <= chars.len(),
            unquoted_end(rest) == unquoted_end(chars@.subrange(from as int, to as int)),
        decreases to,
    {
        assert(chars@.subrange(from as int, to as int).drop_last() =~= chars@.subrange(
            from as int,
            to - 1,
        ));
        to -= 1;
    }
    between(&chars, from, to)
}

/// The action that a control request asks for: what follows the last `#` in its
/// `SOAPACTION` header.
pub open spec fn action_in(headers: Map<Seq<char>, Seq<char>>) -> Option<Seq<char>> {
    match looked_up(headers, "soapaction"@) {
        Some(value) => match rsplit_once_spec(unquoted_end(unquoted_front(value)), '#') {
            Some((_, action)) => Some(action),
            None => None,
        },
        None => None,
    }
}

/// The action that a control request asks for.
pub fn requested_action(request: &HttpRequest) -> (r: Option<String>)
    ensures
        opt_view(r) == action_in(request.headers@),
{
    match request.headers.get("soapaction") {
        Some(value) => match rsplit_once(&unquote(value), '#') {
            Some((_, action)) => Some(action),
            None => None,
        },
        None => None,
    }
}

// ---------------------------------------------------------------------------
// Routes
// ---------------------------------------------------------------------------

/// The service whose events are subscribed to at this address.
pub open spec fn event_service_at(path: Seq<char>) -> Option<EventService> {
    if path == "/AVTransport/event"@ {
        Some(EventService::AvTransport)
    } else if path == "/RenderingControl/event"@ {
        Some(EventService::RenderingControl)
    } else if path == "/ConnectionManager/event"@ {
        Some(EventService::ConnectionManager)
    } else {
        None
    }
}

/// The service whose events are subscribed to at this address.
pub fn event_service(path: &str) -> (r: Option<EventService>)
    ensures
        r == event_service_at(path@),
{
    if same_text(path, "/AVTransport/event") {
        Some(EventService::AvTransport)
    } else if same_text(path, "/RenderingControl/event") {
        Some(EventService::RenderingControl)
    } else if same_text(path, "/ConnectionManager/event") {
        Some(EventService::ConnectionManager)
    } else {
        None
    }
}

/// Where a request leads.
#[derive(Debug)]
pub enum Route {
    /// To an answer that is known already.
    Answer(HttpResponse),
    /// To an action of a service.
    Control(EventService, String),
    Subscribe(EventService),
    Unsubscribe(EventService),
}

/// A route with its texts as sequences of characters.
#[verifier::ext_equal]
pub enum RouteView {
    Answer(ResponseView),
    Control(EventService, Seq<char>),
    Subscribe(EventService),
    Unsubscribe(EventService),
}

impl View for Route {
    type V = RouteView;

    open spec fn view(&self) -> RouteView {
        match self {
            Route::Answer(response) => RouteView::Answer(response@),
            Route::Control(service, action) => RouteView::Control(*service, action@),
            Route::Subscribe(service) => RouteView::Subscribe(*service),
            Route::Unsubscribe(service) => RouteView::Unsubscribe(*service),
        }
    }
}

/// The answer to a request for something that there is not.
pub open spec fn not_found() -> RouteView {
    RouteView::Answer(plain("404 Not Found"@, "Not found\n"@))
}

/// Where a control request to a service leads.
pub open spec fn control_route(
    service: EventService,
    headers: Map<Seq<char>, Seq<char>>,
) -> RouteView {
    match action_in(headers) {
        Some(action) => RouteView::Control(service, action),
        None => RouteView::Answer(
            fault_answer(Fault { code: 401, description: "Invalid Action"@ }),
        ),
    }
}

fn route_control(request: &HttpRequest, service: EventService) -> (r: Route)
    ensures
        r@ == control_route(service, request.headers@),
{
    match requested_action(request) {
        Some(action) => Route::Control(service, action),
        None => Route::Answer(soap_fault_response(401, "Invalid Action")),
    }
}

/// Where a request leads, to a renderer with these names.
pub open spec fn routed(request: RequestView, name: Seq<char>, udn: Seq<char>) -> RouteView {
    let path = request.path;
    if request.method == "GET"@ {
        if path == "/device.xml"@ {
            RouteView::Answer(document(described(name, udn)))
        } else if path == "/connection_manager.xml"@ {
            RouteView::Answer(document(SERVICE_CONNECTION@))
        } else if path == "/av_transport.xml"@ {
            RouteView::Answer(document(SERVICE_AVTRANSPORT@))
        } else if path == "/rendering_control.xml"@ {
            RouteView::Answer(document(SERVICE_RENDERING@))
        } else {
            not_found()
        }
    } else if request.method == "POST"@ {
        if path == "/ConnectionManager/control"@ {
            control_route(EventService::ConnectionManager, request.headers)
        } else if path == "/AVTransport/control"@ {
            control_route(EventService::AvTransport, request.headers)
        } else if path == "/RenderingControl/control"@ {
            control_route(EventService::RenderingControl, request.headers)
        } else {
            not_found()
        }
    } else if request.method == "SUBSCRIBE"@ {
        match event_service_at(path) {
            Some(service) => RouteView::Subscribe(service),
            None => not_found(),
        }
    } else if request.method == "UNSUBSCRIBE"@ {
        match event_service_at(path) {
            Some(service) => RouteView::Unsubscribe(service),
            None => not_found(),
        }
    } else {
        not_found()
    }
}

/// Where a request leads, to a renderer with these names.
pub fn route(request: &HttpRequest, name: &str, udn: &str) -> (r: Route)
    ensures
        r@ == routed(request@, name@, udn@),
{
    let path = request.path.as_str();
    if same_text(&request.method, "GET") {
        if same_text(path, "/device.xml") {
            return Route::Answer(xml_response(device_xml(name, udn)));
        } else if same_text(path, "/connection_manager.xml") {
            return Route::Answer(xml_response(SERVICE_CONNECTION.to_owned()));
        } else if same_text(path, "/av_transport.xml") {
            return Route::Answer(xml_response(SERVICE_AVTRANSPORT.to_owned()));
        } else if same_text(path, "/rendering_control.xml") {
            return Route::Answer(xml_response(SERVICE_RENDERING.to_owned()));
        }
    } else if same_text(&request.method, "POST") {
        if same_text(path, "/ConnectionManager/control") {
            return route_control(request, EventService::ConnectionManager);
        } else if same_text(path, "/AVTransport/control") {
            return route_control(request, EventService::AvTransport);
        } else if same_text(path, "/RenderingControl/control") {
            return route_control(request, EventService::RenderingControl);
        }
    } else if same_text(&request.method, "SUBSCRIBE") {
        match event_service(path) {
            Some(service) => {
                return Route::Subscribe(service);
            },
            None => {},
        }
    } else if same_text(&request.method, "UNSUBSCRIBE") {
        match event_service(path) {
            Some(service) => {
                return Route::Unsubscribe(service);
            },
            None => {},
        }
    }
    Route::Answer(plain_response("404 Not Found", "Not found\n"))
}

} // verus!
