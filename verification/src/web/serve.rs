//! What the settings server does with a request.

use vstd::prelude::*;
use crate::clock::LocalTime;
use crate::config::{Config, ConfigView};
use crate::encoding::{form_fields, parse_form, FormError};
use crate::fields::Fields;
use crate::i18n::{resolve_language, resolved, Language};
use crate::number::decimal;
use crate::state::{CastState, HistoryEntry, RendererState, StateView};
use crate::text::split_spec;
use crate::web::events::{history_payload, history_text};
use crate::web::page::{
    cross_origin_answer, health_answer, not_found_answer, page, settings_page, told_user,
};
use crate::web::request::{
    answer_text, body_of, from_origins, method_and_path, parse_headers, request_body,
    request_headers, request_line, respond, same_origin, settings_route, settings_routed,
    SettingsRoute,
};
use crate::web::settings::{saved_json, saved_text};

verus! {

/// What does not change while the settings server runs.
#[derive(Debug)]
pub struct Site {
    /// The address that the server is reached at, with its port.
    pub address: String,
    pub port: u16,
    pub template: String,
    pub config_dir: String,
    pub version: String,
}

/// A site with its texts as sequences of characters.
#[verifier::ext_equal]
pub struct SiteView {
    pub address: Seq<char>,
    pub port: u16,
    pub template: Seq<char>,
    pub config_dir: Seq<char>,
    pub version: Seq<char>,
}

impl View for Site {
    type V = SiteView;

    open spec fn view(&self) -> SiteView {
        SiteView {
            address: self.address@,
            port: self.port,
            template: self.template@,
            config_dir: self.config_dir@,
            version: self.version@,
        }
    }
}

/// What is done with a request.
#[derive(Debug)]
pub enum Served {
    /// It is answered.
    Answer(String),
    /// It is answered with events as they come.
    Events,
    Icon,
    Favicon,
    /// The settings in a form are saved, and it is answered how that went.
    Save(Fields),
    /// It is not answered, as its form cannot be read.
    Dropped(FormError),
}

/// What is done with a request, with its texts as sequences of characters.
#[verifier::ext_equal]
pub enum ServedView {
    Answer(Seq<char>),
    Events,
    Icon,
    Favicon,
    Save(Map<Seq<char>, Seq<char>>),
    Dropped(FormError),
}

impl View for Served {
    type V = ServedView;

    open spec fn view(&self) -> ServedView {
        match self {
            Served::Answer(text) => ServedView::Answer(text@),
            Served::Events => ServedView::Events,
            Served::Icon => ServedView::Icon,
            Served::Favicon => ServedView::Favicon,
            Served::Save(fields) => ServedView::Save(fields@),
            Served::Dropped(e) => ServedView::Dropped(*e),
        }
    }
}

/// Whether a request comes from a page of the site, or from none.
pub open spec fn own_request(request: Seq<char>, site: SiteView) -> bool {
    from_origins(
        request_headers(request),
        "http://"@ + site.address,
        "http://localhost:"@ + decimal(site.port as nat),
    )
}

/// What is done with a request to the site. One from a page of another site is refused,
/// whatever it asks for.
pub open spec fn served(
    request: Seq<char>,
    site: SiteView,
    language: Language,
    c: ConfigView,
    s: StateView,
    entries: Seq<HistoryEntry>,
    local: Seq<Option<LocalTime>>,
) -> ServedView {
    let (method, path) = request_line(request);
    if !own_request(request, site) {
        ServedView::Answer(told_user("403 Forbidden"@, language, "error-cross-origin"@))
    } else {
        match settings_routed(method, path) {
            SettingsRoute::Page => ServedView::Answer(
                answer_text(
                    "200 OK"@,
                    "text/html; charset=utf-8"@,
                    page(
                        site.template,
                        language,
                        c,
                        s.cast == CastState::Running,
                        site.config_dir,
                        site.version,
                    ),
                ),
            ),
            SettingsRoute::History => ServedView::Answer(
                answer_text(
                    "200 OK"@,
                    "application/json; charset=utf-8"@,
                    history_text(entries, local, c.max_history as int),
                ),
            ),
            SettingsRoute::Events => ServedView::Events,
            SettingsRoute::Icon => ServedView::Icon,
            SettingsRoute::Favicon => ServedView::Favicon,
            SettingsRoute::Save => match form_fields(split_spec(request_body(request), '&')) {
                Ok(fields) => ServedView::Save(fields),
                Err(e) => ServedView::Dropped(e),
            },
            SettingsRoute::Health => ServedView::Answer(
                answer_text("200 OK"@, "text/plain; charset=utf-8"@, "ok\n"@),
            ),
            SettingsRoute::NotFound => ServedView::Answer(
                told_user("404 Not Found"@, language, "error-not-found"@),
            ),
        }
    }
}

/// What is done with a request to the site, in the language that is configured or in
/// use. `local` holds the time of each entry of the history in the machine's time zone,
/// where that is known.
pub fn serve(
    request: &str,
    site: &Site,
    current: &Option<Language>,
    config: &Config,
    state: &RendererState,
    entries: &Vec<HistoryEntry>,
    local: &Vec<Option<LocalTime>>,
) -> (r: Served)
    requires
        entries.len() == local.len(),
    ensures
        r@ == served(
            request@,
            site@,
            resolved(config@.language, *current),
            config@,
            state@,
            entries@,
            local@,
        ),
{
    let language = resolve_language(&config.settings.language, current);
    let (method, path) = method_and_path(request);
    let headers = parse_headers(request);
    if !same_origin(&headers, &site.address, site.port) {
        return Served::Answer(cross_origin_answer(language));
    }
    match settings_route(&method, &path) {
        SettingsRoute::Page => {
            let running = state.cast == CastState::Running;
            let body = settings_page(
                &site.template,
                language,
                config,
                running,
                &site.config_dir,
                &site.version,
            );
            Served::Answer(respond("200 OK", "text/html; charset=utf-8", &body))
        },
        SettingsRoute::History => {
            let body = history_payload(entries, local, config.settings.max_history);
            Served::Answer(respond("200 OK", "application/json; charset=utf-8", &body))
        },
        SettingsRoute::Events => Served::Events,
        SettingsRoute::Icon => Served::Icon,
        SettingsRoute::Favicon => Served::Favicon,
        SettingsRoute::Save => match parse_form(&body_of(request)) {
            Ok(fields) => Served::Save(fields),
            Err(e) => Served::Dropped(e),
        },
        SettingsRoute::Health => Served::Answer(health_answer()),
        SettingsRoute::NotFound => Served::Answer(not_found_answer(language)),
    }
}

/// The answer to a form, where saving it went so.
pub fn saved_answer(result: &Result<(), String>, language: Language) -> (r: String)
    ensures
        r@ == answer_text(
            "200 OK"@,
            "application/json; charset=utf-8"@,
            match result {
                Ok(_) => saved_text(None, language),
                Err(error) => saved_text(Some(error@), language),
            },
        ),
{
    respond("200 OK", "application/json; charset=utf-8", &saved_json(result, language))
}

/// Settings are saved only for a request that does not come from a page of another
/// site.
pub proof fn law_only_own_requests_save(
    request: Seq<char>,
    site: SiteView,
    language: Language,
    c: ConfigView,
    s: StateView,
    entries: Seq<HistoryEntry>,
    local: Seq<Option<LocalTime>>,
)
    ensures
        served(request, site, language, c, s, entries, local) is Save ==> own_request(request, site)
            && request_line(request) == ("POST"@, "/settings"@),
{
}

} // verus!
