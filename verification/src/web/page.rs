//! The settings page.

use vstd::prelude::*;
use vstd::string::StringExecFns;
use crate::config::{Config, ConfigView};
use crate::fields::pair_views;
use crate::i18n::{languages, message, t, Language};
use crate::number::{decimal, decimal_text};
use crate::text::{replace_all, replace_text, same_text};
use crate::web::request::{answer_text, respond};
use crate::xml::{escape_html, escape_html_spec};

verus! {

// ---------------------------------------------------------------------------
// Templates
// ---------------------------------------------------------------------------

/// A template with its placeholders filled in, one after the other.
pub open spec fn rendered(
    template: Seq<char>,
    vars: Seq<(Seq<char>, Seq<char>)>,
) -> Seq<char>
    decreases vars.len(),
{
    if vars.len() == 0 {
        template
    } else {
        replace_all(
            rendered(template, vars.drop_last()),
            "{{"@ + vars.last().0 + "}}"@,
            escape_html_spec(vars.last().1),
        )
    }
}

/// A template with its placeholders filled in, one after the other. What is filled in
/// is escaped.
pub fn render(template: &str, vars: &Vec<(String, String)>) -> (r: String)
    ensures
        r@ == rendered(template@, pair_views(vars@)),
{
    let mut page = template.to_owned();
    let mut i: usize = 0;
    let ghost all = pair_views(vars@);
    assert(all.take(0) =~= Seq::empty());
    while i < vars.len()
        invariant
            i <= vars.len(),
            all == pair_views(vars@),
            page@ == rendered(template@, all.take(i as int)),
        decreases vars.len() - i,
    {
        assert(all.take(i + 1).drop_last() =~= all.take(i as int));
        assert(all.take(i + 1).last() == (vars@[i as int].0@, vars@[i as int].1@));
        let mut token = "{{".to_owned();
        token.append(&vars[i].0);
        token.append("}}");
        proof {
            reveal_strlit("{{");
        }
        page = replace_text(&page, &token, &escape_html(&vars[i].1));
        i += 1;
    }
    assert(all.take(all.len() as int) =~= all);
    page
}

/// An entry in a choice.
pub open spec fn option_text(value: Seq<char>, chosen: bool, label: Seq<char>) -> Seq<char> {
    "<option value=\""@ + escape_html_spec(value) + "\""@ + (if chosen {
        " selected"@
    } else {
        ""@
    }) + ">"@ + escape_html_spec(label) + "</option>"@
}

fn option_html(value: &str, chosen: bool, label: &str) -> (r: String)
    ensures
        r@ == option_text(value@, chosen, label@),
{
    let mut s = "<option value=\"".to_owned();
    s.append(&escape_html(value));
    s.append("\"");
    s.append(
        if chosen {
            " selected"
        } else {
            ""
        },
    );
    s.append(">");
    s.append(&escape_html(label));
    s.append("</option>");
    s
}

/// The choice of languages: that of the system, English and Chinese.
pub open spec fn language_choice(language: Language, current: Seq<char>) -> Seq<char> {
    option_text(seq![], current.len() == 0, message(language, "settings-language-system"@))
        + option_text("en"@, current == "en"@, "English"@) + option_text(
        "zh-CN"@,
        current == "zh-CN"@,
        "中文"@,
    )
}

/// The choice of languages, of which the one with the code `current` is chosen.
pub fn language_options(language: Language, current: &str) -> (r: String)
    ensures
        r@ == language_choice(language, current@),
{
    let list = languages();
    let system = t(language, "settings-language-system");
    let mut out = option_html(&String::new(), current.is_empty(), &system);
    out.append(&option_html(list[0].code, same_text(list[0].code, current), list[0].name));
    out.append(&option_html(list[1].code, same_text(list[1].code, current), list[1].name));
    out
}

// ---------------------------------------------------------------------------
// What the page says
// ---------------------------------------------------------------------------

/// The language of the page.
pub open spec fn page_language(language: Language) -> Seq<char> {
    match language {
        Language::Zh => "zh-CN"@,
        Language::En => "en"@,
    }
}

fn page_language_text(language: Language) -> (r: &'static str)
    ensures
        r@ == page_language(language),
{
    match language {
        Language::Zh => "zh-CN",
        Language::En => "en",
    }
}

/// The colour that shows whether the services are up.
pub open spec fn indicator_color(running: bool) -> Seq<char> {
    if running {
        "#22c55e"@
    } else {
        "#ef4444"@
    }
}

fn indicator_color_text(running: bool) -> (r: &'static str)
    ensures
        r@ == indicator_color(running),
{
    if running {
        "#22c55e"
    } else {
        "#ef4444"
    }
}

/// The key of the text that says whether the services are up.
pub open spec fn indicator_key(running: bool) -> Seq<char> {
    if running {
        "cast-running"@
    } else {
        "cast-stopped"@
    }
}

fn indicator_key_text(running: bool) -> (r: &'static str)
    ensures
        r@ == indicator_key(running),
{
    if running {
        "cast-running"
    } else {
        "cast-stopped"
    }
}

/// The mark of what is chosen.
pub open spec fn selected(chosen: bool) -> Seq<char> {
    if chosen {
        "selected"@
    } else {
        ""@
    }
}

fn selected_text(chosen: bool) -> (r: &'static str)
    ensures
        r@ == selected(chosen),
{
    if chosen {
        "selected"
    } else {
        ""
    }
}

fn push_value(vars: &mut Vec<(String, String)>, name: &str, value: &str)
    ensures
        pair_views(final(vars)@) == pair_views(old(vars)@).push((name@, value@)),
{
    let ghost before = vars@;
    vars.push((name.to_owned(), value.to_owned()));
    assert(pair_views(vars@) =~= pair_views(before).push((name@, value@)));
}

fn push_text(vars: &mut Vec<(String, String)>, name: &str, language: Language, key: &str)
    ensures
        pair_views(final(vars)@) == pair_views(old(vars)@).push((name@, message(language, key@))),
{
    push_value(vars, name, &t(language, key));
}

/// What the page says on top.
pub open spec fn head_vars(
    v: Seq<(Seq<char>, Seq<char>)>,
    language: Language,
    running: bool,
) -> Seq<(Seq<char>, Seq<char>)> {
    v
        .push(("HTML_LANG"@, page_language(language)))
        .push(("TITLE"@, message(language, "settings-title"@)))
        .push(("TAB_SETTINGS"@, message(language, "tab-settings"@)))
        .push(("TAB_HISTORY"@, message(language, "tab-history"@)))
        .push(("TAB_GUIDE"@, message(language, "tab-guide"@)))
        .push(("TAB_ABOUT"@, message(language, "tab-about"@)))
        .push(("SUBTITLE"@, message(language, "settings-subtitle"@)))
        .push(("STATUS_LABEL"@, message(language, "settings-status"@)))
        .push(("LABEL_LANGUAGE"@, message(language, "settings-language"@)))
        .push(("INDICATOR_COLOR"@, indicator_color(running)))
        .push(("INDICATOR_TEXT"@, message(language, indicator_key(running))))
        .push(("STATUS_RUNNING"@, message(language, "cast-running"@)))
        .push(("STATUS_STOPPED"@, message(language, "cast-stopped"@)))
}

fn push_head(
    vars: &mut Vec<(String, String)>,
    language: Language,
    running: bool,
)
    ensures
        pair_views(final(vars)@) == head_vars(pair_views(old(vars)@), language, running),
{
    push_value(vars, "HTML_LANG", page_language_text(language));
    push_text(vars, "TITLE", language, "settings-title");
    push_text(vars, "TAB_SETTINGS", language, "tab-settings");
    push_text(vars, "TAB_HISTORY", language, "tab-history");
    push_text(vars, "TAB_GUIDE", language, "tab-guide");
    push_text(vars, "TAB_ABOUT", language, "tab-about");
    push_text(vars, "SUBTITLE", language, "settings-subtitle");
    push_text(vars, "STATUS_LABEL", language, "settings-status");
    push_text(vars, "LABEL_LANGUAGE", language, "settings-language");
    push_value(vars, "INDICATOR_COLOR", indicator_color_text(running));
    push_text(vars, "INDICATOR_TEXT", language, indicator_key_text(running));
    push_text(vars, "STATUS_RUNNING", language, "cast-running");
    push_text(vars, "STATUS_STOPPED", language, "cast-stopped");
}

/// The labels of the form.
pub open spec fn labels_vars(
    v: Seq<(Seq<char>, Seq<char>)>,
    language: Language,
) -> Seq<(Seq<char>, Seq<char>)> {
    v
        .push(("SETTINGS_HEADING"@, message(language, "settings-section-settings"@)))
        .push(("SETTINGS_HINT"@, message(language, "settings-hint"@)))
        .push(("LABEL_NAME"@, message(language, "settings-device-name"@)))
        .push(("LABEL_BACKEND"@, message(language, "settings-player-backend"@)))
        .push(("LABEL_MPV_PATH"@, message(language, "settings-mpv-path"@)))
        .push(("LABEL_VLC_PATH"@, message(language, "settings-vlc-path"@)))
        .push(("LABEL_MAX_HISTORY"@, message(language, "settings-max-history"@)))
}

fn push_labels(
    vars: &mut Vec<(String, String)>,
    language: Language,
)
    ensures
        pair_views(final(vars)@) == labels_vars(pair_views(old(vars)@), language),
{
    push_text(vars, "SETTINGS_HEADING", language, "settings-section-settings");
    push_text(vars, "SETTINGS_HINT", language, "settings-hint");
    push_text(vars, "LABEL_NAME", language, "settings-device-name");
    push_text(vars, "LABEL_BACKEND", language, "settings-player-backend");
    push_text(vars, "LABEL_MPV_PATH", language, "settings-mpv-path");
    push_text(vars, "LABEL_VLC_PATH", language, "settings-vlc-path");
    push_text(vars, "LABEL_MAX_HISTORY", language, "settings-max-history");
}

/// What the form is filled in with.
pub open spec fn values_vars(
    v: Seq<(Seq<char>, Seq<char>)>,
    c: ConfigView,
) -> Seq<(Seq<char>, Seq<char>)> {
    v
        .push(("DEVICE_NAME"@, c.name))
        .push(("BACKEND_VALUE"@, c.backend))
        .push(("MPV_SELECTED"@, selected(c.backend == "mpv"@)))
        .push(("VLC_SELECTED"@, selected(c.backend == "vlc"@)))
        .push(("MPV_PATH"@, c.mpv_path))
        .push(("VLC_PATH"@, c.vlc_path))
        .push(("MAX_HISTORY"@, decimal(c.max_history as nat)))
}

fn push_values(
    vars: &mut Vec<(String, String)>,
    config: &Config,
)
    ensures
        pair_views(final(vars)@) == values_vars(pair_views(old(vars)@), config@),
{
    push_value(vars, "DEVICE_NAME", &config.device.name);
    push_value(vars, "BACKEND_VALUE", &config.player.backend);
    push_value(vars, "MPV_SELECTED", selected_text(same_text(&config.player.backend, "mpv")));
    push_value(vars, "VLC_SELECTED", selected_text(same_text(&config.player.backend, "vlc")));
    push_value(vars, "MPV_PATH", &config.player.mpv_path);
    push_value(vars, "VLC_PATH", &config.player.vlc_path);
    push_value(vars, "MAX_HISTORY", &decimal_text(config.settings.max_history as u64));
}

/// What the page says of the history.
pub open spec fn history_vars(
    v: Seq<(Seq<char>, Seq<char>)>,
    language: Language,
) -> Seq<(Seq<char>, Seq<char>)> {
    v
        .push(("SAVE_BTN"@, message(language, "settings-save"@)))
        .push(("HISTORY_HEADING"@, message(language, "settings-section-history"@)))
        .push(("HISTORY_EMPTY"@, message(language, "settings-history-empty"@)))
        .push(("HISTORY_EMPTY_SUB"@, message(language, "settings-history-empty-sub"@)))
        .push(("HISTORY_SUBTITLE"@, message(language, "settings-history-subtitle"@)))
        .push(("TIME_COL"@, message(language, "settings-history-time"@)))
        .push(("TITLE_COL"@, message(language, "settings-history-title"@)))
        .push(("INDEX_COL"@, message(language, "settings-history-index"@)))
        .push(("COPY_LINK"@, message(language, "settings-history-copy-link"@)))
        .push(("OPEN_IN_BROWSER"@, message(language, "settings-history-open-in-browser"@)))
        .push(("COPIED_MSG"@, message(language, "settings-history-copied"@)))
        .push(("SAVED_MSG"@, message(language, "settings-saved"@)))
        .push(("SAVE_ERR_MSG"@, message(language, "error-save-failed"@)))
}

fn push_history(
    vars: &mut Vec<(String, String)>,
    language: Language,
)
    ensures
        pair_views(final(vars)@) == history_vars(pair_views(old(vars)@), language),
{
    push_text(vars, "SAVE_BTN", language, "settings-save");
    push_text(vars, "HISTORY_HEADING", language, "settings-section-history");
    push_text(vars, "HISTORY_EMPTY", language, "settings-history-empty");
    push_text(vars, "HISTORY_EMPTY_SUB", language, "settings-history-empty-sub");
    push_text(vars, "HISTORY_SUBTITLE", language, "settings-history-subtitle");
    push_text(vars, "TIME_COL", language, "settings-history-time");
    push_text(vars, "TITLE_COL", language, "settings-history-title");
    push_text(vars, "INDEX_COL", language, "settings-history-index");
    push_text(vars, "COPY_LINK", language, "settings-history-copy-link");
    push_text(vars, "OPEN_IN_BROWSER", language, "settings-history-open-in-browser");
    push_text(vars, "COPIED_MSG", language, "settings-history-copied");
    push_text(vars, "SAVED_MSG", language, "settings-saved");
    push_text(vars, "SAVE_ERR_MSG", language, "error-save-failed");
}

/// What the page says of the program, and how it is used.
pub open spec fn about_vars(
    v: Seq<(Seq<char>, Seq<char>)>,
    language: Language,
    config_dir: Seq<char>,
    version: Seq<char>,
) -> Seq<(Seq<char>, Seq<char>)> {
    v
        .push(("ABOUT_TITLE"@, message(language, "about-title"@)))
        .push(("ABOUT_SUBTITLE"@, message(language, "about-subtitle"@)))
        .push(("ABOUT_DESC"@, message(language, "about-description"@)))
        .push(("ABOUT_VERSION"@, message(language, "about-version"@)))
        .push(("ABOUT_REPOSITORY"@, message(language, "about-repository"@)))
        .push(("ABOUT_LICENSE"@, message(language, "about-license"@)))
        .push(("STATUS_UPNP"@, message(language, "status-upnp"@)))
        .push(("GUIDE_TITLE"@, message(language, "guide-title"@)))
        .push(("GUIDE_INTRO"@, message(language, "guide-intro"@)))
        .push(("GUIDE_PLAYER_HEADING"@, message(language, "guide-player-heading"@)))
        .push(("GUIDE_PLAYER_TEXT"@, message(language, "guide-player-text"@)))
        .push(("GUIDE_CONFIG_HEADING"@, message(language, "guide-config-heading"@)))
        .push(("GUIDE_CONFIG_TEXT"@, message(language, "guide-config-text"@)))
        .push(("GUIDE_USAGE_HEADING"@, message(language, "guide-usage-heading"@)))
        .push(("GUIDE_USAGE_TEXT"@, message(language, "guide-usage-text"@)))
        .push(("CONFIG_DIR"@, config_dir))
        .push(("VERSION"@, version))
}

fn push_about(
    vars: &mut Vec<(String, String)>,
    language: Language,
    config_dir: &str,
    version: &str,
)
    ensures
        pair_views(final(vars)@) == about_vars(pair_views(old(vars)@), language, config_dir@, version@),
{
    push_text(vars, "ABOUT_TITLE", language, "about-title");
    push_text(vars, "ABOUT_SUBTITLE", language, "about-subtitle");
    push_text(vars, "ABOUT_DESC", language, "about-description");
    push_text(vars, "ABOUT_VERSION", language, "about-version");
    push_text(vars, "ABOUT_REPOSITORY", language, "about-repository");
    push_text(vars, "ABOUT_LICENSE", language, "about-license");
    push_text(vars, "STATUS_UPNP", language, "status-upnp");
    push_text(vars, "GUIDE_TITLE", language, "guide-title");
    push_text(vars, "GUIDE_INTRO", language, "guide-intro");
    push_text(vars, "GUIDE_PLAYER_HEADING", language, "guide-player-heading");
    push_text(vars, "GUIDE_PLAYER_TEXT", language, "guide-player-text");
    push_text(vars, "GUIDE_CONFIG_HEADING", language, "guide-config-heading");
    push_text(vars, "GUIDE_CONFIG_TEXT", language, "guide-config-text");
    push_text(vars, "GUIDE_USAGE_HEADING", language, "guide-usage-heading");
    push_text(vars, "GUIDE_USAGE_TEXT", language, "guide-usage-text");
    push_value(vars, "CONFIG_DIR", config_dir);
    push_value(vars, "VERSION", version);
}

/// All that the page says where mpv is the only player.
pub open spec fn mpv_page_vars(
    v: Seq<(Seq<char>, Seq<char>)>,
    language: Language,
    running: bool,
    c: ConfigView,
    options: Seq<char>,
    version: Seq<char>,
) -> Seq<(Seq<char>, Seq<char>)> {
    v
        .push(("HTML_LANG"@, page_language(language)))
        .push(("TITLE"@, message(language, "settings-title"@)))
        .push(("TAB_SETTINGS"@, message(language, "tab-settings"@)))
        .push(("TAB_HISTORY"@, message(language, "tab-history"@)))
        .push(("TAB_ABOUT"@, message(language, "tab-about"@)))
        .push(("SUBTITLE"@, message(language, "settings-subtitle"@)))
        .push(("STATUS_LABEL"@, message(language, "settings-status"@)))
        .push(("LABEL_LANGUAGE"@, message(language, "settings-language"@)))
        .push(("LANGUAGE_OPTIONS"@, options))
        .push(("INDICATOR_COLOR"@, indicator_color(running)))
        .push(("INDICATOR_TEXT"@, message(language, indicator_key(running))))
        .push(("SETTINGS_HEADING"@, message(language, "settings-section-settings"@)))
        .push(("LABEL_NAME"@, message(language, "settings-device-name"@)))
        .push(("LABEL_BACKEND"@, message(language, "settings-player-backend"@)))
        .push(("LABEL_MPV_PATH"@, message(language, "settings-mpv-path"@)))
        .push(("LABEL_MAX_HISTORY"@, message(language, "settings-max-history"@)))
        .push(("DEVICE_NAME"@, c.name))
        .push(("MPV_PATH"@, c.mpv_path))
        .push(("MAX_HISTORY"@, decimal(c.max_history as nat)))
        .push(("SAVE_BTN"@, message(language, "settings-save"@)))
        .push(("HISTORY_HEADING"@, message(language, "settings-section-history"@)))
        .push(("HISTORY_EMPTY"@, message(language, "settings-history-empty"@)))
        .push(("TIME_COL"@, message(language, "settings-history-time"@)))
        .push(("TITLE_COL"@, message(language, "settings-history-title"@)))
        .push(("SAVED_MSG"@, message(language, "settings-saved"@)))
        .push(("SAVE_ERR_MSG"@, message(language, "error-save-failed"@)))
        .push(("ABOUT_TITLE"@, message(language, "about-title"@)))
        .push(("ABOUT_DESC"@, message(language, "about-description"@)))
        .push(("VERSION"@, version))
}

fn push_mpv_page(
    vars: &mut Vec<(String, String)>,
    language: Language,
    running: bool,
    config: &Config,
    options: &str,
    version: &str,
)
    ensures
        pair_views(final(vars)@) == mpv_page_vars(pair_views(old(vars)@), language, running, config@, options@, version@),
{
    push_value(vars, "HTML_LANG", page_language_text(language));
    push_text(vars, "TITLE", language, "settings-title");
    push_text(vars, "TAB_SETTINGS", language, "tab-settings");
    push_text(vars, "TAB_HISTORY", language, "tab-history");
    push_text(vars, "TAB_ABOUT", language, "tab-about");
    push_text(vars, "SUBTITLE", language, "settings-subtitle");
    push_text(vars, "STATUS_LABEL", language, "settings-status");
    push_text(vars, "LABEL_LANGUAGE", language, "settings-language");
    push_value(vars, "LANGUAGE_OPTIONS", options);
    push_value(vars, "INDICATOR_COLOR", indicator_color_text(running));
    push_text(vars, "INDICATOR_TEXT", language, indicator_key_text(running));
    push_text(vars, "SETTINGS_HEADING", language, "settings-section-settings");
    push_text(vars, "LABEL_NAME", language, "settings-device-name");
    push_text(vars, "LABEL_BACKEND", language, "settings-player-backend");
    push_text(vars, "LABEL_MPV_PATH", language, "settings-mpv-path");
    push_text(vars, "LABEL_MAX_HISTORY", language, "settings-max-history");
    push_value(vars, "DEVICE_NAME", &config.device.name);
    push_value(vars, "MPV_PATH", &config.player.mpv_path);
    push_value(vars, "MAX_HISTORY", &decimal_text(config.settings.max_history as u64));
    push_text(vars, "SAVE_BTN", language, "settings-save");
    push_text(vars, "HISTORY_HEADING", language, "settings-section-history");
    push_text(vars, "HISTORY_EMPTY", language, "settings-history-empty");
    push_text(vars, "TIME_COL", language, "settings-history-time");
    push_text(vars, "TITLE_COL", language, "settings-history-title");
    push_text(vars, "SAVED_MSG", language, "settings-saved");
    push_text(vars, "SAVE_ERR_MSG", language, "error-save-failed");
    push_text(vars, "ABOUT_TITLE", language, "about-title");
    push_text(vars, "ABOUT_DESC", language, "about-description");
    push_value(vars, "VERSION", version);
}

/// All that the page says.
pub open spec fn page_vars(
    language: Language,
    c: ConfigView,
    running: bool,
    config_dir: Seq<char>,
    version: Seq<char>,
) -> Seq<(Seq<char>, Seq<char>)> {
    let head = head_vars(Seq::empty(), language, running);
    let labels = labels_vars(head, language);
    let values = values_vars(labels, c);
    let history = history_vars(values, language);
    about_vars(history, language, config_dir, version)
}

/// The settings page.
pub open spec fn page(
    template: Seq<char>,
    language: Language,
    c: ConfigView,
    running: bool,
    config_dir: Seq<char>,
    version: Seq<char>,
) -> Seq<char> {
    replace_all(
        rendered(template, page_vars(language, c, running, config_dir, version)),
        "{{LANGUAGE_OPTIONS}}"@,
        language_choice(language, c.language),
    )
}

/// The settings page.
pub fn settings_page(
    template: &str,
    language: Language,
    config: &Config,
    running: bool,
    config_dir: &str,
    version: &str,
) -> (r: String)
    ensures
        r@ == page(template@, language, config@, running, config_dir@, version@),
{
    let mut vars: Vec<(String, String)> = Vec::new();
    assert(pair_views(vars@) =~= Seq::empty());
    push_head(&mut vars, language, running);
    push_labels(&mut vars, language);
    push_values(&mut vars, config);
    push_history(&mut vars, language);
    push_about(&mut vars, language, config_dir, version);
    proof {
        reveal_strlit("{{LANGUAGE_OPTIONS}}");
    }
    let options = language_options(language, &config.settings.language);
    replace_text(&render(template, &vars), "{{LANGUAGE_OPTIONS}}", &options)
}

/// The settings page where mpv is the only player.
pub fn mpv_settings_page(
    template: &str,
    language: Language,
    config: &Config,
    running: bool,
    version: &str,
) -> (r: String)
    ensures
        r@ == rendered(
            template@,
            mpv_page_vars(
                Seq::empty(),
                language,
                running,
                config@,
                language_choice(language, config@.language),
                version@,
            ),
        ),
{
    let mut vars: Vec<(String, String)> = Vec::new();
    assert(pair_views(vars@) =~= Seq::empty());
    let options = language_options(language, &config.settings.language);
    push_mpv_page(&mut vars, language, running, config, &options, version);
    render(template, &vars)
}

// ---------------------------------------------------------------------------
// Plain answers
// ---------------------------------------------------------------------------

/// A message to the user as an answer.
pub open spec fn told_user(status: Seq<char>, language: Language, key: Seq<char>) -> Seq<char> {
    answer_text(status, "text/plain; charset=utf-8"@, message(language, key) + "\n"@)
}

fn tell_user(status: &str, language: Language, key: &str) -> (r: String)
    ensures
        r@ == told_user(status@, language, key@),
{
    let mut text = t(language, key);
    text.append("\n");
    respond(status, "text/plain; charset=utf-8", &text)
}

/// The answer to a request from a page of another site.
pub fn cross_origin_answer(language: Language) -> (r: String)
    ensures
        r@ == told_user("403 Forbidden"@, language, "error-cross-origin"@),
{
    tell_user("403 Forbidden", language, "error-cross-origin")
}

/// The answer to a request for something that there is not.
pub fn not_found_answer(language: Language) -> (r: String)
    ensures
        r@ == told_user("404 Not Found"@, language, "error-not-found"@),
{
    tell_user("404 Not Found", language, "error-not-found")
}

/// The answer to a request that could not be read.
pub fn bad_request_answer() -> (r: String)
    ensures
        r@ == answer_text(
            "400 Bad Request"@,
            "text/plain; charset=utf-8"@,
            "400 Bad Request\n"@,
        ),
{
    respond("400 Bad Request", "text/plain; charset=utf-8", "400 Bad Request\n")
}

/// The answer that says that the server is there.
pub fn health_answer() -> (r: String)
    ensures
        r@ == answer_text("200 OK"@, "text/plain; charset=utf-8"@, "ok\n"@),
{
    respond("200 OK", "text/plain; charset=utf-8", "ok\n")
}

} // verus!
