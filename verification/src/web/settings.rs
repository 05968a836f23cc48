//! Changing the configuration on the settings page.

use vstd::prelude::*;
use vstd::string::StringExecFns;
use crate::bytes::{byte_count, byte_len};
use crate::config::{
    normalize_max_history, normalized_history, Config, ConfigView, DEFAULT_MAX_HISTORY,
    MAX_HISTORY_LIMIT,
};
use crate::fields::{looked_up, Fields};
use crate::i18n::{language_from_code, language_with, message, t, Language};
use crate::json::{json_bool, json_bool_text, json_literal, json_string};
use crate::number::{parse_uint, uint_value};
use crate::text::{has_control, is_control, same_text, trim_spec, trim_text};

verus! {

/// The text of a field without white space round it; empty where there is no such
/// field.
pub open spec fn field_text(fields: Map<Seq<char>, Seq<char>>, name: Seq<char>) -> Seq<char> {
    match looked_up(fields, name) {
        Some(value) => trim_spec(value),
        None => seq![],
    }
}

/// The text of a field without white space round it.
pub fn trimmed_field(fields: &Fields, name: &str) -> (r: String)
    ensures
        r@ == field_text(fields@, name@),
{
    match fields.get(name) {
        Some(value) => trim_text(value),
        None => String::new(),
    }
}

/// The number in a field.
pub open spec fn field_number(
    fields: Map<Seq<char>, Seq<char>>,
    name: Seq<char>,
) -> Option<nat> {
    match looked_up(fields, name) {
        Some(value) => uint_value(trim_spec(value), 10, usize::MAX as int),
        None => None,
    }
}

/// The number in a field.
pub fn number_field(fields: &Fields, name: &str) -> (r: Option<usize>)
    ensures
        match r {
            Some(n) => field_number(fields@, name@) == Some(n as nat),
            None => field_number(fields@, name@) is None,
        },
{
    match fields.get(name) {
        Some(value) => match parse_uint(&trim_text(value), 10, usize::MAX as u64) {
            Some(n) => Some(n as usize),
            None => None,
        },
        None => None,
    }
}

/// Whether a text holds a control character.
pub open spec fn holds_control(s: Seq<char>) -> bool {
    exists|i: int| 0 <= i < s.len() && is_control(#[trigger] s[i])
}

/// The key of what is wrong with the language or the name in a form.
pub open spec fn name_fault(fields: Map<Seq<char>, Seq<char>>) -> Option<Seq<char>> {
    let language = field_text(fields, "language"@);
    let name = field_text(fields, "device_name"@);
    if language.len() > 0 && language_with(language) is None {
        Some("error-language-invalid"@)
    } else if name.len() == 0 || byte_len(name) > 128 {
        Some("error-name-length"@)
    } else if holds_control(name) {
        Some("error-name-control"@)
    } else {
        None
    }
}

/// The key of what is wrong with the language or the name in a form.
pub fn find_name_fault(fields: &Fields) -> (r: Option<&'static str>)
    ensures
        match r {
            Some(key) => name_fault(fields@) == Some(key@),
            None => name_fault(fields@) is None,
        },
{
    let language = trimmed_field(fields, "language");
    let name = trimmed_field(fields, "device_name");
    if !language.as_str().is_empty() && language_from_code(&language).is_none() {
        return Some("error-language-invalid");
    }
    if name.as_str().is_empty() || byte_count(&name) > 128 {
        return Some("error-name-length");
    }
    let bad = has_control(&name);
    assert(bad == holds_control(name@));
    if bad {
        return Some("error-name-control");
    }
    None
}

/// The key of what is wrong with a form.
pub open spec fn settings_fault(fields: Map<Seq<char>, Seq<char>>) -> Option<Seq<char>> {
    let backend = field_text(fields, "backend"@);
    let path = if backend == "mpv"@ {
        field_text(fields, "mpv_path"@)
    } else {
        field_text(fields, "vlc_path"@)
    };
    match name_fault(fields) {
        Some(key) => Some(key),
        None => if backend != "mpv"@ && backend != "vlc"@ {
            Some("error-unsupported-backend"@)
        } else if path.len() == 0 {
            Some("error-player-path-empty"@)
        } else {
            None
        },
    }
}

/// The key of what is wrong with a form.
pub fn find_settings_fault(fields: &Fields) -> (r: Option<&'static str>)
    ensures
        match r {
            Some(key) => settings_fault(fields@) == Some(key@),
            None => settings_fault(fields@) is None,
        },
{
    match find_name_fault(fields) {
        Some(key) => {
            return Some(key);
        },
        None => {},
    }
    let backend = trimmed_field(fields, "backend");
    let mpv = same_text(&backend, "mpv");
    if !mpv && !same_text(&backend, "vlc") {
        return Some("error-unsupported-backend");
    }
    let path = if mpv {
        trimmed_field(fields, "mpv_path")
    } else {
        trimmed_field(fields, "vlc_path")
    };
    if path.as_str().is_empty() {
        return Some("error-player-path-empty");
    }
    None
}

/// A configuration with what a form says.
pub open spec fn with_settings(c: ConfigView, fields: Map<Seq<char>, Seq<char>>) -> ConfigView {
    ConfigView {
        name: field_text(fields, "device_name"@),
        backend: field_text(fields, "backend"@),
        mpv_path: field_text(fields, "mpv_path"@),
        vlc_path: field_text(fields, "vlc_path"@),
        max_history: match field_number(fields, "max_history"@) {
            Some(n) => normalized_history(n as int) as usize,
            None => DEFAULT_MAX_HISTORY,
        },
        language: field_text(fields, "language"@),
        ..c
    }
}

/// Changes the configuration as a form says, where nothing is wrong with the form;
/// otherwise says what is wrong, and leaves the configuration as it is.
pub fn update_config(config: &mut Config, fields: &Fields, language: Language) -> (r: Result<
    (),
    String,
>)
    ensures
        match settings_fault(fields@) {
            Some(key) => {
                &&& final(config)@ == old(config)@
                &&& r matches Err(text)
                &&& text@ == message(language, key)
            },
            None => final(config)@ == with_settings(old(config)@, fields@) && r is Ok,
        },
{
    match find_settings_fault(fields) {
        Some(key) => {
            return Err(t(language, key));
        },
        None => {},
    }
    config.device.name = trimmed_field(fields, "device_name");
    config.player.backend = trimmed_field(fields, "backend");
    config.player.mpv_path = trimmed_field(fields, "mpv_path");
    config.player.vlc_path = trimmed_field(fields, "vlc_path");
    config.settings.max_history = match number_field(fields, "max_history") {
        Some(n) => normalize_max_history(n),
        None => DEFAULT_MAX_HISTORY,
    };
    config.settings.language = trimmed_field(fields, "language");
    Ok(())
}

/// The key of what is wrong with a form where mpv is the only player.
pub open spec fn mpv_settings_fault(fields: Map<Seq<char>, Seq<char>>) -> Option<Seq<char>> {
    match name_fault(fields) {
        Some(key) => Some(key),
        None => if field_text(fields, "backend"@) != "mpv"@ {
            Some("error-only-mpv"@)
        } else if field_text(fields, "mpv_path"@).len() == 0 {
            Some("error-mpv-path-empty"@)
        } else {
            None
        },
    }
}

/// A configuration with what a form says where mpv is the only player.
pub open spec fn with_mpv_settings(
    c: ConfigView,
    fields: Map<Seq<char>, Seq<char>>,
) -> ConfigView {
    ConfigView {
        name: field_text(fields, "device_name"@),
        backend: field_text(fields, "backend"@),
        mpv_path: field_text(fields, "mpv_path"@),
        max_history: match field_number(fields, "max_history"@) {
            Some(n) => if n > MAX_HISTORY_LIMIT {
                MAX_HISTORY_LIMIT
            } else {
                n as usize
            },
            None => DEFAULT_MAX_HISTORY,
        },
        language: field_text(fields, "language"@),
        ..c
    }
}

/// Changes the configuration as a form says where mpv is the only player.
pub fn update_mpv_config(config: &mut Config, fields: &Fields, language: Language) -> (r: Result<
    (),
    String,
>)
    ensures
        match mpv_settings_fault(fields@) {
            Some(key) => {
                &&& final(config)@ == old(config)@
                &&& r matches Err(text)
                &&& text@ == message(language, key)
            },
            None => final(config)@ == with_mpv_settings(old(config)@, fields@) && r is Ok,
        },
{
    match find_name_fault(fields) {
        Some(key) => {
            return Err(t(language, key));
        },
        None => {},
    }
    let backend = trimmed_field(fields, "backend");
    if !same_text(&backend, "mpv") {
        return Err(t(language, "error-only-mpv"));
    }
    let path = trimmed_field(fields, "mpv_path");
    if path.as_str().is_empty() {
        return Err(t(language, "error-mpv-path-empty"));
    }
    config.device.name = trimmed_field(fields, "device_name");
    config.player.backend = backend;
    config.player.mpv_path = path;
    config.settings.max_history = match number_field(fields, "max_history") {
        Some(n) => if n > MAX_HISTORY_LIMIT {
            MAX_HISTORY_LIMIT
        } else {
            n
        },
        None => DEFAULT_MAX_HISTORY,
    };
    config.settings.language = trimmed_field(fields, "language");
    Ok(())
}

/// A form never changes under which name and port the renderer is reached, and what it
/// saves keeps the history within its limits.
pub proof fn law_settings_stay_in_range(c: ConfigView, fields: Map<Seq<char>, Seq<char>>)
    ensures
        with_settings(c, fields).udn == c.udn,
        with_settings(c, fields).port == c.port,
        1 <= with_settings(c, fields).max_history <= MAX_HISTORY_LIMIT,
{
}

/// A form that is accepted twice changes the configuration once.
pub proof fn law_saving_twice(c: ConfigView, fields: Map<Seq<char>, Seq<char>>)
    ensures
        with_settings(with_settings(c, fields), fields) == with_settings(c, fields),
{
}

// ---------------------------------------------------------------------------
// The answer
// ---------------------------------------------------------------------------

/// Whether settings were saved, and what the user is told, in JSON.
pub open spec fn saved_payload(ok: bool, text: Seq<char>) -> Seq<char> {
    "{\"message\":"@ + json_literal(text) + ",\"ok\":"@ + json_bool(ok) + "}"@
}

/// What the user is told of how saving settings went; `error` is what went wrong.
pub open spec fn saved_text(error: Option<Seq<char>>, language: Language) -> Seq<char> {
    match error {
        None => saved_payload(true, message(language, "settings-saved"@)),
        Some(error) => saved_payload(
            false,
            message(language, "error-save-failed"@) + ": "@ + error,
        ),
    }
}

/// The answer to a form, where saving it went so.
pub fn saved_json(result: &Result<(), String>, language: Language) -> (r: String)
    ensures
        r@ == match result {
            Ok(_) => saved_text(None, language),
            Err(error) => saved_text(Some(error@), language),
        },
{
    let text = match result {
        Ok(_) => t(language, "settings-saved"),
        Err(error) => {
            let mut text = t(language, "error-save-failed");
            text.append(": ");
            text.append(error);
            text
        },
    };
    let mut s = "{\"message\":".to_owned();
    s.append(&json_string(&text));
    s.append(",\"ok\":");
    s.append(json_bool_text(result.is_ok()));
    s.append("}");
    s
}

} // verus!
