//! The languages of the user interface.

use vstd::prelude::*;
use crate::fields::pair_views;
use crate::locales::{CHINESE, ENGLISH};
use crate::text::{begins_with, lower, lower_text, opt_view, same_text, starts_at};

verus! {

/// A language of the user interface.
#[derive(Clone, Copy, Debug, PartialEq, Eq, Structural)]
pub enum Language {
    En,
    Zh,
}

impl Language {
    /// The language's code.
    pub open spec fn code_spec(self) -> Seq<char> {
        match self {
            Language::En => "en"@,
            Language::Zh => "zh-CN"@,
        }
    }

    /// The language's code.
    pub fn id(self) -> (r: &'static str)
        ensures
            r@ == self.code_spec(),
    {
        match self {
            Language::En => "en",
            Language::Zh => "zh-CN",
        }
    }

    /// The texts in the language.
    pub open spec fn texts(self) -> Seq<char> {
        match self {
            Language::En => ENGLISH@,
            Language::Zh => CHINESE@,
        }
    }

    /// The texts in the language.
    pub fn ftl(self) -> (r: &'static str)
        ensures
            r@ == self.texts(),
    {
        match self {
            Language::En => ENGLISH,
            Language::Zh => CHINESE,
        }
    }
}

/// What a choice of languages shows of one.
#[derive(Clone, Copy, Debug)]
pub struct LanguageInfo {
    pub code: &'static str,
    pub language: Language,
    /// The language's name in itself.
    pub name: &'static str,
}

/// Whether this is what a choice of languages shows of English and of Chinese, in
/// that order.
pub open spec fn all_languages(l: Seq<LanguageInfo>) -> bool {
    &&& l.len() == 2
    &&& l[0].language == Language::En && l[0].code@ == "en"@ && l[0].name@ == "English"@
    &&& l[1].language == Language::Zh && l[1].code@ == "zh-CN"@ && l[1].name@ == "中文"@
}

/// The languages that there are.
pub fn languages() -> (r: Vec<LanguageInfo>)
    ensures
        all_languages(r@),
{
    let mut list: Vec<LanguageInfo> = Vec::new();
    list.push(LanguageInfo { code: "en", language: Language::En, name: "English" });
    list.push(LanguageInfo { code: "zh-CN", language: Language::Zh, name: "中文" });
    list
}

/// The language with this code.
pub open spec fn language_with(code: Seq<char>) -> Option<Language> {
    if code == "en"@ {
        Some(Language::En)
    } else if code == "zh-CN"@ {
        Some(Language::Zh)
    } else {
        None
    }
}

/// The language with this code.
pub fn language_from_code(code: &str) -> (r: Option<Language>)
    ensures
        r == language_with(code@),
{
    if same_text(code, "en") {
        Some(Language::En)
    } else if same_text(code, "zh-CN") {
        Some(Language::Zh)
    } else {
        None
    }
}

/// The language in use: English until one was set.
pub open spec fn in_use(current: Option<Language>) -> Language {
    match current {
        Some(language) => language,
        None => Language::En,
    }
}

/// Sets the language in use.
pub fn set_lang(current: &mut Option<Language>, language: Language)
    ensures
        *final(current) == Some(language),
{
    *current = Some(language);
}

/// The language in use.
pub fn lang(current: &Option<Language>) -> (r: Language)
    ensures
        r == in_use(*current),
{
    match current {
        Some(language) => *language,
        None => Language::En,
    }
}

/// The language that a configured code stands for. An empty code stands for the
/// language in use, and so does one that is not known.
pub open spec fn resolved(code: Seq<char>, current: Option<Language>) -> Language {
    match language_with(code) {
        Some(language) => language,
        None => in_use(current),
    }
}

/// The language that a configured code stands for.
pub fn resolve_language(code: &str, current: &Option<Language>) -> (r: Language)
    ensures
        r == resolved(code@, *current),
{
    match language_from_code(code) {
        Some(language) => language,
        None => lang(current),
    }
}

/// A language's own code stands for it, and what is set is in use from then on.
pub proof fn law_codes_name_their_language(language: Language, current: Option<Language>)
    ensures
        language_with(language.code_spec()) == Some(language),
        resolved(language.code_spec(), current) == language,
        resolved(seq![], Some(language)) == language,
{
    reveal_strlit("en");
    reveal_strlit("zh-CN");
    assert("en"@.len() == 2 && "zh-CN"@.len() == 5);
}

// ---------------------------------------------------------------------------
// The system's language
// ---------------------------------------------------------------------------

/// The language that a setting of the system's locale asks for; none where it is
/// empty, or names no language.
pub open spec fn asked_for(value: Seq<char>) -> Option<Language> {
    let name = lower(value);
    if value.len() == 0 {
        None
    } else if starts_at(name, "zh"@, 0) {
        Some(Language::Zh)
    } else if name != "c"@ && name != "posix"@ {
        Some(Language::En)
    } else {
        None
    }
}

fn language_asked_for(value: &str) -> (r: Option<Language>)
    ensures
        r == asked_for(value@),
{
    if value.is_empty() {
        return None;
    }
    let name = lower_text(value);
    if begins_with(&name, "zh") {
        Some(Language::Zh)
    } else if !same_text(&name, "c") && !same_text(&name, "posix") {
        Some(Language::En)
    } else {
        None
    }
}

/// The language that the first of these settings asks for that asks for one, and
/// English where none does.
pub open spec fn detected(values: Seq<Option<String>>) -> Language
    decreases values.len(),
{
    if values.len() == 0 {
        Language::En
    } else {
        let first = match values[0] {
            Some(value) => asked_for(value@),
            None => None,
        };
        match first {
            Some(language) => language,
            None => detected(values.skip(1)),
        }
    }
}

/// The language of the system, where these are the settings of its locale, the one
/// that decides first in front.
pub fn detect(values: &Vec<Option<String>>) -> (r: Language)
    ensures
        r == detected(values@),
{
    let mut i: usize = 0;
    assert(values@.skip(0) =~= values@);
    while i < values.len()
        invariant
            i <= values.len(),
            detected(values@) == detected(values@.skip(i as int)),
        decreases values.len() - i,
    {
        assert(values@.skip(i as int).skip(1) =~= values@.skip(i + 1));
        match &values[i] {
            Some(value) => {
                match language_asked_for(value) {
                    Some(language) => {
                        return language;
                    },
                    None => {},
                }
            },
            None => {},
        }
        i += 1;
    }
    Language::En
}

// ---------------------------------------------------------------------------
// Texts
// ---------------------------------------------------------------------------

/// The text that `fluent` makes of the message `key` of a resource, for the locale
/// `code`, with these arguments; none where there is no such message, or where it has
/// no text.
pub uninterp spec fn fluent_text(
    code: Seq<char>,
    resource: Seq<char>,
    key: Seq<char>,
    args: Seq<(Seq<char>, Seq<char>)>,
) -> Option<Seq<char>>;

/// Formats a message by `FluentBundle::format_pattern`, in a bundle that holds the one
/// resource. What the text is is left to its name. `fluent` reads nested braces and long
/// numbers without a limit, so only the texts of this library are handed to it.
#[verifier::external_body]
fn format_message(
    code: &str,
    resource: &str,
    key: &str,
    args: &Vec<(String, String)>,
) -> (r: Option<String>)
    requires
        exists|l: Language| code@ == #[trigger] l.code_spec() && resource@ == l.texts(),
    ensures
        opt_view(r) == fluent_text(code@, resource@, key@, pair_views(args@)),
{
    let id = code.parse::<unic_langid::LanguageIdentifier>().unwrap_or_default();
    let parsed = fluent::FluentResource::try_new(resource.to_owned()).unwrap_or_else(|(r, _)| r);
    let mut bundle = fluent::FluentBundle::new(vec![id]);
    let _ = bundle.add_resource(parsed);
    let message = bundle.get_message(key)?;
    let pattern = message.value()?;
    let given: fluent::FluentArgs = args.iter().map(|(k, v)| (k.as_str(), v.as_str())).collect();
    Some(bundle.format_pattern(pattern, Some(&given), &mut Vec::new()).into_owned())
}

/// A text that was found, or else its key.
pub open spec fn found_or_key(found: Option<Seq<char>>, key: Seq<char>) -> Seq<char> {
    match found {
        Some(text) => text,
        None => key,
    }
}

/// A text that was found, or else its key.
pub fn text_or_key(found: Option<String>, key: &str) -> (r: String)
    ensures
        r@ == found_or_key(opt_view(found), key@),
{
    match found {
        Some(text) => text,
        None => key.to_owned(),
    }
}

/// The text with this key in a language; the key itself where there is none.
pub open spec fn translated(
    language: Language,
    key: Seq<char>,
    args: Seq<(Seq<char>, Seq<char>)>,
) -> Seq<char> {
    found_or_key(fluent_text(language.code_spec(), language.texts(), key, args), key)
}

/// The text with this key in a language, with these arguments.
pub fn t_args(language: Language, key: &str, args: &Vec<(String, String)>) -> (r: String)
    ensures
        r@ == translated(language, key@, pair_views(args@)),
{
    text_or_key(format_message(language.id(), language.ftl(), key, args), key)
}

/// The text with this key in a language, without arguments.
pub open spec fn message(language: Language, key: Seq<char>) -> Seq<char> {
    translated(language, key, Seq::empty())
}

/// The text with this key in a language.
pub fn t(language: Language, key: &str) -> (r: String)
    ensures
        r@ == message(language, key@),
{
    let none: Vec<(String, String)> = Vec::new();
    assert(pair_views(none@) =~= Seq::empty());
    t_args(language, key, &none)
}

} // verus!
