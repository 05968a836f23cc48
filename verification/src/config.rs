//! The configuration, and the history that is kept.

use vstd::prelude::*;
use vstd::string::StringExecFns;
use crate::clock::unix_time;
use crate::number::{decimal, decimal_text, lemma_decimal_value, wide_decimal_text};
use crate::state::{HistoryEntry, Span};
use crate::text::{begins_with, chars_of, starts_at};

verus! {

/// How many entries of history are kept where the configuration does not say.
pub const DEFAULT_MAX_HISTORY: usize = 200;

/// The greatest number of entries of history that can be kept.
pub const MAX_HISTORY_LIMIT: usize = 10_000;

/// The configuration.
#[derive(Clone, Debug)]
pub struct Config {
    pub device: DeviceConfig,
    pub player: PlayerConfig,
    pub settings: SettingsConfig,
}

/// How the renderer presents itself.
#[derive(Clone, Debug)]
pub struct DeviceConfig {
    pub name: String,
    pub udn: String,
}

/// Which player is used.
#[derive(Clone, Debug)]
pub struct PlayerConfig {
    pub backend: String,
    pub mpv_path: String,
    pub vlc_path: String,
}

/// The settings page and what is set there.
#[derive(Clone, Debug)]
pub struct SettingsConfig {
    pub port: u16,
    pub max_history: usize,
    pub language: String,
}

/// A configuration with its texts as sequences of characters.
#[verifier::ext_equal]
pub struct ConfigView {
    pub name: Seq<char>,
    pub udn: Seq<char>,
    pub backend: Seq<char>,
    pub mpv_path: Seq<char>,
    pub vlc_path: Seq<char>,
    pub port: u16,
    pub max_history: usize,
    pub language: Seq<char>,
}

impl View for Config {
    type V = ConfigView;

    open spec fn view(&self) -> ConfigView {
        ConfigView {
            name: self.device.name@,
            udn: self.device.udn@,
            backend: self.player.backend@,
            mpv_path: self.player.mpv_path@,
            vlc_path: self.player.vlc_path@,
            port: self.settings.port,
            max_history: self.settings.max_history,
            language: self.settings.language@,
        }
    }
}

/// The number of entries of history to keep, brought into range.
pub open spec fn normalized_history(value: int) -> int {
    if value < 1 {
        1
    } else if value > MAX_HISTORY_LIMIT {
        MAX_HISTORY_LIMIT as int
    } else {
        value
    }
}

/// Brings the number of entries of history into range.
pub fn normalize_max_history(value: usize) -> (r: usize)
    ensures
        r == normalized_history(value as int),
        1 <= r <= MAX_HISTORY_LIMIT,
{
    if value < 1 {
        1
    } else if value > MAX_HISTORY_LIMIT {
        MAX_HISTORY_LIMIT
    } else {
        value
    }
}

/// Bringing a number into range once more changes nothing.
pub proof fn law_normalizing_is_final(value: int)
    ensures
        normalized_history(normalized_history(value)) == normalized_history(value),
        1 <= value <= MAX_HISTORY_LIMIT ==> normalized_history(value) == value,
{
}

// ---------------------------------------------------------------------------
// Device names
// ---------------------------------------------------------------------------

/// Whether a character may stand in a unique device name.
pub open spec fn udn_char(c: char) -> bool {
    'a' <= c <= 'z' || 'A' <= c <= 'Z' || '0' <= c <= '9' || c == ':' || c == '-'
}

/// Whether a text is a unique device name: `uuid:` and at least one letter, digit,
/// colon or hyphen.
pub open spec fn is_udn(s: Seq<char>) -> bool {
    &&& starts_at(s, "uuid:"@, 0)
    &&& s.len() > 5
    &&& forall|i: int| 0 <= i < s.len() ==> udn_char(#[trigger] s[i])
}

/// Whether a text is a unique device name.
pub fn valid_udn(value: &str) -> (r: bool)
    ensures
        r == is_udn(value@),
{
    let chars = chars_of(value);
    if !begins_with(value, "uuid:") || chars.len() <= 5 {
        return false;
    }
    let mut i: usize = 0;
    while i < chars.len()
        invariant
            i <= chars.len(),
            chars@ == value@,
            forall|j: int| 0 <= j < i ==> udn_char(#[trigger] chars@[j]),
        decreases chars.len() - i,
    {
        let c = chars[i];
        let fine = ('a' <= c && c <= 'z') || ('A' <= c && c <= 'Z') || ('0' <= c && c <= '9') || c
            == ':' || c == '-';
        if !fine {
            assert(!udn_char(value@[i as int]));
            return false;
        }
        i += 1;
    }
    true
}

/// The name that a process gives to something at a time, in nanoseconds since the
/// beginning of 1970.
pub open spec fn unique_name(process: u32, nanos: nat) -> Seq<char> {
    "uuid:mini-mdr-"@ + decimal(process as nat) + "-"@ + decimal(nanos)
}

/// The name that a process gives to something at a time.
pub fn name_at(process: u32, time: Span) -> (r: String)
    requires
        time.valid(),
    ensures
        r@ == unique_name(process, time.total_nanos() as nat),
        is_udn(r@),
{
    let nanos: u128 = time.secs as u128 * 1_000_000_000 + time.nanos as u128;
    let mut s = "uuid:mini-mdr-".to_owned();
    s.append(&decimal_text(process as u64));
    s.append("-");
    s.append(&wide_decimal_text(nanos));
    proof {
        law_unique_names_are_valid(process, nanos as nat);
    }
    s
}

/// A new unique device name. Which one depends on the clock.
pub fn new_udn(process: u32) -> (r: String)
    ensures
        is_udn(r@),
        exists|time: Span| time.valid() && r@ == #[trigger] unique_name(
            process,
            time.total_nanos() as nat,
        ),
{
    let now = unix_time();
    name_at(process, now)
}

/// Each name that is given is a valid unique device name.
pub proof fn law_unique_names_are_valid(process: u32, nanos: nat)
    ensures
        is_udn(unique_name(process, nanos)),
{
    reveal_strlit("uuid:mini-mdr-");
    reveal_strlit("uuid:");
    reveal_strlit("-");
    let s = unique_name(process, nanos);
    let a = decimal(process as nat);
    let b = decimal(nanos);
    lemma_decimal_value(process as nat);
    lemma_decimal_value(nanos);
    assert(s.subrange(0, 5) =~= "uuid:"@);
    assert forall|i: int| 0 <= i < s.len() implies udn_char(#[trigger] s[i]) by {
        if i < 14 {
            assert(s[i] == "uuid:mini-mdr-"@[i]);
        } else if i < 14 + a.len() {
            assert(s[i] == a[i - 14]);
        } else if i > 14 + a.len() {
            assert(s[i] == b[i - 15 - a.len()]);
        }
    }
}

// ---------------------------------------------------------------------------
// Defaults and loading
// ---------------------------------------------------------------------------

impl DeviceConfig {
    /// How a renderer on this host presents itself where nothing is configured.
    pub fn for_host(host: Option<String>, udn: String) -> (r: Self)
        ensures
            r.name@ == "mini-mdr("@ + (match host {
                Some(h) => h@,
                None => "localhost"@,
            }) + ")"@,
            r.udn == udn,
    {
        let mut name = "mini-mdr(".to_owned();
        match host {
            Some(h) => name.append(&h),
            None => name.append("localhost"),
        }
        name.append(")");
        DeviceConfig { name, udn }
    }
}

impl Default for PlayerConfig {
    fn default() -> (r: Self)
        ensures
            r.backend@ == "mpv"@,
            r.mpv_path@ == "mpv"@,
            r.vlc_path@ == "vlc"@,
    {
        PlayerConfig {
            backend: "mpv".to_owned(),
            mpv_path: "mpv".to_owned(),
            vlc_path: "vlc".to_owned(),
        }
    }
}

impl Default for SettingsConfig {
    fn default() -> (r: Self)
        ensures
            r.port == 7878,
            r.max_history == DEFAULT_MAX_HISTORY,
            r.language@ == Seq::<char>::empty(),
    {
        SettingsConfig { port: 7878, max_history: DEFAULT_MAX_HISTORY, language: String::new() }
    }
}

/// Whether a TOML text has a value `key` in its table `table`, as `toml` reads it.
pub uninterp spec fn toml_has(text: Seq<char>, table: Seq<char>, key: Seq<char>) -> bool;

/// Calls the parser of `toml::Value` and looks for a value in a table with
/// `Value::get`. Which texts are TOML, and what they hold, is left to its name; a
/// text that is no TOML holds nothing.
#[verifier::external_body]
fn has_toml_value(text: &str, table: &str, key: &str) -> (r: bool)
    ensures
        r == toml_has(text@, table@, key@),
{
    text.parse::<toml::Value>().ok().and_then(|value| value.get(table)?.get(key).cloned()).is_some()
}

/// Whether a configuration file gives the renderer a unique device name.
pub fn file_has_udn(text: &str) -> (r: bool)
    ensures
        r == toml_has(text@, "device"@, "udn"@),
{
    has_toml_value(text, "device", "udn")
}

/// The configuration that a file holds, with its values brought into range: a
/// unique device name that is missing or not valid is replaced by `fresh`.
pub open spec fn normalized_config(
    c: ConfigView,
    has_udn: bool,
    fresh: Seq<char>,
) -> ConfigView {
    ConfigView {
        udn: if has_udn && is_udn(c.udn) {
            c.udn
        } else {
            fresh
        },
        max_history: normalized_history(c.max_history as int) as usize,
        ..c
    }
}

/// What became of reading the configuration file.
#[derive(Clone, Debug)]
pub enum ConfigFile {
    Missing,
    Unreadable,
    Text(String),
}

/// What became of reading the configuration file, with its text as a sequence of
/// characters.
#[verifier::ext_equal]
pub enum FileView {
    Missing,
    Unreadable,
    Text(Seq<char>),
}

/// The view of what became of reading the configuration file.
pub open spec fn file_text(file: ConfigFile) -> FileView {
    match file {
        ConfigFile::Missing => FileView::Missing,
        ConfigFile::Unreadable => FileView::Unreadable,
        ConfigFile::Text(text) => FileView::Text(text@),
    }
}

/// Whether bringing a configuration into range changes it.
pub open spec fn out_of_range(c: ConfigView, has_udn: bool) -> bool {
    !has_udn || !is_udn(c.udn) || c.max_history != normalized_history(c.max_history as int)
}

/// The configuration to go on with, and whether it is to be saved. A file that cannot be
/// read is left as it is; one that is missing, or holds no configuration, is written
/// anew.
pub open spec fn loaded(
    file: FileView,
    parsed: Option<ConfigView>,
    default: ConfigView,
    fresh: Seq<char>,
) -> (ConfigView, bool) {
    match file {
        FileView::Missing => (default, true),
        FileView::Unreadable => (default, false),
        FileView::Text(text) => match parsed {
            Some(c) => {
                let has_udn = toml_has(text, "device"@, "udn"@);
                (normalized_config(c, has_udn, fresh), out_of_range(c, has_udn))
            },
            None => (default, true),
        },
    }
}

impl Config {
    /// The configuration where none can be read, for a renderer on this host.
    pub fn for_host(host: Option<String>, udn: String) -> (r: Self)
        ensures
            r.device.name@ == "mini-mdr("@ + (match host {
                Some(h) => h@,
                None => "localhost"@,
            }) + ")"@,
            r@ == (ConfigView {
                name: r.device.name@,
                udn: udn@,
                backend: "mpv"@,
                mpv_path: "mpv"@,
                vlc_path: "vlc"@,
                port: 7878,
                max_history: DEFAULT_MAX_HISTORY,
                language: Seq::empty(),
            }),
    {
        Config {
            device: DeviceConfig::for_host(host, udn),
            player: PlayerConfig::default(),
            settings: SettingsConfig::default(),
        }
    }

    /// Brings the values of a configuration that was read into range, and says
    /// whether that changed anything, so that it is to be saved.
    pub fn normalize(&mut self, has_udn: bool, fresh: String) -> (changed: bool)
        ensures
            final(self)@ == normalized_config(old(self)@, has_udn, fresh@),
            changed == out_of_range(old(self)@, has_udn),
    {
        let mut changed = false;
        if !has_udn || !valid_udn(&self.device.udn) {
            self.device.udn = fresh;
            changed = true;
        }
        let normalized = normalize_max_history(self.settings.max_history);
        if self.settings.max_history != normalized {
            self.settings.max_history = normalized;
            changed = true;
        }
        changed
    }

    /// The configuration to go on with, and whether it is to be saved. `parsed` is what
    /// the file holds, where it can be read as a configuration; `default` is taken where
    /// there is none, and `fresh` where the file gives no valid unique device name.
    pub fn load(
        file: &ConfigFile,
        parsed: Option<Config>,
        default: Config,
        fresh: String,
    ) -> (r: (Config, bool))
        ensures
            (r.0@, r.1) == loaded(
                file_text(*file),
                match parsed {
                    Some(c) => Some(c@),
                    None => None,
                },
                default@,
                fresh@,
            ),
    {
        match file {
            ConfigFile::Missing => (default, true),
            ConfigFile::Unreadable => (default, false),
            ConfigFile::Text(text) => match parsed {
                Some(c) => {
                    let mut config = c;
                    let changed = config.normalize(file_has_udn(text), fresh);
                    (config, changed)
                },
                None => (default, true),
            },
        }
    }

    /// Adds an entry to the history, of which the last `max` entries are kept.
    pub fn append_history(entries: Vec<HistoryEntry>, entry: HistoryEntry, max: usize) -> (r: Vec<
        HistoryEntry,
    >)
        ensures
            r@ == kept_history(entries@, entry, max as int),
    {
        if max == 0 {
            return Vec::new();
        }
        let mut kept = entries;
        kept.push(entry);
        let ghost all = kept@;
        let total: usize = kept.len();
        let mut dropped: usize = 0;
        assert(all.skip(0) =~= all);
        while kept.len() > max
            invariant
                kept@ == all.skip(dropped as int),
                dropped <= all.len(),
                all.len() > max ==> dropped <= all.len() - max,
                all.len() <= max ==> dropped == 0,
                max > 0,
                all.len() == total,
            decreases kept.len(),
        {
            kept.remove(0);
            dropped += 1;
            assert(kept@ =~= all.skip(dropped as int));
        }
        kept
    }
}

/// What is kept of the history after an entry was added: its last `max` entries.
pub open spec fn kept_history(
    entries: Seq<HistoryEntry>,
    entry: HistoryEntry,
    max: int,
) -> Seq<HistoryEntry> {
    let all = entries.push(entry);
    if max == 0 {
        Seq::empty()
    } else if all.len() > max {
        all.skip(all.len() - max)
    } else {
        all
    }
}

/// The history never grows beyond its limit, and the new entry is always its last.
pub proof fn law_history_is_bounded(entries: Seq<HistoryEntry>, entry: HistoryEntry, max: int)
    requires
        max >= 0,
    ensures
        kept_history(entries, entry, max).len() <= max,
        max > 0 ==> kept_history(entries, entry, max).len() > 0 && kept_history(
            entries,
            entry,
            max,
        ).last() == entry,
        entries.len() < max ==> kept_history(entries, entry, max) == entries.push(entry),
{
}

/// A configuration that was brought into range is not changed once more.
pub proof fn law_normalized_config_stays(
    c: ConfigView,
    has_udn: bool,
    fresh: Seq<char>,
    other: Seq<char>,
)
    requires
        is_udn(fresh),
    ensures
        ({
            let d = normalized_config(c, has_udn, fresh);
            &&& is_udn(d.udn)
            &&& 1 <= d.max_history <= MAX_HISTORY_LIMIT
            &&& normalized_config(d, true, other) == d
            &&& !out_of_range(d, true)
        }),
{
}

/// How many entries of history are kept according to a configuration file, where
/// one could be read.
pub fn history_limit(configured: Option<usize>) -> (r: usize)
    ensures
        r == match configured {
            Some(value) => normalized_history(value as int),
            None => DEFAULT_MAX_HISTORY as int,
        },
{
    match configured {
        Some(value) => normalize_max_history(value),
        None => DEFAULT_MAX_HISTORY,
    }
}

} // verus!
