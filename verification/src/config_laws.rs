//! What becomes of the configuration, of the history and of the log.

use vstd::prelude::*;
use crate::config::{
    is_udn, kept_history, loaded, normalized_history, toml_has, udn_char, unique_name, ConfigView,
    FileView,
};
use crate::log::{kept_log, line_feed, log_text, overlong};
use crate::number::{decimal, uint_value};
use crate::reading::{
    behind, clear_of, lacks, lemma_behind, lemma_clear_joined, lemma_clear_plain, lemma_joined,
    lemma_number_is_read, lemma_value_behind, value_behind,
};
use crate::state::HistoryEntry;
use crate::text::{lemma_find_char_unique, split_once_spec, starts_at};

verus! {

/// Without a file to read the defaults hold, and they are written unless there is a file that
/// cannot be read. A configuration that is read holds as it is, but for a unique name that is
/// missing or not valid, and for a length of the history that is out of range; it is written
/// exactly where something had to be put right.
pub proof fn law_configuration_is_loaded(
    text: Seq<char>,
    c: ConfigView,
    default: ConfigView,
    fresh: Seq<char>,
)
    requires
        is_udn(fresh),
    ensures
        loaded(FileView::Missing, None, default, fresh) == (default, true),
        loaded(FileView::Unreadable, None, default, fresh) == (default, false),
        loaded(FileView::Text(text), None, default, fresh) == (default, true),
        ({
            let (now, save) = loaded(FileView::Text(text), Some(c), default, fresh);
            let named = toml_has(text, "device"@, "udn"@);
            &&& now.name == c.name
            &&& now.backend == c.backend
            &&& now.mpv_path == c.mpv_path
            &&& now.vlc_path == c.vlc_path
            &&& now.port == c.port
            &&& now.language == c.language
            &&& named && is_udn(c.udn) ==> now.udn == c.udn
            &&& !named || !is_udn(c.udn) ==> now.udn == fresh
            &&& 1 <= c.max_history <= 10000 ==> now.max_history == c.max_history
            &&& c.max_history > 10000 ==> now.max_history == 10000
            &&& c.max_history < 1 ==> now.max_history == 1
            &&& save <==> !named || now != c
        }),
{
}

/// A history is kept to the length that is configured, which is brought between 1 and 10000.
pub proof fn law_length_of_the_history(value: int)
    ensures
        1 <= normalized_history(value) <= 10000,
        1 <= value <= 10000 ==> normalized_history(value) == value,
        value > 10000 ==> normalized_history(value) == 10000,
        value < 1 ==> normalized_history(value) == 1,
{
}

/// The history keeps the newest entries, as many as there may be, in the order in which they
/// came.
pub proof fn law_newest_entries_are_kept(
    entries: Seq<HistoryEntry>,
    entry: HistoryEntry,
    max: int,
)
    requires
        max > 0,
    ensures
        ({
            let kept = kept_history(entries, entry, max);
            let all = entries.push(entry);
            &&& kept.len() == if all.len() < max {
                all.len() as int
            } else {
                max
            }
            &&& forall|i: int|
                0 <= i < kept.len() ==> #[trigger] kept[i] == all[all.len() - kept.len() + i]
            &&& kept[kept.len() - 1] == entry
        }),
{
}

/// A unique device name is `uuid:` and something behind it that holds nothing but letters,
/// digits, colons and hyphens.
pub proof fn law_unique_device_names(rest: Seq<char>, other: Seq<char>)
    ensures
        rest.len() > 0 && (forall|i: int|
            0 <= i < rest.len() ==> {
                let c = #[trigger] rest[i];
                'a' <= c <= 'z' || 'A' <= c <= 'Z' || '0' <= c <= '9' || c == ':' || c == '-'
            }) ==> is_udn("uuid:"@ + rest),
        !is_udn("uuid:"@),
        !starts_at(other, "uuid:"@, 0) ==> !is_udn(other),
        forall|i: int|
            0 <= i < other.len() && !udn_char(#[trigger] other[i]) ==> !is_udn(other),
{
    let s = "uuid:"@ + rest;
    lemma_behind("uuid:"@, rest);
    reveal_strlit("uuid:");
    if forall|i: int| 0 <= i < rest.len() ==> udn_char(#[trigger] rest[i]) {
        assert forall|i: int| 0 <= i < s.len() implies udn_char(#[trigger] s[i]) by {
            if i < 5 {
                assert(s[i] == "uuid:"@[i]);
            } else {
                assert(s[i] == rest[i - 5]);
            }
        }
    }
}

/// The process and the time that a name was given by and at are read back from it, so no two
/// of them give the same name.
pub proof fn law_unique_name_is_read(process: u32, nanos: nat)
    ensures
        behind(unique_name(process, nanos), "uuid:mini-mdr-"@) matches Some(text) && (
        split_once_spec(text, '-') matches Some((a, b)) && uint_value(a, 10, u32::MAX as int)
            == Some(process as nat) && uint_value(b, 10, nanos as int) == Some(nanos)),
{
    let a = decimal(process as nat);
    let b = decimal(nanos);
    let text = a + seq!['-'] + b;
    lemma_number_is_read(process as nat, u32::MAX as int);
    lemma_number_is_read(nanos, nanos as int);
    assert("-"@ == seq!['-']) by {
        reveal_strlit("-");
        assert("-"@ =~= seq!['-']);
    }
    assert(unique_name(process, nanos) =~= "uuid:mini-mdr-"@ + text);
    lemma_behind("uuid:mini-mdr-"@, text);
    assert(lacks(a, '-'));
    let n = a.len() as int;
    assert forall|j: int| 0 <= j < n implies text[j] != '-' by {
        assert(text[j] == a[j]);
    }
    lemma_find_char_unique(text, '-', 0, n);
    assert(text.take(n) =~= a);
    assert(text.skip(n + 1) =~= b);
}

/// A line of the log, read back, says when it was written, how grave it is, and what happened.
pub proof fn law_log_line_is_read(time: Seq<char>, level: Seq<char>, message: Seq<char>)
    requires
        lacks(time, ']'),
        lacks(level, ']'),
    ensures
        value_behind(log_text(time, level, message), "["@, ']') == Some(time),
        value_behind(log_text(time, level, message), "] ["@, ']') == Some(level),
        behind(log_text(time, level, message), "["@ + time + "] ["@ + level + "] "@) == Some(
            message + "\n"@,
        ),
{
    let text = log_text(time, level, message);
    let none = Seq::<char>::empty();
    let open = "["@;
    let next = "] ["@;
    let end = "] "@;
    assert(next == seq![']'] + " ["@) by {
        reveal_strlit("] [");
        reveal_strlit(" [");
        assert(next =~= seq![']'] + " ["@);
    }
    assert(end == seq![']'] + " "@) by {
        reveal_strlit("] ");
        reveal_strlit(" ");
        assert(end =~= seq![']'] + " "@);
    }
    assert(clear_of(none, open));
    let rest = " ["@ + level + end + message + "\n"@;
    lemma_value_behind(none, open, time, ']', rest);
    assert(text =~= none + open + time + seq![']'] + rest);
    assert(clear_of(open, next) && clear_of(time, next)) by {
        reveal_strlit("[");
        reveal_strlit("] [");
        lemma_clear_plain(open, next);
        lemma_clear_plain(time, next);
    }
    lemma_clear_joined(open, time, next);
    let more = " "@ + message + "\n"@;
    lemma_value_behind(open + time, next, level, ']', more);
    assert(text =~= open + time + next + level + seq![']'] + more);
    let front = open + time + next + level + end;
    lemma_joined(front, message, "\n"@);
    lemma_behind(front, message + "\n"@);
}

/// A log is cut where it is longer than five mebibytes.
pub proof fn law_long_logs_are_cut(size: u64)
    ensures
        overlong(size) <==> size > 5 * 1024 * 1024,
{
}

/// A log that is cut keeps its last two mebibytes, from the first line on that begins there; a
/// shorter one is kept as it is.
pub proof fn law_log_is_cut_at_a_line(content: Seq<u8>)
    ensures
        content.len() <= 2097152 ==> kept_log(content) == content,
        content.len() > 2097152 ==> ({
            let start = content.len() - 2097152;
            let from = content.len() - kept_log(content).len();
            &&& kept_log(content) == content.skip(from)
            &&& (forall|i: int| start <= i < content.len() ==> #[trigger] content[i] != 10)
                ==> from == start
            &&& forall|i: int|
                start <= i < content.len() && #[trigger] content[i] == 10 && (forall|j: int|
                    start <= j < i ==> #[trigger] content[j] != 10) ==> from == i + 1
        }),
{
    if content.len() > 2097152 {
        lemma_first_line_feed(content, content.len() - 2097152);
    }
}

proof fn lemma_first_line_feed(s: Seq<u8>, from: int)
    requires
        0 <= from,
    ensures
        match line_feed(s, from) {
            Some(i) => from <= i < s.len() && s[i] == 10 && forall|j: int|
                from <= j < i ==> #[trigger] s[j] != 10,
            None => forall|j: int| from <= j < s.len() ==> #[trigger] s[j] != 10,
        },
    decreases s.len() - from,
{
    if from < s.len() && s[from] != 10 {
        lemma_first_line_feed(s, from + 1);
    }
}

} // verus!
