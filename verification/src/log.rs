//! The log file.

use vstd::prelude::*;
use vstd::string::StringExecFns;
use crate::bytes::bytes_between;
use crate::clock::{timestamp, utc_digits};

verus! {

/// The size in bytes beyond which the log file is cut.
pub const MAX_LOG_SIZE: u64 = 5242880;

/// How many bytes at the end of the log file are kept when it is cut.
pub const ROTATE_KEEP: usize = 2097152;

/// A line of the log.
pub open spec fn log_text(time: Seq<char>, level: Seq<char>, message: Seq<char>) -> Seq<char> {
    "["@ + time + "] ["@ + level + "] "@ + message + "\n"@
}

/// A line of the log.
pub fn log_line(time: &str, level: &str, message: &str) -> (r: String)
    ensures
        r@ == log_text(time@, level@, message@),
{
    let mut s = "[".to_owned();
    s.append(time);
    s.append("] [");
    s.append(level);
    s.append("] ");
    s.append(message);
    s.append("\n");
    s
}

/// A line of the log for something that happens now. Which time that is depends on the
/// clock.
pub fn log_now(level: &str, message: &str) -> (r: String)
    ensures
        exists|secs: u64| r@ == log_text(#[trigger] utc_digits(secs as int), level@, message@),
{
    let time = timestamp();
    log_line(&time, level, message)
}

/// Whether a log file of this size is to be cut.
pub open spec fn overlong(size: u64) -> bool {
    size > MAX_LOG_SIZE
}

/// Whether a log file of this size is to be cut.
pub fn needs_rotation(size: u64) -> (r: bool)
    ensures
        r == overlong(size),
{
    size > MAX_LOG_SIZE
}

/// The index of the first line feed from `from` on.
pub open spec fn line_feed(s: Seq<u8>, from: int) -> Option<int>
    decreases s.len() - from,
{
    if from < 0 || from >= s.len() {
        None
    } else if s[from] == 10 {
        Some(from)
    } else {
        line_feed(s, from + 1)
    }
}

/// What is kept of a log file that is cut: the lines that begin in its last bytes. Where
/// no line begins there, the last bytes are kept as they are.
pub open spec fn kept_log(content: Seq<u8>) -> Seq<u8> {
    if content.len() <= ROTATE_KEEP {
        content
    } else {
        let start = content.len() - ROTATE_KEEP;
        match line_feed(content, start) {
            Some(i) => content.skip(i + 1),
            None => content.skip(start),
        }
    }
}

/// What is kept of a log file that is cut.
pub fn rotate(content: &[u8]) -> (r: Vec<u8>)
    ensures
        r@ == kept_log(content@),
{
    let n: usize = content.len();
    if n <= ROTATE_KEEP {
        assert(content@.subrange(0, n as int) =~= content@);
        return bytes_between(content, 0, n);
    }
    let start: usize = n - ROTATE_KEEP;
    let mut i: usize = start;
    while i < n
        invariant
            start <= i <= n,
            n == content.len(),
            start == content@.len() - ROTATE_KEEP,
            content@.len() > ROTATE_KEEP,
            line_feed(content@, start as int) == line_feed(content@, i as int),
        decreases n - i,
    {
        if content[i] == 10 {
            assert(content@.subrange(i + 1, n as int) =~= content@.skip(i + 1));
            return bytes_between(content, i + 1, n);
        }
        i += 1;
    }
    assert(content@.subrange(start as int, n as int) =~= content@.skip(start as int));
    bytes_between(content, start, n)
}

/// A cut leaves no more than the last bytes, and all that it leaves is the end of the
/// log.
pub proof fn law_rotation_keeps_the_end(content: Seq<u8>)
    ensures
        kept_log(content).len() <= ROTATE_KEEP,
        kept_log(content) == content.skip(content.len() - kept_log(content).len()),
{
    if content.len() > ROTATE_KEEP {
        lemma_line_feed(content, content.len() - ROTATE_KEEP);
    } else {
        assert(content.skip(0) =~= content);
    }
}

proof fn lemma_line_feed(s: Seq<u8>, from: int)
    requires
        0 <= from <= s.len(),
    ensures
        line_feed(s, from) matches Some(i) ==> from <= i < s.len(),
    decreases s.len() - from,
{
    if from < s.len() && s[from] != 10 {
        lemma_line_feed(s, from + 1);
    }
}

} // verus!
