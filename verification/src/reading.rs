//! Reading values back out of texts that were written.

use vstd::prelude::*;
use crate::http::header_value_in;
use crate::number::{decimal, lemma_decimal_value, lemma_padded_value, padded, uint_value};
use crate::text::{
    find_char, find_from, is_white, lemma_find_char, lemma_find_char_unique,
    lemma_find_from_unique, lines_spec, lower, lower_char, starts_at, trim_spec, trim_start_spec,
};

verus! {

// ---------------------------------------------------------------------------
// Behind a mark
// ---------------------------------------------------------------------------

/// What stands behind the first `mark`, up to the next `stop`.
pub open spec fn value_behind(text: Seq<char>, mark: Seq<char>, stop: char) -> Option<Seq<char>> {
    match find_from(text, mark, 0) {
        Some(i) => match find_char(text, stop, i + mark.len()) {
            Some(j) => Some(text.subrange(i + mark.len(), j)),
            None => None,
        },
        None => None,
    }
}

/// What stands behind the first `mark`.
pub open spec fn rest_behind(text: Seq<char>, mark: Seq<char>) -> Option<Seq<char>> {
    match find_from(text, mark, 0) {
        Some(i) => Some(text.skip(i + mark.len())),
        None => None,
    }
}

/// What follows a beginning, where the text has it.
pub open spec fn behind(s: Seq<char>, beginning: Seq<char>) -> Option<Seq<char>> {
    if starts_at(s, beginning, 0) {
        Some(s.skip(beginning.len() as int))
    } else {
        None
    }
}

/// What follows a beginning is found there.
pub proof fn lemma_behind(beginning: Seq<char>, rest: Seq<char>)
    ensures
        behind(beginning + rest, beginning) == Some(rest),
{
    let s = beginning + rest;
    assert(s.subrange(0, beginning.len() as int) =~= beginning);
    assert(s.skip(beginning.len() as int) =~= rest);
}

/// Whether a text holds no `c`.
pub open spec fn lacks(s: Seq<char>, c: char) -> bool {
    forall|i: int| 0 <= i < s.len() ==> #[trigger] s[i] != c
}

/// Whether no `mark` begins in `s`, whatever follows.
pub open spec fn clear_of(s: Seq<char>, mark: Seq<char>) -> bool {
    forall|more: Seq<char>, j: int| 0 <= j < s.len() ==> !#[trigger] starts_at(s + more, mark, j)
}

/// Whether `s` from index `j` on differs from `mark` in one of the first ten characters.
pub open spec fn differs_soon(s: Seq<char>, mark: Seq<char>, j: int) -> bool {
    ||| s[j] != mark[0]
    ||| j + 1 < s.len() && 1 < mark.len() && s[j + 1] != mark[1]
    ||| j + 2 < s.len() && 2 < mark.len() && s[j + 2] != mark[2]
    ||| j + 3 < s.len() && 3 < mark.len() && s[j + 3] != mark[3]
    ||| j + 4 < s.len() && 4 < mark.len() && s[j + 4] != mark[4]
    ||| j + 5 < s.len() && 5 < mark.len() && s[j + 5] != mark[5]
    ||| j + 6 < s.len() && 6 < mark.len() && s[j + 6] != mark[6]
    ||| j + 7 < s.len() && 7 < mark.len() && s[j + 7] != mark[7]
    ||| j + 8 < s.len() && 8 < mark.len() && s[j + 8] != mark[8]
    ||| j + 9 < s.len() && 9 < mark.len() && s[j + 9] != mark[9]
}

/// In a text that differs from the mark everywhere no mark begins.
pub proof fn lemma_clear_text(s: Seq<char>, mark: Seq<char>)
    requires
        mark.len() > 0,
        forall|j: int| 0 <= j < s.len() ==> #[trigger] differs_soon(s, mark, j),
    ensures
        clear_of(s, mark),
{
    assert forall|more: Seq<char>, j: int| 0 <= j < s.len() implies !#[trigger] starts_at(
        s + more,
        mark,
        j,
    ) by {
        let t = s + more;
        if starts_at(t, mark, j) {
            let sub = t.subrange(j, j + mark.len());
            assert(differs_soon(s, mark, j));
            assert forall|k: int| 0 <= k < mark.len() && j + k < s.len() implies #[trigger] s[j + k]
                == mark[k] by {
                assert(sub[k] == t[j + k]);
            }
            assert(s[j + 0] == mark[0]);
        }
    }
}

/// In a text that differs from the mark everywhere, soon or behind `k` characters, no mark
/// begins.
pub proof fn lemma_clear_text_at(s: Seq<char>, mark: Seq<char>, k: int)
    requires
        0 <= k < mark.len(),
        forall|j: int|
            0 <= j < s.len() ==> #[trigger] differs_soon(s, mark, j) || j + k < s.len() && s[j + k]
                != mark[k],
    ensures
        clear_of(s, mark),
{
    assert forall|more: Seq<char>, j: int| 0 <= j < s.len() implies !#[trigger] starts_at(
        s + more,
        mark,
        j,
    ) by {
        let t = s + more;
        if starts_at(t, mark, j) {
            let sub = t.subrange(j, j + mark.len());
            assert forall|i: int| 0 <= i < mark.len() && j + i < s.len() implies #[trigger] s[j + i]
                == mark[i] by {
                assert(sub[i] == t[j + i]);
            }
            assert(s[j + 0] == mark[0]);
            assert(differs_soon(s, mark, j) || j + k < s.len() && s[j + k] != mark[k]);
        }
    }
}

/// In a text without the first character of the mark no mark begins.
pub proof fn lemma_clear_plain(s: Seq<char>, mark: Seq<char>)
    requires
        mark.len() > 0,
        lacks(s, mark[0]),
    ensures
        clear_of(s, mark),
{
    assert forall|j: int| 0 <= j < s.len() implies #[trigger] differs_soon(s, mark, j) by {
        assert(s[j] != mark[0]);
    }
    lemma_clear_text(s, mark);
}

/// Where no mark begins in either of two texts, none begins in both together.
pub proof fn lemma_clear_joined(a: Seq<char>, b: Seq<char>, mark: Seq<char>)
    requires
        clear_of(a, mark),
        clear_of(b, mark),
    ensures
        clear_of(a + b, mark),
{
    assert forall|more: Seq<char>, j: int| 0 <= j < (a + b).len() implies !#[trigger] starts_at(
        a + b + more,
        mark,
        j,
    ) by {
        let t = a + b + more;
        if j < a.len() {
            assert(t =~= a + (b + more));
            assert(!starts_at(a + (b + more), mark, j));
        } else {
            let k = j - a.len();
            assert(!starts_at(b + more, mark, k));
            if starts_at(t, mark, j) {
                assert((b + more).subrange(k, k + mark.len()) =~= t.subrange(j, j + mark.len()));
            }
        }
    }
}

/// The first mark is found behind a text in which none begins.
pub proof fn lemma_mark_found(a: Seq<char>, mark: Seq<char>, rest: Seq<char>)
    requires
        clear_of(a, mark),
    ensures
        find_from(a + mark + rest, mark, 0) == Some(a.len() as int),
        rest_behind(a + mark + rest, mark) == Some(rest),
{
    let t = a + mark + rest;
    let i = a.len() as int;
    assert(t =~= a + (mark + rest));
    assert(t.subrange(i, i + mark.len()) =~= mark);
    assert forall|j: int| 0 <= j < i implies !starts_at(t, mark, j) by {
        assert(!starts_at(a + (mark + rest), mark, j));
    }
    lemma_find_from_unique(t, mark, 0, i);
    assert(t.skip(i + mark.len()) =~= rest);
}

/// A value that stands behind a mark is read back.
pub proof fn lemma_value_behind(
    a: Seq<char>,
    mark: Seq<char>,
    v: Seq<char>,
    stop: char,
    rest: Seq<char>,
)
    requires
        clear_of(a, mark),
        lacks(v, stop),
    ensures
        value_behind(a + mark + v + seq![stop] + rest, mark, stop) == Some(v),
{
    let t = a + mark + v + seq![stop] + rest;
    lemma_mark_found(a, mark, v + seq![stop] + rest);
    assert(t =~= a + mark + (v + seq![stop] + rest));
    let from = (a.len() + mark.len()) as int;
    let to = from + v.len();
    assert forall|j: int| from <= j < to implies t[j] != stop by {
        assert(t[j] == v[j - from]);
    }
    lemma_find_char_unique(t, stop, from, to);
    assert(t.subrange(from, to) =~= v);
}

/// It does not matter in which order texts are put together.
pub proof fn lemma_joined(a: Seq<char>, b: Seq<char>, c: Seq<char>)
    ensures
        a + (b + c) == a + b + c,
{
    assert(a + (b + c) =~= a + b + c);
}

/// Nothing added to a text leaves it as it is.
pub proof fn lemma_nothing_added(a: Seq<char>)
    ensures
        a + Seq::<char>::empty() == a,
        Seq::<char>::empty() + a == a,
{
    assert(a + Seq::<char>::empty() =~= a);
    assert(Seq::<char>::empty() + a =~= a);
}

/// A text that is put together from texts without `c` has none.
pub proof fn lemma_lacks_joined(a: Seq<char>, b: Seq<char>, c: char)
    requires
        lacks(a, c),
        lacks(b, c),
    ensures
        lacks(a + b, c),
{
    assert forall|i: int| 0 <= i < (a + b).len() implies #[trigger] (a + b)[i] != c by {
        if i < a.len() {
            assert((a + b)[i] == a[i]);
        } else {
            assert((a + b)[i] == b[i - a.len()]);
        }
    }
}

/// A number is written in digits, and read back as itself.
pub proof fn lemma_number_is_read(n: nat, max: int)
    requires
        n <= max,
    ensures
        uint_value(decimal(n), 10, max) == Some(n),
        forall|c: char| !('0' <= c <= '9') ==> #[trigger] lacks(decimal(n), c),
        trim_spec(decimal(n)) == decimal(n),
{
    lemma_decimal_value(n);
    let d = decimal(n);
    assert('0' <= d[0] <= '9');
    assert('0' <= d[d.len() - 1] <= '9');
    assert forall|c: char| !('0' <= c <= '9') implies #[trigger] lacks(d, c) by {
        assert forall|i: int| 0 <= i < d.len() implies #[trigger] d[i] != c by {
            assert('0' <= decimal(n)[i] <= '9');
        }
    }
    lemma_trim_nothing(d);
}

/// A padded number holds digits alone.
pub proof fn lemma_padded_plain(n: nat, width: nat, c: char)
    requires
        !('0' <= c <= '9'),
    ensures
        lacks(padded(n, width), c),
{
    lemma_padded_value(n, width);
    assert forall|i: int| 0 <= i < padded(n, width).len() implies #[trigger] padded(n, width)[i]
        != c by {
        assert('0' <= padded(n, width)[i] <= '9');
    }
}

/// A text with no white space at its ends stays as it is when it is trimmed.
pub proof fn lemma_trim_nothing(s: Seq<char>)
    requires
        s.len() > 0 ==> !is_white(s[0]) && !is_white(s.last()),
    ensures
        trim_spec(s) == s,
{
}

/// White space in front is trimmed away.
pub proof fn lemma_trim_front(s: Seq<char>)
    ensures
        trim_spec(seq![' '] + s) == trim_spec(s),
{
    let t = seq![' '] + s;
    assert(t.skip(1) =~= s);
    assert(trim_start_spec(t) == trim_start_spec(s));
}

// ---------------------------------------------------------------------------
// Lines and headers
// ---------------------------------------------------------------------------

/// The first line of a text, where a line end follows it.
pub proof fn lemma_head_line(line: Seq<char>, rest: Seq<char>)
    requires
        lacks(line, '\n'),
    ensures
        lines_spec(line + seq!['\r', '\n'] + rest) == seq![line] + lines_spec(rest),
{
    let s = line + seq!['\r', '\n'] + rest;
    let n = line.len() as int;
    assert forall|j: int| 0 <= j < n + 1 implies s[j] != '\n' by {
        if j < n {
            assert(s[j] == line[j]);
        }
    }
    lemma_find_char_unique(s, '\n', 0, n + 1);
    assert(s.take(n + 1) =~= line + seq!['\r']);
    assert((line + seq!['\r']).drop_last() =~= line);
    assert((line + seq!['\r']).last() == '\r');
    assert(s.skip(n + 2) =~= rest);
}

/// The line of a header.
pub open spec fn header_line(name: Seq<char>, value: Seq<char>) -> Seq<char> {
    name + seq![':', ' '] + value
}

/// The line of a header is one line.
pub proof fn lemma_header_one_line(name: Seq<char>, value: Seq<char>)
    requires
        lacks(name, '\n'),
        lacks(value, '\n'),
    ensures
        lacks(header_line(name, value), '\n'),
{
    lemma_lacks_joined(name, seq![':', ' '], '\n');
    lemma_lacks_joined(name + seq![':', ' '], value, '\n');
}

/// Names of which one character differs in any case are different in any case.
pub proof fn lemma_names_differ(a: Seq<char>, b: Seq<char>, i: int)
    requires
        a.len() != b.len() || 0 <= i < a.len() && lower_char(a[i]) != lower_char(b[i]),
    ensures
        lower(a) != lower(b),
{
    assert(lower(a).len() == a.len() && lower(b).len() == b.len());
    if a.len() == b.len() {
        assert(lower(a)[i] == lower_char(a[i]));
        assert(lower(b)[i] == lower_char(b[i]));
    }
}

/// Reading a header in the first line gives its value, without white space round it.
pub proof fn lemma_header_here(
    name: Seq<char>,
    value: Seq<char>,
    target: Seq<char>,
    rest: Seq<Seq<char>>,
)
    requires
        lacks(name, ':'),
        lower(name) == lower(target),
    ensures
        header_value_in(seq![header_line(name, value)] + rest, target) == Some(trim_spec(value)),
{
    let line = header_line(name, value);
    let n = name.len() as int;
    assert forall|j: int| 0 <= j < n implies line[j] != ':' by {
        assert(line[j] == name[j]);
    }
    lemma_find_char_unique(line, ':', 0, n);
    assert(line.take(n) =~= name);
    assert(line.skip(n + 1) =~= seq![' '] + value);
    lemma_trim_front(value);
    assert((seq![line] + rest)[0] == line);
}

/// A header of another name is passed over.
pub proof fn lemma_header_other(
    name: Seq<char>,
    value: Seq<char>,
    target: Seq<char>,
    rest: Seq<Seq<char>>,
)
    requires
        lacks(name, ':'),
        lower(name) != lower(target),
    ensures
        header_value_in(seq![header_line(name, value)] + rest, target) == header_value_in(
            rest,
            target,
        ),
{
    let line = header_line(name, value);
    let n = name.len() as int;
    assert forall|j: int| 0 <= j < n implies line[j] != ':' by {
        assert(line[j] == name[j]);
    }
    lemma_find_char_unique(line, ':', 0, n);
    assert(line.take(n) =~= name);
    let all = seq![line] + rest;
    assert(all[0] == line);
    assert(all.skip(1) =~= rest);
}

/// A line without a colon is passed over.
pub proof fn lemma_no_header(line: Seq<char>, target: Seq<char>, rest: Seq<Seq<char>>)
    requires
        lacks(line, ':'),
    ensures
        header_value_in(seq![line] + rest, target) == header_value_in(rest, target),
{
    lemma_find_char(line, ':', 0);
    let all = seq![line] + rest;
    assert(all[0] == line);
    assert(all.skip(1) =~= rest);
}

/// These headers as lines.
pub open spec fn head_text(h: Seq<(Seq<char>, Seq<char>)>) -> Seq<char>
    decreases h.len(),
{
    if h.len() == 0 {
        seq![]
    } else {
        head_text(h.drop_last()) + header_line(h.last().0, h.last().1) + seq!['\r', '\n']
    }
}

/// One more header is one more line.
pub proof fn lemma_head_push(
    h: Seq<(Seq<char>, Seq<char>)>,
    name: Seq<char>,
    value: Seq<char>,
)
    ensures
        head_text(h.push((name, value))) == head_text(h) + header_line(name, value) + seq![
            '\r',
            '\n',
        ],
{
    assert(h.push((name, value)).drop_last() =~= h);
}

/// The first of these headers is the first line.
pub proof fn lemma_head_front(h: Seq<(Seq<char>, Seq<char>)>)
    requires
        h.len() > 0,
    ensures
        head_text(h) == header_line(h[0].0, h[0].1) + seq!['\r', '\n'] + head_text(h.skip(1)),
    decreases h.len(),
{
    let e = seq!['\r', '\n'];
    let front = h.drop_last();
    if h.len() > 1 {
        lemma_head_front(front);
        assert(front.skip(1) =~= h.skip(1).drop_last());
        assert(h.skip(1).last() == h.last());
        let first = header_line(h[0].0, h[0].1);
        let last = header_line(h.last().0, h.last().1);
        let middle = head_text(front.skip(1));
        assert(first + e + middle + last + e =~= first + e + (middle + last + e));
    } else {
        assert(front =~= Seq::empty());
        assert(h.skip(1) =~= Seq::empty());
        let only = header_line(h[0].0, h[0].1);
        assert(Seq::<char>::empty() + only + e =~= only + e + Seq::<char>::empty());
    }
}

/// Whether these can be headers: no name holds a colon, and none holds a line feed.
pub open spec fn proper(h: Seq<(Seq<char>, Seq<char>)>) -> bool {
    forall|k: int|
        0 <= k < h.len() ==> lacks((#[trigger] h[k]).0, ':') && lacks(h[k].0, '\n') && lacks(
            h[k].1,
            '\n',
        )
}

/// Whether none of these headers has this name, in any case.
pub open spec fn nameless(h: Seq<(Seq<char>, Seq<char>)>, target: Seq<char>) -> bool {
    forall|k: int| 0 <= k < h.len() ==> lower((#[trigger] h[k]).0) != lower(target)
}

/// Headers of other names are passed over.
pub proof fn lemma_headers_passed(
    h: Seq<(Seq<char>, Seq<char>)>,
    tail: Seq<char>,
    target: Seq<char>,
)
    requires
        proper(h),
        nameless(h, target),
    ensures
        header_value_in(lines_spec(head_text(h) + tail), target) == header_value_in(
            lines_spec(tail),
            target,
        ),
    decreases h.len(),
{
    if h.len() == 0 {
        assert(head_text(h) + tail =~= tail);
    } else {
        let rest = h.skip(1);
        let (name, value) = h[0];
        assert forall|k: int| 0 <= k < rest.len() implies #[trigger] rest[k] == h[k + 1] by {}
        assert(proper(rest)) by {
            assert forall|k: int| 0 <= k < rest.len() implies lacks((#[trigger] rest[k]).0, ':')
                && lacks(rest[k].0, '\n') && lacks(rest[k].1, '\n') by {
                assert(rest[k] == h[k + 1]);
            }
        }
        assert(nameless(rest, target)) by {
            assert forall|k: int| 0 <= k < rest.len() implies lower((#[trigger] rest[k]).0)
                != lower(target) by {
                assert(rest[k] == h[k + 1]);
            }
        }
        lemma_headers_passed(rest, tail, target);
        lemma_head_front(h);
        lemma_header_one_line(name, value);
        let more = head_text(rest) + tail;
        lemma_head_line(header_line(name, value), more);
        assert(head_text(h) + tail =~= header_line(name, value) + seq!['\r', '\n'] + more);
        lemma_header_other(name, value, target, lines_spec(more));
    }
}

/// In a message of a first line and headers, the value of a header is read back.
pub proof fn lemma_header_is_read(
    first: Seq<char>,
    h: Seq<(Seq<char>, Seq<char>)>,
    tail: Seq<char>,
    i: int,
    target: Seq<char>,
)
    requires
        lacks(first, ':'),
        lacks(first, '\n'),
        proper(h),
        0 <= i < h.len(),
        nameless(h.take(i), target),
        lower(h[i].0) == lower(target),
    ensures
        header_value_in(
            lines_spec(first + seq!['\r', '\n'] + head_text(h) + tail),
            target,
        ) == Some(trim_spec(h[i].1)),
{
    let e = seq!['\r', '\n'];
    let before = h.take(i);
    let behind = h.skip(i);
    let (name, value) = h[i];
    assert(behind[0] == h[i]);
    let after = behind.skip(1);
    lemma_head_front(behind);
    lemma_head_split(h, i);
    let more = head_text(after) + tail;
    let here = header_line(name, value) + e + more;
    assert(head_text(behind) + tail =~= here);
    assert(proper(before)) by {
        assert forall|k: int| 0 <= k < before.len() implies lacks((#[trigger] before[k]).0, ':')
            && lacks(before[k].0, '\n') && lacks(before[k].1, '\n') by {
            assert(before[k] == h[k]);
        }
    }
    lemma_headers_passed(before, here, target);
    lemma_header_one_line(name, value);
    lemma_head_line(header_line(name, value), more);
    lemma_header_here(name, value, target, lines_spec(more));
    lemma_head_line(first, head_text(before) + here);
    assert(first + e + head_text(h) + tail =~= first + e + (head_text(before) + here));
    lemma_no_header(first, target, lines_spec(head_text(before) + here));
}

/// In a message of a first line and headers, no header is found that is not there.
pub proof fn lemma_header_is_missing(
    first: Seq<char>,
    h: Seq<(Seq<char>, Seq<char>)>,
    tail: Seq<char>,
    target: Seq<char>,
)
    requires
        lacks(first, ':'),
        lacks(first, '\n'),
        proper(h),
        nameless(h, target),
    ensures
        header_value_in(
            lines_spec(first + seq!['\r', '\n'] + head_text(h) + tail),
            target,
        ) == header_value_in(lines_spec(tail), target),
{
    let e = seq!['\r', '\n'];
    lemma_headers_passed(h, tail, target);
    lemma_head_line(first, head_text(h) + tail);
    assert(first + e + head_text(h) + tail =~= first + e + (head_text(h) + tail));
    lemma_no_header(first, target, lines_spec(head_text(h) + tail));
}

/// In a message, the value of a header is read back from the lines behind the first one.
pub proof fn lemma_header_behind_first(
    first: Seq<char>,
    h: Seq<(Seq<char>, Seq<char>)>,
    tail: Seq<char>,
    i: int,
    target: Seq<char>,
)
    requires
        lacks(first, '\n'),
        proper(h),
        0 <= i < h.len(),
        nameless(h.take(i), target),
        lower(h[i].0) == lower(target),
    ensures
        header_value_in(
            lines_spec(first + seq!['\r', '\n'] + head_text(h) + tail).skip(1),
            target,
        ) == Some(trim_spec(h[i].1)),
{
    let e = seq!['\r', '\n'];
    let none = Seq::<char>::empty();
    let more = head_text(h) + tail;
    lemma_header_is_read(none, h, tail, i, target);
    lemma_head_line(none, more);
    assert(none + e + head_text(h) + tail =~= none + e + more);
    lemma_no_header(none, target, lines_spec(more));
    lemma_head_line(first, more);
    assert(first + e + head_text(h) + tail =~= first + e + more);
    assert((seq![first] + lines_spec(more)).skip(1) =~= lines_spec(more));
}

/// In a message, no header is found behind the first line that is not there.
pub proof fn lemma_header_not_behind_first(
    first: Seq<char>,
    h: Seq<(Seq<char>, Seq<char>)>,
    tail: Seq<char>,
    target: Seq<char>,
)
    requires
        lacks(first, '\n'),
        proper(h),
        nameless(h, target),
    ensures
        header_value_in(
            lines_spec(first + seq!['\r', '\n'] + head_text(h) + tail).skip(1),
            target,
        ) == header_value_in(lines_spec(tail), target),
{
    let e = seq!['\r', '\n'];
    let more = head_text(h) + tail;
    lemma_headers_passed(h, tail, target);
    lemma_head_line(first, more);
    assert(first + e + head_text(h) + tail =~= first + e + more);
    assert((seq![first] + lines_spec(more)).skip(1) =~= lines_spec(more));
}

/// Headers one behind the other.
pub proof fn lemma_head_joined(a: Seq<(Seq<char>, Seq<char>)>, b: Seq<(Seq<char>, Seq<char>)>)
    ensures
        head_text(a + b) == head_text(a) + head_text(b),
{
    lemma_head_split(a + b, a.len() as int);
    assert((a + b).take(a.len() as int) =~= a);
    assert((a + b).skip(a.len() as int) =~= b);
}

/// The first line of a message and these headers, up to the end of the last line.
spec fn lead(first: Seq<char>, h: Seq<(Seq<char>, Seq<char>)>) -> Seq<char>
    decreases h.len(),
{
    if h.len() == 0 {
        first
    } else {
        lead(first, h.drop_last()) + (seq!['\r', '\n'] + header_line(h.last().0, h.last().1))
    }
}

proof fn lemma_lead(first: Seq<char>, h: Seq<(Seq<char>, Seq<char>)>)
    requires
        lacks(first, '\r'),
        unbroken(h),
    ensures
        lead(first, h) + seq!['\r', '\n'] == first + seq!['\r', '\n'] + head_text(h),
        clear_of(lead(first, h), seq!['\r', '\n', '\r', '\n']),
    decreases h.len(),
{
    let e = seq!['\r', '\n'];
    let mark = seq!['\r', '\n', '\r', '\n'];
    if h.len() == 0 {
        assert(first + e =~= first + e + head_text(h));
        lemma_clear_plain(first, mark);
    } else {
        let front = h.drop_last();
        assert(unbroken(front)) by {
            assert forall|k: int| 0 <= k < front.len() implies lacks((#[trigger] front[k]).0, '\r')
                && lacks(front[k].1, '\r') by {
                assert(front[k] == h[k]);
            }
        }
        lemma_lead(first, front);
        let (name, value) = h.last();
        assert(h[h.len() - 1] == h.last());
        let line = header_line(name, value);
        lemma_lacks_joined(name, seq![':', ' '], '\r');
        lemma_lacks_joined(name + seq![':', ' '], value, '\r');
        let s = e + line;
        assert(line[0] != '\r');
        assert forall|j: int| 0 <= j < s.len() implies #[trigger] differs_soon(s, mark, j) by {
            if j == 0 {
                assert(s[2] == line[0]);
            } else if j >= 2 {
                assert(s[j] == line[j - 2]);
            }
        }
        lemma_clear_text(s, mark);
        lemma_clear_joined(lead(first, front), s, mark);
        assert(lead(first, front) + s + e =~= lead(first, front) + e + line + e);
        assert(first + e + head_text(front) + line + e =~= first + e + (head_text(front) + line
            + e));
    }
}

/// Whether no header holds a carriage return.
pub open spec fn unbroken(h: Seq<(Seq<char>, Seq<char>)>) -> bool {
    forall|k: int|
        0 <= k < h.len() ==> lacks((#[trigger] h[k]).0, '\r') && lacks(h[k].1, '\r')
}

/// The body of a message is what stands behind its first empty line.
pub proof fn lemma_body_is_read(
    first: Seq<char>,
    h: Seq<(Seq<char>, Seq<char>)>,
    body: Seq<char>,
)
    requires
        lacks(first, '\r'),
        unbroken(h),
    ensures
        rest_behind(
            first + seq!['\r', '\n'] + head_text(h) + (seq!['\r', '\n'] + body),
            "\r\n\r\n"@,
        ) == Some(body),
{
    let e = seq!['\r', '\n'];
    let mark = seq!['\r', '\n', '\r', '\n'];
    assert("\r\n\r\n"@ == mark) by {
        reveal_strlit("\r\n\r\n");
        assert("\r\n\r\n"@ =~= mark);
    }
    lemma_lead(first, h);
    lemma_mark_found(lead(first, h), mark, body);
    assert(lead(first, h) + e + (e + body) =~= lead(first, h) + mark + body);
}

/// The first line of a message.
pub proof fn lemma_first_line(first: Seq<char>, h: Seq<(Seq<char>, Seq<char>)>, tail: Seq<char>)
    requires
        lacks(first, '\n'),
    ensures
        ({
            let lines = lines_spec(first + seq!['\r', '\n'] + head_text(h) + tail);
            lines.len() > 0 && lines[0] == first
        }),
{
    let e = seq!['\r', '\n'];
    lemma_head_line(first, head_text(h) + tail);
    assert(first + e + head_text(h) + tail =~= first + e + (head_text(h) + tail));
}

/// What stands between the value of one header and that of the next.
pub open spec fn header_gap(name: Seq<char>) -> Seq<char> {
    seq!['\r', '\n'] + name + seq![':', ' ']
}

/// A message that goes on with a header: `so_far` is its first line and these headers, up to
/// the end of the last line.
pub proof fn lemma_next_header(
    so_far: Seq<char>,
    first: Seq<char>,
    h: Seq<(Seq<char>, Seq<char>)>,
    name: Seq<char>,
    value: Seq<char>,
)
    requires
        so_far + seq!['\r', '\n'] == first + seq!['\r', '\n'] + head_text(h),
    ensures
        so_far + header_gap(name) + value + seq!['\r', '\n'] == first + seq!['\r', '\n']
            + head_text(h.push((name, value))),
{
    let e = seq!['\r', '\n'];
    lemma_head_push(h, name, value);
    let line = header_line(name, value);
    assert(so_far + header_gap(name) + value + e =~= so_far + e + line + e);
    assert(first + e + head_text(h) + line + e =~= first + e + (head_text(h) + line + e));
}

/// A message that is its first line so far.
pub proof fn lemma_no_headers_yet(first: Seq<char>)
    ensures
        first + seq!['\r', '\n'] == first + seq!['\r', '\n'] + head_text(Seq::empty()),
{
    let e = seq!['\r', '\n'];
    assert(first + e + head_text(Seq::empty()) =~= first + e);
}

/// Headers are those in front and those behind.
proof fn lemma_head_split(h: Seq<(Seq<char>, Seq<char>)>, i: int)
    requires
        0 <= i <= h.len(),
    ensures
        head_text(h) == head_text(h.take(i)) + head_text(h.skip(i)),
    decreases h.len() - i,
{
    if i == h.len() {
        assert(h.take(i) =~= h);
        assert(h.skip(i) =~= Seq::empty());
        assert(head_text(h) + Seq::<char>::empty() =~= head_text(h));
    } else {
        lemma_head_split(h, i + 1);
        let behind = h.skip(i);
        lemma_head_front(behind);
        assert(behind.skip(1) =~= h.skip(i + 1));
        assert(behind[0] == h[i]);
        assert(h.take(i + 1).drop_last() =~= h.take(i));
        assert(h.take(i + 1).last() == h[i]);
        let one = header_line(h[i].0, h[i].1) + seq!['\r', '\n'];
        assert(head_text(h.take(i)) + header_line(h[i].0, h[i].1) + seq!['\r', '\n'] + head_text(
            h.skip(i + 1),
        ) =~= head_text(h.take(i)) + (one + head_text(h.skip(i + 1))));
    }
}

} // verus!
