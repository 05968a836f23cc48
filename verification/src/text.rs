//! Text as sequences of characters: searching, replacing, splitting, trimming
//! and casing.
//!
//! Every operation comes as a spec function over `Seq<char>`, which the
//! contracts of the other modules use, and as an executable function whose
//! `ensures` equates its result with that spec function.

use vstd::prelude::*;

verus! {

broadcast use vstd::string::group_string_axioms;

/// `String::push` appends one character to the end of the string.
pub assume_specification[ String::push ](s: &mut String, c: char)
    ensures
        final(s)@ == old(s)@.push(c),
;

/// The characters of a string, in order.
pub fn chars_of(s: &str) -> (v: Vec<char>)
    ensures
        v@ == s@,
{
    let mut v: Vec<char> = Vec::new();
    for c in it: s.chars()
        invariant
            v@ == it.seq().take(it.index()),
            it.seq() == s@,
    {
        v.push(c);
    }
    v
}

/// Whether two strings hold the same characters.
pub fn same_text(a: &str, b: &str) -> (r: bool)
    ensures
        r == (a@ == b@),
{
    let x = chars_of(a);
    let y = chars_of(b);
    if x.len() != y.len() {
        return false;
    }
    let mut i: usize = 0;
    while i < x.len()
        invariant
            i <= x.len(),
            x.len() == y.len(),
            x@.take(i as int) == y@.take(i as int),
            x@ == a@,
            y@ == b@,
        decreases x.len() - i,
    {
        if x[i] != y[i] {
            return false;
        }
        i = i + 1;
    }
    assert(x@.take(x.len() as int) == a@);
    assert(y@.take(y.len() as int) == b@);
    true
}

// ---------------------------------------------------------------------------
// Searching
// ---------------------------------------------------------------------------

/// Whether `pattern` stands in `s` at index `i`.
pub open spec fn starts_at(s: Seq<char>, pattern: Seq<char>, i: int) -> bool {
    0 <= i && i + pattern.len() <= s.len() && s.subrange(i, i + pattern.len()) == pattern
}

/// The least index, not before `from`, at which `pattern` stands in `s`.
pub open spec fn find_from(s: Seq<char>, pattern: Seq<char>, from: int) -> Option<int>
    decreases s.len() - from + 1,
{
    if from < 0 || from + pattern.len() > s.len() {
        None
    } else if starts_at(s, pattern, from) {
        Some(from)
    } else {
        find_from(s, pattern, from + 1)
    }
}

/// Whether `pattern` stands anywhere in `s`.
pub open spec fn contains_text(s: Seq<char>, pattern: Seq<char>) -> bool {
    exists|i: int| starts_at(s, pattern, i)
}

/// `find_from` yields the first match and fails only where there is none.
pub proof fn lemma_find_from(s: Seq<char>, pattern: Seq<char>, from: int)
    requires
        0 <= from,
    ensures
        match find_from(s, pattern, from) {
            Some(i) => {
                &&& from <= i
                &&& starts_at(s, pattern, i)
                &&& forall|j: int| from <= j < i ==> !starts_at(s, pattern, j)
            },
            None => forall|j: int| from <= j ==> !starts_at(s, pattern, j),
        },
    decreases s.len() - from + 1,
{
    if from + pattern.len() <= s.len() && !starts_at(s, pattern, from) {
        lemma_find_from(s, pattern, from + 1);
    }
}

/// An index with the properties of the first match is the one `find_from` yields.
pub proof fn lemma_find_from_unique(s: Seq<char>, pattern: Seq<char>, from: int, i: int)
    requires
        0 <= from <= i,
        starts_at(s, pattern, i),
        forall|j: int| from <= j < i ==> !starts_at(s, pattern, j),
    ensures
        find_from(s, pattern, from) == Some(i),
{
    lemma_find_from(s, pattern, from);
}

/// Whether `pattern` stands in `s` at index `i`.
pub fn starts_here(s: &[char], pattern: &[char], i: usize) -> (r: bool)
    ensures
        r == starts_at(s@, pattern@, i as int),
{
    if i > s.len() || pattern.len() > s.len() - i {
        return false;
    }
    let mut k: usize = 0;
    while k < pattern.len()
        invariant
            k <= pattern.len(),
            i + pattern.len() <= s.len(),
            s@.subrange(i as int, i + k) == pattern@.take(k as int),
        decreases pattern.len() - k,
    {
        if s[i + k] != pattern[k] {
            assert(s@.subrange(i as int, i + pattern.len())[k as int] != pattern@[k as int]);
            return false;
        }
        assert(s@.subrange(i as int, i + k + 1) == pattern@.take(k + 1));
        k = k + 1;
    }
    assert(pattern@.take(k as int) == pattern@);
    true
}

/// The least index, not before `from`, at which `pattern` stands in `s`.
pub fn find_index(s: &[char], pattern: &[char], from: usize) -> (r: Option<usize>)
    ensures
        match r {
            Some(i) => find_from(s@, pattern@, from as int) == Some(i as int),
            None => find_from(s@, pattern@, from as int) is None,
        },
{
    let mut i: usize = from;
    while i <= s.len() && pattern.len() <= s.len() - i
        invariant
            from <= i,
            i <= s.len() + 1 || i == from,
            find_from(s@, pattern@, from as int) == find_from(s@, pattern@, i as int),
        decreases s.len() + 1 - i,
    {
        if starts_here(s, pattern, i) {
            return Some(i);
        }
        if i == usize::MAX {
            assert(s@.subrange(i as int, i + pattern.len()) =~= pattern@);
            return None;
        }
        i = i + 1;
    }
    None
}

/// Whether `pattern` stands anywhere in `s`.
pub fn has_text(s: &str, pattern: &str) -> (r: bool)
    ensures
        r == contains_text(s@, pattern@),
{
    let chars = chars_of(s);
    let wanted = chars_of(pattern);
    proof {
        lemma_find_from(s@, pattern@, 0);
    }
    find_index(&chars, &wanted, 0).is_some()
}

/// Whether `s` begins with `prefix`.
pub fn begins_with(s: &str, prefix: &str) -> (r: bool)
    ensures
        r == starts_at(s@, prefix@, 0),
{
    let chars = chars_of(s);
    let wanted = chars_of(prefix);
    starts_here(&chars, &wanted, 0)
}

/// What follows `prefix` in `s`, where `s` begins with it.
pub open spec fn strip_prefix_spec(s: Seq<char>, prefix: Seq<char>) -> Option<Seq<char>> {
    if starts_at(s, prefix, 0) {
        Some(s.skip(prefix.len() as int))
    } else {
        None
    }
}

/// What follows `prefix` in `s`, where `s` begins with it.
pub fn strip_prefix(s: &str, prefix: &str) -> (r: Option<String>)
    ensures
        opt_view(r) == strip_prefix_spec(s@, prefix@),
{
    let chars = chars_of(s);
    let wanted = chars_of(prefix);
    if starts_here(&chars, &wanted, 0) {
        Some(between(&chars, wanted.len(), chars.len()))
    } else {
        None
    }
}

/// The view of an optional string.
pub open spec fn opt_view(s: Option<String>) -> Option<Seq<char>> {
    match s {
        Some(t) => Some(t@),
        None => None,
    }
}

/// The views of a sequence of strings.
pub open spec fn views(v: Seq<String>) -> Seq<Seq<char>> {
    Seq::new(v.len(), |i: int| v[i]@)
}

/// The characters from `from` up to `to`, as a string.
pub fn between(chars: &[char], from: usize, to: usize) -> (s: String)
    requires
        from <= to <= chars.len(),
    ensures
        s@ == chars@.subrange(from as int, to as int),
{
    let mut s = String::new();
    let mut i: usize = from;
    while i < to
        invariant
            from <= i <= to <= chars.len(),
            s@ == chars@.subrange(from as int, i as int),
        decreases to - i,
    {
        s.push(chars[i]);
        assert(s@ == chars@.subrange(from as int, i + 1));
        i = i + 1;
    }
    s
}

/// The least index, not before `from`, that holds `c`.
pub open spec fn find_char(s: Seq<char>, c: char, from: int) -> Option<int>
    decreases s.len() - from,
{
    if from < 0 || from >= s.len() {
        None
    } else if s[from] == c {
        Some(from)
    } else {
        find_char(s, c, from + 1)
    }
}

/// `find_char` yields the first occurrence and fails only where there is none.
pub proof fn lemma_find_char(s: Seq<char>, c: char, from: int)
    requires
        0 <= from,
    ensures
        match find_char(s, c, from) {
            Some(i) => from <= i < s.len() && s[i] == c && forall|j: int|
                from <= j < i ==> s[j] != c,
            None => forall|j: int| from <= j < s.len() ==> s[j] != c,
        },
    decreases s.len() - from,
{
    if from < s.len() && s[from] != c {
        lemma_find_char(s, c, from + 1);
    }
}

/// An index with the properties of the first occurrence is the one `find_char`
/// yields.
pub proof fn lemma_find_char_unique(s: Seq<char>, c: char, from: int, i: int)
    requires
        0 <= from <= i < s.len(),
        s[i] == c,
        forall|j: int| from <= j < i ==> s[j] != c,
    ensures
        find_char(s, c, from) == Some(i),
{
    lemma_find_char(s, c, from);
}

/// The least index, not before `from`, that holds `c`.
pub fn char_index(s: &[char], c: char, from: usize) -> (r: Option<usize>)
    ensures
        match r {
            Some(i) => find_char(s@, c, from as int) == Some(i as int) && i < s.len(),
            None => find_char(s@, c, from as int) is None,
        },
{
    let mut i: usize = from;
    while i < s.len()
        invariant
            find_char(s@, c, from as int) == find_char(s@, c, i as int),
        decreases s.len() - i,
    {
        if s[i] == c {
            return Some(i);
        }
        i = i + 1;
    }
    None
}

// ---------------------------------------------------------------------------
// Replacing
// ---------------------------------------------------------------------------

/// `s` with every match of `pattern`, from left to right and without overlap,
/// replaced by `with`.
pub open spec fn replace_all(s: Seq<char>, pattern: Seq<char>, with: Seq<char>) -> Seq<char>
    decreases s.len(),
{
    match find_from(s, pattern, 0) {
        Some(i) => if 0 < pattern.len() && 0 <= i && i + pattern.len() <= s.len() {
            s.take(i) + with + replace_all(s.skip(i + pattern.len()), pattern, with)
        } else {
            s
        },
        None => s,
    }
}

/// A match at the front of `s` is the first to be replaced.
pub proof fn lemma_replace_head(s: Seq<char>, pattern: Seq<char>, with: Seq<char>)
    requires
        0 < pattern.len(),
        starts_at(s, pattern, 0),
    ensures
        replace_all(s, pattern, with) == with + replace_all(
            s.skip(pattern.len() as int),
            pattern,
            with,
        ),
{
    assert(find_from(s, pattern, 0) == Some(0int));
    assert(s.take(0) + with =~= with);
}

/// A character at which no match begins stays as it is.
pub proof fn lemma_replace_skip(s: Seq<char>, pattern: Seq<char>, with: Seq<char>)
    requires
        0 < pattern.len(),
        0 < s.len(),
        !starts_at(s, pattern, 0),
    ensures
        replace_all(s, pattern, with) == seq![s[0]] + replace_all(s.skip(1), pattern, with),
{
    let t = s.skip(1);
    lemma_find_from(s, pattern, 0);
    lemma_find_from(t, pattern, 0);
    assert forall|j: int| 0 <= j implies starts_at(t, pattern, j) == starts_at(
        s,
        pattern,
        j + 1,
    ) by {
        if j + pattern.len() <= t.len() {
            assert(t.subrange(j, j + pattern.len()) =~= s.subrange(j + 1, j + 1 + pattern.len()));
        }
    }
    match find_from(s, pattern, 0) {
        Some(i) => {
            assert(i != 0);
            assert(starts_at(t, pattern, i - 1));
            assert forall|j: int| 0 <= j < i - 1 implies !starts_at(t, pattern, j) by {
                assert(!starts_at(s, pattern, j + 1));
            }
            lemma_find_from_unique(t, pattern, 0, i - 1);
            assert(t.skip(i - 1 + pattern.len()) =~= s.skip(i + pattern.len()));
            assert(s.take(i) =~= seq![s[0]] + t.take(i - 1));
            assert(replace_all(s, pattern, with) =~= seq![s[0]] + replace_all(t, pattern, with));
        },
        None => {
            match find_from(t, pattern, 0) {
                Some(j) => {
                    assert(starts_at(s, pattern, j + 1));
                },
                None => {},
            }
            assert(s =~= seq![s[0]] + t);
        },
    }
}

/// `s` with every match of `pattern` replaced by `with`, as `str::replace` does.
pub fn replace_text(s: &str, pattern: &str, with: &str) -> (r: String)
    requires
        pattern@.len() > 0,
    ensures
        r@ == replace_all(s@, pattern@, with@),
{
    let chars = chars_of(s);
    let wanted = chars_of(pattern);
    let mut out = String::new();
    let mut i: usize = 0;
    assert(chars@.skip(0) == chars@);
    while i < chars.len()
        invariant
            i <= chars.len(),
            wanted@ == pattern@,
            pattern@.len() > 0,
            chars@ == s@,
            replace_all(s@, pattern@, with@) == out@ + replace_all(
                chars@.skip(i as int),
                pattern@,
                with@,
            ),
        decreases chars.len() - i,
    {
        let ghost rest = chars@.skip(i as int);
        assert(rest.len() == chars.len() - i);
        if starts_here(&chars, &wanted, i) {
            proof {
                assert(rest.subrange(0, pattern@.len() as int) =~= chars@.subrange(
                    i as int,
                    i + pattern@.len(),
                ));
                lemma_replace_head(rest, pattern@, with@);
                assert(rest.skip(pattern@.len() as int) =~= chars@.skip(i + pattern@.len()));
            }
            let ghost before = out@;
            out.append(with);
            i = i + wanted.len();
            assert(out@ + replace_all(chars@.skip(i as int), pattern@, with@) =~= before + (with@
                + replace_all(chars@.skip(i as int), pattern@, with@)));
        } else {
            proof {
                if starts_at(rest, pattern@, 0) {
                    assert(rest.subrange(0, pattern@.len() as int) =~= chars@.subrange(
                        i as int,
                        i + pattern@.len(),
                    ));
                }
                lemma_replace_skip(rest, pattern@, with@);
                assert(rest.skip(1) =~= chars@.skip(i + 1));
            }
            let ghost before = out@;
            out.push(chars[i]);
            i = i + 1;
            assert(out@ + replace_all(chars@.skip(i as int), pattern@, with@) =~= before + (
            seq![rest[0]] + replace_all(chars@.skip(i as int), pattern@, with@)));
        }
    }
    assert(replace_all(chars@.skip(i as int), pattern@, with@) =~= Seq::<char>::empty());
    assert(out@ + Seq::<char>::empty() =~= out@);
    out
}

// ---------------------------------------------------------------------------
// Splitting
// ---------------------------------------------------------------------------

/// The two sides of the first `c` in `s`.
pub open spec fn split_once_spec(s: Seq<char>, c: char) -> Option<(Seq<char>, Seq<char>)> {
    match find_char(s, c, 0) {
        Some(i) => Some((s.take(i), s.skip(i + 1))),
        None => None,
    }
}

/// The two sides of the last `c` in `s`.
pub open spec fn rsplit_once_spec(s: Seq<char>, c: char) -> Option<(Seq<char>, Seq<char>)>
    decreases s.len(),
{
    if s.len() == 0 {
        None
    } else if s.last() == c {
        Some((s.drop_last(), seq![]))
    } else {
        match rsplit_once_spec(s.drop_last(), c) {
            Some((a, b)) => Some((a, b.push(s.last()))),
            None => None,
        }
    }
}

/// The view of an optional pair of strings.
pub open spec fn pair_view(p: Option<(String, String)>) -> Option<(Seq<char>, Seq<char>)> {
    match p {
        Some((a, b)) => Some((a@, b@)),
        None => None,
    }
}

/// The two sides of the first `c` in `s`.
pub fn split_once(s: &str, c: char) -> (r: Option<(String, String)>)
    ensures
        pair_view(r) == split_once_spec(s@, c),
{
    let chars = chars_of(s);
    match char_index(&chars, c, 0) {
        Some(i) => {
            assert(chars@.subrange(0, i as int) =~= s@.take(i as int));
            assert(chars@.subrange(i + 1, chars@.len() as int) =~= s@.skip(i + 1));
            Some((between(&chars, 0, i), between(&chars, i + 1, chars.len())))
        },
        None => None,
    }
}

/// The last `c` in `s` is the one that `rsplit_once_spec` splits at.
pub proof fn lemma_rsplit_once(s: Seq<char>, c: char, i: int)
    requires
        0 <= i < s.len(),
        s[i] == c,
        forall|j: int| i < j < s.len() ==> s[j] != c,
    ensures
        rsplit_once_spec(s, c) == Some((s.take(i), s.skip(i + 1))),
    decreases s.len(),
{
    if i == s.len() - 1 {
        assert(s.drop_last() =~= s.take(i));
        assert(s.skip(i + 1) =~= Seq::<char>::empty());
    } else {
        lemma_rsplit_once(s.drop_last(), c, i);
        assert(s.drop_last().take(i) =~= s.take(i));
        assert(s.drop_last().skip(i + 1).push(s.last()) =~= s.skip(i + 1));
    }
}

/// Without `c` there is nothing to split at.
pub proof fn lemma_rsplit_once_none(s: Seq<char>, c: char)
    requires
        forall|j: int| 0 <= j < s.len() ==> s[j] != c,
    ensures
        rsplit_once_spec(s, c) is None,
    decreases s.len(),
{
    if s.len() > 0 {
        lemma_rsplit_once_none(s.drop_last(), c);
    }
}

/// The two sides of the last `c` in `s`.
pub fn rsplit_once(s: &str, c: char) -> (r: Option<(String, String)>)
    ensures
        pair_view(r) == rsplit_once_spec(s@, c),
{
    let chars = chars_of(s);
    let mut i: usize = chars.len();
    while i > 0
        invariant
            i <= chars.len(),
            chars@ == s@,
            forall|j: int| i <= j < chars.len() ==> chars[j] != c,
        decreases i,
    {
        i = i - 1;
        if chars[i] == c {
            proof {
                lemma_rsplit_once(s@, c, i as int);
                assert(chars@.subrange(0, i as int) =~= s@.take(i as int));
                assert(chars@.subrange(i + 1, chars@.len() as int) =~= s@.skip(i + 1));
            }
            return Some((between(&chars, 0, i), between(&chars, i + 1, chars.len())));
        }
    }
    proof {
        lemma_rsplit_once_none(s@, c);
    }
    None
}

/// The pieces of `s` between the occurrences of `c`: one more than there are
/// occurrences.
pub open spec fn split_spec(s: Seq<char>, c: char) -> Seq<Seq<char>>
    decreases s.len(),
{
    match find_char(s, c, 0) {
        Some(i) => if 0 <= i < s.len() {
            seq![s.take(i)] + split_spec(s.skip(i + 1), c)
        } else {
            seq![s]
        },
        None => seq![s],
    }
}

/// Searching in a suffix is searching in the whole from where the suffix starts.
pub proof fn lemma_find_char_skip(s: Seq<char>, c: char, from: int)
    requires
        0 <= from <= s.len(),
    ensures
        match find_char(s, c, from) {
            Some(i) => find_char(s.skip(from), c, 0) == Some(i - from) && from <= i < s.len(),
            None => find_char(s.skip(from), c, 0) is None,
        },
{
    let t = s.skip(from);
    lemma_find_char(s, c, from);
    lemma_find_char(t, c, 0);
    match find_char(s, c, from) {
        Some(i) => {
            assert forall|j: int| 0 <= j < i - from implies t[j] != c by {
                assert(s[j + from] != c);
            }
            lemma_find_char_unique(t, c, 0, i - from);
        },
        None => {
            match find_char(t, c, 0) {
                Some(j) => {
                    assert(s[j + from] == c);
                },
                None => {},
            }
        },
    }
}

/// The pieces of `s` between the occurrences of `c`.
pub fn split_text(s: &str, c: char) -> (r: Vec<String>)
    ensures
        views(r@) == split_spec(s@, c),
{
    let chars = chars_of(s);
    let mut out: Vec<String> = Vec::new();
    let mut start: usize = 0;
    assert(chars@.skip(0) =~= chars@);
    assert(views(out@) + split_spec(s@, c) =~= split_spec(s@, c));
    loop
        invariant
            start <= chars.len(),
            chars@ == s@,
            split_spec(s@, c) == views(out@) + split_spec(chars@.skip(start as int), c),
        decreases chars.len() - start,
    {
        proof {
            lemma_find_char_skip(chars@, c, start as int);
        }
        let ghost before = views(out@);
        let ghost rest = chars@.skip(start as int);
        match char_index(&chars, c, start) {
            Some(i) => {
                let piece = between(&chars, start, i);
                assert(piece@ =~= rest.take(i - start));
                out.push(piece);
                assert(rest.skip(i - start + 1) =~= chars@.skip(i + 1));
                assert(views(out@) =~= before + seq![piece@]);
                assert(before + (seq![piece@] + split_spec(chars@.skip(i + 1), c)) =~= views(out@)
                    + split_spec(chars@.skip(i + 1), c));
                start = i + 1;
            },
            None => {
                let piece = between(&chars, start, chars.len());
                assert(piece@ =~= rest);
                out.push(piece);
                assert(views(out@) =~= before + seq![piece@]);
                return out;
            },
        }
    }
}

/// `s` without one trailing carriage return.
pub open spec fn strip_cr(s: Seq<char>) -> Seq<char> {
    if s.len() > 0 && s.last() == '\r' {
        s.drop_last()
    } else {
        s
    }
}

/// The lines of `s`: they end in a line feed, or in a carriage return and a
/// line feed; the end of the last line is optional.
pub open spec fn lines_spec(s: Seq<char>) -> Seq<Seq<char>>
    decreases s.len(),
{
    if s.len() == 0 {
        seq![]
    } else {
        match find_char(s, '\n', 0) {
            Some(i) => if 0 <= i < s.len() {
                seq![strip_cr(s.take(i))] + lines_spec(s.skip(i + 1))
            } else {
                seq![s]
            },
            None => seq![s],
        }
    }
}

/// The lines of `s`, as `str::lines` yields them.
pub fn lines_of(s: &str) -> (r: Vec<String>)
    ensures
        views(r@) == lines_spec(s@),
{
    let chars = chars_of(s);
    let mut out: Vec<String> = Vec::new();
    let mut start: usize = 0;
    assert(chars@.skip(0) =~= chars@);
    assert(views(out@) + lines_spec(s@) =~= lines_spec(s@));
    while start < chars.len()
        invariant
            start <= chars.len(),
            chars@ == s@,
            lines_spec(s@) == views(out@) + lines_spec(chars@.skip(start as int)),
        decreases chars.len() - start,
    {
        proof {
            lemma_find_char_skip(chars@, '\n', start as int);
        }
        let ghost before = views(out@);
        let ghost rest = chars@.skip(start as int);
        assert(rest.len() > 0);
        match char_index(&chars, '\n', start) {
            Some(i) => {
                let end: usize = if i > start && chars[i - 1] == '\r' {
                    i - 1
                } else {
                    i
                };
                let piece = between(&chars, start, end);
                assert(rest.take(i - start) =~= chars@.subrange(start as int, i as int));
                assert(piece@ =~= strip_cr(rest.take(i - start)));
                out.push(piece);
                assert(rest.skip(i - start + 1) =~= chars@.skip(i + 1));
                assert(views(out@) =~= before + seq![piece@]);
                assert(before + (seq![piece@] + lines_spec(chars@.skip(i + 1))) =~= views(out@)
                    + lines_spec(chars@.skip(i + 1)));
                start = i + 1;
            },
            None => {
                let piece = between(&chars, start, chars.len());
                assert(piece@ =~= rest);
                out.push(piece);
                assert(views(out@) =~= before + seq![piece@]);
                return out;
            },
        }
    }
    assert(views(out@) + lines_spec(chars@.skip(start as int)) =~= views(out@));
    out
}

// ---------------------------------------------------------------------------
// White space and control characters
// ---------------------------------------------------------------------------

/// The characters with the Unicode property `White_Space`.
pub open spec fn is_white(c: char) -> bool {
    let n = c as u32;
    ||| 0x09 <= n <= 0x0d
    ||| n == 0x20
    ||| n == 0x85
    ||| n == 0xa0
    ||| n == 0x1680
    ||| 0x2000 <= n <= 0x200a
    ||| n == 0x2028
    ||| n == 0x2029
    ||| n == 0x202f
    ||| n == 0x205f
    ||| n == 0x3000
}

/// Whether `c` is white space.
pub fn white(c: char) -> (r: bool)
    ensures
        r == is_white(c),
{
    let n = c as u32;
    (0x09 <= n && n <= 0x0d) || n == 0x20 || n == 0x85 || n == 0xa0 || n == 0x1680 || (0x2000 <= n
        && n <= 0x200a) || n == 0x2028 || n == 0x2029 || n == 0x202f || n == 0x205f || n == 0x3000
}

/// The characters of the Unicode category `Cc`.
pub open spec fn is_control(c: char) -> bool {
    (c as u32) < 0x20 || 0x7f <= (c as u32) <= 0x9f
}

/// Whether `c` is a control character.
pub fn control(c: char) -> (r: bool)
    ensures
        r == is_control(c),
{
    let n = c as u32;
    n < 0x20 || (0x7f <= n && n <= 0x9f)
}

/// Whether some character of `s` is a control character.
pub fn has_control(s: &str) -> (r: bool)
    ensures
        r == exists|i: int| 0 <= i < s@.len() && is_control(s@[i]),
{
    let chars = chars_of(s);
    let mut i: usize = 0;
    while i < chars.len()
        invariant
            i <= chars.len(),
            chars@ == s@,
            forall|j: int| 0 <= j < i ==> !is_control(chars[j]),
        decreases chars.len() - i,
    {
        if control(chars[i]) {
            assert(is_control(s@[i as int]));
            return true;
        }
        i = i + 1;
    }
    false
}

/// `s` without its leading white space.
pub open spec fn trim_start_spec(s: Seq<char>) -> Seq<char>
    decreases s.len(),
{
    if s.len() > 0 && is_white(s[0]) {
        trim_start_spec(s.skip(1))
    } else {
        s
    }
}

/// `s` without its trailing white space.
pub open spec fn trim_end_spec(s: Seq<char>) -> Seq<char>
    decreases s.len(),
{
    if s.len() > 0 && is_white(s.last()) {
        trim_end_spec(s.drop_last())
    } else {
        s
    }
}

/// `s` without white space at either end.
pub open spec fn trim_spec(s: Seq<char>) -> Seq<char> {
    trim_end_spec(trim_start_spec(s))
}

/// `s` without white space at either end, as `str::trim` yields it.
pub fn trim_text(s: &str) -> (r: String)
    ensures
        r@ == trim_spec(s@),
{
    let chars = chars_of(s);
    let mut from: usize = 0;
    assert(chars@.skip(0) =~= chars@);
    while from < chars.len() && white(chars[from])
        invariant
            from <= chars.len(),
            chars@ == s@,
            trim_start_spec(s@) == trim_start_spec(chars@.skip(from as int)),
        decreases chars.len() - from,
    {
        assert(chars@.skip(from as int).skip(1) =~= chars@.skip(from + 1));
        from = from + 1;
    }
    let ghost mid = chars@.skip(from as int);
    assert(trim_start_spec(s@) == mid);
    let mut to: usize = chars.len();
    assert(mid.take(mid.len() as int) =~= mid);
    while to > from && white(chars[to - 1])
        invariant
            from <= to <= chars.len(),
            mid == chars@.skip(from as int),
            trim_end_spec(mid) == trim_end_spec(mid.take(to - from)),
        decreases to,
    {
        assert(mid.take(to - from).drop_last() =~= mid.take(to - from - 1));
        assert(mid.take(to - from).last() == chars[to - 1]);
        to = to - 1;
    }
    assert(trim_end_spec(mid) == mid.take(to - from)) by {
        if to > from {
            assert(mid.take(to - from).last() == chars[to - 1]);
        }
    }
    assert(chars@.subrange(from as int, to as int) =~= mid.take(to - from));
    between(&chars, from, to)
}

/// The index of the first white space in `s`, or the length of `s`.
pub open spec fn word_end(s: Seq<char>) -> int
    decreases s.len(),
{
    if s.len() == 0 || is_white(s[0]) {
        0
    } else {
        1 + word_end(s.skip(1))
    }
}

/// The first word of `s`, a longest run without white space, and what follows it.
pub open spec fn next_word(s: Seq<char>) -> (Seq<char>, Seq<char>) {
    let t = trim_start_spec(s);
    (t.take(word_end(t)), t.skip(word_end(t)))
}

/// The end of a word lies within the text.
pub proof fn lemma_word_end(s: Seq<char>)
    ensures
        0 <= word_end(s) <= s.len(),
    decreases s.len(),
{
    if s.len() > 0 && !is_white(s[0]) {
        lemma_word_end(s.skip(1));
    }
}

/// The first word of `s`, empty where there is none, and what follows it.
pub fn take_word(s: &str) -> (r: (String, String))
    ensures
        (r.0@, r.1@) == next_word(s@),
{
    let chars = chars_of(s);
    let mut from: usize = 0;
    assert(chars@.skip(0) =~= chars@);
    while from < chars.len() && white(chars[from])
        invariant
            from <= chars.len(),
            chars@ == s@,
            trim_start_spec(s@) == trim_start_spec(chars@.skip(from as int)),
        decreases chars.len() - from,
    {
        assert(chars@.skip(from as int).skip(1) =~= chars@.skip(from + 1));
        from = from + 1;
    }
    let ghost t = chars@.skip(from as int);
    let mut to: usize = from;
    assert(t.skip(0) =~= t);
    while to < chars.len() && !white(chars[to])
        invariant
            from <= to <= chars.len(),
            t == chars@.skip(from as int),
            word_end(t) == (to - from) + word_end(t.skip(to - from)),
        decreases chars.len() - to,
    {
        assert(t.skip(to - from)[0] == chars[to as int]);
        assert(t.skip(to - from).skip(1) =~= t.skip(to - from + 1));
        to = to + 1;
    }
    assert(word_end(t) == to - from) by {
        if to < chars.len() {
            assert(t.skip(to - from)[0] == chars[to as int]);
        }
    }
    assert(chars@.subrange(from as int, to as int) =~= t.take(to - from));
    assert(chars@.subrange(to as int, chars@.len() as int) =~= t.skip(to - from));
    (between(&chars, from, to), between(&chars, to, chars.len()))
}

// ---------------------------------------------------------------------------
// ASCII case
// ---------------------------------------------------------------------------

/// `c` in lower case, where it is an ASCII letter.
pub open spec fn lower_char(c: char) -> char {
    if 'A' <= c <= 'Z' {
        (c as u32 + 32) as char
    } else {
        c
    }
}

/// `s` with its ASCII letters in lower case.
pub open spec fn lower(s: Seq<char>) -> Seq<char> {
    Seq::new(s.len(), |i: int| lower_char(s[i]))
}

/// `c` in lower case, where it is an ASCII letter.
pub fn lowered(c: char) -> (r: char)
    ensures
        r == lower_char(c),
{
    if 'A' <= c && c <= 'Z' {
        ((c as u8) + 32) as char
    } else {
        c
    }
}

/// `s` with its ASCII letters in lower case, as `str::to_ascii_lowercase` yields it.
pub fn lower_text(s: &str) -> (r: String)
    ensures
        r@ == lower(s@),
{
    let chars = chars_of(s);
    let mut out = String::new();
    let mut i: usize = 0;
    while i < chars.len()
        invariant
            i <= chars.len(),
            chars@ == s@,
            out@ == lower(s@).take(i as int),
        decreases chars.len() - i,
    {
        out.push(lowered(chars[i]));
        assert(out@ =~= lower(s@).take(i + 1));
        i = i + 1;
    }
    assert(lower(s@).take(i as int) =~= lower(s@));
    out
}

/// Whether two strings are equal but for the case of ASCII letters.
pub fn same_ignoring_case(a: &str, b: &str) -> (r: bool)
    ensures
        r == (lower(a@) == lower(b@)),
{
    let x = lower_text(a);
    let y = lower_text(b);
    x == y
}

} // verus!
