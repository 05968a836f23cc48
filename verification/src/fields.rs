//! Named texts: HTTP headers and form fields.

use vstd::prelude::*;
use crate::text::{opt_view, same_text};

verus! {

/// Texts by name. A later text replaces an earlier one of the same name.
#[derive(Debug)]
pub struct Fields {
    entries: Vec<(String, String)>,
}

/// The texts by name in a list of pairs, of which a later one replaces an earlier
/// one of the same name.
pub open spec fn field_map(pairs: Seq<(Seq<char>, Seq<char>)>) -> Map<Seq<char>, Seq<char>>
    decreases pairs.len(),
{
    if pairs.len() == 0 {
        Map::empty()
    } else {
        field_map(pairs.drop_last()).insert(pairs.last().0, pairs.last().1)
    }
}

/// The views of pairs of strings.
pub open spec fn pair_views(v: Seq<(String, String)>) -> Seq<(Seq<char>, Seq<char>)> {
    Seq::new(v.len(), |i: int| (v[i].0@, v[i].1@))
}

/// What a map holds under a name.
pub open spec fn looked_up(m: Map<Seq<char>, Seq<char>>, name: Seq<char>) -> Option<Seq<char>> {
    if m.dom().contains(name) {
        Some(m[name])
    } else {
        None
    }
}

/// The view of an optional reference to a text.
pub open spec fn ref_view(s: Option<&String>) -> Option<Seq<char>> {
    match s {
        Some(t) => Some(t@),
        None => None,
    }
}

impl View for Fields {
    type V = Map<Seq<char>, Seq<char>>;

    closed spec fn view(&self) -> Map<Seq<char>, Seq<char>> {
        field_map(pair_views(self.entries@))
    }
}

impl Fields {
    pub fn new() -> (r: Self)
        ensures
            r@ == Map::<Seq<char>, Seq<char>>::empty(),
    {
        Fields { entries: Vec::new() }
    }

    /// Sets the text of this name.
    pub fn insert(&mut self, name: String, value: String)
        ensures
            final(self)@ == old(self)@.insert(name@, value@),
    {
        let ghost before = self.entries@;
        self.entries.push((name, value));
        assert(pair_views(self.entries@).drop_last() =~= pair_views(before));
    }

    /// The text of this name.
    pub fn get(&self, name: &str) -> (r: Option<&String>)
        ensures
            ref_view(r) == looked_up(self@, name@),
    {
        let mut i: usize = self.entries.len();
        assert(self.entries@.take(i as int) =~= self.entries@);
        while i > 0
            invariant
                i <= self.entries.len(),
                looked_up(self@, name@) == looked_up(
                    field_map(pair_views(self.entries@.take(i as int))),
                    name@,
                ),
            decreases i,
        {
            let ghost head = self.entries@.take(i as int);
            i -= 1;
            assert(pair_views(head).drop_last() =~= pair_views(self.entries@.take(i as int)));
            assert(pair_views(head).last() == (self.entries@[i as int].0@, self.entries@[i as int].1@));
            if same_text(&self.entries[i].0, name) {
                return Some(&self.entries[i].1);
            }
        }
        assert(pair_views(self.entries@.take(0)) =~= Seq::empty());
        None
    }

    /// A copy of the text of this name.
    pub fn value(&self, name: &str) -> (r: Option<String>)
        ensures
            opt_view(r) == looked_up(self@, name@),
    {
        match self.get(name) {
            Some(value) => Some(value.clone()),
            None => None,
        }
    }
}

} // verus!
