//! The connections that are served at one time.

use vstd::prelude::*;

verus! {

/// The greatest number of connections that are served at one time.
pub const MAX_CONNECTION_THREADS: usize = 16;

/// A count of the connections that are served.
#[derive(Debug)]
pub struct ConnectionSlots {
    limit: usize,
    used: usize,
}

/// The right to serve a connection.
#[derive(Debug)]
pub struct ThreadPermit {
    _held: (),
}

impl ConnectionSlots {
    /// How many connections may be served at one time.
    pub closed spec fn limit_spec(&self) -> usize {
        self.limit
    }

    /// How many connections are served.
    pub closed spec fn used_spec(&self) -> usize {
        self.used
    }

    /// Whether no more connections are served than may be.
    pub open spec fn within_limit(&self) -> bool {
        self.used_spec() <= self.limit_spec()
    }

    pub fn new(limit: usize) -> (r: Self)
        ensures
            r.limit_spec() == limit,
            r.used_spec() == 0,
            r.within_limit(),
    {
        ConnectionSlots { limit, used: 0 }
    }

    /// Grants the right to serve one more connection, where there are not too many.
    pub fn try_acquire(&mut self) -> (r: Option<ThreadPermit>)
        requires
            old(self).within_limit(),
        ensures
            final(self).within_limit(),
            final(self).limit_spec() == old(self).limit_spec(),
            r is Some <==> old(self).used_spec() < old(self).limit_spec(),
            final(self).used_spec() == old(self).used_spec() + if r is Some {
                1int
            } else {
                0
            },
    {
        if self.used >= self.limit {
            return None;
        }
        self.used += 1;
        Some(ThreadPermit { _held: () })
    }

    /// Takes back the right to serve a connection.
    pub fn release(&mut self, permit: ThreadPermit)
        requires
            old(self).within_limit(),
        ensures
            final(self).within_limit(),
            final(self).limit_spec() == old(self).limit_spec(),
            final(self).used_spec() == if old(self).used_spec() > 0 {
                old(self).used_spec() - 1
            } else {
                0
            },
    {
        if self.used > 0 {
            self.used -= 1;
        }
    }

    /// Whether no connection is served.
    pub fn is_idle(&self) -> (r: bool)
        ensures
            r == (self.used_spec() == 0),
    {
        self.used == 0
    }
}

/// The connections that are served, and the right to serve more.
#[derive(Debug)]
pub struct Connections {
    slots: ConnectionSlots,
    next_id: u64,
    active: Vec<u64>,
}

/// What there is of connections.
#[verifier::ext_equal]
pub struct ConnectionsView {
    pub limit: usize,
    pub used: usize,
    pub next_id: u64,
    /// The connections that can be interrupted.
    pub active: Seq<u64>,
}

impl View for Connections {
    type V = ConnectionsView;

    closed spec fn view(&self) -> ConnectionsView {
        ConnectionsView {
            limit: self.slots.limit_spec(),
            used: self.slots.used_spec(),
            next_id: self.next_id,
            active: self.active@,
        }
    }
}

/// Whether no more connections are served than may be, and each has a number of its
/// own.
pub open spec fn in_order(v: ConnectionsView) -> bool {
    &&& v.used <= v.limit
    &&& forall|i: int| 0 <= i < v.active.len() ==> #[trigger] v.active[i] < v.next_id
    &&& forall|i: int, j: int|
        0 <= i < j < v.active.len() ==> #[trigger] v.active[i] != #[trigger] v.active[j]
}

/// The connections but for the one with this number.
pub open spec fn others(active: Seq<u64>, id: u64) -> Seq<u64> {
    active.filter(|n: u64| n != id)
}

impl Connections {
    pub fn new(limit: usize) -> (r: Self)
        ensures
            r@ == (ConnectionsView { limit, used: 0, next_id: 1, active: Seq::empty() }),
            in_order(r@),
    {
        Connections { slots: ConnectionSlots::new(limit), next_id: 1, active: Vec::new() }
    }

    /// Grants the right to serve one more connection, where there are not too many.
    /// Nothing else is noted of the connection yet.
    pub fn reserve(&mut self) -> (r: Option<ThreadPermit>)
        requires
            in_order(old(self)@),
        ensures
            in_order(final(self)@),
            r is Some <==> old(self)@.used < old(self)@.limit,
            final(self)@ == (ConnectionsView {
                used: if r is Some {
                    (old(self)@.used + 1) as usize
                } else {
                    old(self)@.used
                },
                ..old(self)@
            }),
    {
        self.slots.try_acquire()
    }

    /// Whether a number is left for one more connection.
    pub fn has_numbers(&self) -> (r: bool)
        ensures
            r == (self@.next_id < u64::MAX),
    {
        self.next_id < u64::MAX
    }

    /// Gives a connection its number, where it can be interrupted and the server still
    /// runs. Otherwise it is to be closed, and nothing is noted of it.
    pub fn enroll(&mut self, interruptible: bool, running: bool) -> (r: Option<u64>)
        requires
            in_order(old(self)@),
            old(self)@.next_id < u64::MAX,
        ensures
            in_order(final(self)@),
            match r {
                Some(id) => interruptible && running && id == old(self)@.next_id && final(self)@
                    == (ConnectionsView {
                    next_id: (id + 1) as u64,
                    active: old(self)@.active.push(id),
                    ..old(self)@
                }),
                None => !(interruptible && running) && final(self)@ == old(self)@,
            },
    {
        if !interruptible || !running {
            return None;
        }
        let id: u64 = self.next_id;
        self.active.push(id);
        self.next_id = id + 1;
        Some(id)
    }

    /// Takes note that a connection ended, and takes back the right to serve it.
    pub fn leave(&mut self, id: Option<u64>, permit: ThreadPermit)
        requires
            in_order(old(self)@),
        ensures
            in_order(final(self)@),
            final(self)@ == (ConnectionsView {
                used: if old(self)@.used > 0 {
                    (old(self)@.used - 1) as usize
                } else {
                    0
                },
                active: match id {
                    Some(id) => others(old(self)@.active, id),
                    None => old(self)@.active,
                },
                ..old(self)@
            }),
    {
        self.slots.release(permit);
        match id {
            Some(id) => {
                self.drop_number(id);
            },
            None => {},
        }
    }

    fn drop_number(&mut self, id: u64)
        requires
            in_order(old(self)@),
        ensures
            in_order(final(self)@),
            final(self)@ == (ConnectionsView {
                active: others(old(self)@.active, id),
                ..old(self)@
            }),
    {
        let ghost all = self.active@;
        let mut i: usize = 0;
        while i < self.active.len() && self.active[i] != id
            invariant
                i <= self.active.len(),
                *self == *old(self),
                all == self.active@,
                forall|j: int| 0 <= j < i ==> all[j] != id,
            decreases self.active.len() - i,
        {
            i += 1;
        }
        if i < self.active.len() {
            let _ = self.active.remove(i);
            proof {
                lemma_others_removed(all, id, i as int);
            }
        } else {
            proof {
                lemma_others_all(all, id);
            }
        }
    }

    /// Hands out the connections that are to be interrupted, as the server stops, and
    /// forgets them. What they use up is taken back as they end.
    pub fn interrupt_all(&mut self) -> (r: Vec<u64>)
        requires
            in_order(old(self)@),
        ensures
            in_order(final(self)@),
            r@ == old(self)@.active,
            final(self)@ == (ConnectionsView { active: Seq::empty(), ..old(self)@ }),
    {
        let mut ids: Vec<u64> = Vec::new();
        std::mem::swap(&mut ids, &mut self.active);
        ids
    }

    /// Whether no connection is served.
    pub fn is_idle(&self) -> (r: bool)
        ensures
            r == (self@.used == 0),
    {
        self.slots.is_idle()
    }
}

/// Without a number that occurs once, what is left is all else.
proof fn lemma_others_removed(active: Seq<u64>, id: u64, i: int)
    requires
        0 <= i < active.len(),
        active[i] == id,
        forall|j: int, k: int|
            0 <= j < k < active.len() ==> #[trigger] active[j] != #[trigger] active[k],
    ensures
        others(active, id) == active.remove(i),
    decreases active.len(),
{
    reveal(Seq::filter);
    let front = active.drop_last();
    if i == active.len() - 1 {
        assert forall|j: int| 0 <= j < front.len() implies front[j] != id by {
            assert(front[j] == active[j]);
        }
        lemma_others_all(front, id);
        assert(active.remove(i) =~= front);
    } else {
        assert forall|j: int, k: int| 0 <= j < k < front.len() implies #[trigger] front[j]
            != #[trigger] front[k] by {
            assert(front[j] == active[j] && front[k] == active[k]);
        }
        lemma_others_removed(front, id, i);
        assert(active[i] != active[active.len() - 1]);
        assert(active.remove(i) =~= front.remove(i).push(active.last()));
    }
}

/// Without a number that does not occur, all is left.
proof fn lemma_others_all(active: Seq<u64>, id: u64)
    requires
        forall|j: int| 0 <= j < active.len() ==> active[j] != id,
    ensures
        others(active, id) == active,
    decreases active.len(),
{
    reveal(Seq::filter);
    if active.len() > 0 {
        let front = active.drop_last();
        assert forall|j: int| 0 <= j < front.len() implies front[j] != id by {
            assert(front[j] == active[j]);
        }
        lemma_others_all(front, id);
        assert(front.push(active.last()) =~= active);
    }
}

/// A connection that was enrolled and then left has left nothing behind.
pub proof fn law_nothing_is_left_behind(v: ConnectionsView)
    requires
        in_order(v),
    ensures
        others(v.active.push(v.next_id), v.next_id) == v.active,
{
    let id = v.next_id;
    let longer = v.active.push(id);
    assert forall|j: int, k: int| 0 <= j < k < longer.len() implies #[trigger] longer[j]
        != #[trigger] longer[k] by {
        assert(longer[j] == v.active[j]);
        if k < v.active.len() {
            assert(longer[k] == v.active[k]);
        }
    }
    lemma_others_removed(longer, id, v.active.len() as int);
    assert(longer.remove(v.active.len() as int) =~= v.active);
}

} // verus!
