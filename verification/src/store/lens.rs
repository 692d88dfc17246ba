//! The lens: a bounded buffer of the live observations that pass one filter,
//! filled as observations are broadcast and emptied by whoever reads it.
use vstd::prelude::*;

use std::collections::VecDeque;

use crate::types::filter::Filter;
use crate::types::observation::Observation;

verus! {

/// How many observations a lens holds unless told otherwise.
pub const DEFAULT_CAPACITY: usize = 200;

/// What a lens reports about itself.
#[derive(Debug, Clone)]
pub struct LensStatus {
    pub active: bool,
    pub filter: Option<Filter>,
    pub buffered: usize,
    pub capacity: usize,
    pub cursor: u64,
}

/// The buffer after `obs` arrives: when the buffer already holds
/// `capacity` observations (or more) its oldest one leaves, then `obs` is
/// appended. A capacity of 0 therefore keeps the latest observation only.
pub open spec fn after_push(buffer: Seq<Observation>, capacity: nat, obs: Observation) -> Seq<
    Observation,
> {
    let kept = if buffer.len() >= capacity && buffer.len() > 0 {
        buffer.drop_first()
    } else {
        buffer
    };
    kept.push(obs)
}

/// The buffer of a fresh lens after the observations `s` arrived, in order,
/// all of them passing its filter.
pub open spec fn filled(capacity: nat, s: Seq<Observation>) -> Seq<Observation>
    decreases s.len(),
{
    if s.len() == 0 {
        seq![]
    } else {
        after_push(filled(capacity, s.drop_last()), capacity, s.last())
    }
}

/// The larger of two cursors.
pub open spec fn max_cursor(a: u64, b: u64) -> u64 {
    if b > a {
        b
    } else {
        a
    }
}

/// An active lens: its filter, the buffered observations (oldest first),
/// the capacity and the highest id that passed the filter.
#[derive(Debug)]
pub struct ActiveLens {
    pub filter: Filter,
    pub buffer: VecDeque<Observation>,
    pub capacity: usize,
    pub cursor: u64,
}

/// `next` is `prev` after `obs` arrived: an observation that passes the
/// filter raises the cursor to its id if higher and enters the buffer as
/// `after_push` says; any other leaves the lens as it was.
pub open spec fn pushed(prev: ActiveLens, next: ActiveLens, obs: Observation) -> bool {
    &&& next.filter == prev.filter
    &&& next.capacity == prev.capacity
    &&& if prev.filter.spec_matches(obs) {
        &&& next.buffer@ == after_push(prev.buffer@, prev.capacity as nat, obs)
        &&& next.cursor == max_cursor(prev.cursor, obs.id)
    } else {
        &&& next.buffer@ == prev.buffer@
        &&& next.cursor == prev.cursor
    }
}

impl ActiveLens {
    /// What every lens keeps: it holds no more than its capacity (one, for a
    /// capacity of 0), every buffered observation passes the filter, and no
    /// buffered id is above the cursor.
    pub open spec fn wf(&self) -> bool {
        &&& (self.buffer@.len() <= self.capacity || self.buffer@.len() <= 1)
        &&& forall|i: int|
            0 <= i < self.buffer@.len() ==> self.filter.spec_matches(#[trigger] self.buffer@[i])
        &&& forall|i: int| 0 <= i < self.buffer@.len() ==> #[trigger] self.buffer@[i].id <= self.cursor
    }

    /// An empty lens over `filter`.
    pub fn new(filter: Filter, capacity: usize) -> (r: ActiveLens)
        ensures
            r.filter == filter,
            r.buffer@ == Seq::<Observation>::empty(),
            r.capacity == capacity,
            r.cursor == 0,
            r.wf(),
    {
        ActiveLens { filter, buffer: VecDeque::new(), capacity, cursor: 0 }
    }

    /// Offers `obs` to the lens.
    pub fn push(&mut self, obs: Observation)
        ensures
            pushed(*old(self), *final(self), obs),
            old(self).wf() ==> final(self).wf(),
    {
        if !self.filter.matches(&obs) {
            return ;
        }
        if obs.id > self.cursor {
            self.cursor = obs.id;
        }
        let ghost before = self.buffer@;
        if self.buffer.len() >= self.capacity && self.buffer.len() > 0 {
            let _oldest = self.buffer.pop_front();
            assert(self.buffer@ =~= before.drop_first());
        }
        self.buffer.push_back(obs);
    }

    /// Hands out the buffered observations, oldest first, and empties the
    /// buffer; the cursor stays.
    pub fn drain(&mut self) -> (r: Vec<Observation>)
        ensures
            r@ == old(self).buffer@,
            final(self).buffer@ == Seq::<Observation>::empty(),
            final(self).filter == old(self).filter,
            final(self).capacity == old(self).capacity,
            final(self).cursor == old(self).cursor,
            old(self).wf() ==> final(self).wf(),
    {
        let ghost all = self.buffer@;
        let mut out: Vec<Observation> = Vec::new();
        while self.buffer.len() > 0
            invariant
                out@ + self.buffer@ == all,
                self.filter == old(self).filter,
                self.capacity == old(self).capacity,
                self.cursor == old(self).cursor,
            decreases self.buffer@.len(),
        {
            match self.buffer.pop_front() {
                Some(o) => {
                    out.push(o);
                    assert(out@ + self.buffer@ =~= all);
                },
                None => {},
            }
        }
        assert(out@ =~= all);
        out
    }

    /// The lens's status: active, with a copy of its filter.
    pub fn status(&self) -> (r: LensStatus)
        ensures
            r.active,
            r.filter matches Some(f) && f.same_criteria(self.filter),
            r.buffered == self.buffer@.len(),
            r.capacity == self.capacity,
            r.cursor == self.cursor,
    {
        LensStatus {
            active: true,
            filter: Some(self.filter.dup()),
            buffered: self.buffer.len(),
            capacity: self.capacity,
            cursor: self.cursor,
        }
    }
}

/// The status reported while no lens is set.
pub open spec fn inactive_status(r: LensStatus) -> bool {
    &&& !r.active
    &&& r.filter is None
    &&& r.buffered == 0
    &&& r.capacity == 0
    &&& r.cursor == 0
}

/// The one lens that may be set at a time. The process that receives the
/// broadcast hands each observation to `observe`.
#[derive(Debug)]
pub struct LensManager {
    pub inner: Option<ActiveLens>,
}

impl LensManager {
    /// No lens set.
    pub fn new() -> (r: LensManager)
        ensures
            r.inner is None,
    {
        LensManager { inner: None }
    }

    /// Sets a fresh lens over `filter` with the default capacity, replacing
    /// any lens that was set.
    pub fn set(&mut self, filter: Filter)
        ensures
            final(self).inner matches Some(l) && l.filter == filter && l.buffer@
                == Seq::<Observation>::empty() && l.capacity == DEFAULT_CAPACITY && l.cursor == 0
                && l.wf(),
    {
        self.set_with_capacity(filter, DEFAULT_CAPACITY);
    }

    /// Sets a fresh lens over `filter` holding at most `capacity`
    /// observations, replacing any lens that was set.
    pub fn set_with_capacity(&mut self, filter: Filter, capacity: usize)
        ensures
            final(self).inner matches Some(l) && l.filter == filter && l.buffer@
                == Seq::<Observation>::empty() && l.capacity == capacity && l.cursor == 0
                && l.wf(),
    {
        self.inner = Some(ActiveLens::new(filter, capacity));
    }

    /// Removes the lens.
    pub fn clear(&mut self)
        ensures
            final(self).inner is None,
    {
        self.inner = None;
    }

    /// Offers a broadcast observation to the lens, if one is set.
    pub fn observe(&mut self, obs: Observation)
        ensures
            match (old(self).inner, final(self).inner) {
                (Some(a), Some(b)) => pushed(a, b, obs) && (a.wf() ==> b.wf()),
                (None, None) => true,
                _ => false,
            },
    {
        match &mut self.inner {
            Some(lens) => lens.push(obs),
            None => {},
        }
    }

    /// The buffered observations of the lens, oldest first, leaving it
    /// empty; nothing while no lens is set.
    pub fn drain(&mut self) -> (r: Vec<Observation>)
        ensures
            match (old(self).inner, final(self).inner) {
                (Some(a), Some(b)) => r@ == a.buffer@ && b.buffer@ == Seq::<Observation>::empty()
                    && b.filter == a.filter && b.capacity == a.capacity && b.cursor == a.cursor
                    && (a.wf() ==> b.wf()),
                (None, None) => r@ == Seq::<Observation>::empty(),
                _ => false,
            },
    {
        match &mut self.inner {
            Some(lens) => lens.drain(),
            None => Vec::new(),
        }
    }

    /// The status of the lens, or the inactive status while none is set.
    pub fn status(&self) -> (r: LensStatus)
        ensures
            match self.inner {
                Some(l) => r.active && (r.filter matches Some(f) && f.same_criteria(l.filter))
                    && r.buffered == l.buffer@.len() && r.capacity == l.capacity && r.cursor
                    == l.cursor,
                None => inactive_status(r),
            },
    {
        match &self.inner {
            Some(lens) => lens.status(),
            None => LensStatus { active: false, filter: None, buffered: 0, capacity: 0, cursor: 0 },
        }
    }
}

/// Once a lens of capacity at least one has taken in the passing
/// observations `s`, it holds the latest `capacity` of them, oldest first:
/// older ones have been evicted in arrival order.
pub proof fn lemma_filled_keeps_latest(capacity: nat, s: Seq<Observation>)
    requires
        capacity >= 1,
    ensures
        filled(capacity, s) == s.subrange(
            if s.len() > capacity {
                s.len() - capacity
            } else {
                0
            },
            s.len() as int,
        ),
    decreases s.len(),
{
    if s.len() > 0 {
        let d = s.drop_last();
        lemma_filled_keeps_latest(capacity, d);
        let n = s.len() as int;
        let prev = filled(capacity, d);
        if n - 1 >= capacity {
            assert(prev =~= s.subrange(n - 1 - capacity, n - 1));
            assert(prev.drop_first().push(s.last()) =~= s.subrange(n - capacity, n));
        } else {
            assert(prev =~= s.subrange(0, n - 1));
            assert(prev.push(s.last()) =~= s.subrange(0, n));
        }
    }
}

/// A lens never holds more than its capacity of at least one, whatever
/// arrives.
pub proof fn lemma_filled_bounded(capacity: nat, s: Seq<Observation>)
    requires
        capacity >= 1,
    ensures
        filled(capacity, s).len() <= capacity,
        filled(capacity, s).len() == if s.len() < capacity {
            s.len()
        } else {
            capacity
        },
{
    lemma_filled_keeps_latest(capacity, s);
}

} // verus!
