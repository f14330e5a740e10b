//! Bounded evaluation pipeline: walked commits are accepted in walk order,
//! evaluations run with at most `limit` of them accepted and not yet
//! collected, results are kept in per-position slots and collected strictly
//! in walk order until the stop commit is reached.
use vstd::prelude::*;
use crate::commit::CommitId;

verus! {

/// One accepted commit and, once known, its outcomes.
pub struct Slot<O> {
    pub id: CommitId,
    pub excluded: bool,
    pub outcomes: Option<Vec<O>>,
}

/// What the caller is asked to do with an accepted commit.
#[derive(Clone, Copy, Debug, PartialEq, Eq)]
pub enum Acceptance {
    /// Evaluate the commit, then report the outcomes under this slot index.
    Evaluate(usize),
    /// The commit is excluded: no evaluation.
    Skip,
}

pub struct Pipeline<O> {
    pub slots: Vec<Slot<O>>,
    pub excludes: Vec<CommitId>,
    pub limit: usize,
    pub stop: Option<CommitId>,
    /// Slots before this index have been collected.
    pub collected: usize,
    /// Set once the slot at `collected` holds the stop commit.
    pub stopped: bool,
}

/// The outcomes a slot contributes: none until evaluated or when excluded.
pub open spec fn slot_outcomes<O>(s: Slot<O>) -> Seq<O> {
    match s.outcomes {
        Some(v) => v@,
        None => Seq::empty(),
    }
}

/// The outcomes of the first `n` slots, concatenated by position.
pub open spec fn concat_outcomes<O>(slots: Seq<Slot<O>>, n: int) -> Seq<O>
    decreases n,
{
    if n <= 0 || n > slots.len() {
        Seq::empty()
    } else {
        concat_outcomes(slots, n - 1) + slot_outcomes(slots[n - 1])
    }
}

/// Whether a slot is still waiting for its evaluation.
pub open spec fn is_pending<O>(s: Slot<O>) -> bool {
    s.outcomes.is_none()
}

/// The positions of the evaluations that are in flight.
pub open spec fn in_flight<O>(slots: Seq<Slot<O>>) -> Set<int> {
    Set::new(|i: int| 0 <= i < slots.len() && is_pending(slots[i]))
}

/// Concatenated outcomes depend only on the slots they are taken from.
pub proof fn lemma_concat_prefix<O>(a: Seq<Slot<O>>, b: Seq<Slot<O>>, n: int)
    requires
        0 <= n <= a.len(),
        n <= b.len(),
        forall|i: int| 0 <= i < n ==> a[i] == b[i],
    ensures
        concat_outcomes(a, n) == concat_outcomes(b, n),
    decreases n,
{
    if n > 0 {
        lemma_concat_prefix(a, b, n - 1);
    }
}

impl<O> Pipeline<O> {
    pub open spec fn is_stop(&self, id: CommitId) -> bool {
        self.stop == Some(id)
    }

    /// The accepted commits, in walk order.
    pub open spec fn walked(&self) -> Seq<CommitId> {
        self.slots@.map_values(|s: Slot<O>| s.id)
    }

    pub open spec fn wf(&self) -> bool {
        &&& self.limit > 0
        &&& self.collected <= self.slots@.len()
        &&& self.slots@.len() - self.collected <= self.limit
        &&& forall|i: int| 0 <= i < self.collected ==> !is_pending(#[trigger] self.slots@[i])
        &&& forall|i: int| 0 <= i < self.collected ==> !self.is_stop(#[trigger] self.slots@[i].id)
        &&& forall|i: int| 0 <= i < self.slots@.len() ==>
            (#[trigger] self.slots@[i]).excluded == self.excludes@.contains(self.slots@[i].id)
        &&& forall|i: int| 0 <= i < self.slots@.len() && (#[trigger] self.slots@[i]).excluded
            ==> slot_outcomes(self.slots@[i]) == Seq::<O>::empty()
        &&& forall|i: int| 0 <= i < self.slots@.len() && (#[trigger] self.slots@[i]).excluded
            ==> !is_pending(self.slots@[i])
        &&& self.stopped ==> self.collected < self.slots@.len()
            && self.is_stop(self.slots@[self.collected as int].id)
            && !is_pending(self.slots@[self.collected as int])
        &&& !self.stopped ==> self.collected == self.slots@.len()
            || is_pending(self.slots@[self.collected as int])
    }

    /// Outcomes gathered so far, in walk order.
    pub open spec fn gathered(&self) -> Seq<O> {
        concat_outcomes(self.slots@, self.collected as int)
    }

    /// Whether another walked commit may be accepted.
    pub open spec fn spec_has_room(&self) -> bool {
        !self.stopped && self.slots@.len() - self.collected < self.limit
    }

    /// Whether the walk has reached the stop commit, or every accepted commit
    /// has been collected.
    pub open spec fn spec_settled(&self) -> bool {
        self.stopped || self.collected == self.slots@.len()
    }

    pub fn new(limit: usize, stop: Option<CommitId>, excludes: Vec<CommitId>) -> (r: Pipeline<O>)
        requires
            limit > 0,
        ensures
            r.wf(),
            r.limit == limit,
            r.stop == stop,
            r.excludes == excludes,
            r.slots@.len() == 0,
            r.collected == 0,
            !r.stopped,
    {
        Pipeline { slots: Vec::new(), excludes, limit, stop, collected: 0, stopped: false }
    }

    pub fn has_room(&self) -> (r: bool)
        requires
            self.wf(),
        ensures
            r == self.spec_has_room(),
    {
        !self.stopped && self.slots.len() - self.collected < self.limit
    }

    pub fn is_settled(&self) -> (r: bool)
        requires
            self.wf(),
        ensures
            r == self.spec_settled(),
    {
        self.stopped || self.collected == self.slots.len()
    }

    /// Accepts the next walked commit. An excluded commit takes a slot but
    /// is never evaluated; any other is handed out for evaluation.
    pub fn accept(&mut self, id: CommitId) -> (r: Acceptance)
        requires
            old(self).wf(),
            old(self).spec_has_room(),
        ensures
            final(self).wf(),
            final(self).limit == old(self).limit,
            final(self).stop == old(self).stop,
            final(self).excludes == old(self).excludes,
            final(self).walked() == old(self).walked().push(id),
            final(self).slots@ == old(self).slots@.push(final(self).slots@.last()),
            final(self).collected >= old(self).collected,
            old(self).excludes@.contains(id) ==> r == Acceptance::Skip
                && slot_outcomes(final(self).slots@.last()) == Seq::<O>::empty()
                && !is_pending(final(self).slots@.last()),
            !old(self).excludes@.contains(id) ==> r == Acceptance::Evaluate(old(self).slots@.len() as usize)
                && is_pending(final(self).slots@.last()),
            final(self).slots@.last().id == id,
    {
        let excluded = contains_id(&self.excludes, &id);
        let idx = self.slots.len();
        let r = if excluded {
            self.slots.push(Slot { id, excluded: true, outcomes: Some(Vec::new()) });
            Acceptance::Skip
        } else {
            self.slots.push(Slot { id, excluded: false, outcomes: None });
            Acceptance::Evaluate(idx)
        };
        proof {
            assert(self.slots@.last().id == id);
            assert(self.walked() =~= old(self).walked().push(id));
        }
        self.advance();
        r
    }

    /// Records the outcomes of the evaluation handed out under `idx`. Once
    /// the stop commit has been reached, outcomes of later slots are kept in
    /// their slot but never collected.
    pub fn complete(&mut self, idx: usize, outcomes: Vec<O>)
        requires
            old(self).wf(),
            idx < old(self).slots@.len(),
            is_pending(old(self).slots@[idx as int]),
        ensures
            final(self).wf(),
            final(self).limit == old(self).limit,
            final(self).stop == old(self).stop,
            final(self).excludes == old(self).excludes,
            final(self).slots@ == old(self).slots@.update(idx as int, Slot {
                id: old(self).slots@[idx as int].id,
                excluded: false,
                outcomes: Some(outcomes),
            }),
            final(self).collected >= old(self).collected,
            old(self).stopped ==> final(self).stopped && final(self).collected == old(self).collected,
    {
        let id = self.slots[idx].id;
        self.slots[idx] = Slot { id, excluded: false, outcomes: Some(outcomes) };
        self.advance();
    }

    /// Moves `collected` past every settled slot, up to the first pending
    /// one or to the stop commit.
    fn advance(&mut self)
        requires
            old(self).limit > 0,
            old(self).collected <= old(self).slots@.len(),
            old(self).slots@.len() - old(self).collected <= old(self).limit,
            forall|i: int| 0 <= i < old(self).collected ==> !is_pending(#[trigger] old(self).slots@[i]),
            forall|i: int| 0 <= i < old(self).collected ==> !old(self).is_stop(#[trigger] old(self).slots@[i].id),
            forall|i: int| 0 <= i < old(self).slots@.len() ==>
                (#[trigger] old(self).slots@[i]).excluded == old(self).excludes@.contains(old(self).slots@[i].id),
            forall|i: int| 0 <= i < old(self).slots@.len() && (#[trigger] old(self).slots@[i]).excluded
                ==> slot_outcomes(old(self).slots@[i]) == Seq::<O>::empty(),
            forall|i: int| 0 <= i < old(self).slots@.len() && (#[trigger] old(self).slots@[i]).excluded
                ==> !is_pending(old(self).slots@[i]),
            old(self).stopped ==> old(self).collected < old(self).slots@.len()
                && old(self).is_stop(old(self).slots@[old(self).collected as int].id)
                && !is_pending(old(self).slots@[old(self).collected as int]),
        ensures
            final(self).wf(),
            final(self).slots == old(self).slots,
            final(self).limit == old(self).limit,
            final(self).stop == old(self).stop,
            final(self).excludes == old(self).excludes,
            final(self).collected >= old(self).collected,
            old(self).stopped ==> final(self).stopped && final(self).collected == old(self).collected,
    {
        while !self.stopped && self.collected < self.slots.len() && self.slots[self.collected].outcomes.is_some()
            invariant
                self.slots == old(self).slots,
                self.limit == old(self).limit,
                self.stop == old(self).stop,
                self.excludes == old(self).excludes,
                self.collected >= old(self).collected,
                old(self).stopped ==> self.stopped && self.collected == old(self).collected,
                self.limit > 0,
                self.collected <= self.slots@.len(),
                self.slots@.len() - self.collected <= self.limit,
                forall|i: int| 0 <= i < self.collected ==> !is_pending(#[trigger] self.slots@[i]),
                forall|i: int| 0 <= i < self.collected ==> !self.is_stop(#[trigger] self.slots@[i].id),
                self.stopped ==> self.collected < self.slots@.len()
                    && self.is_stop(self.slots@[self.collected as int].id)
                    && !is_pending(self.slots@[self.collected as int]),
            decreases self.slots@.len() - self.collected, (if self.stopped { 0int } else { 1int }),
        {
            let is_stop = match &self.stop {
                Some(s) => self.slots[self.collected].id.same_as(s),
                None => false,
            };
            if is_stop {
                self.stopped = true;
            } else {
                self.collected = self.collected + 1;
            }
        }
    }

    /// The collected outcomes, concatenated in walk order.
    pub fn into_outcomes(self) -> (r: Vec<O>)
        requires
            self.wf(),
        ensures
            r@ == self.gathered(),
    {
        let ghost all = self.slots@;
        let n = self.collected;
        let mut slots = self.slots;
        slots.truncate(n);
        let mut out: Vec<O> = Vec::new();
        proof {
            lemma_concat_prefix(all, slots@, n as int);
        }
        while slots.len() > 0
            invariant
                slots@.len() <= n,
                n <= all.len(),
                forall|i: int| 0 <= i < slots@.len() ==> slots@[i] == all[i],
                concat_outcomes(all, n as int) == concat_outcomes(slots@, slots@.len() as int) + out@,
            decreases slots@.len(),
        {
            let ghost before = slots@;
            let slot = slots.pop().unwrap();
            let mut v = match slot.outcomes {
                Some(v) => v,
                None => Vec::new(),
            };
            proof {
                lemma_concat_prefix(before, slots@, slots@.len() as int);
                assert(v@ == slot_outcomes(before[before.len() - 1]));
            }
            v.append(&mut out);
            out = v;
            proof {
                assert(concat_outcomes(all, n as int) == concat_outcomes(slots@, slots@.len() as int) + out@);
            }
        }
        out
    }

    pub fn is_stopped(&self) -> (r: bool)
        ensures
            r == self.stopped,
    {
        self.stopped
    }
}

/// Whether `id` is among `ids`.
pub fn contains_id(ids: &Vec<CommitId>, id: &CommitId) -> (r: bool)
    ensures
        r == ids@.contains(*id),
{
    let mut i: usize = 0;
    while i < ids.len()
        invariant
            i <= ids@.len(),
            forall|j: int| 0 <= j < i ==> ids@[j] != *id,
        decreases ids@.len() - i,
    {
        if ids[i].same_as(id) {
            assert(ids@[i as int] == *id);
            return true;
        }
        i = i + 1;
    }
    false
}

/// However the evaluations complete, the state of a pipeline depends only on
/// what its slots hold: two well-formed pipelines with the same slots and the
/// same stop commit have collected the same slots, hence the same outcomes in
/// walk order.
pub proof fn lemma_outcomes_follow_walk_order<O>(a: Pipeline<O>, b: Pipeline<O>)
    requires
        a.wf(),
        b.wf(),
        a.slots@ == b.slots@,
        a.stop == b.stop,
    ensures
        a.collected == b.collected,
        a.stopped == b.stopped,
        a.gathered() == b.gathered(),
{
    if a.collected < b.collected {
        assert(!is_pending(b.slots@[a.collected as int]));
        assert(!b.is_stop(b.slots@[a.collected as int].id));
    }
    if b.collected < a.collected {
        assert(!is_pending(a.slots@[b.collected as int]));
        assert(!a.is_stop(a.slots@[b.collected as int].id));
    }
}

/// At no time are more evaluations in flight than the concurrency limit.
pub proof fn lemma_in_flight_within_limit<O>(p: Pipeline<O>)
    requires
        p.wf(),
    ensures
        in_flight(p.slots@).finite(),
        in_flight(p.slots@).len() <= p.limit,
{
    let window = vstd::set_lib::set_int_range(p.collected as int, p.slots@.len() as int);
    vstd::set_lib::lemma_int_range(p.collected as int, p.slots@.len() as int);
    assert forall|i: int| #[trigger] in_flight(p.slots@).contains(i) implies window.contains(i) by {
        if i < p.collected {
            assert(!is_pending(p.slots@[i]));
        }
    }
    assert(in_flight(p.slots@).subset_of(window));
    vstd::set_lib::lemma_len_subset(in_flight(p.slots@), window);
}

/// When the walk's first commit is the stop commit, nothing is collected.
pub proof fn lemma_stop_at_start<O>(p: Pipeline<O>)
    requires
        p.wf(),
        p.slots@.len() > 0,
        p.is_stop(p.slots@[0].id),
    ensures
        p.collected == 0,
        p.gathered() == Seq::<O>::empty(),
{
    if p.collected > 0 {
        assert(!p.is_stop(p.slots@[0].id));
    }
}

} // verus!
