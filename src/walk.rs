//! Ancestry walker: emits a start commit and its ancestors, highest
//! generation first, each at most once, optionally capped.
//!
//! Parent lookups are done by the caller: after each emitted commit the walk
//! waits for that commit's parents. The stop commit of a range is not checked
//! here but by the pipeline, in walk order, so that evaluations may run ahead
//! of it.
use vstd::prelude::*;
use crate::commit::CommitId;
use crate::pipeline::contains_id;

verus! {

/// A commit together with its generation number.
#[derive(Clone, Copy, Debug, PartialEq, Eq)]
pub struct Node {
    pub id: CommitId,
    pub generation: u64,
}

pub open spec fn ids_of(nodes: Seq<Node>) -> Seq<CommitId> {
    nodes.map_values(|n: Node| n.id)
}

pub struct AncestorWalk {
    /// Discovered commits that have not been emitted yet.
    pub queue: Vec<Node>,
    /// Every commit discovered so far.
    pub seen: Vec<CommitId>,
    /// How many more commits may be emitted; `None` for no cap.
    pub remaining: Option<u64>,
    /// Generation of the last emitted commit.
    pub last_generation: u64,
    /// Set after an emission until its parents are reported.
    pub awaiting_parents: bool,
    /// The commits emitted so far, in order.
    pub emitted: Ghost<Seq<Node>>,
    /// The cap the walk was started with.
    pub cap: Ghost<Option<u64>>,
}

impl AncestorWalk {
    pub open spec fn wf(&self) -> bool {
        &&& match (self.cap@, self.remaining) {
            (Some(c0), Some(c)) => self.emitted@.len() + c == c0,
            (None, None) => true,
            _ => false,
        }
        &&& forall|i: int, j: int| 0 <= i < j < self.emitted@.len()
            ==> (#[trigger] self.emitted@[i]).id != (#[trigger] self.emitted@[j]).id
        &&& forall|i: int, j: int| 0 <= i <= j < self.emitted@.len()
            ==> (#[trigger] self.emitted@[i]).generation >= (#[trigger] self.emitted@[j]).generation
        &&& self.emitted@.len() > 0 ==> self.last_generation == self.emitted@.last().generation
        &&& forall|j: int| 0 <= j < self.queue@.len()
            ==> (#[trigger] self.queue@[j]).generation <= self.last_generation
        &&& forall|i: int, j: int| 0 <= i < j < self.queue@.len()
            ==> (#[trigger] self.queue@[i]).id != (#[trigger] self.queue@[j]).id
        &&& forall|i: int, j: int| 0 <= i < self.emitted@.len() && 0 <= j < self.queue@.len()
            ==> (#[trigger] self.emitted@[i]).id != (#[trigger] self.queue@[j]).id
        &&& forall|id: CommitId| #[trigger] self.seen@.contains(id)
            <==> ids_of(self.emitted@).contains(id) || ids_of(self.queue@).contains(id)
    }

    /// A walk that starts at `start`, emitting at most `cap` commits when a
    /// cap is given.
    pub fn new(start: Node, cap: Option<u64>) -> (r: AncestorWalk)
        ensures
            r.wf(),
            r.queue@ == seq![start],
            r.seen@ == seq![start.id],
            r.remaining == cap,
            r.cap@ == cap,
            r.emitted@.len() == 0,
            !r.awaiting_parents,
    {
        let r = AncestorWalk {
            queue: vec![start],
            seen: vec![start.id],
            remaining: cap,
            last_generation: u64::MAX,
            awaiting_parents: false,
            emitted: Ghost(Seq::empty()),
            cap: Ghost(cap),
        };
        proof {
            assert(ids_of(r.queue@) =~= seq![start.id]);
            assert forall|id: CommitId| #[trigger] r.seen@.contains(id)
                <==> ids_of(r.emitted@).contains(id) || ids_of(r.queue@).contains(id) by {
                if ids_of(r.queue@).contains(id) {
                    assert(r.seen@[0] == id);
                }
                if r.seen@.contains(id) {
                    assert(ids_of(r.queue@)[0] == id);
                }
            }
        }
        r
    }

    pub open spec fn spec_exhausted(&self) -> bool {
        self.remaining == Some(0u64) || self.queue@.len() == 0
    }

    /// Emits the discovered commit of highest generation, or `None` once the
    /// cap is used up or nothing is left to emit.
    pub fn next(&mut self) -> (r: Option<Node>)
        requires
            old(self).wf(),
            !old(self).awaiting_parents,
        ensures
            final(self).wf(),
            r.is_none() <==> old(self).spec_exhausted(),
            r.is_none() ==> *final(self) == *old(self),
            r.is_some() ==> {
                let n = r.unwrap();
                &&& exists|k: int| 0 <= k < old(self).queue@.len()
                    && old(self).queue@[k] == n
                    && final(self).queue@ == old(self).queue@.remove(k)
                &&& forall|j: int| 0 <= j < old(self).queue@.len()
                    ==> (#[trigger] old(self).queue@[j]).generation <= n.generation
                &&& final(self).emitted@ == old(self).emitted@.push(n)
                &&& final(self).seen == old(self).seen
                &&& final(self).cap == old(self).cap
                &&& final(self).awaiting_parents
                &&& final(self).last_generation == n.generation
                &&& final(self).remaining == match old(self).remaining {
                    Some(c) => Some((c - 1) as u64),
                    None => None,
                }
            },
    {
        if self.queue.len() == 0 {
            return None;
        }
        match self.remaining {
            Some(c) => {
                if c == 0 {
                    return None;
                }
                self.remaining = Some(c - 1);
            },
            None => {},
        }
        let mut best: usize = 0;
        let mut i: usize = 1;
        while i < self.queue.len()
            invariant
                1 <= i <= self.queue@.len(),
                best < self.queue@.len(),
                forall|j: int| 0 <= j < i ==> (#[trigger] self.queue@[j]).generation
                    <= self.queue@[best as int].generation,
            decreases self.queue@.len() - i,
        {
            if self.queue[i].generation > self.queue[best].generation {
                best = i;
            }
            i = i + 1;
        }
        let ghost q0 = self.queue@;
        let ghost e0 = self.emitted@;
        let n = self.queue.remove(best);
        self.last_generation = n.generation;
        self.awaiting_parents = true;
        self.emitted = Ghost(e0.push(n));
        proof {
            assert(q0[best as int] == n);
            assert forall|i: int, j: int| 0 <= i < self.emitted@.len() && 0 <= j < self.queue@.len()
                implies (#[trigger] self.emitted@[i]).id != (#[trigger] self.queue@[j]).id by {
                if i < e0.len() {
                    assert(self.emitted@[i] == e0[i]);
                    if j < best { assert(self.queue@[j] == q0[j]); }
                    else { assert(self.queue@[j] == q0[j + 1]); }
                } else {
                    if j < best { assert(self.queue@[j] == q0[j]); }
                    else { assert(self.queue@[j] == q0[j + 1]); }
                }
            }
            assert forall|i: int, j: int| 0 <= i < j < self.emitted@.len()
                implies (#[trigger] self.emitted@[i]).id != (#[trigger] self.emitted@[j]).id by {
                if j == e0.len() {
                    assert(self.emitted@[i] == e0[i]);
                }
            }
            assert forall|id: CommitId| #[trigger] self.seen@.contains(id)
                <==> ids_of(self.emitted@).contains(id) || ids_of(self.queue@).contains(id) by {
                if ids_of(e0).contains(id) {
                    let k = choose|k: int| 0 <= k < e0.len() && ids_of(e0)[k] == id;
                    assert(ids_of(self.emitted@)[k] == id);
                }
                if ids_of(q0).contains(id) {
                    let k = choose|k: int| 0 <= k < q0.len() && ids_of(q0)[k] == id;
                    if k < best {
                        assert(ids_of(self.queue@)[k] == id);
                    } else if k == best {
                        assert(ids_of(self.emitted@)[e0.len() as int] == id);
                    } else {
                        assert(ids_of(self.queue@)[k - 1] == id);
                    }
                }
                if ids_of(self.emitted@).contains(id) {
                    let k = choose|k: int| 0 <= k < self.emitted@.len() && ids_of(self.emitted@)[k] == id;
                    if k < e0.len() {
                        assert(ids_of(e0)[k] == id);
                    } else {
                        assert(ids_of(q0)[best as int] == id);
                    }
                }
                if ids_of(self.queue@).contains(id) {
                    let k = choose|k: int| 0 <= k < self.queue@.len() && ids_of(self.queue@)[k] == id;
                    if k < best {
                        assert(ids_of(q0)[k] == id);
                    } else {
                        assert(ids_of(q0)[k + 1] == id);
                    }
                }
            }
        }
        Some(n)
    }
    /// Reports the parents of the last emitted commit. Each parent has a
    /// lower generation than its child; a parent already discovered is not
    /// queued again.
    pub fn add_parents(&mut self, parents: &Vec<Node>)
        requires
            old(self).wf(),
            old(self).awaiting_parents,
            forall|j: int| 0 <= j < parents@.len()
                ==> (#[trigger] parents@[j]).generation < old(self).last_generation,
        ensures
            final(self).wf(),
            !final(self).awaiting_parents,
            final(self).emitted == old(self).emitted,
            final(self).remaining == old(self).remaining,
            final(self).cap == old(self).cap,
            final(self).last_generation == old(self).last_generation,
            forall|id: CommitId| #[trigger] final(self).seen@.contains(id)
                <==> old(self).seen@.contains(id) || ids_of(parents@).contains(id),
            forall|id: CommitId| #[trigger] ids_of(final(self).queue@).contains(id)
                <==> ids_of(old(self).queue@).contains(id)
                    || (ids_of(parents@).contains(id) && !old(self).seen@.contains(id)),
    {
        self.awaiting_parents = false;
        let mut i: usize = 0;
        while i < parents.len()
            invariant
                i <= parents@.len(),
                self.wf(),
                !self.awaiting_parents,
                self.emitted == old(self).emitted,
                self.remaining == old(self).remaining,
                self.cap == old(self).cap,
                self.last_generation == old(self).last_generation,
                forall|j: int| 0 <= j < parents@.len()
                    ==> (#[trigger] parents@[j]).generation < old(self).last_generation,
                forall|id: CommitId| #[trigger] self.seen@.contains(id)
                    <==> old(self).seen@.contains(id) || ids_of(parents@.take(i as int)).contains(id),
                forall|id: CommitId| #[trigger] ids_of(self.queue@).contains(id)
                    <==> ids_of(old(self).queue@).contains(id)
                        || (ids_of(parents@.take(i as int)).contains(id) && !old(self).seen@.contains(id)),
            decreases parents@.len() - i,
        {
            let p = parents[i];
            let ghost q0 = self.queue@;
            let ghost s0 = self.seen@;
            let ghost t0 = parents@.take(i as int);
            let ghost t1 = parents@.take(i as int + 1);
            assert(t1 =~= t0.push(p));
            assert(ids_of(t1) =~= ids_of(t0).push(p.id));
            if !contains_id(&self.seen, &p.id) {
                self.queue.push(p);
                self.seen.push(p.id);
                proof {
                    assert(ids_of(self.queue@) =~= ids_of(q0).push(p.id));
                    assert(self.seen@ =~= s0.push(p.id));
                    assert forall|a: int, b: int| 0 <= a < b < self.queue@.len()
                        implies (#[trigger] self.queue@[a]).id != (#[trigger] self.queue@[b]).id by {
                        if b == q0.len() {
                            assert(ids_of(q0)[a] == self.queue@[a].id);
                        }
                    }
                    assert forall|a: int, b: int| 0 <= a < self.emitted@.len() && 0 <= b < self.queue@.len()
                        implies (#[trigger] self.emitted@[a]).id != (#[trigger] self.queue@[b]).id by {
                        if b == q0.len() {
                            assert(ids_of(self.emitted@)[a] == self.emitted@[a].id);
                        } else {
                            assert(self.queue@[b] == q0[b]);
                        }
                    }
                    assert forall|id: CommitId| #[trigger] self.seen@.contains(id)
                        <==> old(self).seen@.contains(id) || ids_of(t1).contains(id) by {
                        assert(s0.contains(id) <==> old(self).seen@.contains(id) || ids_of(t0).contains(id));
                        if ids_of(t0).contains(id) {
                            let k = choose|k: int| 0 <= k < ids_of(t0).len() && ids_of(t0)[k] == id;
                            assert(ids_of(t1)[k] == id);
                        }
                        if ids_of(t1).contains(id) && id != p.id {
                            let k = choose|k: int| 0 <= k < ids_of(t1).len() && ids_of(t1)[k] == id;
                            assert(ids_of(t0)[k] == id);
                        }
                        if s0.contains(id) {
                            let k = choose|k: int| 0 <= k < s0.len() && s0[k] == id;
                            assert(self.seen@[k] == id);
                        }
                        if self.seen@.contains(id) && id != p.id {
                            let k = choose|k: int| 0 <= k < self.seen@.len() && self.seen@[k] == id;
                            assert(s0[k] == id);
                        }
                        if id == p.id {
                            assert(ids_of(t1)[i as int] == id);
                            assert(self.seen@[s0.len() as int] == id);
                        }
                    }
                    assert forall|id: CommitId| #[trigger] ids_of(self.queue@).contains(id)
                        <==> ids_of(old(self).queue@).contains(id)
                            || (ids_of(t1).contains(id) && !old(self).seen@.contains(id)) by {
                        assert(ids_of(q0).contains(id) <==> ids_of(old(self).queue@).contains(id)
                            || (ids_of(t0).contains(id) && !old(self).seen@.contains(id)));
                        assert(s0.contains(id) <==> old(self).seen@.contains(id) || ids_of(t0).contains(id));
                        if ids_of(t0).contains(id) {
                            let k = choose|k: int| 0 <= k < ids_of(t0).len() && ids_of(t0)[k] == id;
                            assert(ids_of(t1)[k] == id);
                        }
                        if ids_of(t1).contains(id) && id != p.id {
                            let k = choose|k: int| 0 <= k < ids_of(t1).len() && ids_of(t1)[k] == id;
                            assert(ids_of(t0)[k] == id);
                        }
                        if ids_of(q0).contains(id) {
                            let k = choose|k: int| 0 <= k < q0.len() && ids_of(q0)[k] == id;
                            assert(ids_of(self.queue@)[k] == id);
                        }
                        if ids_of(self.queue@).contains(id) && id != p.id {
                            let k = choose|k: int| 0 <= k < self.queue@.len() && ids_of(self.queue@)[k] == id;
                            assert(ids_of(q0)[k] == id);
                        }
                        if id == p.id {
                            assert(ids_of(t1)[i as int] == id);
                            assert(ids_of(self.queue@)[q0.len() as int] == id);
                        }
                    }
                    assert forall|id: CommitId| #[trigger] self.seen@.contains(id)
                        <==> ids_of(self.emitted@).contains(id) || ids_of(self.queue@).contains(id) by {
                        if ids_of(q0).contains(id) {
                            let k = choose|k: int| 0 <= k < q0.len() && ids_of(q0)[k] == id;
                            assert(ids_of(self.queue@)[k] == id);
                        }
                        if s0.contains(id) {
                            let k = choose|k: int| 0 <= k < s0.len() && s0[k] == id;
                            assert(self.seen@[k] == id);
                        }
                        if self.seen@.contains(id) && id != p.id {
                            let k = choose|k: int| 0 <= k < self.seen@.len() && self.seen@[k] == id;
                            assert(s0[k] == id);
                        }
                        if ids_of(self.queue@).contains(id) && id != p.id {
                            let k = choose|k: int| 0 <= k < self.queue@.len() && ids_of(self.queue@)[k] == id;
                            assert(ids_of(q0)[k] == id);
                        }
                        if id == p.id {
                            assert(self.seen@[s0.len() as int] == id);
                            assert(ids_of(self.queue@)[q0.len() as int] == id);
                        }
                    }
                }
            } else {
                proof {
                    assert forall|id: CommitId| #[trigger] self.seen@.contains(id)
                        <==> old(self).seen@.contains(id) || ids_of(t1).contains(id) by {
                        assert(s0.contains(id) <==> old(self).seen@.contains(id) || ids_of(t0).contains(id));
                        if ids_of(t0).contains(id) {
                            let k = choose|k: int| 0 <= k < ids_of(t0).len() && ids_of(t0)[k] == id;
                            assert(ids_of(t1)[k] == id);
                        }
                        if ids_of(t1).contains(id) && id != p.id {
                            let k = choose|k: int| 0 <= k < ids_of(t1).len() && ids_of(t1)[k] == id;
                            assert(ids_of(t0)[k] == id);
                        }
                        if id == p.id {
                            assert(ids_of(t1)[i as int] == id);
                        }
                    }
                    assert forall|id: CommitId| #[trigger] ids_of(self.queue@).contains(id)
                        <==> ids_of(old(self).queue@).contains(id)
                            || (ids_of(t1).contains(id) && !old(self).seen@.contains(id)) by {
                        assert(ids_of(q0).contains(id) <==> ids_of(old(self).queue@).contains(id)
                            || (ids_of(t0).contains(id) && !old(self).seen@.contains(id)));
                        assert(s0.contains(id) <==> old(self).seen@.contains(id) || ids_of(t0).contains(id));
                        if ids_of(t0).contains(id) {
                            let k = choose|k: int| 0 <= k < ids_of(t0).len() && ids_of(t0)[k] == id;
                            assert(ids_of(t1)[k] == id);
                        }
                        if ids_of(t1).contains(id) && id != p.id {
                            let k = choose|k: int| 0 <= k < ids_of(t1).len() && ids_of(t1)[k] == id;
                            assert(ids_of(t0)[k] == id);
                        }
                        if id == p.id {
                            assert(ids_of(t1)[i as int] == id);
                        }
                    }
                }
            }
            i = i + 1;
        }
        assert(parents@.take(parents@.len() as int) =~= parents@);
    }
}

/// A capped walk never emits more commits than its cap.
pub proof fn lemma_walk_within_cap(w: AncestorWalk)
    requires
        w.wf(),
        w.cap@.is_some(),
    ensures
        w.emitted@.len() <= w.cap@.unwrap(),
{
}

/// A walk emits no commit twice, emits commits in non-increasing generation
/// order, and once nothing is left to emit it has emitted every commit it
/// discovered: the start and every parent reported along the way.
pub proof fn lemma_walk_emits_each_once(w: AncestorWalk)
    requires
        w.wf(),
    ensures
        forall|i: int, j: int| 0 <= i < j < w.emitted@.len()
            ==> (#[trigger] w.emitted@[i]).id != (#[trigger] w.emitted@[j]).id,
        forall|i: int, j: int| 0 <= i <= j < w.emitted@.len()
            ==> (#[trigger] w.emitted@[i]).generation >= (#[trigger] w.emitted@[j]).generation,
        w.queue@.len() == 0 ==> forall|id: CommitId| #[trigger] w.seen@.contains(id)
            <==> ids_of(w.emitted@).contains(id),
{

    if w.queue@.len() == 0 {
        assert forall|id: CommitId| #[trigger] w.seen@.contains(id)
            <==> ids_of(w.emitted@).contains(id) by {
            if ids_of(w.queue@).contains(id) {
                let k = choose|k: int| 0 <= k < ids_of(w.queue@).len() && ids_of(w.queue@)[k] == id;
            }
        }
    }
}

/// Whether `to` is reached from `from` by following `k` parent links.
pub open spec fn reaches(
    parents: spec_fn(CommitId) -> Seq<CommitId>,
    from: CommitId,
    to: CommitId,
    k: nat,
) -> bool
    decreases k,
{
    if k == 0 {
        from == to
    } else {
        exists|p: CommitId| #[trigger] parents(from).contains(p) && reaches(parents, p, to, (k - 1) as nat)
    }
}

/// A walk that has nothing left to emit, and whose emitted commits all had
/// their parents reported, has emitted every ancestor of every commit it
/// discovered.
pub proof fn lemma_walk_reaches_all_ancestors(
    w: AncestorWalk,
    parents: spec_fn(CommitId) -> Seq<CommitId>,
    start: CommitId,
    id: CommitId,
    k: nat,
)
    requires
        w.wf(),
        w.queue@.len() == 0,
        w.seen@.contains(start),
        forall|i: int, p: CommitId| 0 <= i < w.emitted@.len() && #[trigger] parents(w.emitted@[i].id).contains(p)
            ==> w.seen@.contains(p),
        reaches(parents, start, id, k),
    ensures
        ids_of(w.emitted@).contains(id),
    decreases k,
{
    lemma_walk_emits_each_once(w);
    if k > 0 {
        let p = choose|p: CommitId| #[trigger] parents(start).contains(p) && reaches(parents, p, id, (k - 1) as nat);
        assert(ids_of(w.emitted@).contains(start));
        let i = choose|i: int| 0 <= i < ids_of(w.emitted@).len() && ids_of(w.emitted@)[i] == start;
        assert(parents(w.emitted@[i].id).contains(p));
        lemma_walk_reaches_all_ancestors(w, parents, p, id, (k - 1) as nat);
    } else {
        assert(w.seen@.contains(id));
    }
}

} // verus!
