//! One range of a run: an ancestry walk feeding the evaluation pipeline.
use vstd::prelude::*;
use crate::pipeline::{Acceptance, Pipeline, is_pending};
use crate::tailer::{range_move, Move};
use crate::walk::{AncestorWalk, Node, ids_of};

verus! {

pub struct RangeRun<O> {
    pub walk: AncestorWalk,
    pub pipeline: Pipeline<O>,
}

impl<O> RangeRun<O> {
    /// The pipeline has accepted exactly the commits emitted by the walk, in
    /// the order of the walk.
    pub open spec fn wf(&self) -> bool {
        &&& self.walk.wf()
        &&& self.pipeline.wf()
        &&& self.pipeline.walked() == ids_of(self.walk.emitted@)
    }

    pub fn new(walk: AncestorWalk, pipeline: Pipeline<O>) -> (r: RangeRun<O>)
        requires
            walk.wf(),
            pipeline.wf(),
            walk.emitted@.len() == 0,
            pipeline.slots@.len() == 0,
        ensures
            r.wf(),
            r.walk == walk,
            r.pipeline == pipeline,
    {
        let r = RangeRun { walk, pipeline };
        proof {
            assert(r.pipeline.walked() =~= ids_of(r.walk.emitted@));
        }
        r
    }

    pub fn next_move(&self) -> (r: Move)
        requires
            self.wf(),
        ensures
            r == Move::Finished <==> self.pipeline.stopped
                || (self.walk.spec_exhausted() && self.pipeline.collected == self.pipeline.slots@.len()),
            r == Move::Pull <==> r != Move::Finished && self.pipeline.spec_has_room()
                && !self.walk.spec_exhausted(),
            r == Move::Wait ==> self.pipeline.collected < self.pipeline.slots@.len()
                && is_pending(self.pipeline.slots@[self.pipeline.collected as int]),
    {
        range_move(&self.walk, &self.pipeline)
    }

    /// Takes the next commit from the walk and accepts it into the pipeline.
    /// The caller then reports the commit's parents with `add_parents`.
    pub fn pull(&mut self) -> (r: (Node, Acceptance))
        requires
            old(self).wf(),
            !old(self).walk.awaiting_parents,
            old(self).pipeline.spec_has_room(),
            !old(self).walk.spec_exhausted(),
        ensures
            final(self).wf(),
            final(self).walk.awaiting_parents,
            final(self).walk.emitted@ == old(self).walk.emitted@.push(r.0),
            final(self).pipeline.walked() == old(self).pipeline.walked().push(r.0.id),
            old(self).pipeline.excludes@.contains(r.0.id) ==> r.1 == Acceptance::Skip,
            !old(self).pipeline.excludes@.contains(r.0.id)
                ==> r.1 == Acceptance::Evaluate(old(self).pipeline.slots@.len() as usize),
            final(self).pipeline.stop == old(self).pipeline.stop,
            final(self).pipeline.limit == old(self).pipeline.limit,
            final(self).pipeline.excludes == old(self).pipeline.excludes,
            final(self).walk.cap == old(self).walk.cap,
    {
        let n = self.walk.next().unwrap();
        let a = self.pipeline.accept(n.id);
        proof {
            assert(ids_of(self.walk.emitted@) =~= ids_of(old(self).walk.emitted@).push(n.id));
        }
        (n, a)
    }

    /// Reports the parents of the commit taken by the last `pull`.
    pub fn add_parents(&mut self, parents: &Vec<Node>)
        requires
            old(self).wf(),
            old(self).walk.awaiting_parents,
            forall|j: int| 0 <= j < parents@.len()
                ==> (#[trigger] parents@[j]).generation < old(self).walk.last_generation,
        ensures
            final(self).wf(),
            !final(self).walk.awaiting_parents,
            final(self).pipeline == old(self).pipeline,
            final(self).walk.emitted == old(self).walk.emitted,
            final(self).walk.cap == old(self).walk.cap,
            forall|id| #[trigger] final(self).walk.seen@.contains(id)
                <==> old(self).walk.seen@.contains(id) || ids_of(parents@).contains(id),
    {
        self.walk.add_parents(parents);
    }

    /// Records the outcomes of the evaluation handed out under `idx`.
    pub fn complete(&mut self, idx: usize, outcomes: Vec<O>)
        requires
            old(self).wf(),
            idx < old(self).pipeline.slots@.len(),
            is_pending(old(self).pipeline.slots@[idx as int]),
        ensures
            final(self).wf(),
            final(self).walk == old(self).walk,
            final(self).pipeline.slots@ == old(self).pipeline.slots@.update(idx as int,
                crate::pipeline::Slot {
                    id: old(self).pipeline.slots@[idx as int].id,
                    excluded: false,
                    outcomes: Some(outcomes),
                }),
            final(self).pipeline.stop == old(self).pipeline.stop,
            final(self).pipeline.limit == old(self).pipeline.limit,
            final(self).pipeline.excludes == old(self).pipeline.excludes,
    {
        self.pipeline.complete(idx, outcomes);
        proof {
            assert(self.pipeline.walked() =~= old(self).pipeline.walked());
        }
    }

    /// The outcomes in walk order, and whether the stop commit was reached.
    pub fn finish(self) -> (r: (Vec<O>, bool))
        requires
            self.wf(),
        ensures
            r.0@ == self.pipeline.gathered(),
            r.1 == self.pipeline.stopped,
    {
        let stopped = self.pipeline.is_stopped();
        (self.pipeline.into_outcomes(), stopped)
    }
}

/// A range accepts no more commits than its walk's cap, so no more than the
/// cap are ever handed out for evaluation.
pub proof fn lemma_range_within_cap<O>(r: RangeRun<O>)
    requires
        r.wf(),
        r.walk.cap@.is_some(),
    ensures
        r.pipeline.slots@.len() <= r.walk.cap@.unwrap(),
{
    assert(r.pipeline.walked().len() == r.pipeline.slots@.len());
}

} // verus!
