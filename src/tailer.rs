//! The tailer orchestrator: resolve the bookmark, read the checkpoint, walk
//! and evaluate the range since the checkpoint, then write the checkpoint.
//!
//! Each stage that waits on storage is performed by the caller, which reports
//! its result as an event; `step` decides the next state and action.
use vstd::prelude::*;
use crate::commit::CommitId;
use crate::pipeline::{is_pending, Pipeline};
use crate::text::{concat, decimal, decimal_of};
use crate::range::RangeRun;
use crate::walk::{AncestorWalk, Node};

verus! {

/// Why a run failed.
#[derive(Clone, Debug, PartialEq, Eq)]
pub enum ErrorKind {
    /// The configured bookmark is not mapped to a commit.
    NoSuchBookmark(String),
    /// No checkpoint has been stored for this repository.
    NoLastRevision,
    /// The stored checkpoint is not a commit identifier.
    InvalidLastRevision,
    /// A hook evaluation failed.
    EvaluatorFailure(String),
    /// Reading or writing the checkpoint failed.
    StoreFailure(String),
    /// Looking up the parents of a commit failed.
    WalkFailure(String),
}

/// The stages of one run.
#[derive(Clone, Debug, PartialEq, Eq)]
pub enum RunState {
    Idle,
    ResolvingBookmark,
    ReadingCheckpoint { head: CommitId },
    RangeProcessing { head: CommitId, checkpoint: CommitId },
    WritingCheckpoint { head: CommitId, truncated: bool },
    Done,
    Failed,
}

/// What the caller reports back.
#[derive(Clone, Debug, PartialEq, Eq)]
pub enum Event {
    BookmarkResolved(Option<CommitId>),
    CheckpointRead(Option<Vec<u8>>),
    /// The range has been evaluated; `reached_checkpoint` tells whether the
    /// walk got to the checkpoint before the batch limit.
    RangeFinished { reached_checkpoint: bool },
    CheckpointWritten,
    StepFailed(ErrorKind),
}

/// What the caller is asked to do next.
#[derive(Clone, Debug, PartialEq, Eq)]
pub enum Action {
    ResolveBookmark(String),
    ReadCheckpoint(String),
    /// Walk from `head` with `range_walk` and evaluate with `range_pipeline`.
    ProcessRange { head: CommitId, checkpoint: CommitId },
    WriteCheckpoint { key: String, bytes: Vec<u8> },
    /// The run succeeded; `truncated` tells whether the batch limit cut the
    /// walk before the checkpoint, leaving commits unevaluated.
    Finish { truncated: bool },
    Fail(ErrorKind),
    /// The event does not belong to the current state: nothing to do.
    Nothing,
}

/// The key under which the checkpoint of a repository is stored.
pub open spec fn last_rev_key_of(repo_id: int) -> Seq<char> {
    "__mononoke_hook_tailer_last_rev."@ + decimal(repo_id)
}

pub struct Tailer {
    pub bookmark: String,
    pub last_rev_key: String,
    pub excludes: Vec<CommitId>,
    pub disabled_hooks: Vec<String>,
    pub batch_limit: u64,
    pub concurrency_limit: usize,
}

/// One evaluation of a bookmark's hooks on one commit.
pub struct HookRun {
    pub bookmark: String,
    pub changeset: CommitId,
}

/// What a range driver should do next.
#[derive(Clone, Copy, Debug, PartialEq, Eq)]
pub enum Move {
    /// Take the next commit from the walk and accept it into the pipeline.
    Pull,
    /// Wait for an evaluation in flight to complete.
    Wait,
    /// The range is done: collect the outcomes.
    Finished,
}

/// Decides the next move of a range driver: pull while the walk has commits
/// and the pipeline has room, wait while evaluations are outstanding.
pub fn range_move<O>(walk: &AncestorWalk, pipeline: &Pipeline<O>) -> (r: Move)
    requires
        pipeline.wf(),
    ensures
        r == Move::Finished <==> pipeline.stopped
            || (walk.spec_exhausted() && pipeline.collected == pipeline.slots@.len()),
        r == Move::Pull <==> r != Move::Finished && pipeline.spec_has_room() && !walk.spec_exhausted(),
        r == Move::Wait ==> pipeline.collected < pipeline.slots@.len()
            && is_pending(pipeline.slots@[pipeline.collected as int]),
{
    let exhausted = walk.queue.len() == 0 || walk.remaining == Some(0u64);
    if pipeline.is_stopped() || (exhausted && pipeline.is_settled()) {
        Move::Finished
    } else if pipeline.has_room() && !exhausted {
        Move::Pull
    } else {
        Move::Wait
    }
}

impl Tailer {
    /// A tailer for `bookmark` of repository `repo_id`. Both limits are
    /// caller-supplied; at least one evaluation must be allowed in flight.
    pub fn new(
        repo_id: i32,
        bookmark: String,
        excludes: Vec<CommitId>,
        disabled_hooks: Vec<String>,
        batch_limit: u64,
        concurrency_limit: usize,
    ) -> (r: Tailer)
        requires
            concurrency_limit > 0,
        ensures
            r.wf(),
            r.bookmark == bookmark,
            r.last_rev_key@ == last_rev_key_of(repo_id as int),
            r.excludes == excludes,
            r.disabled_hooks == disabled_hooks,
            r.batch_limit == batch_limit,
            r.concurrency_limit == concurrency_limit,
    {
        let id_text = decimal_of(repo_id);
        let last_rev_key = concat("__mononoke_hook_tailer_last_rev.", id_text.as_str());
        Tailer { bookmark, last_rev_key, excludes, disabled_hooks, batch_limit, concurrency_limit }
    }

    pub open spec fn wf(&self) -> bool {
        self.concurrency_limit > 0
    }

    pub fn get_last_rev_key(&self) -> (r: String)
        ensures
            r@ == self.last_rev_key@,
    {
        self.last_rev_key.clone()
    }

    /// Evaluation of one given commit: no walk, no checkpoint.
    pub fn run_single_changeset(&self, changeset: CommitId) -> (r: HookRun)
        ensures
            r.bookmark@ == self.bookmark@,
            r.changeset == changeset,
    {
        HookRun { bookmark: self.bookmark.clone(), changeset }
    }

    /// Starts a run: the first step is to resolve the bookmark.
    pub fn run(&self) -> (r: (RunState, Action))
        ensures
            r.0 == RunState::ResolvingBookmark,
            r.1 matches Action::ResolveBookmark(name) && name@ == self.bookmark@,
    {
        (RunState::ResolvingBookmark, Action::ResolveBookmark(self.bookmark.clone()))
    }

    /// The walk of a range: from `head`, at most `batch_limit` commits.
    pub fn range_walk(&self, head: Node) -> (r: AncestorWalk)
        ensures
            r.wf(),
            r.queue@ == seq![head],
            r.seen@ == seq![head.id],
            r.remaining == Some(self.batch_limit),
            r.cap@ == Some(self.batch_limit),
            r.emitted@.len() == 0,
            !r.awaiting_parents,
    {
        AncestorWalk::new(head, Some(self.batch_limit))
    }

    /// The pipeline of a range: it stops at the checkpoint, which is itself
    /// never part of the outcomes.
    pub fn range_pipeline<O>(&self, checkpoint: CommitId) -> (r: Pipeline<O>)
        requires
            self.wf(),
        ensures
            r.wf(),
            r.limit == self.concurrency_limit,
            r.stop == Some(checkpoint),
            r.excludes@ == self.excludes@,
            r.slots@.len() == 0,
            r.collected == 0,
            !r.stopped,
    {
        Pipeline::new(self.concurrency_limit, Some(checkpoint), self.excludes.clone())
    }

    /// The range of a run: from `head`, at most `batch_limit` commits,
    /// stopping at the checkpoint.
    pub fn range<O>(&self, head: Node, checkpoint: CommitId) -> (r: RangeRun<O>)
        requires
            self.wf(),
        ensures
            r.wf(),
            r.walk.queue@ == seq![head],
            r.walk.cap@ == Some(self.batch_limit),
            r.walk.emitted@.len() == 0,
            !r.walk.awaiting_parents,
            r.pipeline.limit == self.concurrency_limit,
            r.pipeline.stop == Some(checkpoint),
            r.pipeline.excludes@ == self.excludes@,
            r.pipeline.slots@.len() == 0,
    {
        RangeRun::new(self.range_walk(head), self.range_pipeline(checkpoint))
    }

    /// A sampled run, outside the checkpoint protocol: from the bookmark's
    /// head, at most `limit` commits, with no stop commit.
    pub fn run_with_limit<O>(&self, head: Option<Node>, limit: u64)
        -> (r: Result<RangeRun<O>, ErrorKind>)
        requires
            self.wf(),
        ensures
            head.is_none() ==> (r matches Err(ErrorKind::NoSuchBookmark(name)) && name@ == self.bookmark@),
            head.is_some() ==> (r matches Ok(run) && {
                &&& run.wf()
                &&& run.walk.queue@ == seq![head.unwrap()]
                &&& run.walk.cap@ == Some(limit)
                &&& run.walk.emitted@.len() == 0
                &&& !run.walk.awaiting_parents
                &&& run.pipeline.limit == self.concurrency_limit
                &&& run.pipeline.stop.is_none()
                &&& run.pipeline.excludes@ == self.excludes@
                &&& run.pipeline.slots@.len() == 0
            }),
    {
        match head {
            None => Err(ErrorKind::NoSuchBookmark(self.bookmark.clone())),
            Some(h) => Ok(RangeRun::new(
                AncestorWalk::new(h, Some(limit)),
                Pipeline::new(self.concurrency_limit, None, self.excludes.clone()),
            )),
        }
    }
}

/// Whether a run in this state still waits for an event.
pub open spec fn is_live(state: RunState) -> bool {
    !(state is Idle || state is Done || state is Failed)
}

impl Tailer {
    /// The transitions of a run: what `step` returns for a state and an
    /// event.
    pub open spec fn transition(&self, state: RunState, event: Event, r: (RunState, Action)) -> bool {
        match event {
            Event::StepFailed(e) => if is_live(state) {
                r == (RunState::Failed, Action::Fail(e))
            } else {
                r == (state, Action::Nothing)
            },
            Event::BookmarkResolved(resolved) => match state {
                RunState::ResolvingBookmark => match resolved {
                    None => r.0 == RunState::Failed
                        && (r.1 matches Action::Fail(ErrorKind::NoSuchBookmark(name))
                            && name@ == self.bookmark@),
                    Some(head) => r.0 == (RunState::ReadingCheckpoint { head })
                        && (r.1 matches Action::ReadCheckpoint(key) && key@ == self.last_rev_key@),
                },
                _ => r == (state, Action::Nothing),
            },
            Event::CheckpointRead(stored) => match state {
                RunState::ReadingCheckpoint { head } => match stored {
                    None => r == (RunState::Failed, Action::Fail(ErrorKind::NoLastRevision)),
                    Some(bytes) => if bytes@.len() == 32 {
                        exists|checkpoint: CommitId| checkpoint@ == bytes@
                            && r.0 == (RunState::RangeProcessing { head, checkpoint })
                            && r.1 == (Action::ProcessRange { head, checkpoint })
                    } else {
                        r == (RunState::Failed, Action::Fail(ErrorKind::InvalidLastRevision))
                    },
                },
                _ => r == (state, Action::Nothing),
            },
            Event::RangeFinished { reached_checkpoint } => match state {
                RunState::RangeProcessing { head, checkpoint } =>
                    r.0 == (RunState::WritingCheckpoint { head, truncated: !reached_checkpoint })
                    && (r.1 matches Action::WriteCheckpoint { key, bytes }
                        && key@ == self.last_rev_key@ && bytes@ == head@),
                _ => r == (state, Action::Nothing),
            },
            Event::CheckpointWritten => match state {
                RunState::WritingCheckpoint { head, truncated } =>
                    r == (RunState::Done, Action::Finish { truncated }),
                _ => r == (state, Action::Nothing),
            },
        }
    }

    /// Advances a run by one event.
    pub fn step(&self, state: RunState, event: Event) -> (r: (RunState, Action))
        ensures
            self.transition(state, event, r),
    {
        match event {
            Event::StepFailed(e) => {
                let live = match state {
                    RunState::Idle | RunState::Done | RunState::Failed => false,
                    _ => true,
                };
                if live {
                    (RunState::Failed, Action::Fail(e))
                } else {
                    (state, Action::Nothing)
                }
            },
            Event::BookmarkResolved(resolved) => match state {
                RunState::ResolvingBookmark => match resolved {
                    None => (RunState::Failed, Action::Fail(ErrorKind::NoSuchBookmark(self.bookmark.clone()))),
                    Some(head) => (
                        RunState::ReadingCheckpoint { head },
                        Action::ReadCheckpoint(self.last_rev_key.clone()),
                    ),
                },
                _ => (state, Action::Nothing),
            },
            Event::CheckpointRead(stored) => match state {
                RunState::ReadingCheckpoint { head } => match stored {
                    None => (RunState::Failed, Action::Fail(ErrorKind::NoLastRevision)),
                    Some(bytes) => match CommitId::from_bytes(bytes.as_slice()) {
                        None => (RunState::Failed, Action::Fail(ErrorKind::InvalidLastRevision)),
                        Some(checkpoint) => (
                            RunState::RangeProcessing { head, checkpoint },
                            Action::ProcessRange { head, checkpoint },
                        ),
                    },
                },
                _ => (state, Action::Nothing),
            },
            Event::RangeFinished { reached_checkpoint } => match state {
                RunState::RangeProcessing { head, checkpoint } => (
                    RunState::WritingCheckpoint { head, truncated: !reached_checkpoint },
                    Action::WriteCheckpoint { key: self.last_rev_key.clone(), bytes: head.to_bytes() },
                ),
                _ => (state, Action::Nothing),
            },
            Event::CheckpointWritten => match state {
                RunState::WritingCheckpoint { head, truncated } => (RunState::Done, Action::Finish { truncated }),
                _ => (state, Action::Nothing),
            },
        }
    }
}

/// A failed run stays failed and asks for nothing more, whatever is reported.
pub proof fn lemma_failed_is_terminal(t: Tailer, event: Event, r: (RunState, Action))
    requires
        t.transition(RunState::Failed, event, r),
    ensures
        r == (RunState::Failed, Action::Nothing),
{
}

/// A run that finds no checkpoint fails with `NoLastRevision` before any
/// range is processed and writes no checkpoint afterwards.
pub proof fn lemma_missing_checkpoint(t: Tailer, head: CommitId, r: (RunState, Action))
    requires
        t.transition(RunState::ReadingCheckpoint { head }, Event::CheckpointRead(None), r),
    ensures
        r == (RunState::Failed, Action::Fail(ErrorKind::NoLastRevision)),
{
}

/// When the checkpoint is the bookmark head, the range collects no outcome
/// and the checkpoint is rewritten with the bytes it already had.
pub proof fn lemma_checkpoint_at_head<O>(
    t: Tailer,
    head: CommitId,
    p: Pipeline<O>,
    reached: bool,
    r: (RunState, Action),
)
    requires
        p.wf(),
        p.stop == Some(head),
        p.slots@.len() > 0,
        p.slots@[0].id == head,
        t.transition(
            RunState::RangeProcessing { head, checkpoint: head },
            Event::RangeFinished { reached_checkpoint: reached },
            r,
        ),
    ensures
        p.gathered() == Seq::<O>::empty(),
        r.1 matches Action::WriteCheckpoint { key, bytes } && bytes@ == head@,
{
    crate::pipeline::lemma_stop_at_start(p);
}

} // verus!
