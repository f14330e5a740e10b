use hook_tailer::commit::CommitId;
use hook_tailer::pipeline::{Acceptance, Pipeline};
use hook_tailer::range::RangeRun;
use hook_tailer::tailer::{range_move, Action, ErrorKind, Event, Move, RunState, Tailer};
use hook_tailer::walk::{AncestorWalk, Node};
use std::collections::HashMap;

fn cid(n: u8) -> CommitId {
    CommitId::from_array([n; 32])
}

fn label(id: &CommitId) -> String {
    format!("C{}", id.hash[0])
}

/// Commit number -> (generation, parents).
struct Graph {
    nodes: HashMap<u8, (u64, Vec<u8>)>,
}

impl Graph {
    fn linear(n: u8) -> Graph {
        let mut nodes = HashMap::new();
        for i in 1..=n {
            let parents = if i == 1 { vec![] } else { vec![i - 1] };
            nodes.insert(i, (i as u64, parents));
        }
        Graph { nodes }
    }

    fn node(&self, n: u8) -> Node {
        Node { id: cid(n), generation: self.nodes[&n].0 }
    }

    fn parents(&self, id: &CommitId) -> Vec<Node> {
        self.nodes[&id.hash[0]].1.iter().map(|p| self.node(*p)).collect()
    }
}

/// Which outstanding evaluation completes first.
#[derive(Clone, Copy)]
enum Order {
    Oldest,
    Newest,
}

struct RangeReport {
    outcomes: Vec<String>,
    evaluated: Vec<String>,
    walked: Vec<String>,
    max_in_flight: usize,
    stopped: bool,
}

fn drive(g: &Graph, mut run: RangeRun<String>, order: Order) -> RangeReport {
    let mut pending: Vec<(usize, CommitId)> = Vec::new();
    let mut evaluated = Vec::new();
    let mut walked = Vec::new();
    let mut max_in_flight = 0;
    loop {
        match run.next_move() {
            Move::Pull => {
                let (n, acceptance) = run.pull();
                walked.push(label(&n.id));
                run.add_parents(&g.parents(&n.id));
                match acceptance {
                    Acceptance::Evaluate(i) => {
                        evaluated.push(label(&n.id));
                        pending.push((i, n.id));
                    }
                    Acceptance::Skip => {}
                }
                max_in_flight = max_in_flight.max(pending.len());
            }
            Move::Wait => {
                let (i, id) = match order {
                    Order::Oldest => pending.remove(0),
                    Order::Newest => pending.pop().unwrap(),
                };
                run.complete(i, vec![label(&id)]);
            }
            Move::Finished => break,
        }
    }
    let (outcomes, stopped) = run.finish();
    RangeReport { outcomes, evaluated, walked, max_in_flight, stopped }
}

fn tailer(excludes: Vec<CommitId>, batch_limit: u64, concurrency: usize) -> Tailer {
    Tailer::new(7, "main".to_string(), excludes, vec![], batch_limit, concurrency)
}

struct RunReport {
    result: Result<(Vec<String>, bool), ErrorKind>,
    evaluated: usize,
    writes: usize,
    checkpoint: Option<Vec<u8>>,
}

fn full_run(t: &Tailer, g: &Graph, bookmark: Option<u8>, checkpoint: Option<Vec<u8>>) -> RunReport {
    let mut stored = checkpoint;
    let mut writes = 0;
    let mut evaluated = 0;
    let mut outcomes = Vec::new();
    let (mut state, mut action) = t.run();
    loop {
        let event = match action {
            Action::ResolveBookmark(name) => {
                assert_eq!(name, "main");
                Event::BookmarkResolved(bookmark.map(cid))
            }
            Action::ReadCheckpoint(key) => {
                assert_eq!(key, t.get_last_rev_key());
                Event::CheckpointRead(stored.clone())
            }
            Action::ProcessRange { head, checkpoint } => {
                let report = drive(g, t.range(g.node(head.hash[0]), checkpoint), Order::Newest);
                evaluated += report.evaluated.len();
                outcomes = report.outcomes;
                Event::RangeFinished { reached_checkpoint: report.stopped }
            }
            Action::WriteCheckpoint { key, bytes } => {
                assert_eq!(key, t.get_last_rev_key());
                writes += 1;
                stored = Some(bytes);
                Event::CheckpointWritten
            }
            Action::Finish { truncated } => {
                assert_eq!(state, RunState::Done);
                return RunReport {
                    result: Ok((outcomes, truncated)),
                    evaluated,
                    writes,
                    checkpoint: stored,
                };
            }
            Action::Fail(e) => {
                assert_eq!(state, RunState::Failed);
                return RunReport { result: Err(e), evaluated, writes, checkpoint: stored };
            }
            Action::Nothing => panic!("unexpected event"),
        };
        let next = t.step(state, event);
        state = next.0;
        action = next.1;
    }
}

#[test]
fn last_rev_key_names_the_repository() {
    assert_eq!(tailer(vec![], 10, 1).get_last_rev_key(), "__mononoke_hook_tailer_last_rev.7");
    let t = Tailer::new(-12, "b".to_string(), vec![], vec![], 1, 1);
    assert_eq!(t.get_last_rev_key(), "__mononoke_hook_tailer_last_rev.-12");
}

#[test]
fn concrete_range_scenario() {
    let g = Graph::linear(5);
    let t = tailer(vec![], 10, 4);
    let r = full_run(&t, &g, Some(5), Some(cid(2).to_bytes()));
    let (outcomes, truncated) = r.result.expect("run succeeds");
    assert_eq!(outcomes, vec!["C5", "C4", "C3"]);
    assert!(!truncated);
    assert_eq!(r.writes, 1);
    assert_eq!(r.checkpoint, Some(cid(5).to_bytes()));
}

#[test]
fn checkpoint_at_head_gives_no_outcomes() {
    let g = Graph::linear(5);
    let t = tailer(vec![], 10, 3);
    let r = full_run(&t, &g, Some(5), Some(cid(5).to_bytes()));
    let (outcomes, truncated) = r.result.expect("run succeeds");
    assert!(outcomes.is_empty());
    assert!(!truncated);
    assert_eq!(r.writes, 1);
    assert_eq!(r.checkpoint, Some(cid(5).to_bytes()));
}

#[test]
fn missing_checkpoint_fails_without_work() {
    let g = Graph::linear(5);
    let t = tailer(vec![], 10, 3);
    let r = full_run(&t, &g, Some(5), None);
    assert_eq!(r.result, Err(ErrorKind::NoLastRevision));
    assert_eq!(r.evaluated, 0);
    assert_eq!(r.writes, 0);
    assert_eq!(r.checkpoint, None);
}

#[test]
fn unknown_bookmark_fails() {
    let g = Graph::linear(2);
    let t = tailer(vec![], 10, 3);
    let r = full_run(&t, &g, None, Some(cid(1).to_bytes()));
    assert_eq!(r.result, Err(ErrorKind::NoSuchBookmark("main".to_string())));
    assert_eq!(r.writes, 0);
}

#[test]
fn malformed_checkpoint_fails() {
    let g = Graph::linear(2);
    let t = tailer(vec![], 10, 3);
    let r = full_run(&t, &g, Some(2), Some(vec![1, 2, 3]));
    assert_eq!(r.result, Err(ErrorKind::InvalidLastRevision));
    assert_eq!(r.evaluated, 0);
    assert_eq!(r.writes, 0);
}

#[test]
fn failure_during_a_stage_is_terminal() {
    let t = tailer(vec![], 10, 3);
    let (state, _) = t.run();
    let (state, action) = t.step(state, Event::StepFailed(ErrorKind::StoreFailure("down".to_string())));
    assert_eq!(state, RunState::Failed);
    assert_eq!(action, Action::Fail(ErrorKind::StoreFailure("down".to_string())));
    let (state, action) = t.step(state, Event::CheckpointWritten);
    assert_eq!(state, RunState::Failed);
    assert_eq!(action, Action::Nothing);
}

#[test]
fn batch_limit_caps_evaluations() {
    // 1500 commits in a line, too many for one-byte names: ids carry their
    // generation in their first four bytes.
    let ids: Vec<CommitId> = (0..1500u32)
        .map(|i| {
            let mut h = [0u8; 32];
            h[..4].copy_from_slice(&i.to_be_bytes());
            CommitId::from_array(h)
        })
        .collect();
    let gen_of = |id: &CommitId| u32::from_be_bytes([id.hash[0], id.hash[1], id.hash[2], id.hash[3]]);
    let t = tailer(vec![], 1000, 100);
    let head = ids[1499];
    let checkpoint = ids[0];
    let mut walk = t.range_walk(Node { id: head, generation: 1499 });
    let mut pipe: Pipeline<u32> = t.range_pipeline(checkpoint);
    let mut pending = Vec::new();
    let mut evaluated = 0;
    loop {
        match range_move(&walk, &pipe) {
            Move::Pull => {
                let n = walk.next().unwrap();
                let g = gen_of(&n.id);
                let parents = if g == 0 { vec![] } else { vec![Node { id: ids[g as usize - 1], generation: g as u64 - 1 }] };
                walk.add_parents(&parents);
                if let Acceptance::Evaluate(i) = pipe.accept(n.id) {
                    evaluated += 1;
                    pending.push((i, g));
                }
            }
            Move::Wait => {
                let (i, g) = pending.remove(0);
                pipe.complete(i, vec![g]);
            }
            Move::Finished => break,
        }
    }
    assert_eq!(evaluated, 1000);
    assert!(!pipe.is_stopped());
    let outcomes = pipe.into_outcomes();
    assert_eq!(outcomes.len(), 1000);
    assert_eq!(outcomes[0], 1499);
    assert_eq!(outcomes[999], 500);
    // The run still moves the checkpoint to the head, and reports the cut.
    let state = RunState::RangeProcessing { head, checkpoint };
    let (state, action) = t.step(state, Event::RangeFinished { reached_checkpoint: false });
    assert_eq!(state, RunState::WritingCheckpoint { head, truncated: true });
    assert_eq!(action, Action::WriteCheckpoint { key: t.get_last_rev_key(), bytes: head.to_bytes() });
    let (state, action) = t.step(state, Event::CheckpointWritten);
    assert_eq!(state, RunState::Done);
    assert_eq!(action, Action::Finish { truncated: true });
}

#[test]
fn outcome_order_ignores_completion_order() {
    let g = Graph::linear(9);
    let t = tailer(vec![], 100, 4);
    let a = drive(&g, t.range(g.node(9), cid(2)), Order::Oldest);
    let b = drive(&g, t.range(g.node(9), cid(2)), Order::Newest);
    let expected = vec!["C9", "C8", "C7", "C6", "C5", "C4", "C3"];
    assert_eq!(a.outcomes, expected);
    assert_eq!(b.outcomes, expected);
    assert!(a.stopped && b.stopped);
}

#[test]
fn excluded_commit_is_walked_not_evaluated() {
    // 4 <- 3 <- 2 <- 1: commit 2 is reachable only through 3.
    let g = Graph::linear(4);
    let t = tailer(vec![cid(3)], 100, 2);
    let r = drive(&g, t.range(g.node(4), cid(1)), Order::Newest);
    assert_eq!(r.walked[..3], ["C4", "C3", "C2"]);
    assert!(!r.evaluated.contains(&"C3".to_string()));
    assert!(r.evaluated.contains(&"C2".to_string()));
    assert_eq!(r.outcomes, vec!["C4", "C2"]);
}

#[test]
fn in_flight_never_exceeds_limit() {
    let g = Graph::linear(30);
    for limit in 1..5usize {
        let t = tailer(vec![], 100, limit);
        let r = drive(&g, t.range(g.node(30), cid(1)), Order::Newest);
        assert!(r.max_in_flight <= limit);
        assert!(r.max_in_flight >= 1);
        assert_eq!(r.outcomes.len(), 29);
    }
}

#[test]
fn lookahead_evaluates_past_the_stop_commit() {
    let g = Graph::linear(9);
    let t = tailer(vec![], 100, 4);
    let r = drive(&g, t.range(g.node(9), cid(7)), Order::Newest);
    assert_eq!(r.outcomes, vec!["C9", "C8"]);
    // Work beyond the stop commit was dispatched, within the window.
    assert!(r.evaluated.len() > 3);
    assert!(r.evaluated.len() <= 2 + 4);
}

#[test]
fn walk_of_a_diamond_emits_each_commit_once() {
    // 4 has parents 2 and 3; both have parent 1.
    let mut nodes = HashMap::new();
    nodes.insert(1u8, (1u64, vec![]));
    nodes.insert(2u8, (2u64, vec![1u8]));
    nodes.insert(3u8, (3u64, vec![1u8]));
    nodes.insert(4u8, (4u64, vec![2u8, 3u8]));
    let g = Graph { nodes };
    let mut walk = AncestorWalk::new(g.node(4), None);
    let mut out = Vec::new();
    while let Some(n) = walk.next() {
        out.push((label(&n.id), n.generation));
        walk.add_parents(&g.parents(&n.id));
    }
    assert_eq!(
        out,
        vec![("C4".to_string(), 4), ("C3".to_string(), 3), ("C2".to_string(), 2), ("C1".to_string(), 1)]
    );
}

#[test]
fn walk_cap_truncates() {
    let g = Graph::linear(6);
    let mut walk = AncestorWalk::new(g.node(6), Some(2));
    let mut out = Vec::new();
    while let Some(n) = walk.next() {
        out.push(label(&n.id));
        walk.add_parents(&g.parents(&n.id));
    }
    assert_eq!(out, vec!["C6", "C5"]);
    let mut empty = AncestorWalk::new(g.node(6), Some(0));
    assert!(empty.next().is_none());
}

#[test]
fn sampled_run_has_no_stop() {
    let g = Graph::linear(6);
    let t = tailer(vec![cid(4)], 100, 2);
    assert!(matches!(t.run_with_limit::<String>(None, 3), Err(ErrorKind::NoSuchBookmark(_))));
    let run = t.run_with_limit(Some(g.node(6)), 4).expect("bookmark resolved");
    let r = drive(&g, run, Order::Oldest);
    assert_eq!(r.outcomes, vec!["C6", "C5", "C3"]);
    assert!(!r.stopped);
}

#[test]
fn single_changeset_run() {
    let t = tailer(vec![], 10, 1);
    let run = t.run_single_changeset(cid(9));
    assert_eq!(run.bookmark, "main");
    assert_eq!(run.changeset, cid(9));
}

#[test]
fn failures_in_later_stages_write_no_checkpoint() {
    let t = tailer(vec![], 10, 2);
    let range = RunState::RangeProcessing { head: cid(5), checkpoint: cid(2) };
    let (state, action) = t.step(range, Event::StepFailed(ErrorKind::EvaluatorFailure("hook".to_string())));
    assert_eq!(state, RunState::Failed);
    assert_eq!(action, Action::Fail(ErrorKind::EvaluatorFailure("hook".to_string())));
    let reading = RunState::ReadingCheckpoint { head: cid(5) };
    let (state, action) = t.step(reading, Event::StepFailed(ErrorKind::WalkFailure("parents".to_string())));
    assert_eq!(state, RunState::Failed);
    assert_eq!(action, Action::Fail(ErrorKind::WalkFailure("parents".to_string())));
    // An event that does not belong to the state changes nothing.
    let writing = RunState::WritingCheckpoint { head: cid(5), truncated: false };
    let (state, action) = t.step(writing.clone(), Event::BookmarkResolved(Some(cid(1))));
    assert_eq!(state, writing);
    assert_eq!(action, Action::Nothing);
}
