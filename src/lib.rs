//! Incremental hook tailer: walks a repository's commit ancestry from a
//! bookmark head, evaluates hooks on each commit under a concurrency cap, and
//! resumes from a persisted checkpoint.
//!
//! Everything that waits on storage or on a hook is an event handed to the
//! state machines of this crate; the caller performs the work they ask for.
pub mod commit;
pub mod text;
pub mod pipeline;
pub mod walk;
pub mod tailer;
pub mod prefix;
pub mod range;
