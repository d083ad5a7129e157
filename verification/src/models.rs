//! The persisted entities of the coordinator: projects, jobsets, evaluations
//! and jobs, together with the partial-field updates ("diffs") the
//! coordinator applies to them. Timestamps are plain Unix seconds; the
//! storage collaborator that durably records these entities lives outside
//! this crate.

pub mod evaluation;
pub mod job;
pub mod jobset;
pub mod project;

pub use evaluation::Evaluation;
pub use job::{Job, JobDiff, JobState};
pub use jobset::{Jobset, JobsetDiff, JobsetID, JobsetState};
pub use project::{Project, ProjectID};
