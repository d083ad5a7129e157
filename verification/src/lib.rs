//! Core of a continuous-build coordinator: it evaluates build definitions
//! ("jobsets") into buildable jobs, resolves each job's derivation dependency
//! tree, and schedules realization under bounded concurrency, tracking
//! progress through a persisted state machine.
//!
//! The modules here hold the decision and parsing logic of that pipeline;
//! process supervision, storage and the user interface live outside and talk
//! to this crate through plain values.

pub mod coordinator;
pub mod drv;
pub mod errors;
pub mod eval;
pub mod json;
pub mod models;
pub mod protocol;
pub mod scheduler;
pub mod text;
