//! One record per completed evaluation attempt.

use vstd::prelude::*;

verus! {

/// An evaluation of a jobset. Immutable once created; jobs point back at it
/// through their `evaluation_id`.
#[derive(Debug, Clone)]
pub struct Evaluation {
    pub id: Option<i32>,
    pub jobset_id: i32,
}

impl Evaluation {
    pub fn new(jobset_id: i32) -> (r: Self)
        ensures
            r.id is None,
            r.jobset_id == jobset_id,
    {
        Self { id: None, jobset_id }
    }
}

} // verus!
