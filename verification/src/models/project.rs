//! A project groups jobsets; the core only reads it.

use vstd::prelude::*;

verus! {

pub type ProjectID = i32;

/// A named project owning zero or more jobsets. Created and deleted by the
/// front end; the coordinator only reads it to find jobsets to schedule.
#[derive(Debug, Clone)]
pub struct Project {
    pub id: Option<ProjectID>,
    pub name: String,
    pub description: String,
}

} // verus!
