//! Error types of the pipeline, one per failing collaborator: storage,
//! evaluation, derivation metadata queries and store realization.
//!
//! Each carries a human-readable message; `message` hands it back for
//! display, since the coordinator only ever logs these.

use vstd::prelude::*;

verus! {

/// Failure reported by the storage collaborator.
#[derive(Debug)]
pub struct DBError {
    error: String,
}

impl DBError {
    pub closed spec fn view(&self) -> Seq<char> {
        self.error@
    }

    pub fn new(error: String) -> (r: Self)
        ensures
            r@ == error@,
    {
        DBError { error }
    }

    pub fn message(&self) -> (r: &String)
        ensures
            r@ == self@,
    {
        &self.error
    }
}

/// Failure of one evaluation attempt: the process could not be run, exited
/// abnormally, or its output could not be decoded.
#[derive(Debug)]
pub struct EvaluationError {
    error: String,
}

impl EvaluationError {
    pub closed spec fn view(&self) -> Seq<char> {
        self.error@
    }

    pub fn new(error: String) -> (r: Self)
        ensures
            r@ == error@,
    {
        EvaluationError { error }
    }

    pub fn from_str(error: &str) -> (r: Self)
        ensures
            r@ == error@,
    {
        EvaluationError { error: error.to_owned() }
    }

    pub fn message(&self) -> (r: &String)
        ensures
            r@ == self@,
    {
        &self.error
    }
}

/// Failure while querying or decoding derivation metadata.
#[derive(Debug)]
pub struct DerivationError {
    error: String,
}

impl DerivationError {
    pub closed spec fn view(&self) -> Seq<char> {
        self.error@
    }

    pub fn new(error: String) -> (r: Self)
        ensures
            r@ == error@,
    {
        DerivationError { error }
    }

    pub fn from_str(error: &str) -> (r: Self)
        ensures
            r@ == error@,
    {
        DerivationError { error: error.to_owned() }
    }

    pub fn message(&self) -> (r: &String)
        ensures
            r@ == self@,
    {
        &self.error
    }
}

/// Failure while realizing a store path.
#[derive(Debug)]
pub struct StoreError {
    error: String,
}

impl StoreError {
    pub closed spec fn view(&self) -> Seq<char> {
        self.error@
    }

    pub fn new(error: String) -> (r: Self)
        ensures
            r@ == error@,
    {
        StoreError { error }
    }

    pub fn from_str(error: &str) -> (r: Self)
        ensures
            r@ == error@,
    {
        StoreError { error: error.to_owned() }
    }

    pub fn message(&self) -> (r: &String)
        ensures
            r@ == self@,
    {
        &self.error
    }
}

/// Failure of an evaluation run as seen by its supervisor.
#[derive(Debug)]
pub struct EvalError {
    error: String,
}

impl EvalError {
    pub closed spec fn view(&self) -> Seq<char> {
        self.error@
    }

    pub fn new(error: String) -> (r: Self)
        ensures
            r@ == error@,
    {
        EvalError { error }
    }

    pub fn from_str(error: &str) -> (r: Self)
        ensures
            r@ == error@,
    {
        EvalError { error: error.to_owned() }
    }

    pub fn message(&self) -> (r: &String)
        ensures
            r@ == self@,
    {
        &self.error
    }
}

} // verus!
