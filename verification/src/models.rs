//! Data models of the JJS HTTP API.

use vstd::prelude::*;

verus! {

/// Outcome of judging a run: its status kind and code.
#[derive(Clone, Debug, PartialEq)]
pub struct InvokeStatus {
    pub code: String,
    pub kind: String,
}

/// Represents a run.
#[derive(Clone, Debug, PartialEq)]
pub struct Run {
    pub contest_id: String,
    pub id: i32,
    pub problem_name: String,
    pub score: Option<i32>,
    pub status: Option<InvokeStatus>,
    pub toolchain_name: String,
}

impl Run {
    /// Represents a run.
    pub fn new(
        contest_id: String,
        id: i32,
        problem_name: String,
        score: Option<i32>,
        status: Option<InvokeStatus>,
        toolchain_name: String,
    ) -> (run: Run)
        ensures
            run.contest_id == contest_id,
            run.id == id,
            run.problem_name == problem_name,
            run.score == score,
            run.status == status,
            run.toolchain_name == toolchain_name,
    {
        Run { contest_id, id, problem_name, score, status, toolchain_name }
    }
}

} // verus!
