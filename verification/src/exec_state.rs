//! Execution status as a small flag set over {RUNNING, SUCCESS, FAILURE, ERROR}.
//!
//! A group's aggregated state is the union of its own classification with the
//! aggregated states of all of its descendants, so "any child failed" is
//! visible at every ancestor.

use vstd::prelude::*;

verus! {

/// Classification of a single finished execution.
#[derive(Clone, Copy, PartialEq, Eq, Structural, Debug)]
pub enum ExecutionResultSuccess {
    Success,
    Failure,
    Error,
}

/// Flag set describing the (aggregated) status of an execution target.
#[derive(Clone, Copy, PartialEq, Eq, Structural, Debug)]
pub struct ExecutionState {
    pub running: bool,
    pub success: bool,
    pub failure: bool,
    pub error: bool,
}

impl ExecutionState {
    /// True when no flag is set.
    pub open spec fn spec_is_empty(self) -> bool {
        self == ExecutionState::spec_empty()
    }

    pub open spec fn spec_empty() -> ExecutionState {
        ExecutionState { running: false, success: false, failure: false, error: false }
    }

    /// Flag-wise union of two states.
    pub open spec fn spec_union(self, other: ExecutionState) -> ExecutionState {
        ExecutionState {
            running: self.running || other.running,
            success: self.success || other.success,
            failure: self.failure || other.failure,
            error: self.error || other.error,
        }
    }

    /// The single flag standing for one result classification.
    pub open spec fn spec_of_success(s: ExecutionResultSuccess) -> ExecutionState {
        match s {
            ExecutionResultSuccess::Success => ExecutionState {
                running: false,
                success: true,
                failure: false,
                error: false,
            },
            ExecutionResultSuccess::Failure => ExecutionState {
                running: false,
                success: false,
                failure: true,
                error: false,
            },
            ExecutionResultSuccess::Error => ExecutionState {
                running: false,
                success: false,
                failure: false,
                error: true,
            },
        }
    }

    /// `other` sets no flag that `self` lacks.
    pub open spec fn spec_includes(self, other: ExecutionState) -> bool {
        &&& (other.running ==> self.running)
        &&& (other.success ==> self.success)
        &&& (other.failure ==> self.failure)
        &&& (other.error ==> self.error)
    }

    pub fn empty() -> (r: ExecutionState)
        ensures
            r == ExecutionState::spec_empty(),
    {
        ExecutionState { running: false, success: false, failure: false, error: false }
    }

    pub fn running() -> (r: ExecutionState)
        ensures
            r == (ExecutionState { running: true, success: false, failure: false, error: false }),
    {
        ExecutionState { running: true, success: false, failure: false, error: false }
    }

    pub fn is_empty(&self) -> (r: bool)
        ensures
            r == self.spec_is_empty(),
    {
        !(self.running || self.success || self.failure || self.error)
    }

    pub fn of_success(s: ExecutionResultSuccess) -> (r: ExecutionState)
        ensures
            r == ExecutionState::spec_of_success(s),
    {
        match s {
            ExecutionResultSuccess::Success => ExecutionState {
                running: false,
                success: true,
                failure: false,
                error: false,
            },
            ExecutionResultSuccess::Failure => ExecutionState {
                running: false,
                success: false,
                failure: true,
                error: false,
            },
            ExecutionResultSuccess::Error => ExecutionState {
                running: false,
                success: false,
                failure: false,
                error: true,
            },
        }
    }

    pub fn union(self, other: ExecutionState) -> (r: ExecutionState)
        ensures
            r == self.spec_union(other),
    {
        ExecutionState {
            running: self.running || other.running,
            success: self.success || other.success,
            failure: self.failure || other.failure,
            error: self.error || other.error,
        }
    }
}

/// Union never clears a flag: adding a child's state can only add bits.
pub proof fn lemma_union_monotonic(a: ExecutionState, b: ExecutionState)
    ensures
        a.spec_union(b).spec_includes(a),
        a.spec_union(b).spec_includes(b),
{
}

/// Union is commutative, associative and idempotent, and the empty state is
/// its identity, so aggregation order over descendants does not matter.
pub proof fn lemma_union_algebra(a: ExecutionState, b: ExecutionState, c: ExecutionState)
    ensures
        a.spec_union(b) == b.spec_union(a),
        a.spec_union(b).spec_union(c) == a.spec_union(b.spec_union(c)),
        a.spec_union(a) == a,
        a.spec_union(ExecutionState::spec_empty()) == a,
{
}

} // verus!
