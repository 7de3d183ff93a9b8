//! Per-task exit-code policy resolution: validates a task's declared
//! continue/terminate sets and picks the effective pair, either the task's
//! own declaration or a caller-supplied global override.

use vstd::prelude::*;

use crate::model::{TaskDescriptor, TaskDescriptorView};
use crate::{OverrideResultMappings, TaskReturnCodeMapping};

verus! {

/// Why a task's declared exit-code policy is incoherent.
#[derive(Debug)]
pub enum PolicyError {
    /// The task declares no exit code that lets the job continue.
    EmptyContinuationSet,
    /// Some exit code appears in both declared lists.
    ConflictingPolicy,
}

/// Some declared continue code also appears among the terminate codes.
pub open spec fn policy_conflict(cont: Seq<i32>, term: Seq<i32>) -> bool {
    exists|i: int| 0 <= i < cont.len() && term.contains(#[trigger] cont[i])
}

/// A declared policy is coherent: at least one continue code, and no code
/// that means both "continue" and "terminate successfully".
pub open spec fn policy_valid(cont: Seq<i32>, term: Seq<i32>) -> bool {
    cont.len() > 0 && !policy_conflict(cont, term)
}

/// The pair of exit-code lists `resolve_policy` hands out on success:
/// the override's lists when one is forced, else the task's own.
pub open spec fn effective_continue(
    task: TaskDescriptorView,
    overrides: OverrideResultMappings,
) -> Seq<i32> {
    match overrides {
        OverrideResultMappings::All(m) => m.continue_job@,
        OverrideResultMappings::NoOverride => task.on_result.continue_job,
    }
}

pub open spec fn effective_terminate(
    task: TaskDescriptorView,
    overrides: OverrideResultMappings,
) -> Seq<i32> {
    match overrides {
        OverrideResultMappings::All(m) => m.terminate_early@,
        OverrideResultMappings::NoOverride => task.on_result.terminate_job_with_success,
    }
}

fn copy_codes(v: &Vec<i32>) -> (r: Vec<i32>)
    ensures
        r@ == v@,
{
    let mut out: Vec<i32> = Vec::new();
    let mut i: usize = 0;
    while i < v.len()
        invariant
            i <= v@.len(),
            out@ == v@.subrange(0, i as int),
        decreases v@.len() - i,
    {
        out.push(v[i]);
        proof {
            assert(out@ =~= v@.subrange(0, i as int + 1));
        }
        i += 1;
    }
    proof {
        assert(v@.subrange(0, v@.len() as int) =~= v@);
    }
    out
}

/// Validates the task's declared policy, then yields the effective
/// continue/terminate lists: the override's when one is given, else the
/// task's own. The declared policy is validated even when an override is
/// about to discard it, so a malformed document is still rejected.
pub fn resolve_policy(task: &TaskDescriptor, overrides: &OverrideResultMappings) -> (r: Result<
    TaskReturnCodeMapping,
    PolicyError,
>)
    ensures
        (match r {
            Ok(m) => policy_valid(
                task.on_result.continue_job@,
                task.on_result.terminate_job_with_success@,
            ) && m.continue_job@ == effective_continue(task@, *overrides) && m.terminate_early@
                == effective_terminate(task@, *overrides),
            Err(PolicyError::EmptyContinuationSet) => task.on_result.continue_job@.len() == 0,
            Err(PolicyError::ConflictingPolicy) => task.on_result.continue_job@.len() > 0
                && policy_conflict(
                task.on_result.continue_job@,
                task.on_result.terminate_job_with_success@,
            ),
        }),
{
    let cont = &task.on_result.continue_job;
    let term = &task.on_result.terminate_job_with_success;
    if cont.len() == 0 {
        return Err(PolicyError::EmptyContinuationSet);
    }
    let mut i: usize = 0;
    while i < cont.len()
        invariant
            cont@ == task.on_result.continue_job@,
            term@ == task.on_result.terminate_job_with_success@,
            i <= cont@.len(),
            cont@.len() > 0,
            forall|ii: int| 0 <= ii < i ==> !term@.contains(#[trigger] cont@[ii]),
        decreases cont@.len() - i,
    {
        let mut j: usize = 0;
        while j < term.len()
            invariant
                cont@ == task.on_result.continue_job@,
                term@ == task.on_result.terminate_job_with_success@,
                i < cont@.len(),
                j <= term@.len(),
                forall|jj: int| 0 <= jj < j ==> term@[jj] != cont@[i as int],
            decreases term@.len() - j,
        {
            if term[j] == cont[i] {
                proof {
                    assert(term@.contains(cont@[i as int]));
                    assert(policy_conflict(cont@, term@));
                }
                return Err(PolicyError::ConflictingPolicy);
            }
            j += 1;
        }
        i += 1;
    }
    match overrides {
        OverrideResultMappings::All(m) => Ok(
            TaskReturnCodeMapping {
                continue_job: copy_codes(&m.continue_job),
                terminate_early: copy_codes(&m.terminate_early),
            },
        ),
        OverrideResultMappings::NoOverride => Ok(
            TaskReturnCodeMapping {
                continue_job: copy_codes(cont),
                terminate_early: copy_codes(term),
            },
        ),
    }
}

} // verus!
