//! Data shapes of the Code Dx REST API, the job-status model, and the
//! compute half of the branch query.

use vstd::prelude::*;

use crate::text::{contains_str, lower_of, spec_contains, to_lowercase};

verus! {

/// Filter criteria for the project query: by part of the name, by metadata
/// field/value pairs, or both. An absent part is no constraint.
#[derive(Clone, Debug, PartialEq, Eq)]
pub struct ApiProjectFilter {
    pub name: Option<String>,
    pub metadata: Option<Vec<(String, String)>>,
}

/// A project as the server reports it.
#[derive(Clone, Debug, PartialEq, Eq)]
pub struct ApiProject {
    pub id: u32,
    pub name: String,
    pub parent_id: Option<u32>,
}

/// Filter criteria for the branch query: the project scope and, optionally,
/// part of a branch name.
#[derive(Clone, Debug, PartialEq, Eq)]
pub struct ApiBranchFilter {
    pub project_id: u32,
    pub name: Option<String>,
}

/// A branch as the server reports it.
#[derive(Clone, Debug, PartialEq, Eq)]
pub struct ApiBranch {
    pub id: u32,
    pub name: String,
    pub project_id: u32,
    pub is_default: bool,
}

/// What the server answers when an analysis is started through the stable
/// endpoint.
#[derive(Clone, Debug, PartialEq, Eq)]
pub struct ApiAnalysisJobResponse {
    pub analysis_id: u32,
    pub job_id: String,
}

/// What the server answers when an analysis with git source is started.
#[derive(Clone, Debug, PartialEq, Eq)]
pub struct ApiAnalysisWithGitSourceJobResponse {
    pub job_id: String,
}

/// The five states a Code Dx job may be in, as reported by the job-status
/// endpoint.
#[derive(Copy, Clone, Debug, PartialEq, Eq, Structural)]
pub enum JobStatus {
    Queued,
    Running,
    Cancelled,
    Completed,
    Failed,
}

/// A status is "ready" when polling should stop because the job will not
/// change state again. Only `Completed` and `Failed` count; `Cancelled` does
/// not, even though it is semantically terminal — callers inherit that
/// asymmetry deliberately.
pub open spec fn spec_is_ready(status: JobStatus) -> bool {
    status is Completed || status is Failed
}

/// A job succeeded only when it completed.
pub open spec fn spec_is_success(status: JobStatus) -> bool {
    status is Completed
}

impl JobStatus {
    /// True exactly for `Completed` and `Failed`; false for `Queued`,
    /// `Running` and `Cancelled`.
    pub fn is_ready(&self) -> (r: bool)
        ensures
            r == spec_is_ready(*self),
    {
        match *self {
            JobStatus::Completed => true,
            JobStatus::Failed => true,
            _ => false,
        }
    }

    /// True exactly for `Completed`.
    pub fn is_success(&self) -> (r: bool)
        ensures
            r == spec_is_success(*self),
    {
        match *self {
            JobStatus::Completed => true,
            _ => false,
        }
    }
}

/// What the job-status endpoint reports: the id the status was asked for,
/// and the status itself.
#[derive(Clone, Debug, PartialEq, Eq)]
pub struct JobStatusResponse {
    pub job_id: String,
    pub status: JobStatus,
}

/// A branch name matches a query pattern when its lowercase form contains
/// the lowercase form of the pattern.
pub open spec fn spec_branch_matches(name: Seq<char>, pattern: Seq<char>) -> bool {
    spec_contains(lower_of(name), lower_of(pattern))
}

/// The branches whose name matches the pattern, in their original order.
pub open spec fn spec_filter_branches(branches: Seq<ApiBranch>, pattern: Seq<char>) -> Seq<
    ApiBranch,
>
    decreases branches.len(),
{
    if branches.len() == 0 {
        Seq::empty()
    } else {
        let kept = spec_filter_branches(branches.drop_last(), pattern);
        if spec_branch_matches(branches.last().name@, pattern) {
            kept.push(branches.last())
        } else {
            kept
        }
    }
}

/// The compute half of the branch query: of the branches the server listed,
/// keep those whose name contains the requested name case-insensitively,
/// in the order the server gave them.
#[verifier::loop_isolation(false)]
pub fn filter_branches_by_name(branches: Vec<ApiBranch>, branch_name: &str) -> (r: Vec<ApiBranch>)
    ensures
        r@ == spec_filter_branches(branches@, branch_name@),
{
    let ghost orig = branches@;
    let pattern_lower = to_lowercase(branch_name);
    let mut rest = branches;
    let mut kept: Vec<ApiBranch> = Vec::new();
    proof {
        assert(orig.take(0) =~= Seq::<ApiBranch>::empty());
    }
    while rest.len() > 0
        invariant
            rest@ == orig.skip(orig.len() - rest@.len()),
            rest@.len() <= orig.len(),
            pattern_lower@ == lower_of(branch_name@),
            kept@ == spec_filter_branches(orig.take(orig.len() - rest@.len()), branch_name@),
        decreases rest.len(),
    {
        let ghost j = orig.len() - rest@.len();
        let b = rest.remove(0);
        proof {
            assert(b == orig[j]);
            assert(rest@ =~= orig.skip(j + 1));
            assert(orig.take(j + 1).drop_last() =~= orig.take(j));
            assert(orig.take(j + 1).last() == orig[j]);
        }
        let name_lower = to_lowercase(b.name.as_str());
        if contains_str(name_lower.as_str(), pattern_lower.as_str()) {
            kept.push(b);
        }
    }
    proof {
        assert(orig.take(orig.len() - rest@.len()) =~= orig);
    }
    kept
}

} // verus!
