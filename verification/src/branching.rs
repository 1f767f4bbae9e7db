//! The project-context grammar: `<id>`, `<id>;branch=<name>`, and
//! `<id>;branchId=<n>`.

use vstd::prelude::*;

use crate::errors::ParseError;
use crate::text::{
    all_digits, digits_value, has_prefix, is_all_digits, parse_u32, parses_as_u32, spec_digits,
    starts_with, u64_to_string,
};

verus! {

/// How an analysis targets a branch: by its numeric id, or by its name.
#[derive(Clone, Debug, PartialEq, Eq)]
pub enum BranchSpec {
    ByBranchId(u32),
    ByBranchName(String),
}

/// The characters of the literal `branchId=`.
pub open spec fn branch_id_prefix() -> Seq<char> {
    seq!['b', 'r', 'a', 'n', 'c', 'h', 'I', 'd', '=']
}

/// The characters of the literal `branch=`.
pub open spec fn branch_prefix() -> Seq<char> {
    seq!['b', 'r', 'a', 'n', 'c', 'h', '=']
}

/// Spec-level outcome of branch-specifier parsing.
pub enum SpecBranchSpec {
    ById(int),
    ByName(Seq<char>),
}

/// What parsing a branch specifier yields: `branchId=<n>` by id when `<n>`
/// is a `u32`, `branch=<name>` by name (an empty name is accepted), and an
/// error otherwise. The whole tail after the first `=` is the payload.
pub open spec fn spec_parse_branch(s: Seq<char>) -> Result<SpecBranchSpec, ParseError> {
    if starts_with(s, branch_id_prefix()) {
        if parses_as_u32(s.skip(9)) {
            Ok(SpecBranchSpec::ById(digits_value(s.skip(9)) as int))
        } else {
            Err(ParseError::InvalidBranchId)
        }
    } else if starts_with(s, branch_prefix()) {
        Ok(SpecBranchSpec::ByName(s.skip(7)))
    } else {
        Err(ParseError::InvalidBranchSpec)
    }
}

impl BranchSpec {
    /// Parse a branch specifier, the part of a project context after the
    /// `;`: either `branchId=<n>` or `branch=<name>`. A `branchId=` tail
    /// that is not a number in `u32` range is rejected (with the inherited
    /// message "branch-id cannot be empty", which fires on any non-numeric
    /// tail, not just an empty one); a `branch=` name may be empty.
    pub fn parse(branch_spec_input: String) -> (r: Result<BranchSpec, ParseError>)
        ensures
            ({
                let ps = spec_parse_branch(branch_spec_input@);
                &&& r is Ok <==> ps is Ok
                &&& (r matches Ok(BranchSpec::ByBranchId(n)) ==> ps == Ok::<_, ParseError>(
                    SpecBranchSpec::ById(n as int),
                ))
                &&& (r matches Ok(BranchSpec::ByBranchName(nm)) ==> ps == Ok::<_, ParseError>(
                    SpecBranchSpec::ByName(nm@),
                ))
                &&& (r matches Err(e) ==> ps == Err::<SpecBranchSpec, _>(e))
            }),
    {
        let s = branch_spec_input.as_str();
        let n = s.unicode_len();
        proof {
            reveal_strlit("branchId=");
            reveal_strlit("branch=");
            assert("branchId="@ =~= branch_id_prefix());
            assert("branch="@ =~= branch_prefix());
        }
        if has_prefix(s, "branchId=") {
            let tail = s.substring_char(9, n);
            proof {
                assert(tail@ =~= s@.skip(9));
            }
            match parse_u32(tail) {
                Some(id) => Ok(BranchSpec::ByBranchId(id)),
                None => Err(ParseError::InvalidBranchId),
            }
        } else if has_prefix(s, "branch=") {
            let name = s.substring_char(7, n);
            proof {
                assert(name@ =~= s@.skip(7));
            }
            Ok(BranchSpec::ByBranchName(name.to_owned()))
        } else {
            Err(ParseError::InvalidBranchSpec)
        }
    }
}

/// A parsed project context: the numeric project id, the optional branch
/// target, and the string used as the path segment of the start-analysis
/// call — the digits of the id alone for a bare context, the original input
/// verbatim when a branch specifier was given.
#[derive(Clone, Debug, PartialEq, Eq)]
pub struct ProjectContext {
    pub project_id: u32,
    pub branch_spec: Option<BranchSpec>,
    pub api_string: String,
}

/// Spec-level outcome of project-context parsing.
pub struct SpecContext {
    pub project_id: int,
    pub branch: Option<SpecBranchSpec>,
    pub api_string: Seq<char>,
}

/// The position of the first `;` in `s` from `i` on; `s.len()` when none.
pub open spec fn semi_from(s: Seq<char>, i: int) -> int
    decreases s.len() - i,
{
    if i < 0 || i >= s.len() {
        s.len() as int
    } else if s[i] == ';' {
        i
    } else {
        semi_from(s, i + 1)
    }
}

/// What parsing a project context yields. Without a `;` the whole input
/// must be the digits of a `u32`, and the api string is the normalized
/// digits of its value. With a `;`, the prefix must be non-empty digits in
/// `u32` range, the suffix is a branch specifier, and the api string is the
/// input verbatim.
pub open spec fn spec_parse_context(s: Seq<char>) -> Result<SpecContext, ParseError> {
    let k = semi_from(s, 0);
    if k == s.len() {
        if parses_as_u32(s) {
            Ok(
                SpecContext {
                    project_id: digits_value(s) as int,
                    branch: None,
                    api_string: spec_digits(digits_value(s)),
                },
            )
        } else {
            Err(ParseError::InvalidProjectId)
        }
    } else {
        let prefix = s.take(k);
        let suffix = s.skip(k + 1);
        if prefix.len() == 0 || !all_digits(prefix) {
            Err(ParseError::MissingProjectId)
        } else if digits_value(prefix) > u32::MAX {
            Err(ParseError::InvalidProjectId)
        } else {
            match spec_parse_branch(suffix) {
                Ok(b) => Ok(
                    SpecContext {
                        project_id: digits_value(prefix) as int,
                        branch: Some(b),
                        api_string: s,
                    },
                ),
                Err(e) => Err(e),
            }
        }
    }
}

/// The position of the first `;`, or the length when there is none.
fn find_semi(s: &str) -> (k: usize)
    ensures
        k == semi_from(s@, 0),
        k <= s@.len(),
{
    let n = s.unicode_len();
    let mut j: usize = 0;
    while j < n
        invariant
            n == s@.len(),
            0 <= j <= n,
            semi_from(s@, 0) == semi_from(s@, j as int),
        decreases n - j,
    {
        if s.get_char(j) == ';' {
            return j;
        }
        j += 1;
    }
    n
}

impl ProjectContext {
    /// Parse a project context: a bare numeric project id, or an id
    /// followed by `;` and a branch specifier. See `spec_parse_context`
    /// for the exact grammar and the error on each rejected shape.
    pub fn parse(project_context_input: &str) -> (r: Result<ProjectContext, ParseError>)
        ensures
            ({
                let ps = spec_parse_context(project_context_input@);
                &&& r is Ok <==> ps is Ok
                &&& (r matches Ok(ctx) ==> ps matches Ok(m) && ctx.project_id == m.project_id && (
                ctx.branch_spec is None <==> m.branch is None) && (ctx.branch_spec matches Some(
                    BranchSpec::ByBranchId(n),
                ) ==> m.branch == Some(SpecBranchSpec::ById(n as int))) && (ctx.branch_spec
                    matches Some(BranchSpec::ByBranchName(nm)) ==> m.branch == Some(
                    SpecBranchSpec::ByName(nm@),
                )) && ctx.api_string@ == m.api_string)
                &&& (r matches Err(e) ==> ps == Err::<SpecContext, _>(e))
            }),
    {
        let s = project_context_input;
        let n = s.unicode_len();
        let k = find_semi(s);
        if k == n {
            match parse_u32(s) {
                Some(id) => {
                    let api = u64_to_string(id as u64);
                    Ok(ProjectContext { project_id: id, branch_spec: None, api_string: api })
                },
                None => Err(ParseError::InvalidProjectId),
            }
        } else {
            let prefix = s.substring_char(0, k);
            let suffix = s.substring_char(k + 1, n);
            proof {
                assert(prefix@ =~= s@.take(k as int));
                assert(suffix@ =~= s@.skip(k + 1));
            }
            if prefix.unicode_len() == 0 || !is_all_digits(prefix) {
                return Err(ParseError::MissingProjectId);
            }
            match parse_u32(prefix) {
                None => Err(ParseError::InvalidProjectId),
                Some(id) => {
                    match BranchSpec::parse(suffix.to_owned()) {
                        Ok(b) => Ok(
                            ProjectContext {
                                project_id: id,
                                branch_spec: Some(b),
                                api_string: s.to_owned(),
                            },
                        ),
                        Err(e) => Err(e),
                    }
                },
            }
        }
    }
}

} // verus!
