use codedx_client::branching::{BranchSpec, ProjectContext};
use codedx_client::errors::ParseError;

#[test]
fn test_bare_context() {
    let ctx = ProjectContext::parse("42").unwrap();
    assert_eq!(ctx.project_id, 42);
    assert!(ctx.branch_spec.is_none());
    assert_eq!(ctx.api_string, "42");
}

#[test]
fn test_context_with_branch_id() {
    let ctx = ProjectContext::parse("42;branchId=7").unwrap();
    assert_eq!(ctx.project_id, 42);
    assert!(matches!(ctx.branch_spec, Some(BranchSpec::ByBranchId(7))));
    assert_eq!(ctx.api_string, "42;branchId=7");
}

#[test]
fn test_context_with_branch_name() {
    let ctx = ProjectContext::parse("42;branch=main").unwrap();
    assert_eq!(ctx.project_id, 42);
    match ctx.branch_spec {
        Some(BranchSpec::ByBranchName(name)) => assert_eq!(name, "main"),
        other => panic!("unexpected branch spec: {:?}", other),
    }
    assert_eq!(ctx.api_string, "42;branch=main");
}

#[test]
fn test_context_empty_suffix_fails() {
    assert!(ProjectContext::parse("42;").is_err());
}

#[test]
fn test_context_empty_prefix_fails() {
    assert_eq!(
        ProjectContext::parse(";branch=main"),
        Err(ParseError::MissingProjectId)
    );
}

#[test]
fn test_context_non_numeric_fails() {
    assert_eq!(
        ProjectContext::parse("abc"),
        Err(ParseError::InvalidProjectId)
    );
}

#[test]
fn test_context_non_numeric_prefix_fails() {
    assert_eq!(
        ProjectContext::parse("abc;branch=main"),
        Err(ParseError::MissingProjectId)
    );
}

#[test]
fn test_context_overflow_fails() {
    assert_eq!(
        ProjectContext::parse("4294967296"),
        Err(ParseError::InvalidProjectId)
    );
    let ctx = ProjectContext::parse("4294967295").unwrap();
    assert_eq!(ctx.project_id, u32::MAX);
}

#[test]
fn test_context_normalizes_bare_api_string() {
    let ctx = ProjectContext::parse("042").unwrap();
    assert_eq!(ctx.project_id, 42);
    assert_eq!(ctx.api_string, "42");
}

#[test]
fn test_branch_spec_by_id() {
    let spec = BranchSpec::parse("branchId=7".to_string()).unwrap();
    assert!(matches!(spec, BranchSpec::ByBranchId(7)));
}

#[test]
fn test_branch_spec_by_name() {
    let spec = BranchSpec::parse("branch=main".to_string()).unwrap();
    match spec {
        BranchSpec::ByBranchName(name) => assert_eq!(name, "main"),
        other => panic!("unexpected branch spec: {:?}", other),
    }
}

#[test]
fn test_branch_spec_empty_name_accepted() {
    let spec = BranchSpec::parse("branch=".to_string()).unwrap();
    match spec {
        BranchSpec::ByBranchName(name) => assert_eq!(name, ""),
        other => panic!("unexpected branch spec: {:?}", other),
    }
}

#[test]
fn test_branch_spec_bad_id_fails() {
    assert_eq!(
        BranchSpec::parse("branchId=".to_string()),
        Err(ParseError::InvalidBranchId)
    );
    let err = BranchSpec::parse("branchId=abc".to_string()).unwrap_err();
    assert_eq!(err, ParseError::InvalidBranchId);
    assert_eq!(err.message(), "branch-id cannot be empty");
}

#[test]
fn test_branch_spec_unknown_key_fails() {
    let err = BranchSpec::parse("tag=v1".to_string()).unwrap_err();
    assert_eq!(err, ParseError::InvalidBranchSpec);
    assert_eq!(err.message(), "Must contain branch or branchId identifier.");
}

#[test]
fn test_branch_name_keeps_later_separators() {
    let ctx = ProjectContext::parse("5;branch=a=b;c").unwrap();
    match ctx.branch_spec {
        Some(BranchSpec::ByBranchName(name)) => assert_eq!(name, "a=b;c"),
        other => panic!("unexpected branch spec: {:?}", other),
    }
    assert_eq!(ctx.api_string, "5;branch=a=b;c");
}

#[test]
fn test_parse_error_messages() {
    assert_eq!(
        ParseError::InvalidProjectId.message(),
        "project id should be a number"
    );
    assert_eq!(
        ParseError::MissingProjectId.message(),
        "Must contain a project ID."
    );
}
