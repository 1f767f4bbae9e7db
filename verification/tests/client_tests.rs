use codedx_client::client::{filter_branches_by_name, ApiBranch, JobStatus};
use codedx_client::errors::{
    is_success_status, non_success_error, ApiError, ApiErrorMessage,
};

#[test]
fn test_is_ready_only_for_terminal_statuses() {
    assert!(JobStatus::Completed.is_ready());
    assert!(JobStatus::Failed.is_ready());
    assert!(!JobStatus::Queued.is_ready());
    assert!(!JobStatus::Running.is_ready());
    assert!(!JobStatus::Cancelled.is_ready());
}

#[test]
fn test_is_success_only_for_completed() {
    assert!(JobStatus::Completed.is_success());
    assert!(!JobStatus::Failed.is_success());
    assert!(!JobStatus::Queued.is_success());
    assert!(!JobStatus::Running.is_success());
    assert!(!JobStatus::Cancelled.is_success());
}

#[test]
fn test_structured_error_body() {
    let err = non_success_error(400, "{\"error\": \"bad input\"}".to_string());
    match err {
        ApiError::NonSuccess(code, ApiErrorMessage::Nice(msg)) => {
            assert_eq!(code, 400);
            assert_eq!(msg, "bad input");
        }
        other => panic!("unexpected error shape: {:?}", other),
    }
}

#[test]
fn test_raw_error_body() {
    let err = non_success_error(500, "not json".to_string());
    match err {
        ApiError::NonSuccess(code, ApiErrorMessage::Raw(body)) => {
            assert_eq!(code, 500);
            assert_eq!(body, "not json");
        }
        other => panic!("unexpected error shape: {:?}", other),
    }
}

#[test]
fn test_non_string_error_field_is_raw() {
    let err = non_success_error(500, "{\"error\": 5}".to_string());
    assert!(matches!(
        err,
        ApiError::NonSuccess(500, ApiErrorMessage::Raw(_))
    ));
}

#[test]
fn test_error_body_extra_fields_still_structured() {
    let msg = ApiErrorMessage::from_body(
        "{\"error\": \"denied\", \"code\": 3}".to_string(),
    );
    assert_eq!(msg, ApiErrorMessage::Nice("denied".to_string()));
}

#[test]
fn test_success_status_range() {
    assert!(is_success_status(200));
    assert!(is_success_status(204));
    assert!(is_success_status(299));
    assert!(!is_success_status(199));
    assert!(!is_success_status(300));
    assert!(!is_success_status(404));
    assert!(!is_success_status(500));
}

fn branch(id: u32, name: &str) -> ApiBranch {
    ApiBranch { id, name: name.to_string(), project_id: 1, is_default: id == 1 }
}

#[test]
fn test_filter_branches_case_insensitive() {
    let branches = vec![
        branch(1, "main"),
        branch(2, "Main-Line"),
        branch(3, "feature/login"),
        branch(4, "DOMAIN"),
    ];
    let kept = filter_branches_by_name(branches, "MAIN");
    let names: Vec<&str> = kept.iter().map(|b| b.name.as_str()).collect();
    assert_eq!(names, vec!["main", "Main-Line", "DOMAIN"]);
}

#[test]
fn test_filter_branches_empty_pattern_keeps_all() {
    let branches = vec![branch(1, "main"), branch(2, "dev")];
    let kept = filter_branches_by_name(branches, "");
    assert_eq!(kept.len(), 2);
}

#[test]
fn test_filter_branches_no_match() {
    let branches = vec![branch(1, "main"), branch(2, "dev")];
    let kept = filter_branches_by_name(branches, "release");
    assert!(kept.is_empty());
}
