use codedx_client::config::{resolve_auth, ClientAuth, ConfigError};
use codedx_client::text::{contains_str, has_prefix, parse_u32, u64_to_string};

#[test]
fn test_resolve_auth_api_key_wins() {
    let auth = resolve_auth(
        Some("key123".to_string()),
        Some("user".to_string()),
        Some("pass".to_string()),
    )
    .unwrap();
    assert_eq!(auth, ClientAuth::ApiKey("key123".to_string()));
}

#[test]
fn test_resolve_auth_basic() {
    let auth = resolve_auth(None, Some("user".to_string()), Some("pass".to_string())).unwrap();
    assert_eq!(
        auth,
        ClientAuth::Basic { username: "user".to_string(), password: "pass".to_string() }
    );
}

#[test]
fn test_resolve_auth_incomplete() {
    assert_eq!(
        resolve_auth(None, Some("user".to_string()), None),
        Err(ConfigError::MissingAuth)
    );
    assert_eq!(
        resolve_auth(None, None, Some("pass".to_string())),
        Err(ConfigError::MissingAuth)
    );
    assert_eq!(resolve_auth(None, None, None), Err(ConfigError::MissingAuth));
}

#[test]
fn test_parse_u32_values() {
    assert_eq!(parse_u32("0"), Some(0));
    assert_eq!(parse_u32("42"), Some(42));
    assert_eq!(parse_u32("042"), Some(42));
    assert_eq!(parse_u32("4294967295"), Some(u32::MAX));
    assert_eq!(parse_u32("4294967296"), None);
    assert_eq!(parse_u32("99999999999999999999"), None);
    assert_eq!(parse_u32(""), None);
    assert_eq!(parse_u32("12a"), None);
    assert_eq!(parse_u32("+42"), None);
    assert_eq!(parse_u32("-1"), None);
}

#[test]
fn test_u64_to_string_values() {
    assert_eq!(u64_to_string(0), "0");
    assert_eq!(u64_to_string(7), "7");
    assert_eq!(u64_to_string(42), "42");
    assert_eq!(u64_to_string(4200100), "4200100");
    assert_eq!(u64_to_string(u64::MAX), "18446744073709551615");
}

#[test]
fn test_has_prefix_cases() {
    assert!(has_prefix("branchId=9", "branchId="));
    assert!(has_prefix("abc", ""));
    assert!(!has_prefix("branch=x", "branchId="));
    assert!(!has_prefix("br", "branch="));
}

#[test]
fn test_contains_str_cases() {
    assert!(contains_str("main-line", "main"));
    assert!(contains_str("main-line", "n-l"));
    assert!(contains_str("main-line", ""));
    assert!(!contains_str("main", "main-line"));
    assert!(!contains_str("abc", "d"));
}
