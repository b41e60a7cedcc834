use financial_tracker::errors::AppError;
use financial_tracker::middleware::auth::authenticate;
use financial_tracker::middleware::auth::bearer_token;
use financial_tracker::middleware::auth::claims_of;
use financial_tracker::middleware::auth::user_of_claims;
use financial_tracker::middleware::auth::Claims;
use financial_tracker::text::starts_with;
use financial_tracker::text::trim;
use financial_tracker::text::trim_start_matches;

#[test]
fn the_token_follows_the_word_bearer() {
    assert_eq!(bearer_token("Bearer abc.def.ghi"), Some("abc.def.ghi".to_string()));
    assert_eq!(bearer_token("Bearer   abc.def.ghi \t"), Some("abc.def.ghi".to_string()));
    assert_eq!(bearer_token("Bearer Bearer abc"), Some("abc".to_string()));
    assert_eq!(bearer_token("Bearer "), Some(String::new()));
    assert_eq!(bearer_token("Bearer a b"), Some("a b".to_string()));
}

#[test]
fn a_header_without_the_word_bearer_carries_no_token() {
    assert_eq!(bearer_token(""), None);
    assert_eq!(bearer_token("Bearer"), None);
    assert_eq!(bearer_token("bearer abc"), None);
    assert_eq!(bearer_token(" Bearer abc"), None);
    assert_eq!(bearer_token("Basic abc"), None);
}

#[test]
fn a_request_without_a_good_token_is_unauthorized() {
    assert!(matches!(authenticate("", "s"), Err(AppError::Unauthorized)));
    assert!(matches!(authenticate("Basic abc", "s"), Err(AppError::Unauthorized)));
    assert!(matches!(authenticate("Bearer abc", "s"), Err(AppError::Unauthorized)));
    assert!(matches!(authenticate("Bearer a.b.c", "s"), Err(AppError::Unauthorized)));
}

#[test]
fn claims_stand_for_their_user() {
    let user = user_of_claims(Some(Claims { user_id: 12, exp: 0 })).unwrap();
    assert_eq!(user.user_id, 12);
    assert!(matches!(user_of_claims(None), Err(AppError::Unauthorized)));
}

#[test]
fn claims_need_both_numbers_in_range() {
    let claims = claims_of(Some((Some(7), Some(1_700_000_000)))).unwrap();
    assert_eq!(claims.user_id, 7);
    assert_eq!(claims.exp, 1_700_000_000);
    assert_eq!(claims_of(Some((Some(-1), Some(0)))).unwrap().user_id, -1);
    assert!(claims_of(Some((Some(i32::MAX as i64), Some(0)))).is_some());
    assert!(claims_of(Some((Some(i32::MAX as i64 + 1), Some(0)))).is_none());
    assert!(claims_of(Some((Some(i32::MIN as i64 - 1), Some(0)))).is_none());
    assert!(claims_of(Some((None, Some(0)))).is_none());
    assert!(claims_of(Some((Some(1), None))).is_none());
    assert!(claims_of(None).is_none());
}

#[test]
fn prefixes_and_whitespace() {
    assert!(starts_with("Bearer x", "Bearer "));
    assert!(starts_with("abc", ""));
    assert!(starts_with("abc", "abc"));
    assert!(!starts_with("ab", "abc"));
    assert!(!starts_with("abd", "abc"));
    assert!(starts_with("äbc", "ä"));
    assert_eq!(trim_start_matches("ababc", "ab"), "c");
    assert_eq!(trim_start_matches("abc", ""), "abc");
    assert_eq!(trim_start_matches("abab", "ab"), "");
    assert_eq!(trim_start_matches("xab", "ab"), "xab");
    assert_eq!(trim("  a b \n"), "a b");
    assert_eq!(trim("\u{a0}ä\u{2003}"), "ä");
    assert_eq!(trim(" \t "), "");
    assert_eq!(trim(""), "");
    assert_eq!(trim("abc"), "abc");
}
