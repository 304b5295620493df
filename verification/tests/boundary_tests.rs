use blog_api::errors::{AppError, StorageErrorKind};
use blog_api::pagination::{offset_for, PaginationParams};
use blog_api::text::{like_pattern, to_tsquery};

#[test]
fn pagination_defaults_fill_in_page_one_of_ten() {
    let p = PaginationParams {
        page: None,
        per_page: None,
    };
    assert_eq!(p.resolve(), (1, 10));
    let q = PaginationParams {
        page: Some(3),
        per_page: Some(25),
    };
    assert_eq!(q.resolve(), (3, 25));
    // Out-of-range values pass through uncorrected.
    let r = PaginationParams {
        page: Some(-2),
        per_page: Some(0),
    };
    assert_eq!(r.resolve(), (-2, 0));
}

#[test]
fn offset_is_page_minus_one_times_per_page() {
    assert_eq!(offset_for(1, 10), Some(0));
    assert_eq!(offset_for(3, 10), Some(20));
    assert_eq!(offset_for(0, 10), Some(-10));
    assert_eq!(offset_for(i64::MAX, i64::MAX), None);
}

#[test]
fn like_pattern_wraps_the_term_in_wildcards() {
    assert_eq!(like_pattern("world"), "%world%");
    assert_eq!(like_pattern(""), "%%");
}

#[test]
fn tsquery_joins_tokens_with_and() {
    assert_eq!(to_tsquery("foo bar"), "foo & bar");
    assert_eq!(to_tsquery("single"), "single");
    assert_eq!(to_tsquery(""), "");
}

#[test]
fn only_the_unique_violation_is_a_client_fault() {
    let dup = AppError::Database(StorageErrorKind::UniqueViolation);
    assert_eq!(dup.status_code(), 400);
    assert_eq!(
        dup.error_response(),
        (400, String::from("Unique constraint violation"))
    );
    let fk = AppError::Database(StorageErrorKind::ForeignKeyViolation);
    assert_eq!(fk.status_code(), 500);
    assert_eq!(fk.error_response(), (500, String::from("Database error")));
    let other = AppError::Database(StorageErrorKind::Other);
    assert_eq!(other.status_code(), 500);
    assert_eq!(AppError::Env.error_response(), (500, String::from("Environment error")));
    assert_eq!(
        AppError::Pool.error_response(),
        (500, String::from("Database pool error"))
    );
}
