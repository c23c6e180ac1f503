use mail_admin::error::AppError;
use mail_admin::pagination::{CountedRow, ListResponse, QueryParams};

fn bad_request_message(r: Result<(), AppError>) -> String {
    match r {
        Err(AppError::BadRequest(m)) => m,
        _ => panic!("expected a bad request"),
    }
}

#[test]
fn query_params_accept_the_bounds() {
    assert!(QueryParams { limit: 1, offset: 0 }.validate().is_ok());
    assert!(QueryParams { limit: 100, offset: 5000 }.validate().is_ok());
}

#[test]
fn query_params_reject_non_positive_limit() {
    assert_eq!(bad_request_message(QueryParams { limit: 0, offset: 0 }.validate()), "Limit must be greater than 0");
    assert_eq!(bad_request_message(QueryParams { limit: -3, offset: 0 }.validate()), "Limit must be greater than 0");
}

#[test]
fn query_params_reject_negative_offset() {
    assert_eq!(bad_request_message(QueryParams { limit: 10, offset: -1 }.validate()), "Offset cannot be negative");
}

#[test]
fn query_params_reject_large_limit() {
    assert_eq!(bad_request_message(QueryParams { limit: 101, offset: 0 }.validate()), "Limit cannot be greater than 100");
}

#[test]
fn query_params_report_the_first_violated_rule() {
    assert_eq!(bad_request_message(QueryParams { limit: 0, offset: -1 }.validate()), "Limit must be greater than 0");
    assert_eq!(bad_request_message(QueryParams { limit: 500, offset: -1 }.validate()), "Offset cannot be negative");
}

fn rows(total: i64, names: &[&str]) -> Vec<CountedRow<String>> {
    names.iter().map(|n| CountedRow { total_count: total, item: n.to_string() }).collect()
}

#[test]
fn list_response_of_no_rows_is_empty() {
    let r: ListResponse<String> = ListResponse::from_rows(Vec::new(), 10, 0);
    assert!(r.items.is_empty());
    assert_eq!(r.total, 0);
    assert_eq!(r.current_count, 0);
    assert_eq!(r.current_page, 1);
    assert_eq!(r.total_pages, 0);
}

#[test]
fn list_response_counts_pages() {
    let r = ListResponse::from_rows(rows(25, &["a", "b", "c", "d", "e"]), 10, 20);
    assert_eq!(r.items, vec!["a", "b", "c", "d", "e"]);
    assert_eq!(r.total, 25);
    assert_eq!(r.current_count, 5);
    assert_eq!(r.current_page, 3);
    assert_eq!(r.total_pages, 3);
}

#[test]
fn list_response_exact_multiple_has_no_extra_page() {
    let r = ListResponse::from_rows(rows(30, &["x"]), 10, 29);
    assert_eq!(r.current_page, 3);
    assert_eq!(r.total_pages, 3);
}

#[test]
fn list_response_clamps_limit_and_offset() {
    let r = ListResponse::from_rows(rows(7, &["only"]), 0, -5);
    assert_eq!(r.current_page, 1);
    assert_eq!(r.total_pages, 7);
}

#[test]
fn list_response_pages_cover_the_total() {
    for total in 0..50i64 {
        for limit in 1..12i64 {
            let r = ListResponse::from_rows(rows(total, &["r"]), limit, 0);
            let limit = limit as usize;
            assert!(r.total_pages * limit >= r.total);
            if r.total > 0 {
                assert!((r.total_pages - 1) * limit < r.total);
            }
        }
    }
}
