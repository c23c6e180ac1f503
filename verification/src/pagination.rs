//! Paging of list endpoints: query parameter validation and the page
//! arithmetic of list responses.

use vstd::prelude::*;
use crate::error::{AppError, ErrorView, reports};

verus! {

/// The `limit`/`offset` query parameters of a list endpoint.
pub struct QueryParams {
    pub limit: i64,
    pub offset: i64,
}

/// One row of a list query: the number of rows the whole query matches
/// (`COUNT(*) OVER()`), and the item the row stands for.
pub struct CountedRow<T> {
    pub total_count: i64,
    pub item: T,
}

/// A page of items together with the counters the client pages by.
pub struct ListResponse<T> {
    pub items: Vec<T>,
    pub total: usize,
    pub current_count: usize,
    pub current_page: usize,
    pub total_pages: usize,
}

/// What `QueryParams::validate` reports for the given parameters.
pub open spec fn query_problem(limit: i64, offset: i64) -> Option<ErrorView> {
    if limit <= 0 {
        Some(ErrorView::BadRequest("Limit must be greater than 0"@))
    } else if offset < 0 {
        Some(ErrorView::BadRequest("Offset cannot be negative"@))
    } else if limit > 100 {
        Some(ErrorView::BadRequest("Limit cannot be greater than 100"@))
    } else {
        None
    }
}

/// The page size a response is computed with: `limit`, but at least 1.
pub open spec fn effective_limit(limit: i64) -> int {
    if limit < 1 { 1 } else { limit as int }
}

/// The offset a response is computed with: `offset`, but at least 0.
pub open spec fn effective_offset(offset: i64) -> int {
    if offset < 0 { 0 } else { offset as int }
}

/// Division of `a` by `b`, rounded up.
pub open spec fn ceil_div(a: int, b: int) -> int {
    (a + b - 1) / b
}

/// The total a response reports: the first row's `total_count`, or 0 without rows.
pub open spec fn reported_total<T>(rows: Seq<CountedRow<T>>) -> int {
    if rows.len() == 0 { 0 } else { (rows[0].total_count as usize) as int }
}

impl QueryParams {
    /// Accepts `1 <= limit <= 100` and `offset >= 0`; otherwise names the first
    /// violated rule (limit too small, offset negative, limit too large).
    pub fn validate(&self) -> (r: Result<(), AppError>)
        ensures
            reports(r, query_problem(self.limit, self.offset)),
            r is Ok <==> (1 <= self.limit <= 100 && self.offset >= 0),
    {
        if self.limit <= 0 {
            return Err(AppError::BadRequest("Limit must be greater than 0".to_owned()));
        }
        if self.offset < 0 {
            return Err(AppError::BadRequest("Offset cannot be negative".to_owned()));
        }
        if self.limit > 100 {
            return Err(AppError::BadRequest("Limit cannot be greater than 100".to_owned()));
        }
        Ok(())
    }
}

impl<T> ListResponse<T> {
    /// Builds the response for the rows of one page. The total is the first
    /// row's `total_count`; the page number and page count are computed with
    /// the page size clamped to at least 1 and the offset to at least 0.
    pub fn from_rows(rows: Vec<CountedRow<T>>, limit: i64, offset: i64) -> (r: Self)
        requires
            effective_limit(limit) <= usize::MAX,
            effective_offset(offset) < usize::MAX,
        ensures
            r.items@.len() == rows@.len(),
            forall|i: int| 0 <= i < rows@.len() ==> #[trigger] r.items@[i] == rows@[i].item,
            r.total == reported_total(rows@),
            rows@.len() > 0 ==> r.total == rows@[0].total_count as usize,
            rows@.len() == 0 ==> r.total == 0,
            r.current_count == rows@.len(),
            r.current_page == effective_offset(offset) / effective_limit(limit) + 1,
            r.total_pages == ceil_div(r.total as int, effective_limit(limit)),
    {
        let total: usize = if rows.len() == 0 { 0 } else { rows[0].total_count as usize };
        let ghost row_seq = rows@;
        let mut items: Vec<T> = Vec::new();
        for row in it: rows.into_iter()
            invariant
                it.seq() == row_seq,
                items@.len() == it.index(),
                forall|i: int| 0 <= i < it.index() ==> #[trigger] items@[i] == row_seq[i].item,
        {
            items.push(row.item);
        }
        let current_count = items.len();
        let limit: usize = if limit < 1 { 1 } else { limit as usize };
        let offset: usize = if offset < 0 { 0 } else { offset as usize };
        let current_page = offset / limit + 1;
        proof {
            lemma_ceil_div_parts(total as int, limit as int);
            if limit >= 2 {
                assert(total / limit <= total / 2) by (nonlinear_arith)
                    requires limit >= 2, total >= 0;
            }
        }
        let total_pages = total / limit + if total % limit == 0 { 0 } else { 1 };
        ListResponse { items, total, current_count, current_page, total_pages }
    }
}

proof fn lemma_ceil_div_parts(a: int, b: int)
    requires
        a >= 0,
        b >= 1,
    ensures
        ceil_div(a, b) == a / b + if a % b == 0 { 0int } else { 1int },
{
    assert(ceil_div(a, b) == a / b + if a % b == 0 { 0int } else { 1int }) by (nonlinear_arith)
        requires a >= 0, b >= 1;
}

/// The page count covers the total and has no empty trailing page: with page
/// size `limit >= 1`, `total_pages * limit >= total`, and every page before
/// the last is full, `(total_pages - 1) * limit < total` whenever `total > 0`.
pub proof fn lemma_page_count_covers_total(total: int, limit: int)
    requires
        total >= 0,
        limit >= 1,
    ensures
        ceil_div(total, limit) * limit >= total,
        total > 0 ==> (ceil_div(total, limit) - 1) * limit < total,
        total == 0 ==> ceil_div(total, limit) == 0,
{
    assert(ceil_div(total, limit) * limit >= total) by (nonlinear_arith)
        requires total >= 0, limit >= 1;
    assert(total > 0 ==> (ceil_div(total, limit) - 1) * limit < total) by (nonlinear_arith)
        requires total >= 0, limit >= 1;
    assert(total == 0 ==> ceil_div(total, limit) == 0) by (nonlinear_arith)
        requires total >= 0, limit >= 1;
}

/// Pages are numbered from 1, and the offset lies in the page that the
/// response reports: `(current_page - 1) * limit <= offset < current_page * limit`.
pub proof fn lemma_offset_within_current_page(offset: int, limit: int)
    requires
        offset >= 0,
        limit >= 1,
    ensures
        offset / limit + 1 >= 1,
        (offset / limit) * limit <= offset < (offset / limit + 1) * limit,
{
    assert((offset / limit) * limit <= offset < (offset / limit + 1) * limit) by (nonlinear_arith)
        requires offset >= 0, limit >= 1;
}

/// The total a response reports is the first row's `total_count` (every row
/// of a page carries the count of the whole query), and 0 for an empty page;
/// a non-negative count that fits in `usize` is reported unchanged.
pub proof fn lemma_reported_total<T>(rows: Seq<CountedRow<T>>)
    ensures
        rows.len() > 0 ==> reported_total(rows) == rows[0].total_count as usize,
        rows.len() > 0 && 0 <= rows[0].total_count <= usize::MAX ==> reported_total(rows) == rows[0].total_count,
        rows.len() == 0 ==> reported_total(rows) == 0,
{
}

} // verus!
