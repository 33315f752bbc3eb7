//! Keyset pages of stored plan items: the caller keeps the last ordinal it saw.

use vstd::prelude::*;

verus! {

/// One stored plan item as a page lists it.
#[derive(Debug, Clone)]
pub struct PlanItemRow {
    pub id: String,
    pub conflict_group_id: Option<String>,
    pub conflict_member_count: u64,
    pub ordinal: u64,
    pub source_path: String,
    pub target_path: Option<String>,
    pub action: String,
    pub risk: String,
    pub reason: Option<String>,
}

/// How many items of a plan fall in each group.
#[derive(Debug, Clone, Default)]
pub struct PlanItemCounts {
    pub moves: u64,
    pub skips: u64,
    pub needs_attention: u64,
    pub conflicts: u64,
    pub invalid_target: u64,
    pub metadata_missing: u64,
    pub path_too_long: u64,
}

/// One page of plan items, the totals, and where the next page starts.
#[derive(Debug, Clone)]
pub struct PlanItemPage {
    pub items: Vec<PlanItemRow>,
    pub total: u64,
    pub filtered_total: u64,
    pub next_cursor: Option<u64>,
    pub counts: PlanItemCounts,
}

/// The largest page of plan items.
pub const MAX_PAGE_ITEMS: u32 = 500;

/// The page size for a requested limit: the limit, but at least 1 and at most
/// `MAX_PAGE_ITEMS`.
pub fn plan_page_size(limit: u32) -> (r: usize)
    ensures
        r == if limit < 1 {
            1
        } else if limit > MAX_PAGE_ITEMS {
            MAX_PAGE_ITEMS as int
        } else {
            limit as int
        },
{
    if limit < 1 {
        1
    } else if limit > MAX_PAGE_ITEMS {
        MAX_PAGE_ITEMS as usize
    } else {
        limit as usize
    }
}

/// The largest number of operation log rows listed at once for a requested limit.
pub fn operation_log_limit(limit: u32) -> (r: u32)
    ensures
        r == if limit < MAX_PAGE_ITEMS {
            limit
        } else {
            MAX_PAGE_ITEMS
        },
{
    if limit < MAX_PAGE_ITEMS {
        limit
    } else {
        MAX_PAGE_ITEMS
    }
}

/// Cuts the rows fetched for a page (asked for one more than the page size) to the page:
/// when more rows came than fit, the page is full and the next one starts after the
/// ordinal of its last row; otherwise there is no next page.
pub fn finish_plan_page(rows: Vec<PlanItemRow>, page_size: usize) -> (r: (Vec<PlanItemRow>, Option<u64>))
    requires
        page_size >= 1,
    ensures
        r.0@ == rows@.take(if rows@.len() > page_size {
            page_size as int
        } else {
            rows@.len() as int
        }),
        r.1 == if rows@.len() > page_size {
            Some(rows@[page_size - 1].ordinal)
        } else {
            None
        },
{
    let mut rows = rows;
    let has_more = rows.len() > page_size;
    if has_more {
        rows.truncate(page_size);
        let last = rows[page_size - 1].ordinal;
        (rows, Some(last))
    } else {
        assert(rows@.take(rows@.len() as int) =~= rows@);
        (rows, None)
    }
}

} // verus!
