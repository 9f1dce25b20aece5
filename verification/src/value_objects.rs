//! Query parameter types: pagination, filters and sorting.
//!
//! Pagination inputs are normalized, never rejected: the compiled page is
//! always at least 1 and the compiled size always lies in [1, 100000].

use vstd::prelude::*;

verus! {

/// Largest page size a caller may request; larger values are clamped.
pub const MAX_PAGE_SIZE: u32 = 100000;

/// Page size used when the caller does not supply one.
pub const DEFAULT_PAGE_SIZE: u32 = 20;

/// Caller-supplied pagination, before normalization. Missing, zero or
/// out-of-range values are corrected by `page()` and `size()`.
#[derive(Debug, Clone)]
pub struct PaginationParams {
    pub page: Option<u32>,
    pub size: Option<u32>,
}

/// The normalized page: the given page when it is at least 1, otherwise 1.
pub open spec fn spec_page(page: Option<u32>) -> u32 {
    match page {
        Some(p) => if p >= 1 { p } else { 1 },
        None => 1,
    }
}

/// The normalized size: the given size clamped to [1, MAX_PAGE_SIZE],
/// DEFAULT_PAGE_SIZE when missing.
pub open spec fn spec_size(size: Option<u32>) -> u32 {
    match size {
        Some(s) => if s < 1 { 1 } else if s > MAX_PAGE_SIZE { MAX_PAGE_SIZE } else { s },
        None => DEFAULT_PAGE_SIZE,
    }
}

impl PaginationParams {
    /// The 1-based page to serve; defaults to 1, floored at 1.
    pub fn page(&self) -> (p: u32)
        ensures
            p == spec_page(self.page),
            p >= 1,
    {
        match self.page {
            Some(p) => if p >= 1 { p } else { 1 },
            None => 1,
        }
    }

    /// The page size to serve; defaults to 20, clamped to [1, 100000].
    pub fn size(&self) -> (s: u32)
        ensures
            s == spec_size(self.size),
            1 <= s <= MAX_PAGE_SIZE,
    {
        match self.size {
            Some(s) => if s < 1 { 1 } else if s > MAX_PAGE_SIZE { MAX_PAGE_SIZE } else { s },
            None => DEFAULT_PAGE_SIZE,
        }
    }
}

impl Default for PaginationParams {
    /// The default request: first page, twenty records.
    fn default() -> (d: Self)
        ensures
            d.page == Some(1u32),
            d.size == Some(20u32),
    {
        PaginationParams { page: Some(1), size: Some(20) }
    }
}

/// Number of pages needed for `total` records at `size` records per page,
/// rounded up, saturated at u32::MAX.
pub open spec fn spec_total_pages(total: u64, size: u32) -> u32
    recommends
        size >= 1,
{
    let pages = if total == 0 { 0int } else { (total - 1) / (size as int) + 1 };
    if pages > u32::MAX { u32::MAX } else { pages as u32 }
}

/// Pagination echo attached to a result page: the normalized page and size,
/// the total row count for the filter, and the derived page count.
#[derive(Debug, Clone)]
pub struct Pagination {
    pub page: u32,
    pub size: u32,
    pub total: u64,
    pub total_pages: u32,
}

impl Pagination {
    /// Packages a page/size pair with a total count, deriving
    /// `total_pages = ceil(total / size)`.
    pub fn new(page: u32, size: u32, total: u64) -> (r: Self)
        requires
            size >= 1,
        ensures
            r.page == page,
            r.size == size,
            r.total == total,
            r.total_pages == spec_total_pages(total, size),
    {
        let total_pages: u64 = if total == 0 { 0 } else { (total - 1) / (size as u64) + 1 };
        let total_pages: u32 = if total_pages > u32::MAX as u64 {
            u32::MAX
        } else {
            total_pages as u32
        };
        Pagination { page, size, total, total_pages }
    }

    /// Offset of the first record of this page: `(page - 1) * size`.
    pub fn offset(&self) -> (o: u64)
        requires
            self.page >= 1,
        ensures
            o == (self.page - 1) * self.size,
    {
        proof {
            let p = self.page as int;
            let s = self.size as int;
            assert((p - 1) * s <= u64::MAX as int) by (nonlinear_arith)
                requires
                    1 <= p <= u32::MAX as int,
                    0 <= s <= u32::MAX as int,
            ;
        }
        (self.page as u64 - 1) * (self.size as u64)
    }
}

/// Filter predicates over the resource catalog. All present predicates are
/// AND-combined; `tags` pairs are OR-combined among themselves.
#[derive(Debug, Clone)]
pub struct ResourceFilters {
    /// Case-insensitive substring match on the resource type.
    pub resource_type: Option<String>,
    /// Exact match on the location.
    pub location: Option<String>,
    /// Exact match on the environment; resources without one never match.
    pub environment: Option<String>,
    /// Exact match on the vendor; resources without one never match.
    pub vendor: Option<String>,
    /// Exact match on the owning subscription.
    pub subscription_id: Option<i64>,
    /// Exact match on the owning resource group.
    pub resource_group_id: Option<i64>,
    /// Case-insensitive substring search across name, type, external id,
    /// location, vendor and environment.
    pub search: Option<String>,
    /// Comma-separated `key:value` pairs; malformed pairs are dropped.
    pub tags: Option<String>,
}

/// The mathematical value of a filter set.
#[verifier::ext_equal]
pub ghost struct FiltersModel {
    pub resource_type: Option<Seq<char>>,
    pub location: Option<Seq<char>>,
    pub environment: Option<Seq<char>>,
    pub vendor: Option<Seq<char>>,
    pub subscription_id: Option<int>,
    pub resource_group_id: Option<int>,
    pub search: Option<Seq<char>>,
    pub tags: Option<Seq<char>>,
}

impl View for ResourceFilters {
    type V = FiltersModel;

    open spec fn view(&self) -> FiltersModel {
        FiltersModel {
            resource_type: crate::entities::view_opt(self.resource_type),
            location: crate::entities::view_opt(self.location),
            environment: crate::entities::view_opt(self.environment),
            vendor: crate::entities::view_opt(self.vendor),
            subscription_id: match self.subscription_id {
                Some(s) => Some(s as int),
                None => None,
            },
            resource_group_id: match self.resource_group_id {
                Some(g) => Some(g as int),
                None => None,
            },
            search: crate::entities::view_opt(self.search),
            tags: crate::entities::view_opt(self.tags),
        }
    }
}

impl ResourceFilters {
    /// A filter that matches every resource.
    pub fn none() -> (f: Self)
        ensures
            f.resource_type is None,
            f.location is None,
            f.environment is None,
            f.vendor is None,
            f.subscription_id is None,
            f.resource_group_id is None,
            f.search is None,
            f.tags is None,
    {
        ResourceFilters {
            resource_type: None,
            location: None,
            environment: None,
            vendor: None,
            subscription_id: None,
            resource_group_id: None,
            search: None,
            tags: None,
        }
    }
}

impl Default for ResourceFilters {
    /// The empty filter: matches every resource.
    fn default() -> (f: Self)
        ensures
            f.resource_type is None,
            f.location is None,
            f.environment is None,
            f.vendor is None,
            f.subscription_id is None,
            f.resource_group_id is None,
            f.search is None,
            f.tags is None,
    {
        ResourceFilters::none()
    }
}

/// Direction of the requested ordering.
#[derive(Debug, Clone, Copy, PartialEq, Eq, Structural)]
pub enum SortDirection {
    Ascending,
    Descending,
}

impl Default for SortDirection {
    fn default() -> (d: Self)
        ensures
            d == SortDirection::Ascending,
    {
        SortDirection::Ascending
    }
}

/// Requested ordering: a field name (creation time when absent) and a
/// direction (ascending when absent).
#[derive(Debug, Clone)]
pub struct SortParams {
    pub field: Option<String>,
    pub direction: Option<SortDirection>,
}

impl SortParams {
    /// No explicit ordering: sort by creation time, ascending.
    pub fn unspecified() -> (s: Self)
        ensures
            s.field is None,
            s.direction is None,
    {
        SortParams { field: None, direction: None }
    }
}

} // verus!
