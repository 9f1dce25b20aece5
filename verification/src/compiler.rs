//! The filter/sort/pagination compiler: turns caller-supplied parameters
//! into a storage-agnostic query plan — the filter predicate, the complete
//! ordering, and an offset/limit pair — normalizing pagination on the way.
//!
//! Unrecognized sort field names fall back to creation time, which is also
//! the default; the store interprets the plan, so this is the one
//! interpretation unknown fields receive.

use vstd::prelude::*;
use crate::entities::view_opt;
use crate::sorting::{OrderPlan, OrderSpec, SortField};
use crate::text::{chars_vec, lower_of, lowercase, str_eq};
use crate::value_objects::{
    PaginationParams, ResourceFilters, SortDirection, SortParams, spec_page, spec_size,
};

verus! {

/// The sort field a name selects; unrecognized names select creation time.
pub open spec fn sort_field_of(f: Option<Seq<char>>) -> SortField {
    match f {
        None => SortField::CreatedAt,
        Some(s) => {
            if s == "name"@ {
                SortField::Name
            } else if s == "location"@ {
                SortField::Location
            } else if s == "type"@ {
                SortField::ResourceType
            } else if s == "resource_type"@ {
                SortField::ResourceType
            } else if s == "updated_at"@ {
                SortField::UpdatedAt
            } else if s == "id"@ {
                SortField::Id
            } else {
                SortField::CreatedAt
            }
        },
    }
}

/// Whether the requested direction is ascending; it is by default.
pub open spec fn ascending_of(d: Option<SortDirection>) -> bool {
    match d {
        Some(SortDirection::Descending) => false,
        _ => true,
    }
}

/// The complete ordering a query imposes, from its search term and sort
/// parameters.
pub open spec fn order_of(
    search: Option<Seq<char>>,
    field: Option<Seq<char>>,
    direction: Option<SortDirection>,
) -> OrderSpec {
    OrderSpec {
        term_lower: match search {
            Some(t) => Some(lower_of(t)),
            None => None,
        },
        field: sort_field_of(field),
        ascending: ascending_of(direction),
    }
}

/// A compiled query: the filter predicate, the ordering, and the
/// offset/limit window, with the normalized page and size that produced it.
pub struct QueryPlan {
    pub filters: ResourceFilters,
    pub order: OrderPlan,
    pub page: u32,
    pub size: u32,
    pub offset: u64,
    pub limit: u32,
}

/// Maps a sort field name to the field the store orders by.
fn sort_field_exec(f: &Option<String>) -> (r: SortField)
    ensures
        r == sort_field_of(view_opt(*f)),
{
    match f {
        None => SortField::CreatedAt,
        Some(s) => {
            if str_eq(s.as_str(), "name") {
                SortField::Name
            } else if str_eq(s.as_str(), "location") {
                SortField::Location
            } else if str_eq(s.as_str(), "type") {
                SortField::ResourceType
            } else if str_eq(s.as_str(), "resource_type") {
                SortField::ResourceType
            } else if str_eq(s.as_str(), "updated_at") {
                SortField::UpdatedAt
            } else if str_eq(s.as_str(), "id") {
                SortField::Id
            } else {
                SortField::CreatedAt
            }
        },
    }
}

/// Compiles filters, sort and pagination into a query plan. The page is at
/// least 1 and the size lies in [1, 100000] whatever the caller supplied;
/// the window is `offset = (page - 1) * size` with `limit = size`.
pub fn compile_query(
    filters: ResourceFilters,
    sort: &SortParams,
    pagination: &PaginationParams,
) -> (q: QueryPlan)
    ensures
        q.filters == filters,
        q.order@ == order_of(filters@.search, view_opt(sort.field), sort.direction),
        q.page == spec_page(pagination.page),
        q.size == spec_size(pagination.size),
        q.page >= 1,
        1 <= q.size <= 100000,
        q.offset == (q.page - 1) * q.size,
        q.limit == q.size,
{
    let page = pagination.page();
    let size = pagination.size();
    let term_lower: Option<Vec<char>> = match &filters.search {
        Some(t) => {
            let folded = lowercase(t.as_str());
            Some(chars_vec(folded.as_str()))
        },
        None => None,
    };
    let order = OrderPlan {
        term_lower,
        field: sort_field_exec(&sort.field),
        ascending: match sort.direction {
            Some(SortDirection::Descending) => false,
            _ => true,
        },
    };
    proof {
        let p = page as int;
        let s = size as int;
        assert((p - 1) * s <= u32::MAX as int * 100000int) by (nonlinear_arith)
            requires
                1 <= p <= u32::MAX as int,
                0 <= s <= 100000int,
        ;
    }
    let offset: u64 = (page as u64 - 1) * (size as u64);
    QueryPlan { filters, order, page, size, offset, limit: size }
}

} // verus!
