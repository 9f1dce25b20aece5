//! Response envelopes the boundary wraps results in.

use vstd::prelude::*;
use crate::value_objects::Pagination;

verus! {

/// A single-value response envelope.
#[derive(Debug, Clone)]
pub struct ApiResponse<T> {
    pub data: T,
    pub success: bool,
    pub message: Option<String>,
}

impl<T> ApiResponse<T> {
    /// A successful response with no message.
    pub fn success(data: T) -> (r: Self)
        ensures
            r.data == data,
            r.success,
            r.message is None,
    {
        ApiResponse { data, success: true, message: None }
    }

    /// A successful response carrying a message.
    pub fn success_with_message(data: T, message: String) -> (r: Self)
        ensures
            r.data == data,
            r.success,
            r.message == Some(message),
    {
        ApiResponse { data, success: true, message: Some(message) }
    }
}

/// A paginated response envelope.
#[derive(Debug, Clone)]
pub struct PaginatedResponse<T> {
    pub data: Vec<T>,
    pub pagination: Pagination,
    pub success: bool,
}

impl<T> PaginatedResponse<T> {
    /// A successful page with its pagination echo.
    pub fn new(data: Vec<T>, pagination: Pagination) -> (r: Self)
        ensures
            r.data == data,
            r.pagination == pagination,
            r.success,
    {
        PaginatedResponse { data, pagination, success: true }
    }
}

/// The liveness response of the service.
#[derive(Debug, Clone)]
pub struct HealthResponse {
    pub status: String,
    pub timestamp: String,
    pub version: String,
}

/// Raw table counts of the store.
#[derive(Debug, Clone)]
pub struct StatsResponse {
    pub total_resources: i64,
    pub total_subscriptions: i64,
    pub total_resource_groups: i64,
    pub total_applications: i64,
}

} // verus!
