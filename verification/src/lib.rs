//! A verified resource catalog: a query compiler with filtering, sorting and
//! pagination, an in-memory resource store, dashboard aggregation, and a tag
//! index with suggestion queries.

pub mod aggregation;
pub mod application_use_cases;
pub mod compiler;
pub mod dashboard;
pub mod dto;
pub mod entities;
pub mod errors;
pub mod matching;
pub mod resource_group_use_cases;
pub mod responses;
pub mod resource_use_cases;
pub mod services;
pub mod sorting;
pub mod subscription_use_cases;
pub mod tags;
pub mod text;
pub mod value_objects;

use vstd::prelude::*;

verus! {

} // verus!
