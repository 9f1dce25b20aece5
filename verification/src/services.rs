//! The assembled service layer: one store per entity plus the dashboard
//! engine, created empty together.

use vstd::prelude::*;
use crate::application_use_cases::ApplicationUseCases;
use crate::dashboard::DashboardUseCases;
use crate::resource_group_use_cases::ResourceGroupUseCases;
use crate::resource_use_cases::ResourceUseCases;
use crate::subscription_use_cases::SubscriptionUseCases;

verus! {

/// Every use-case store of the catalog.
pub struct AppServices {
    pub resource_use_cases: ResourceUseCases,
    pub subscription_use_cases: SubscriptionUseCases,
    pub resource_group_use_cases: ResourceGroupUseCases,
    pub application_use_cases: ApplicationUseCases,
    pub dashboard_use_cases: DashboardUseCases,
}

impl AppServices {
    /// An empty catalog with every store well formed.
    pub fn new() -> (s: Self)
        ensures
            s.resource_use_cases.inv(),
            s.subscription_use_cases.inv(),
            s.resource_group_use_cases.inv(),
            s.application_use_cases.inv(),
            s.resource_use_cases.resources@.len() == 0,
            s.subscription_use_cases.subscriptions@.len() == 0,
            s.resource_group_use_cases.resource_groups@.len() == 0,
            s.application_use_cases.applications@.len() == 0,
            s.resource_use_cases.next_id < i64::MAX,
            s.subscription_use_cases.next_id < i64::MAX,
            s.resource_group_use_cases.next_id < i64::MAX,
            s.application_use_cases.next_id < i64::MAX,
    {
        AppServices {
            resource_use_cases: ResourceUseCases::new(),
            subscription_use_cases: SubscriptionUseCases::new(),
            resource_group_use_cases: ResourceGroupUseCases::new(),
            application_use_cases: ApplicationUseCases::new(),
            dashboard_use_cases: DashboardUseCases::new(),
        }
    }
}

} // verus!
