//! The dashboard rollups: grouped counts by type, location and environment,
//! optionally scoped, with summary totals and the documented mock health
//! and cost figures.
//!
//! The four aggregates are computed one after another over the same store
//! reference; the dashboard is a best-effort snapshot, not a transaction.
//! Health and cost are synthetic placeholders derived from the resource
//! count alone — they are mock values, not telemetry or billing data.

use vstd::prelude::*;
use crate::aggregation::{
    counts_ok, entry_views, group_sorted_desc, label_views, lemma_counts_sum_to_total, sum_entries,
};
use crate::entities::{Resource, ResourceModel, duplicate_opt};
use crate::errors::DomainResult;
use crate::resource_group_use_cases::{rgs_of_subscription, ResourceGroupUseCases};
use crate::resource_use_cases::ResourceUseCases;
use crate::sorting::models;
use crate::subscription_use_cases::SubscriptionUseCases;

verus! {

/// The mathematical value of a dashboard scope: each present field
/// restricts the aggregated population.
#[verifier::ext_equal]
pub ghost struct ScopeModel {
    pub subscription_id: Option<int>,
    pub resource_group_id: Option<int>,
    pub location: Option<Seq<char>>,
    pub environment: Option<Seq<char>>,
}

/// Scope filters for a dashboard request. `time_range` is carried for the
/// request shape but takes no part in the aggregation.
#[derive(Debug, Clone)]
pub struct DashboardFiltersDto {
    pub subscription_id: Option<i64>,
    pub resource_group_id: Option<i64>,
    pub location: Option<String>,
    pub environment: Option<String>,
    pub time_range: Option<String>,
}

impl View for DashboardFiltersDto {
    type V = ScopeModel;

    open spec fn view(&self) -> ScopeModel {
        ScopeModel {
            subscription_id: match self.subscription_id {
                Some(s) => Some(s as int),
                None => None,
            },
            resource_group_id: match self.resource_group_id {
                Some(g) => Some(g as int),
                None => None,
            },
            location: crate::entities::view_opt(self.location),
            environment: crate::entities::view_opt(self.environment),
        }
    }
}

/// The scope that restricts nothing.
pub open spec fn empty_scope() -> ScopeModel {
    ScopeModel { subscription_id: None, resource_group_id: None, location: None, environment: None }
}

/// The scope a dashboard request carries; no request means no restriction.
pub open spec fn scope_of(filters: Option<DashboardFiltersDto>) -> ScopeModel {
    match filters {
        Some(f) => f@,
        None => empty_scope(),
    }
}

/// Whether a resource falls inside a scope: every present field must
/// match exactly; resources without an environment never match an
/// environment restriction.
pub open spec fn in_scope(m: ResourceModel, s: ScopeModel) -> bool {
    &&& (s.subscription_id matches Some(v) ==> m.subscription_id == v)
    &&& (s.resource_group_id matches Some(v) ==> m.resource_group_id == v)
    &&& (s.location matches Some(l) ==> m.location == l)
    &&& (s.environment matches Some(e) ==> m.environment == Some(e))
}

/// The environment a resource is counted under: its own, or `Unknown`.
pub open spec fn env_label(m: ResourceModel) -> Seq<char> {
    match m.environment {
        Some(e) => e,
        None => "Unknown"@,
    }
}

/// The resources a scope keeps, in store order.
pub open spec fn in_scope_filter(ms: Seq<ResourceModel>, s: ScopeModel) -> Seq<ResourceModel> {
    ms.filter(|m: ResourceModel| in_scope(m, s))
}

/// The type of each resource, in order.
pub open spec fn type_label_seq(ms: Seq<ResourceModel>) -> Seq<Seq<char>> {
    ms.map_values(|m: ResourceModel| m.resource_type)
}

/// The location of each resource, in order.
pub open spec fn location_label_seq(ms: Seq<ResourceModel>) -> Seq<Seq<char>> {
    ms.map_values(|m: ResourceModel| m.location)
}

/// The environment label of each resource, in order.
pub open spec fn environment_label_seq(ms: Seq<ResourceModel>) -> Seq<Seq<char>> {
    ms.map_values(|m: ResourceModel| env_label(m))
}

/// The type labels of the in-scope resources, in store order.
pub open spec fn type_labels(ms: Seq<ResourceModel>, s: ScopeModel) -> Seq<Seq<char>> {
    type_label_seq(in_scope_filter(ms, s))
}

/// The location labels of the in-scope resources, in store order.
pub open spec fn location_labels(ms: Seq<ResourceModel>, s: ScopeModel) -> Seq<Seq<char>> {
    location_label_seq(in_scope_filter(ms, s))
}

/// The environment labels of the in-scope resources, in store order,
/// unknown environments counted under `Unknown`.
pub open spec fn environment_labels(ms: Seq<ResourceModel>, s: ScopeModel) -> Seq<Seq<char>> {
    environment_label_seq(in_scope_filter(ms, s))
}

/// Scope membership test matching `in_scope`.
fn in_scope_exec(r: &Resource, s: &DashboardFiltersDto) -> (b: bool)
    ensures
        b == in_scope(r@, s@),
{
    if let Some(v) = s.subscription_id {
        if r.subscription_id != v {
            return false;
        }
    }
    if let Some(v) = s.resource_group_id {
        if r.resource_group_id != v {
            return false;
        }
    }
    if let Some(l) = &s.location {
        if !crate::text::str_eq(r.location.as_str(), l.as_str()) {
            return false;
        }
    }
    if let Some(e) = &s.environment {
        match &r.environment {
            Some(re) => if !crate::text::str_eq(re.as_str(), e.as_str()) {
                return false;
            },
            None => {
                return false;
            },
        }
    }
    true
}

/// The type labels of the in-scope resources.
fn collect_type_labels(resources: &Vec<Resource>, s: &DashboardFiltersDto) -> (out: Vec<String>)
    ensures
        label_views(out@) == type_labels(models(resources@), s@),
{
    let mut out: Vec<String> = Vec::new();
    let mut i: usize = 0;
    proof {
        reveal(Seq::filter);
        assert(models(resources@.subrange(0, 0)) =~= Seq::<ResourceModel>::empty());
        assert(label_views(out@) =~= type_labels(models(resources@.subrange(0, 0)), s@));
    }
    while i < resources.len()
        invariant
            i <= resources@.len(),
            label_views(out@) == type_labels(models(resources@.subrange(0, i as int)), s@),
        decreases resources.len() - i,
    {
        let ghost pre = models(resources@.subrange(0, i as int));
        let ghost x = resources@[i as int]@;
        if in_scope_exec(&resources[i], s) {
            out.push(resources[i].resource_type.clone());
        }
        proof {
            reveal(Seq::filter);
            assert(models(resources@.subrange(0, i + 1)) =~= pre.push(x));
            assert(pre.push(x).drop_last() =~= pre);
            assert(pre.push(x).last() == x);
            if in_scope(x, s@) {
                assert(in_scope_filter(pre.push(x), s@) == in_scope_filter(pre, s@).push(x));
                assert(type_label_seq(in_scope_filter(pre, s@).push(x)) =~= type_label_seq(
                    in_scope_filter(pre, s@),
                ).push(x.resource_type));
            } else {
                assert(in_scope_filter(pre.push(x), s@) == in_scope_filter(pre, s@));
            }
            assert(label_views(out@) =~= type_labels(pre.push(x), s@));
        }
        i = i + 1;
    }
    proof {
        assert(resources@.subrange(0, resources@.len() as int) =~= resources@);
    }
    out
}

/// The location labels of the in-scope resources.
fn collect_location_labels(resources: &Vec<Resource>, s: &DashboardFiltersDto) -> (out: Vec<
    String,
>)
    ensures
        label_views(out@) == location_labels(models(resources@), s@),
{
    let mut out: Vec<String> = Vec::new();
    let mut i: usize = 0;
    proof {
        reveal(Seq::filter);
        assert(models(resources@.subrange(0, 0)) =~= Seq::<ResourceModel>::empty());
        assert(label_views(out@) =~= location_labels(models(resources@.subrange(0, 0)), s@));
    }
    while i < resources.len()
        invariant
            i <= resources@.len(),
            label_views(out@) == location_labels(models(resources@.subrange(0, i as int)), s@),
        decreases resources.len() - i,
    {
        let ghost pre = models(resources@.subrange(0, i as int));
        let ghost x = resources@[i as int]@;
        if in_scope_exec(&resources[i], s) {
            out.push(resources[i].location.clone());
        }
        proof {
            reveal(Seq::filter);
            assert(models(resources@.subrange(0, i + 1)) =~= pre.push(x));
            assert(pre.push(x).drop_last() =~= pre);
            assert(pre.push(x).last() == x);
            if in_scope(x, s@) {
                assert(in_scope_filter(pre.push(x), s@) == in_scope_filter(pre, s@).push(x));
                assert(location_label_seq(in_scope_filter(pre, s@).push(x))
                    =~= location_label_seq(in_scope_filter(pre, s@)).push(x.location));
            } else {
                assert(in_scope_filter(pre.push(x), s@) == in_scope_filter(pre, s@));
            }
            assert(label_views(out@) =~= location_labels(pre.push(x), s@));
        }
        i = i + 1;
    }
    proof {
        assert(resources@.subrange(0, resources@.len() as int) =~= resources@);
    }
    out
}

/// The environment labels of the in-scope resources; unknown environments
/// are counted under `Unknown`.
fn collect_environment_labels(resources: &Vec<Resource>, s: &DashboardFiltersDto) -> (out: Vec<
    String,
>)
    ensures
        label_views(out@) == environment_labels(models(resources@), s@),
{
    let mut out: Vec<String> = Vec::new();
    let mut i: usize = 0;
    proof {
        reveal(Seq::filter);
        assert(models(resources@.subrange(0, 0)) =~= Seq::<ResourceModel>::empty());
        assert(label_views(out@) =~= environment_labels(models(resources@.subrange(0, 0)), s@));
    }
    while i < resources.len()
        invariant
            i <= resources@.len(),
            label_views(out@) == environment_labels(models(resources@.subrange(0, i as int)), s@),
        decreases resources.len() - i,
    {
        let ghost pre = models(resources@.subrange(0, i as int));
        let ghost x = resources@[i as int]@;
        if in_scope_exec(&resources[i], s) {
            let label: String = match &resources[i].environment {
                Some(e) => e.clone(),
                None => "Unknown".to_owned(),
            };
            proof {
                assert(label@ == env_label(x));
            }
            out.push(label);
        }
        proof {
            reveal(Seq::filter);
            assert(models(resources@.subrange(0, i + 1)) =~= pre.push(x));
            assert(pre.push(x).drop_last() =~= pre);
            assert(pre.push(x).last() == x);
            if in_scope(x, s@) {
                assert(in_scope_filter(pre.push(x), s@) == in_scope_filter(pre, s@).push(x));
                assert(environment_label_seq(in_scope_filter(pre, s@).push(x))
                    =~= environment_label_seq(in_scope_filter(pre, s@)).push(env_label(x)));
            } else {
                assert(in_scope_filter(pre.push(x), s@) == in_scope_filter(pre, s@));
            }
            assert(label_views(out@) =~= environment_labels(pre.push(x), s@));
        }
        i = i + 1;
    }
    proof {
        assert(resources@.subrange(0, resources@.len() as int) =~= resources@);
    }
    out
}

/// One resource-type rollup entry.
#[derive(Debug, Clone)]
pub struct ResourceTypeSummary {
    pub resource_type: String,
    pub count: u64,
}

/// One location rollup entry.
#[derive(Debug, Clone)]
pub struct LocationSummary {
    pub location: String,
    pub count: u64,
}

/// One environment rollup entry.
#[derive(Debug, Clone)]
pub struct EnvironmentSummary {
    pub environment: String,
    pub count: u64,
}

/// Mock health split of the resource count; not telemetry.
#[derive(Debug, Clone)]
pub struct HealthSummary {
    pub healthy: u64,
    pub warning: u64,
    pub critical: u64,
}

/// Mock cost figures derived from the resource count alone; not billing
/// data. The amount is carried in cents to stay exact.
#[derive(Debug, Clone)]
pub struct CostSummary {
    pub estimated_monthly_cost_cents: u64,
    pub top_cost_driver: String,
}

/// The dashboard rollup: totals, per-dimension counts, and the mock health
/// and cost blocks.
#[derive(Debug, Clone)]
pub struct DashboardSummaryResponse {
    pub total_resources: u64,
    pub total_subscriptions: u64,
    pub total_resource_groups: u64,
    pub total_locations: u64,
    pub resource_types: Vec<ResourceTypeSummary>,
    pub locations: Vec<LocationSummary>,
    pub environments: Vec<EnvironmentSummary>,
    pub health_summary: HealthSummary,
    pub cost_summary: CostSummary,
}

/// The mathematical value of the type rollup.
pub open spec fn type_entry_views(entries: Seq<ResourceTypeSummary>) -> Seq<(Seq<char>, u64)> {
    entries.map_values(|e: ResourceTypeSummary| (e.resource_type@, e.count))
}

/// The mathematical value of the location rollup.
pub open spec fn location_entry_views(entries: Seq<LocationSummary>) -> Seq<(Seq<char>, u64)> {
    entries.map_values(|e: LocationSummary| (e.location@, e.count))
}

/// The mathematical value of the environment rollup.
pub open spec fn environment_entry_views(entries: Seq<EnvironmentSummary>) -> Seq<
    (Seq<char>, u64),
> {
    entries.map_values(|e: EnvironmentSummary| (e.environment@, e.count))
}

/// The dashboard aggregation engine.
pub struct DashboardUseCases {}

impl DashboardUseCases {
    /// A dashboard engine; it carries no state of its own.
    pub fn new() -> (d: Self) {
        DashboardUseCases {  }
    }

    /// Computes the dashboard rollup, optionally scoped. Every dimension
    /// is restricted by every active scope filter; counts are exact,
    /// ordered by count descending, and the type
    /// counts sum to `total_resources`. With a subscription restriction
    /// the subscription total is 1 and the group total counts that
    /// subscription's groups; with a group restriction the group total is
    /// 1. Health and cost are the documented mock formulas. Never fails.
    pub fn get_dashboard_summary(
        &self,
        filters: Option<DashboardFiltersDto>,
        resources: &ResourceUseCases,
        subscriptions: &SubscriptionUseCases,
        resource_groups: &ResourceGroupUseCases,
    ) -> (r: DomainResult<DashboardSummaryResponse>)
        ensures
            match r {
                Ok(d) => {
                    let scope = scope_of(filters);
                    let ms = models(resources.resources@);
                    &&& counts_ok(type_entry_views(d.resource_types@), type_labels(ms, scope))
                    &&& counts_ok(
                        location_entry_views(d.locations@),
                        location_labels(ms, scope),
                    )
                    &&& counts_ok(
                        environment_entry_views(d.environments@),
                        environment_labels(ms, scope),
                    )
                    &&& d.total_resources == type_labels(ms, scope).len()
                    &&& sum_entries(type_entry_views(d.resource_types@)) == d.total_resources
                    &&& d.total_locations == d.locations@.len()
                    &&& d.total_subscriptions == (if scope.subscription_id is Some {
                        1int
                    } else {
                        subscriptions.subscriptions@.len() as int
                    })
                    &&& d.total_resource_groups == (if scope.resource_group_id is Some {
                        1int
                    } else {
                        match scope.subscription_id {
                            Some(sid) => rgs_of_subscription(
                                resource_groups.resource_groups@,
                                sid,
                            ).len() as int,
                            None => resource_groups.resource_groups@.len() as int,
                        }
                    })
                    &&& d.health_summary.healthy == d.total_resources * 85 / 100
                    &&& d.health_summary.warning == d.total_resources * 10 / 100
                    &&& d.health_summary.critical == d.total_resources * 5 / 100
                    &&& d.cost_summary.estimated_monthly_cost_cents == (
                    if d.total_resources * 1250 <= u64::MAX {
                        d.total_resources * 1250
                    } else {
                        u64::MAX as int
                    })
                    &&& d.cost_summary.top_cost_driver@ == (if d.total_resources > 0 {
                        "Virtual Machines"@
                    } else {
                        "N/A"@
                    })
                },
                Err(_) => false,
            },
    {
        let scope: DashboardFiltersDto = match &filters {
            Some(f) => DashboardFiltersDto {
                subscription_id: f.subscription_id,
                resource_group_id: f.resource_group_id,
                location: duplicate_opt(&f.location),
                environment: duplicate_opt(&f.environment),
                time_range: None,
            },
            None => DashboardFiltersDto {
                subscription_id: None,
                resource_group_id: None,
                location: None,
                environment: None,
                time_range: None,
            },
        };
        proof {
            assert(scope@ =~= scope_of(filters));
        }
        let type_label_list = collect_type_labels(&resources.resources, &scope);
        let type_counts = group_sorted_desc(&type_label_list);
        let mut resource_types: Vec<ResourceTypeSummary> = Vec::new();
        let mut i: usize = 0;
        while i < type_counts.len()
            invariant
                i <= type_counts@.len(),
                type_entry_views(resource_types@) == entry_views(type_counts@).subrange(
                    0,
                    i as int,
                ),
            decreases type_counts.len() - i,
        {
            let ghost pre_v = type_entry_views(resource_types@);
            resource_types.push(
                ResourceTypeSummary {
                    resource_type: type_counts[i].0.clone(),
                    count: type_counts[i].1,
                },
            );
            i = i + 1;
            proof {
                assert(entry_views(type_counts@)[i - 1] == (
                    type_counts@[i - 1].0@,
                    type_counts@[i - 1].1,
                ));
                assert(type_entry_views(resource_types@) =~= pre_v.push(
                    entry_views(type_counts@)[i - 1],
                ));
                assert(entry_views(type_counts@).subrange(0, i as int) =~= pre_v.push(
                    entry_views(type_counts@)[i - 1],
                ));
            }
        }
        proof {
            assert(type_entry_views(resource_types@) =~= entry_views(type_counts@));
        }
        let location_label_list = collect_location_labels(&resources.resources, &scope);
        let location_counts = group_sorted_desc(&location_label_list);
        let mut locations: Vec<LocationSummary> = Vec::new();
        let mut i2: usize = 0;
        while i2 < location_counts.len()
            invariant
                i2 <= location_counts@.len(),
                location_entry_views(locations@) == entry_views(location_counts@).subrange(
                    0,
                    i2 as int,
                ),
            decreases location_counts.len() - i2,
        {
            let ghost pre_v = location_entry_views(locations@);
            locations.push(
                LocationSummary {
                    location: location_counts[i2].0.clone(),
                    count: location_counts[i2].1,
                },
            );
            i2 = i2 + 1;
            proof {
                assert(entry_views(location_counts@)[i2 - 1] == (
                    location_counts@[i2 - 1].0@,
                    location_counts@[i2 - 1].1,
                ));
                assert(location_entry_views(locations@) =~= pre_v.push(
                    entry_views(location_counts@)[i2 - 1],
                ));
                assert(entry_views(location_counts@).subrange(0, i2 as int) =~= pre_v.push(
                    entry_views(location_counts@)[i2 - 1],
                ));
            }
        }
        proof {
            assert(location_entry_views(locations@) =~= entry_views(location_counts@));
        }
        let environment_label_list = collect_environment_labels(&resources.resources, &scope);
        let environment_counts = group_sorted_desc(&environment_label_list);
        let mut environments: Vec<EnvironmentSummary> = Vec::new();
        let mut i3: usize = 0;
        while i3 < environment_counts.len()
            invariant
                i3 <= environment_counts@.len(),
                environment_entry_views(environments@) == entry_views(
                    environment_counts@,
                ).subrange(0, i3 as int),
            decreases environment_counts.len() - i3,
        {
            let ghost pre_v = environment_entry_views(environments@);
            environments.push(
                EnvironmentSummary {
                    environment: environment_counts[i3].0.clone(),
                    count: environment_counts[i3].1,
                },
            );
            i3 = i3 + 1;
            proof {
                assert(entry_views(environment_counts@)[i3 - 1] == (
                    environment_counts@[i3 - 1].0@,
                    environment_counts@[i3 - 1].1,
                ));
                assert(environment_entry_views(environments@) =~= pre_v.push(
                    entry_views(environment_counts@)[i3 - 1],
                ));
                assert(entry_views(environment_counts@).subrange(0, i3 as int) =~= pre_v.push(
                    entry_views(environment_counts@)[i3 - 1],
                ));
            }
        }
        proof {
            assert(environment_entry_views(environments@) =~= entry_views(environment_counts@));
        }
        let total_resources = type_label_list.len() as u64;
        proof {
            lemma_counts_sum_to_total(entry_views(type_counts@), label_views(type_label_list@));
        }
        let total_locations = locations.len() as u64;
        let total_subscriptions: u64 = match scope.subscription_id {
            Some(_) => 1,
            None => subscriptions.count_all(),
        };
        let total_resource_groups: u64 = if scope.resource_group_id.is_some() {
            1
        } else {
            match scope.subscription_id {
                Some(sid) => {
                    let groups = match resource_groups.get_resource_groups_by_subscription(
                        sid,
                        subscriptions,
                    ) {
                        Ok(g) => g.len() as u64,
                        Err(_) => {
                            let all = count_groups_of_subscription(resource_groups, sid);
                            all
                        },
                    };
                    groups
                },
                None => resource_groups.count_all(),
            }
        };
        let t128: u128 = total_resources as u128;
        let healthy: u64 = (t128 * 85 / 100) as u64;
        let warning: u64 = (t128 * 10 / 100) as u64;
        let critical: u64 = (t128 * 5 / 100) as u64;
        let cents128: u128 = t128 * 1250;
        let cents: u64 = if cents128 > u64::MAX as u128 {
            u64::MAX
        } else {
            cents128 as u64
        };
        let top_cost_driver: String = if total_resources > 0 {
            "Virtual Machines".to_owned()
        } else {
            "N/A".to_owned()
        };
        Ok(
            DashboardSummaryResponse {
                total_resources,
                total_subscriptions,
                total_resource_groups,
                total_locations,
                resource_types,
                locations,
                environments,
                health_summary: HealthSummary { healthy, warning, critical },
                cost_summary: CostSummary {
                    estimated_monthly_cost_cents: cents,
                    top_cost_driver,
                },
            },
        )
    }
}

/// Whether the list holds this type name.
pub open spec fn list_has_type(list: Seq<String>, ty: Seq<char>) -> bool {
    exists|t: int| 0 <= t < list.len() && (#[trigger] list[t])@ == ty
}

/// Whether any stored resource has this type name.
pub open spec fn store_has_type(ms: Seq<ResourceModel>, ty: Seq<char>) -> bool {
    exists|i: int| 0 <= i < ms.len() && (#[trigger] ms[i]).resource_type == ty
}

/// Unscoped grouped counts per dimension, for the statistics endpoint.
#[derive(Debug, Clone)]
pub struct ResourceStatistics {
    pub by_type: Vec<(String, u64)>,
    pub by_location: Vec<(String, u64)>,
    pub by_environment: Vec<(String, u64)>,
}

impl ResourceUseCases {
    /// Grouped counts of every resource by type, location and environment,
    /// each ordered by count descending. Never fails.
    pub fn get_resource_statistics(&self) -> (r: DomainResult<ResourceStatistics>)
        ensures
            match r {
                Ok(stats) => {
                    let ms = models(self.resources@);
                    &&& counts_ok(entry_views(stats.by_type@), type_labels(ms, empty_scope()))
                    &&& counts_ok(
                        entry_views(stats.by_location@),
                        location_labels(ms, empty_scope()),
                    )
                    &&& counts_ok(
                        entry_views(stats.by_environment@),
                        environment_labels(ms, empty_scope()),
                    )
                },
                Err(_) => false,
            },
    {
        let scope = DashboardFiltersDto {
            subscription_id: None,
            resource_group_id: None,
            location: None,
            environment: None,
            time_range: None,
        };
        proof {
            assert(scope@ =~= empty_scope());
        }
        let by_type = group_sorted_desc(&collect_type_labels(&self.resources, &scope));
        let by_location = group_sorted_desc(&collect_location_labels(&self.resources, &scope));
        let by_environment = group_sorted_desc(
            &collect_environment_labels(&self.resources, &scope),
        );
        Ok(ResourceStatistics { by_type, by_location, by_environment })
    }

    /// The distinct resource type names of the store, each listed once, in
    /// first-occurrence order. Never fails.
    pub fn get_distinct_resource_types(&self) -> (r: DomainResult<Vec<String>>)
        ensures
            match r {
                Ok(list) => {
                    let ms = models(self.resources@);
                    &&& forall|t: int, u: int|
                        0 <= t < u < list@.len() ==> (#[trigger] list@[t])@ != (
                        #[trigger] list@[u])@
                    &&& forall|t: int|
                        0 <= t < list@.len() ==> store_has_type(ms, (#[trigger] list@[t])@)
                    &&& forall|i: int|
                        0 <= i < ms.len() ==> list_has_type(
                            list@,
                            (#[trigger] ms[i]).resource_type,
                        )
                },
                Err(_) => false,
            },
    {
        let ghost ms = models(self.resources@);
        let mut list: Vec<String> = Vec::new();
        let mut i: usize = 0;
        while i < self.resources.len()
            invariant
                i <= self.resources@.len(),
                ms == models(self.resources@),
                forall|t: int, u: int|
                    0 <= t < u < list@.len() ==> (#[trigger] list@[t])@ != (#[trigger] list@[u])@,
                forall|t: int|
                    0 <= t < list@.len() ==> store_has_type(ms, (#[trigger] list@[t])@),
                forall|p: int|
                    0 <= p < i ==> list_has_type(list@, (#[trigger] ms[p]).resource_type),
            decreases self.resources.len() - i,
        {
            let ghost list0 = list@;
            let mut t: usize = 0;
            let mut found = false;
            while t < list.len() && !found
                invariant
                    t <= list@.len(),
                    list@ == list0,
                    i < self.resources@.len(),
                    found ==> t < list@.len() && list@[t as int]@
                        == self.resources@[i as int].resource_type@,
                    !found ==> forall|u: int|
                        0 <= u < t ==> (#[trigger] list@[u])@
                            != self.resources@[i as int].resource_type@,
                decreases list@.len() - t, (if found { 0int } else { 1int }),
            {
                if crate::text::str_eq(
                    list[t].as_str(),
                    self.resources[i].resource_type.as_str(),
                ) {
                    found = true;
                } else {
                    t = t + 1;
                }
            }
            if !found {
                list.push(self.resources[i].resource_type.clone());
                proof {
                    assert(list@[list0.len() as int]@ == ms[i as int].resource_type);
                    assert(forall|u: int| 0 <= u < list0.len() ==> list@[u] == list0[u]);
                    assert(store_has_type(ms, list@[list0.len() as int]@));
                    assert(list_has_type(list@, ms[i as int].resource_type));
                }
            } else {
                proof {
                    assert(list@[t as int]@ == ms[i as int].resource_type);
                    assert(list_has_type(list@, ms[i as int].resource_type));
                }
            }
            proof {
                assert forall|p: int|
                    0 <= p < i + 1 implies list_has_type(
                    list@,
                    (#[trigger] ms[p]).resource_type,
                ) by {
                    if p < i {
                        assert(list_has_type(list0, ms[p].resource_type));
                        let w = choose|w: int|
                            0 <= w < list0.len() && (#[trigger] list0[w])@ == ms[p].resource_type;
                        assert(list@[w]@ == ms[p].resource_type);
                    }
                }
                assert forall|w: int|
                    0 <= w < list@.len() implies store_has_type(
                    ms,
                    (#[trigger] list@[w])@,
                ) by {
                    if w < list0.len() {
                        assert(list@[w] == list0[w]);
                        assert(store_has_type(ms, list0[w]@));
                    }
                }
            }
            i = i + 1;
        }
        Ok(list)
    }
}

/// The number of groups belonging to a subscription.
fn count_groups_of_subscription(rgs: &ResourceGroupUseCases, sid: i64) -> (n: u64)
    ensures
        n == rgs_of_subscription(rgs.resource_groups@, sid as int).len(),
{
    let mut n: u64 = 0;
    let mut i: usize = 0;
    proof {
        reveal(Seq::filter);
        assert(rgs.resource_groups@.subrange(0, 0) =~= Seq::<
            crate::entities::ResourceGroup,
        >::empty());
        assert(rgs_of_subscription(rgs.resource_groups@.subrange(0, 0), sid as int).len() == 0);
    }
    while i < rgs.resource_groups.len()
        invariant
            i <= rgs.resource_groups@.len(),
            n == rgs_of_subscription(rgs.resource_groups@.subrange(0, i as int), sid as int).len(),
            n <= i,
        decreases rgs.resource_groups.len() - i,
    {
        let ghost pre = rgs.resource_groups@.subrange(0, i as int);
        let ghost x = rgs.resource_groups@[i as int];
        if rgs.resource_groups[i].subscription_id == sid {
            n = n + 1;
        }
        proof {
            reveal(Seq::filter);
            assert(rgs.resource_groups@.subrange(0, i + 1) =~= pre.push(x));
            assert(pre.push(x).drop_last() =~= pre);
            assert(pre.push(x).last() == x);
        }
        i = i + 1;
    }
    proof {
        assert(rgs.resource_groups@.subrange(0, rgs.resource_groups@.len() as int)
            =~= rgs.resource_groups@);
    }
    n
}

} // verus!
