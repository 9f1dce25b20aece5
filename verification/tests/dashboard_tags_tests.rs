use techstock::aggregation::percentage_scaled;
use techstock::dashboard::{DashboardFiltersDto, DashboardUseCases};
use techstock::entities::{
    CreateResourceGroupRequest, CreateResourceRequest, CreateSubscriptionRequest, Tag,
};
use techstock::resource_group_use_cases::ResourceGroupUseCases;
use techstock::resource_use_cases::ResourceUseCases;
use techstock::services::AppServices;
use techstock::subscription_use_cases::SubscriptionUseCases;
use techstock::tags::{get_available_tags, get_tag_suggestions, TagSuggestionQuery};

struct World {
    subs: SubscriptionUseCases,
    rgs: ResourceGroupUseCases,
    res: ResourceUseCases,
    dash: DashboardUseCases,
}

fn world() -> World {
    let mut subs = SubscriptionUseCases::new();
    subs.create_subscription(CreateSubscriptionRequest {
        name: "one".to_owned(),
        tenant_id: None,
    })
    .unwrap();
    subs.create_subscription(CreateSubscriptionRequest {
        name: "two".to_owned(),
        tenant_id: None,
    })
    .unwrap();
    let mut rgs = ResourceGroupUseCases::new();
    for (name, sid) in [("rg-a", 1), ("rg-b", 1), ("rg-c", 2)] {
        rgs.create_resource_group(
            CreateResourceGroupRequest { name: name.to_owned(), subscription_id: sid },
            &subs,
        )
        .unwrap();
    }
    World { subs, rgs, res: ResourceUseCases::new(), dash: DashboardUseCases::new() }
}

fn add(
    w: &mut World,
    name: &str,
    resource_type: &str,
    location: &str,
    environment: Option<&str>,
    sub: i64,
    rg: i64,
    tags: Vec<(&str, &str)>,
) {
    w.res
        .create_resource(
            CreateResourceRequest {
                azure_id: None,
                name: name.to_owned(),
                resource_type: resource_type.to_owned(),
                kind: None,
                location: location.to_owned(),
                subscription_id: sub,
                resource_group_id: rg,
                tags: tags
                    .into_iter()
                    .map(|(k, v)| Tag { key: k.to_owned(), value: v.to_owned() })
                    .collect(),
                extended_location: None,
                vendor: None,
                environment: environment.map(|e| e.to_owned()),
                provisioner: None,
            },
            &w.subs,
            &w.rgs,
        )
        .unwrap();
}

fn no_filters() -> Option<DashboardFiltersDto> {
    None
}

#[test]
fn dashboard_unscoped_counts_and_totals() {
    let mut w = world();
    add(&mut w, "a", "vm", "west", Some("prod"), 1, 1, vec![]);
    add(&mut w, "b", "vm", "west", Some("dev"), 1, 2, vec![]);
    add(&mut w, "c", "disk", "north", None, 2, 3, vec![]);
    let d = w
        .dash
        .get_dashboard_summary(no_filters(), &w.res, &w.subs, &w.rgs)
        .unwrap();
    assert_eq!(d.total_resources, 3);
    assert_eq!(d.total_subscriptions, 2);
    assert_eq!(d.total_resource_groups, 3);
    assert_eq!(d.total_locations, 2);
    assert_eq!(d.resource_types.len(), 2);
    assert_eq!(d.resource_types[0].resource_type, "vm");
    assert_eq!(d.resource_types[0].count, 2);
    assert_eq!(d.resource_types[1].resource_type, "disk");
    assert_eq!(d.resource_types[1].count, 1);
    let sum: u64 = d.resource_types.iter().map(|e| e.count).sum();
    assert_eq!(sum, d.total_resources);
    // An absent environment is counted under the `Unknown` label.
    assert!(d
        .environments
        .iter()
        .any(|e| e.environment == "Unknown" && e.count == 1));
}

#[test]
fn dashboard_subscription_scope_sets_totals() {
    let mut w = world();
    add(&mut w, "a", "vm", "west", None, 1, 1, vec![]);
    add(&mut w, "b", "vm", "west", None, 2, 3, vec![]);
    let filters = DashboardFiltersDto {
        subscription_id: Some(1),
        resource_group_id: None,
        location: None,
        environment: None,
        time_range: None,
    };
    let d = w
        .dash
        .get_dashboard_summary(Some(filters), &w.res, &w.subs, &w.rgs)
        .unwrap();
    assert_eq!(d.total_resources, 1);
    assert_eq!(d.total_subscriptions, 1);
    // Two groups belong to the restricted subscription.
    assert_eq!(d.total_resource_groups, 2);
}

#[test]
fn dashboard_resource_group_scope_counts_one_group() {
    let mut w = world();
    add(&mut w, "a", "vm", "west", None, 1, 1, vec![]);
    add(&mut w, "b", "vm", "west", None, 1, 2, vec![]);
    let filters = DashboardFiltersDto {
        subscription_id: Some(1),
        resource_group_id: Some(2),
        location: None,
        environment: None,
        time_range: None,
    };
    let d = w
        .dash
        .get_dashboard_summary(Some(filters), &w.res, &w.subs, &w.rgs)
        .unwrap();
    assert_eq!(d.total_resource_groups, 1);
    assert_eq!(d.total_resources, 1);
}

#[test]
fn dashboard_environment_scope_restricts_every_dimension() {
    let mut w = world();
    add(&mut w, "a", "vm", "west", Some("prod"), 1, 1, vec![]);
    add(&mut w, "b", "vm", "east", Some("dev"), 1, 1, vec![]);
    let filters = DashboardFiltersDto {
        subscription_id: None,
        resource_group_id: None,
        location: None,
        environment: Some("prod".to_owned()),
        time_range: None,
    };
    let d = w
        .dash
        .get_dashboard_summary(Some(filters), &w.res, &w.subs, &w.rgs)
        .unwrap();
    // Every dimension is restricted by every active scope filter.
    assert_eq!(d.total_resources, 1);
    assert_eq!(d.environments.len(), 1);
    assert_eq!(d.environments[0].environment, "prod");
    assert_eq!(d.locations.len(), 1);
    assert_eq!(d.locations[0].location, "west");
    assert_eq!(d.total_locations, 1);
}

#[test]
fn dashboard_mock_health_and_cost_formulas() {
    let mut w = world();
    for i in 0..20 {
        add(&mut w, &format!("vm-{i}"), "vm", "west", None, 1, 1, vec![]);
    }
    let d = w
        .dash
        .get_dashboard_summary(no_filters(), &w.res, &w.subs, &w.rgs)
        .unwrap();
    assert_eq!(d.health_summary.healthy, 17);
    assert_eq!(d.health_summary.warning, 2);
    assert_eq!(d.health_summary.critical, 1);
    assert_eq!(d.cost_summary.estimated_monthly_cost_cents, 25_000);
    assert_eq!(d.cost_summary.top_cost_driver, "Virtual Machines");
}

#[test]
fn dashboard_empty_store_yields_zeroes_and_placeholder() {
    let w = world();
    let d = w
        .dash
        .get_dashboard_summary(no_filters(), &w.res, &w.subs, &w.rgs)
        .unwrap();
    assert_eq!(d.total_resources, 0);
    assert_eq!(d.resource_types.len(), 0);
    assert_eq!(d.health_summary.healthy, 0);
    assert_eq!(d.cost_summary.estimated_monthly_cost_cents, 0);
    assert_eq!(d.cost_summary.top_cost_driver, "N/A");
}

#[test]
fn statistics_group_unscoped_counts_descending() {
    let mut w = world();
    add(&mut w, "a", "vm", "west", Some("prod"), 1, 1, vec![]);
    add(&mut w, "b", "vm", "east", Some("prod"), 1, 1, vec![]);
    add(&mut w, "c", "disk", "west", Some("dev"), 1, 1, vec![]);
    let stats = w.res.get_resource_statistics().unwrap();
    assert_eq!(stats.by_type[0], ("vm".to_owned(), 2));
    assert_eq!(stats.by_type[1], ("disk".to_owned(), 1));
    assert_eq!(stats.by_environment[0], ("prod".to_owned(), 2));
    assert!(stats.by_location.iter().any(|e| e == &("west".to_owned(), 2)));
}

#[test]
fn distinct_resource_types_lists_each_once() {
    let mut w = world();
    add(&mut w, "a", "vm", "west", None, 1, 1, vec![]);
    add(&mut w, "b", "disk", "west", None, 1, 1, vec![]);
    add(&mut w, "c", "vm", "west", None, 1, 1, vec![]);
    let types = w.res.get_distinct_resource_types().unwrap();
    assert_eq!(types, ["vm", "disk"]);
}

#[test]
fn popular_tags_rank_by_occurrence_count() {
    let mut w = world();
    add(&mut w, "a", "vm", "west", None, 1, 1, vec![("Env", "prod")]);
    add(&mut w, "b", "vm", "west", None, 1, 1, vec![("Env", "prod")]);
    add(&mut w, "c", "vm", "west", None, 1, 1, vec![("Env", "prod")]);
    add(&mut w, "d", "vm", "west", None, 1, 1, vec![("Env", "dev")]);
    let index = get_available_tags(&w.res).unwrap();
    assert_eq!(index.popular_tags.len(), 2);
    assert_eq!(index.popular_tags[0].key, "Env");
    assert_eq!(index.popular_tags[0].value, "prod");
    assert_eq!(index.popular_tags[0].count, 3);
    assert_eq!(index.popular_tags[1].key, "Env");
    assert_eq!(index.popular_tags[1].value, "dev");
    assert_eq!(index.popular_tags[1].count, 1);
    // The key-to-values map lists both values once under the one key.
    assert_eq!(index.tags.len(), 1);
    assert_eq!(index.tags[0].0, "Env");
    let mut values = index.tags[0].1.clone();
    values.sort();
    assert_eq!(values, ["dev", "prod"]);
}

#[test]
fn popular_tags_truncate_to_twenty() {
    let mut w = world();
    for i in 0..25 {
        let value = format!("value-{i}");
        add(&mut w, &format!("r{i}"), "vm", "west", None, 1, 1, vec![("Key", value.as_str())]);
    }
    let index = get_available_tags(&w.res).unwrap();
    assert_eq!(index.popular_tags.len(), 20);
}

#[test]
fn suggestions_match_key_or_value_and_deduplicate() {
    let mut w = world();
    add(&mut w, "a", "vm", "west", None, 1, 1, vec![("Env", "prod")]);
    add(&mut w, "b", "vm", "west", None, 1, 1, vec![("Env", "prod")]);
    add(&mut w, "c", "vm", "west", None, 1, 1, vec![("Provisioner", "terraform")]);
    let out = get_tag_suggestions(
        &w.res,
        &TagSuggestionQuery { q: Some("pro".to_owned()) },
    )
    .unwrap();
    // Both pairs match ("pro" occurs in the value "prod" and in the key
    // "Provisioner"), each exactly once despite the duplicate.
    assert_eq!(out.len(), 2);
    assert_eq!(out[0].display, "Env:prod");
    assert_eq!(out[1].display, "Provisioner:terraform");
}

#[test]
fn suggestions_put_exact_matches_first_and_fold_case() {
    let mut w = world();
    add(&mut w, "a", "vm", "west", None, 1, 1, vec![("Env", "prod")]);
    add(&mut w, "b", "vm", "west", None, 1, 1, vec![("Age", "prodigy")]);
    let out = get_tag_suggestions(
        &w.res,
        &TagSuggestionQuery { q: Some("PROD".to_owned()) },
    )
    .unwrap();
    assert_eq!(out.len(), 2);
    // "prod" is an exact value match once folded; "prodigy" only contains
    // the term, so it comes second even though "Age:prodigy" sorts lower.
    assert_eq!(out[0].display, "Env:prod");
    assert_eq!(out[1].display, "Age:prodigy");
}

#[test]
fn suggestions_truncate_to_ten() {
    let mut w = world();
    for i in 0..12 {
        let value = format!("value-{i:02}");
        add(&mut w, &format!("r{i}"), "vm", "west", None, 1, 1, vec![("Key", value.as_str())]);
    }
    let out = get_tag_suggestions(&w.res, &TagSuggestionQuery { q: None }).unwrap();
    assert_eq!(out.len(), 10);
}

#[test]
fn services_assemble_empty_stores() {
    let services = AppServices::new();
    assert_eq!(services.subscription_use_cases.count_all(), 0);
    assert_eq!(services.resource_group_use_cases.count_all(), 0);
    assert_eq!(services.application_use_cases.count_all(), 0);
    let stats = services.resource_use_cases.get_resource_statistics().unwrap();
    assert_eq!(stats.by_type.len(), 0);
}

#[test]
fn scaled_percentages_truncate_and_handle_empty_totals() {
    assert_eq!(percentage_scaled(25, 50), 5000);
    assert_eq!(percentage_scaled(1, 3), 3333);
    assert_eq!(percentage_scaled(2, 3), 6666);
    assert_eq!(percentage_scaled(0, 3), 0);
    assert_eq!(percentage_scaled(3, 3), 10000);
    assert_eq!(percentage_scaled(0, 0), 0);
}

#[test]
fn float_percentages_derived_from_counts_sum_to_one_hundred() {
    let mut w = world();
    add(&mut w, "a", "vm", "west", None, 1, 1, vec![]);
    add(&mut w, "b", "vm", "west", None, 1, 1, vec![]);
    add(&mut w, "c", "disk", "west", None, 1, 1, vec![]);
    add(&mut w, "d", "app", "west", None, 1, 1, vec![]);
    let d = w
        .dash
        .get_dashboard_summary(no_filters(), &w.res, &w.subs, &w.rgs)
        .unwrap();
    let total = d.total_resources as f32;
    let sum: f32 = d
        .resource_types
        .iter()
        .map(|e| (e.count as f32 / total) * 100.0)
        .sum();
    assert!((sum - 100.0).abs() < 0.001);
}

#[test]
fn dashboard_location_scope_restricts_location_dimension() {
    let mut w = world();
    add(&mut w, "a", "vm", "west", Some("prod"), 1, 1, vec![]);
    add(&mut w, "b", "disk", "east", Some("prod"), 1, 1, vec![]);
    let filters = DashboardFiltersDto {
        subscription_id: None,
        resource_group_id: None,
        location: Some("west".to_owned()),
        environment: None,
        time_range: None,
    };
    let d = w
        .dash
        .get_dashboard_summary(Some(filters), &w.res, &w.subs, &w.rgs)
        .unwrap();
    assert_eq!(d.total_resources, 1);
    // The location table itself is held to the location filter: the other
    // in-scope location never appears.
    assert_eq!(d.locations.len(), 1);
    assert_eq!(d.locations[0].location, "west");
    assert_eq!(d.resource_types.len(), 1);
    assert_eq!(d.resource_types[0].resource_type, "vm");
}
