use techstock::entities::{
    CreateResourceGroupRequest, CreateResourceRequest, CreateSubscriptionRequest, Tag,
};
use techstock::resource_group_use_cases::ResourceGroupUseCases;
use techstock::resource_use_cases::ResourceUseCases;
use techstock::subscription_use_cases::SubscriptionUseCases;
use techstock::value_objects::{
    Pagination, PaginationParams, ResourceFilters, SortDirection, SortParams,
};
use techstock::dto::{
    validate_create_resource_dto, validate_update_resource_dto, CreateResourceDto,
    ResourceQueryDto, UpdateResourceDto,
};
use techstock::errors::DomainError;
use techstock::responses::{ApiResponse, PaginatedResponse};

fn empty_filters() -> ResourceFilters {
    ResourceFilters::none()
}

fn no_sort() -> SortParams {
    SortParams::unspecified()
}

fn default_pagination() -> PaginationParams {
    PaginationParams { page: None, size: None }
}

struct Fixture {
    subs: SubscriptionUseCases,
    rgs: ResourceGroupUseCases,
    res: ResourceUseCases,
}

fn fixture() -> Fixture {
    let mut subs = SubscriptionUseCases::new();
    subs.create_subscription(CreateSubscriptionRequest {
        name: "main".to_owned(),
        tenant_id: None,
    })
    .unwrap();
    let mut rgs = ResourceGroupUseCases::new();
    rgs.create_resource_group(
        CreateResourceGroupRequest { name: "rg".to_owned(), subscription_id: 1 },
        &subs,
    )
    .unwrap();
    Fixture { subs, rgs, res: ResourceUseCases::new() }
}

fn add(
    f: &mut Fixture,
    name: &str,
    resource_type: &str,
    location: &str,
    environment: Option<&str>,
    tags: Vec<(&str, &str)>,
) {
    f.res
        .create_resource(
            CreateResourceRequest {
                azure_id: None,
                name: name.to_owned(),
                resource_type: resource_type.to_owned(),
                kind: None,
                location: location.to_owned(),
                subscription_id: 1,
                resource_group_id: 1,
                tags: tags
                    .into_iter()
                    .map(|(k, v)| Tag { key: k.to_owned(), value: v.to_owned() })
                    .collect(),
                extended_location: None,
                vendor: None,
                environment: environment.map(|e| e.to_owned()),
                provisioner: None,
            },
            &f.subs,
            &f.rgs,
        )
        .unwrap();
}

#[test]
fn pagination_normalizes_page_and_size() {
    let p = PaginationParams { page: Some(0), size: Some(0) };
    assert_eq!(p.page(), 1);
    assert_eq!(p.size(), 1);
    let p = PaginationParams { page: None, size: None };
    assert_eq!(p.page(), 1);
    assert_eq!(p.size(), 20);
    let p = PaginationParams { page: Some(7), size: Some(2_000_000) };
    assert_eq!(p.page(), 7);
    assert_eq!(p.size(), 100_000);
}

#[test]
fn pagination_echo_derives_total_pages() {
    let pg = Pagination::new(1, 3, 10);
    assert_eq!(pg.total_pages, 4);
    assert_eq!(pg.offset(), 0);
    let pg = Pagination::new(4, 3, 10);
    assert_eq!(pg.offset(), 9);
    let pg = Pagination::new(1, 20, 0);
    assert_eq!(pg.total_pages, 0);
}

#[test]
fn total_counts_all_matches_independent_of_page() {
    let mut f = fixture();
    add(&mut f, "vm-a", "virtualMachines", "westeurope", None, vec![]);
    add(&mut f, "vm-b", "virtualMachines", "northeurope", None, vec![]);
    add(&mut f, "disk-a", "disks", "westeurope", None, vec![]);
    let filters = ResourceFilters { resource_type: Some("virtualmachines".to_owned()), ..empty_filters() };
    let (items, pg) = f
        .res
        .list_resources(
            PaginationParams { page: Some(1), size: Some(1) },
            filters,
            no_sort(),
        )
        .unwrap();
    assert_eq!(pg.total, 2);
    assert_eq!(items.len(), 1);
    assert_eq!(pg.total_pages, 2);
}

#[test]
fn type_filter_is_case_insensitive_substring() {
    let mut f = fixture();
    add(&mut f, "a", "Microsoft.Compute/virtualMachines", "w", None, vec![]);
    add(&mut f, "b", "Microsoft.Storage/storageAccounts", "w", None, vec![]);
    let filters = ResourceFilters { resource_type: Some("VIRTUALMACH".to_owned()), ..empty_filters() };
    let (items, pg) = f.res.list_resources(default_pagination(), filters, no_sort()).unwrap();
    assert_eq!(pg.total, 1);
    assert_eq!(items[0].name, "a");
}

#[test]
fn location_and_environment_filters_are_exact() {
    let mut f = fixture();
    add(&mut f, "a", "t", "westeurope", Some("prod"), vec![]);
    add(&mut f, "b", "t", "westeurope2", Some("prod"), vec![]);
    add(&mut f, "c", "t", "westeurope", None, vec![]);
    let filters = ResourceFilters { location: Some("westeurope".to_owned()), ..empty_filters() };
    let (_, pg) = f.res.list_resources(default_pagination(), filters, no_sort()).unwrap();
    assert_eq!(pg.total, 2);
    let filters = ResourceFilters { environment: Some("prod".to_owned()), ..empty_filters() };
    let (_, pg) = f.res.list_resources(default_pagination(), filters, no_sort()).unwrap();
    // A resource without an environment never matches an exact filter.
    assert_eq!(pg.total, 2);
}

#[test]
fn search_spans_name_type_location_and_optional_fields() {
    let mut f = fixture();
    add(&mut f, "alpha", "compute", "westeurope", None, vec![]);
    add(&mut f, "beta", "NEEDLEtype", "northeurope", None, vec![]);
    add(&mut f, "needle-name", "compute", "northeurope", None, vec![]);
    add(&mut f, "gamma", "compute", "needle-land", None, vec![]);
    let filters = ResourceFilters { search: Some("NeEdLe".to_owned()), ..empty_filters() };
    let (_, pg) = f.res.list_resources(default_pagination(), filters, no_sort()).unwrap();
    assert_eq!(pg.total, 3);
}

#[test]
fn tags_filter_matches_key_exactly_and_value_case_insensitively() {
    let mut f = fixture();
    add(&mut f, "a", "t", "w", None, vec![("Env", "Production")]);
    add(&mut f, "b", "t", "w", None, vec![("env", "Production")]);
    add(&mut f, "c", "t", "w", None, vec![("Env", "dev")]);
    let filters = ResourceFilters { tags: Some("Env:prod".to_owned()), ..empty_filters() };
    let (items, pg) = f.res.list_resources(default_pagination(), filters, no_sort()).unwrap();
    assert_eq!(pg.total, 1);
    assert_eq!(items[0].name, "a");
}

#[test]
fn tags_filter_or_combines_pairs_and_drops_malformed_tokens() {
    let mut f = fixture();
    add(&mut f, "a", "t", "w", None, vec![("Env", "prod")]);
    add(&mut f, "b", "t", "w", None, vec![("Tier", "gold")]);
    add(&mut f, "c", "t", "w", None, vec![("Other", "x")]);
    let filters = ResourceFilters {
        tags: Some(" Env : prod , Tier:gold ".to_owned()),
        ..empty_filters()
    };
    let (_, pg) = f.res.list_resources(default_pagination(), filters, no_sort()).unwrap();
    assert_eq!(pg.total, 2);
    // A token without exactly one colon is dropped; with no token left the
    // filter matches everything.
    let filters = ResourceFilters { tags: Some("malformed".to_owned()), ..empty_filters() };
    let (_, pg) = f.res.list_resources(default_pagination(), filters, no_sort()).unwrap();
    assert_eq!(pg.total, 3);
}

#[test]
fn search_relevance_ranks_exact_prefix_substring() {
    let mut f = fixture();
    add(&mut f, "test-vm1", "t", "w", None, vec![]);
    add(&mut f, "vm10", "t", "w", None, vec![]);
    add(&mut f, "vm1", "t", "w", None, vec![]);
    let filters = ResourceFilters { search: Some("vm1".to_owned()), ..empty_filters() };
    let (items, _) = f.res.list_resources(default_pagination(), filters, no_sort()).unwrap();
    assert_eq!(items.len(), 3);
    assert_eq!(items[0].name, "vm1");
    assert_eq!(items[1].name, "vm10");
    assert_eq!(items[2].name, "test-vm1");
}

#[test]
fn sort_by_name_in_both_directions() {
    let mut f = fixture();
    add(&mut f, "bravo", "t", "w", None, vec![]);
    add(&mut f, "alpha", "t", "w", None, vec![]);
    add(&mut f, "charlie", "t", "w", None, vec![]);
    let sort = SortParams { field: Some("name".to_owned()), direction: None };
    let (items, _) = f
        .res
        .list_resources(default_pagination(), empty_filters(), sort)
        .unwrap();
    let names: Vec<&str> = items.iter().map(|r| r.name.as_str()).collect();
    assert_eq!(names, ["alpha", "bravo", "charlie"]);
    let sort = SortParams {
        field: Some("name".to_owned()),
        direction: Some(SortDirection::Descending),
    };
    let (items, _) = f
        .res
        .list_resources(default_pagination(), empty_filters(), sort)
        .unwrap();
    let names: Vec<&str> = items.iter().map(|r| r.name.as_str()).collect();
    assert_eq!(names, ["charlie", "bravo", "alpha"]);
}

#[test]
fn sort_by_id_and_unknown_field_fallback() {
    let mut f = fixture();
    add(&mut f, "x", "t", "w", None, vec![]);
    add(&mut f, "y", "t", "w", None, vec![]);
    let sort = SortParams {
        field: Some("id".to_owned()),
        direction: Some(SortDirection::Descending),
    };
    let (items, _) = f
        .res
        .list_resources(default_pagination(), empty_filters(), sort)
        .unwrap();
    assert_eq!(items[0].id, 2);
    assert_eq!(items[1].id, 1);
    // An unrecognized field falls back to creation time; both records
    // stay in the page.
    let sort = SortParams { field: Some("mystery".to_owned()), direction: None };
    let (items, pg) = f
        .res
        .list_resources(default_pagination(), empty_filters(), sort)
        .unwrap();
    assert_eq!(pg.total, 2);
    assert_eq!(items.len(), 2);
}

#[test]
fn query_dto_carries_parameters_through() {
    let dto = ResourceQueryDto {
        page: Some(2),
        size: Some(5),
        resource_type: Some("vm".to_owned()),
        location: None,
        environment: None,
        vendor: None,
        subscription_id: Some(1),
        resource_group_id: None,
        search: None,
        tags: None,
        sort_field: Some("name".to_owned()),
        sort_direction: Some("desc".to_owned()),
    };
    let (pagination, filters, sort) = dto.into_params();
    assert_eq!(pagination.page, Some(2));
    assert_eq!(pagination.size, Some(5));
    assert_eq!(filters.resource_type.as_deref(), Some("vm"));
    assert_eq!(filters.subscription_id, Some(1));
    assert_eq!(sort.field.as_deref(), Some("name"));
    assert!(matches!(sort.direction, Some(SortDirection::Descending)));
    let dto = ResourceQueryDto {
        page: None,
        size: None,
        resource_type: None,
        location: None,
        environment: None,
        vendor: None,
        subscription_id: None,
        resource_group_id: None,
        search: None,
        tags: None,
        sort_field: None,
        sort_direction: Some("sideways".to_owned()),
    };
    let (_, _, sort) = dto.into_params();
    assert!(matches!(sort.direction, Some(SortDirection::Ascending)));
}

#[test]
fn dto_validation_rejects_empty_required_fields() {
    let dto = CreateResourceDto {
        name: "".to_owned(),
        resource_type: "vm".to_owned(),
        kind: None,
        location: "west".to_owned(),
        subscription_id: 1,
        resource_group_id: 1,
        tags: None,
        extended_location: None,
        vendor: None,
        environment: None,
        provisioner: None,
    };
    assert!(matches!(
        validate_create_resource_dto(&dto),
        Err(DomainError::InvalidInput { .. })
    ));
    let mut good = dto;
    good.name = "vm-1".to_owned();
    assert!(validate_create_resource_dto(&good).is_ok());
    let update = UpdateResourceDto {
        name: None,
        resource_type: Some("".to_owned()),
        kind: None,
        location: None,
        subscription_id: None,
        resource_group_id: None,
        tags: None,
        extended_location: None,
        vendor: None,
        environment: None,
        provisioner: None,
    };
    assert!(matches!(
        validate_update_resource_dto(&update),
        Err(DomainError::InvalidInput { .. })
    ));
    let mut fine = update;
    fine.resource_type = Some("vm".to_owned());
    assert!(validate_update_resource_dto(&fine).is_ok());
}

#[test]
fn response_envelopes_echo_their_payloads() {
    let r = ApiResponse::success(41u64);
    assert!(r.success);
    assert_eq!(r.data, 41);
    assert!(r.message.is_none());
    let r = ApiResponse::success_with_message(1u64, "created".to_owned());
    assert_eq!(r.message.as_deref(), Some("created"));
    let pg = Pagination::new(1, 20, 0);
    let p = PaginatedResponse::new(Vec::<u64>::new(), pg);
    assert!(p.success);
    assert_eq!(p.data.len(), 0);
    assert_eq!(p.pagination.total_pages, 0);
}
