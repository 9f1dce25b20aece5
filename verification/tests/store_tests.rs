use techstock::application_use_cases::ApplicationUseCases;
use techstock::entities::{
    CreateApplicationRequest, CreateResourceGroupRequest, CreateResourceRequest,
    CreateSubscriptionRequest, Tag, UpdateApplicationRequest, UpdateResourceGroupRequest,
    UpdateResourceRequest, UpdateSubscriptionRequest,
};
use techstock::errors::{AppError, DomainError};
use techstock::resource_group_use_cases::ResourceGroupUseCases;
use techstock::resource_use_cases::ResourceUseCases;
use techstock::subscription_use_cases::SubscriptionUseCases;
use techstock::value_objects::PaginationParams;

fn sub_request(name: &str) -> CreateSubscriptionRequest {
    CreateSubscriptionRequest { name: name.to_owned(), tenant_id: None }
}

fn resource_request(name: &str, sub: i64, rg: i64) -> CreateResourceRequest {
    CreateResourceRequest {
        azure_id: None,
        name: name.to_owned(),
        resource_type: "virtualMachines".to_owned(),
        kind: None,
        location: "westeurope".to_owned(),
        subscription_id: sub,
        resource_group_id: rg,
        tags: Vec::new(),
        extended_location: None,
        vendor: None,
        environment: None,
        provisioner: None,
    }
}

fn seeded() -> (SubscriptionUseCases, ResourceGroupUseCases) {
    let mut subs = SubscriptionUseCases::new();
    subs.create_subscription(sub_request("prod-subscription")).unwrap();
    let mut rgs = ResourceGroupUseCases::new();
    rgs.create_resource_group(
        CreateResourceGroupRequest { name: "rg-main".to_owned(), subscription_id: 1 },
        &subs,
    )
    .unwrap();
    (subs, rgs)
}

#[test]
fn subscription_create_assigns_ids_in_order() {
    let mut subs = SubscriptionUseCases::new();
    let a = subs.create_subscription(sub_request("alpha")).unwrap();
    let b = subs.create_subscription(sub_request("beta")).unwrap();
    assert_eq!(a.id, 1);
    assert_eq!(b.id, 2);
    assert_eq!(subs.count_all(), 2);
}

#[test]
fn subscription_duplicate_name_already_exists() {
    let mut subs = SubscriptionUseCases::new();
    subs.create_subscription(sub_request("alpha")).unwrap();
    let e = subs.create_subscription(sub_request("alpha")).unwrap_err();
    assert!(matches!(e, DomainError::AlreadyExists { .. }));
    assert_eq!(subs.count_all(), 1);
}

#[test]
fn subscription_blank_name_invalid_input() {
    let mut subs = SubscriptionUseCases::new();
    let e = subs.create_subscription(sub_request("   ")).unwrap_err();
    assert!(matches!(e, DomainError::InvalidInput { .. }));
}

#[test]
fn subscription_update_missing_id_not_found_without_mutation() {
    let mut subs = SubscriptionUseCases::new();
    subs.create_subscription(sub_request("alpha")).unwrap();
    let e = subs
        .update_subscription(
            99,
            UpdateSubscriptionRequest { name: Some("renamed".to_owned()), tenant_id: None },
        )
        .unwrap_err();
    assert!(matches!(e, DomainError::NotFound { .. }));
    assert_eq!(subs.count_all(), 1);
    let kept = subs.get_subscription_by_id(1).unwrap();
    assert_eq!(kept.name, "alpha");
}

#[test]
fn subscription_update_overwrites_present_fields_only() {
    let mut subs = SubscriptionUseCases::new();
    subs.create_subscription(CreateSubscriptionRequest {
        name: "alpha".to_owned(),
        tenant_id: Some("tenant-1".to_owned()),
    })
    .unwrap();
    let s = subs
        .update_subscription(
            1,
            UpdateSubscriptionRequest { name: Some("omega".to_owned()), tenant_id: None },
        )
        .unwrap();
    assert_eq!(s.name, "omega");
    assert_eq!(s.tenant_id.as_deref(), Some("tenant-1"));
}

#[test]
fn subscription_update_name_conflict_already_exists() {
    let mut subs = SubscriptionUseCases::new();
    subs.create_subscription(sub_request("alpha")).unwrap();
    subs.create_subscription(sub_request("beta")).unwrap();
    let e = subs
        .update_subscription(
            2,
            UpdateSubscriptionRequest { name: Some("alpha".to_owned()), tenant_id: None },
        )
        .unwrap_err();
    assert!(matches!(e, DomainError::AlreadyExists { .. }));
}

#[test]
fn subscription_delete_missing_id_not_found() {
    let mut subs = SubscriptionUseCases::new();
    subs.create_subscription(sub_request("alpha")).unwrap();
    let e = subs.delete_subscription(7).unwrap_err();
    assert!(matches!(e, DomainError::NotFound { .. }));
    assert_eq!(subs.count_all(), 1);
    subs.delete_subscription(1).unwrap();
    assert_eq!(subs.count_all(), 0);
}

#[test]
fn subscription_lookup_by_name() {
    let mut subs = SubscriptionUseCases::new();
    subs.create_subscription(sub_request("alpha")).unwrap();
    let found = subs.get_subscription_by_name("alpha").unwrap();
    assert!(found.is_some());
    let missing = subs.get_subscription_by_name("beta").unwrap();
    assert!(missing.is_none());
}

#[test]
fn subscription_listing_pages_in_store_order() {
    let mut subs = SubscriptionUseCases::new();
    for name in ["a", "b", "c", "d", "e"] {
        subs.create_subscription(sub_request(name)).unwrap();
    }
    let (page, pg) = subs
        .list_subscriptions(PaginationParams { page: Some(2), size: Some(2) })
        .unwrap();
    assert_eq!(pg.total, 5);
    assert_eq!(pg.total_pages, 3);
    assert_eq!(page.len(), 2);
    assert_eq!(page[0].name, "c");
    assert_eq!(page[1].name, "d");
}

#[test]
fn resource_group_duplicate_name_same_subscription_rejected() {
    let (subs, mut rgs) = {
        let mut subs = SubscriptionUseCases::new();
        subs.create_subscription(sub_request("one")).unwrap();
        subs.create_subscription(sub_request("two")).unwrap();
        (subs, ResourceGroupUseCases::new())
    };
    rgs.create_resource_group(
        CreateResourceGroupRequest { name: "shared".to_owned(), subscription_id: 1 },
        &subs,
    )
    .unwrap();
    let e = rgs
        .create_resource_group(
            CreateResourceGroupRequest { name: "shared".to_owned(), subscription_id: 1 },
            &subs,
        )
        .unwrap_err();
    assert!(matches!(e, DomainError::AlreadyExists { .. }));
    // The same name under a different subscription succeeds.
    let g = rgs
        .create_resource_group(
            CreateResourceGroupRequest { name: "shared".to_owned(), subscription_id: 2 },
            &subs,
        )
        .unwrap();
    assert_eq!(g.subscription_id, 2);
    assert_eq!(rgs.count_all(), 2);
}

#[test]
fn resource_group_missing_subscription_not_found() {
    let subs = SubscriptionUseCases::new();
    let mut rgs = ResourceGroupUseCases::new();
    let e = rgs
        .create_resource_group(
            CreateResourceGroupRequest { name: "rg".to_owned(), subscription_id: 1 },
            &subs,
        )
        .unwrap_err();
    assert!(matches!(e, DomainError::NotFound { .. }));
}

#[test]
fn resource_group_update_missing_id_not_found_without_mutation() {
    let (subs, mut rgs) = seeded();
    let e = rgs
        .update_resource_group(
            42,
            UpdateResourceGroupRequest { name: Some("x".to_owned()), subscription_id: None },
            &subs,
        )
        .unwrap_err();
    assert!(matches!(e, DomainError::NotFound { .. }));
    assert_eq!(rgs.count_all(), 1);
    assert_eq!(rgs.get_resource_group_by_id(1).unwrap().name, "rg-main");
}

#[test]
fn resource_groups_by_subscription_lists_only_its_groups() {
    let mut subs = SubscriptionUseCases::new();
    subs.create_subscription(sub_request("one")).unwrap();
    subs.create_subscription(sub_request("two")).unwrap();
    let mut rgs = ResourceGroupUseCases::new();
    for (name, sid) in [("a", 1), ("b", 2), ("c", 1)] {
        rgs.create_resource_group(
            CreateResourceGroupRequest { name: name.to_owned(), subscription_id: sid },
            &subs,
        )
        .unwrap();
    }
    let of_one = rgs.get_resource_groups_by_subscription(1, &subs).unwrap();
    assert_eq!(of_one.len(), 2);
    assert_eq!(of_one[0].name, "a");
    assert_eq!(of_one[1].name, "c");
    let e = rgs.get_resource_groups_by_subscription(9, &subs).unwrap_err();
    assert!(matches!(e, DomainError::NotFound { .. }));
}

#[test]
fn application_code_uniqueness_and_email_rule() {
    let mut apps = ApplicationUseCases::new();
    apps.create_application(CreateApplicationRequest {
        code: Some("app-1".to_owned()),
        name: None,
        owner_team: None,
        owner_email: Some("owner@example.com".to_owned()),
    })
    .unwrap();
    let dup = apps
        .create_application(CreateApplicationRequest {
            code: Some("app-1".to_owned()),
            name: None,
            owner_team: None,
            owner_email: None,
        })
        .unwrap_err();
    assert!(matches!(dup, DomainError::AlreadyExists { .. }));
    let bad_mail = apps
        .create_application(CreateApplicationRequest {
            code: Some("app-2".to_owned()),
            name: None,
            owner_team: None,
            owner_email: Some("not-an-email".to_owned()),
        })
        .unwrap_err();
    assert!(matches!(bad_mail, DomainError::InvalidInput { .. }));
}

#[test]
fn application_update_missing_id_not_found() {
    let mut apps = ApplicationUseCases::new();
    let e = apps
        .update_application(
            3,
            UpdateApplicationRequest { code: None, name: None, owner_team: None, owner_email: None },
        )
        .unwrap_err();
    assert!(matches!(e, DomainError::NotFound { .. }));
}

#[test]
fn applications_by_owner_filters_by_email() {
    let mut apps = ApplicationUseCases::new();
    for (code, mail) in [("a", "x@y.z"), ("b", "other@y.z"), ("c", "x@y.z")] {
        apps.create_application(CreateApplicationRequest {
            code: Some(code.to_owned()),
            name: None,
            owner_team: None,
            owner_email: Some(mail.to_owned()),
        })
        .unwrap();
    }
    let mine = apps.get_applications_by_owner("x@y.z").unwrap();
    assert_eq!(mine.len(), 2);
    assert_eq!(mine[0].code.as_deref(), Some("a"));
    assert_eq!(mine[1].code.as_deref(), Some("c"));
}

#[test]
fn resource_create_validations() {
    let (subs, rgs) = seeded();
    let mut res = ResourceUseCases::new();
    let mut bad = resource_request("  ", 1, 1);
    let e = res.create_resource(bad, &subs, &rgs).unwrap_err();
    assert!(matches!(e, DomainError::InvalidInput { .. }));
    bad = resource_request("vm", 1, 1);
    bad.resource_type = "".to_owned();
    let e = res.create_resource(bad, &subs, &rgs).unwrap_err();
    assert!(matches!(e, DomainError::InvalidInput { .. }));
    let e = res.create_resource(resource_request("vm", 9, 1), &subs, &rgs).unwrap_err();
    assert!(matches!(e, DomainError::NotFound { .. }));
    let e = res.create_resource(resource_request("vm", 1, 9), &subs, &rgs).unwrap_err();
    assert!(matches!(e, DomainError::NotFound { .. }));
    let ok = res.create_resource(resource_request("vm", 1, 1), &subs, &rgs).unwrap();
    assert_eq!(ok.id, 1);
    assert_eq!(ok.created_at, ok.updated_at);
}

#[test]
fn resource_update_missing_id_not_found_without_mutation() {
    let (subs, rgs) = seeded();
    let mut res = ResourceUseCases::new();
    res.create_resource(resource_request("vm", 1, 1), &subs, &rgs).unwrap();
    let update = UpdateResourceRequest {
        azure_id: None,
        name: Some("renamed".to_owned()),
        resource_type: None,
        kind: None,
        location: None,
        subscription_id: None,
        resource_group_id: None,
        tags: None,
        extended_location: None,
        vendor: None,
        environment: None,
        provisioner: None,
    };
    let e = res.update_resource(5, update, &subs, &rgs).unwrap_err();
    assert!(matches!(e, DomainError::NotFound { .. }));
    assert_eq!(res.get_resource_by_id(1).unwrap().name, "vm");
}

#[test]
fn resource_update_overwrites_present_fields_and_keeps_created_at() {
    let (subs, rgs) = seeded();
    let mut res = ResourceUseCases::new();
    let created = res.create_resource(resource_request("vm", 1, 1), &subs, &rgs).unwrap();
    let update = UpdateResourceRequest {
        azure_id: Some("ext-9".to_owned()),
        name: Some("vm-renamed".to_owned()),
        resource_type: None,
        kind: None,
        location: None,
        subscription_id: None,
        resource_group_id: None,
        tags: Some(vec![Tag { key: "Env".to_owned(), value: "prod".to_owned() }]),
        extended_location: None,
        vendor: None,
        environment: None,
        provisioner: None,
    };
    let updated = res.update_resource(1, update, &subs, &rgs).unwrap();
    assert_eq!(updated.name, "vm-renamed");
    assert_eq!(updated.resource_type, "virtualMachines");
    assert_eq!(updated.azure_id.as_deref(), Some("ext-9"));
    assert_eq!(updated.tags.len(), 1);
    assert_eq!(updated.created_at, created.created_at);
}

#[test]
fn resource_delete_missing_id_not_found() {
    let (subs, rgs) = seeded();
    let mut res = ResourceUseCases::new();
    res.create_resource(resource_request("vm", 1, 1), &subs, &rgs).unwrap();
    let e = res.delete_resource(2).unwrap_err();
    assert!(matches!(e, DomainError::NotFound { .. }));
    res.delete_resource(1).unwrap();
    assert!(matches!(
        res.get_resource_by_id(1),
        Err(DomainError::NotFound { .. })
    ));
}

#[test]
fn resources_by_owners_and_links() {
    let (mut subs, mut rgs) = seeded();
    subs.create_subscription(sub_request("second")).unwrap();
    rgs.create_resource_group(
        CreateResourceGroupRequest { name: "rg-two".to_owned(), subscription_id: 2 },
        &subs,
    )
    .unwrap();
    let mut res = ResourceUseCases::new();
    res.create_resource(resource_request("vm-a", 1, 1), &subs, &rgs).unwrap();
    res.create_resource(resource_request("vm-b", 2, 2), &subs, &rgs).unwrap();
    res.create_resource(resource_request("vm-c", 1, 1), &subs, &rgs).unwrap();
    assert_eq!(res.get_resources_by_subscription(1).unwrap().len(), 2);
    assert_eq!(res.get_resources_by_resource_group(2).unwrap().len(), 1);
    res.link_resource_to_application(1, 7);
    res.link_resource_to_application(1, 7);
    res.link_resource_to_application(3, 7);
    let linked = res.get_resources_by_application(7).unwrap();
    assert_eq!(linked.len(), 2);
    assert_eq!(linked[0].name, "vm-a");
    assert_eq!(linked[1].name, "vm-c");
}

#[test]
fn error_status_codes_and_redaction() {
    assert_eq!(AppError(DomainError::not_found("Resource", 4)).status_code(), 404);
    assert_eq!(
        AppError(DomainError::already_exists("Subscription", "name", "alpha")).status_code(),
        409
    );
    assert_eq!(AppError(DomainError::invalid_input("bad")).status_code(), 400);
    assert_eq!(
        AppError(DomainError::business_rule_violation("rule")).status_code(),
        422
    );
    assert_eq!(AppError(DomainError::database_error("SECRET-REDACTED")).status_code(), 500);
    assert_eq!(AppError(DomainError::internal_error("boom")).status_code(), 500);
    // Backend error text never leaks through the boundary.
    assert_eq!(
        AppError(DomainError::database_error("connection refused at 10.0.0.1")).error_message(),
        "Database error occurred"
    );
    assert_eq!(
        AppError(DomainError::internal_error("stack trace")).error_message(),
        "Internal server error"
    );
    assert_eq!(
        AppError(DomainError::not_found("Resource", -12)).error_message(),
        "Entity not found: Resource with id -12"
    );
    assert_eq!(
        AppError(DomainError::already_exists("Subscription", "name", "alpha")).error_message(),
        "Entity already exists: Subscription with name = alpha"
    );
}

#[test]
fn update_blank_fields_rejected_on_existing_ids() {
    let mut subs = SubscriptionUseCases::new();
    subs.create_subscription(sub_request("alpha")).unwrap();
    let e = subs
        .update_subscription(
            1,
            UpdateSubscriptionRequest { name: Some("  ".to_owned()), tenant_id: None },
        )
        .unwrap_err();
    assert!(matches!(e, DomainError::InvalidInput { .. }));
    assert_eq!(subs.get_subscription_by_id(1).unwrap().name, "alpha");

    let mut rgs = ResourceGroupUseCases::new();
    rgs.create_resource_group(
        CreateResourceGroupRequest { name: "rg".to_owned(), subscription_id: 1 },
        &subs,
    )
    .unwrap();
    let e = rgs
        .update_resource_group(
            1,
            UpdateResourceGroupRequest { name: Some("".to_owned()), subscription_id: None },
            &subs,
        )
        .unwrap_err();
    assert!(matches!(e, DomainError::InvalidInput { .. }));

    let mut res = ResourceUseCases::new();
    res.create_resource(resource_request("vm", 1, 1), &subs, &rgs).unwrap();
    let update = UpdateResourceRequest {
        azure_id: None,
        name: Some(" ".to_owned()),
        resource_type: None,
        kind: None,
        location: None,
        subscription_id: None,
        resource_group_id: None,
        tags: None,
        extended_location: None,
        vendor: None,
        environment: None,
        provisioner: None,
    };
    let e = res.update_resource(1, update, &subs, &rgs).unwrap_err();
    assert!(matches!(e, DomainError::InvalidInput { .. }));
    assert_eq!(res.get_resource_by_id(1).unwrap().name, "vm");
}

#[test]
fn update_conflicts_and_bad_email_rejected_on_existing_ids() {
    let mut subs = SubscriptionUseCases::new();
    subs.create_subscription(sub_request("one")).unwrap();
    subs.create_subscription(sub_request("two")).unwrap();
    let mut rgs = ResourceGroupUseCases::new();
    rgs.create_resource_group(
        CreateResourceGroupRequest { name: "a".to_owned(), subscription_id: 1 },
        &subs,
    )
    .unwrap();
    rgs.create_resource_group(
        CreateResourceGroupRequest { name: "b".to_owned(), subscription_id: 1 },
        &subs,
    )
    .unwrap();
    // Renaming onto another group's (name, subscription) pair is rejected...
    let e = rgs
        .update_resource_group(
            2,
            UpdateResourceGroupRequest { name: Some("a".to_owned()), subscription_id: None },
            &subs,
        )
        .unwrap_err();
    assert!(matches!(e, DomainError::AlreadyExists { .. }));
    // ...moving it onto a missing subscription is not found...
    let e = rgs
        .update_resource_group(
            2,
            UpdateResourceGroupRequest { name: None, subscription_id: Some(9) },
            &subs,
        )
        .unwrap_err();
    assert!(matches!(e, DomainError::NotFound { .. }));
    // ...and renaming a group to its own current name succeeds.
    let g = rgs
        .update_resource_group(
            2,
            UpdateResourceGroupRequest { name: Some("b".to_owned()), subscription_id: None },
            &subs,
        )
        .unwrap();
    assert_eq!(g.name, "b");

    let mut apps = ApplicationUseCases::new();
    for code in ["x", "y"] {
        apps.create_application(CreateApplicationRequest {
            code: Some(code.to_owned()),
            name: None,
            owner_team: None,
            owner_email: None,
        })
        .unwrap();
    }
    let e = apps
        .update_application(
            2,
            UpdateApplicationRequest {
                code: Some("x".to_owned()),
                name: None,
                owner_team: None,
                owner_email: None,
            },
        )
        .unwrap_err();
    assert!(matches!(e, DomainError::AlreadyExists { .. }));
    let e = apps
        .update_application(
            2,
            UpdateApplicationRequest {
                code: None,
                name: None,
                owner_team: None,
                owner_email: Some("no-at-sign".to_owned()),
            },
        )
        .unwrap_err();
    assert!(matches!(e, DomainError::InvalidInput { .. }));
    // Keeping its own code while updating succeeds.
    let a = apps
        .update_application(
            2,
            UpdateApplicationRequest {
                code: Some("y".to_owned()),
                name: Some("renamed".to_owned()),
                owner_team: None,
                owner_email: None,
            },
        )
        .unwrap();
    assert_eq!(a.name.as_deref(), Some("renamed"));
}
