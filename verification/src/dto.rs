//! Request shapes as the boundary hands them to the core, their validation
//! rules, and their conversion into domain requests and query parameters.

use vstd::prelude::*;
use crate::entities::{
    CreateApplicationRequest, CreateResourceGroupRequest, CreateResourceRequest,
    CreateSubscriptionRequest, Tag, UpdateApplicationRequest, UpdateResourceGroupRequest,
    UpdateResourceRequest, UpdateSubscriptionRequest, duplicate_opt, view_opt,
};
use crate::errors::{DomainError, DomainResult};
use crate::value_objects::{PaginationParams, ResourceFilters, SortDirection, SortParams};

verus! {

/// A resource creation request as received at the boundary.
#[derive(Debug, Clone)]
pub struct CreateResourceDto {
    pub name: String,
    pub resource_type: String,
    pub kind: Option<String>,
    pub location: String,
    pub subscription_id: i64,
    pub resource_group_id: i64,
    pub tags: Option<Vec<Tag>>,
    pub extended_location: Option<String>,
    pub vendor: Option<String>,
    pub environment: Option<String>,
    pub provisioner: Option<String>,
}

/// A resource update request as received at the boundary.
#[derive(Debug, Clone)]
pub struct UpdateResourceDto {
    pub name: Option<String>,
    pub resource_type: Option<String>,
    pub kind: Option<String>,
    pub location: Option<String>,
    pub subscription_id: Option<i64>,
    pub resource_group_id: Option<i64>,
    pub tags: Option<Vec<Tag>>,
    pub extended_location: Option<String>,
    pub vendor: Option<String>,
    pub environment: Option<String>,
    pub provisioner: Option<String>,
}

/// A subscription creation request as received at the boundary.
#[derive(Debug, Clone)]
pub struct CreateSubscriptionDto {
    pub name: String,
    pub tenant_id: Option<String>,
}

/// A subscription update request as received at the boundary.
#[derive(Debug, Clone)]
pub struct UpdateSubscriptionDto {
    pub name: Option<String>,
    pub tenant_id: Option<String>,
}

/// A resource-group creation request as received at the boundary.
#[derive(Debug, Clone)]
pub struct CreateResourceGroupDto {
    pub name: String,
    pub subscription_id: i64,
}

/// A resource-group update request as received at the boundary.
#[derive(Debug, Clone)]
pub struct UpdateResourceGroupDto {
    pub name: Option<String>,
    pub subscription_id: Option<i64>,
}

/// An application creation request as received at the boundary.
#[derive(Debug, Clone)]
pub struct CreateApplicationDto {
    pub code: Option<String>,
    pub name: Option<String>,
    pub owner_team: Option<String>,
    pub owner_email: Option<String>,
}

/// An application update request as received at the boundary.
#[derive(Debug, Clone)]
pub struct UpdateApplicationDto {
    pub code: Option<String>,
    pub name: Option<String>,
    pub owner_team: Option<String>,
    pub owner_email: Option<String>,
}

/// The query-string shape of a resource list request.
#[derive(Debug, Clone)]
pub struct ResourceQueryDto {
    pub page: Option<u32>,
    pub size: Option<u32>,
    pub resource_type: Option<String>,
    pub location: Option<String>,
    pub environment: Option<String>,
    pub vendor: Option<String>,
    pub subscription_id: Option<i64>,
    pub resource_group_id: Option<i64>,
    pub search: Option<String>,
    pub tags: Option<String>,
    pub sort_field: Option<String>,
    pub sort_direction: Option<String>,
}

/// The query-string shape of a plain pagination request.
#[derive(Debug, Clone)]
pub struct PaginationQueryDto {
    pub page: Option<u32>,
    pub size: Option<u32>,
}

/// Checks the boundary rule on a resource creation: name, type and
/// location must be non-empty.
pub fn validate_create_resource_dto(dto: &CreateResourceDto) -> (r: DomainResult<()>)
    ensures
        r matches Ok(_) <==> (dto.name@.len() >= 1 && dto.resource_type@.len() >= 1
            && dto.location@.len() >= 1),
        r matches Err(e) ==> e matches DomainError::InvalidInput { .. },
{
    if dto.name.as_str().is_empty() {
        return Err(DomainError::invalid_input("Name is required"));
    }
    if dto.resource_type.as_str().is_empty() {
        return Err(DomainError::invalid_input("Resource type is required"));
    }
    if dto.location.as_str().is_empty() {
        return Err(DomainError::invalid_input("Location is required"));
    }
    Ok(())
}

/// Checks the boundary rule on a resource update: present name, type and
/// location must be non-empty.
pub fn validate_update_resource_dto(dto: &UpdateResourceDto) -> (r: DomainResult<()>)
    ensures
        r matches Ok(_) <==> ((dto.name matches Some(n) ==> n@.len() >= 1) && (dto.resource_type
            matches Some(t) ==> t@.len() >= 1) && (dto.location matches Some(l) ==> l@.len()
            >= 1)),
        r matches Err(e) ==> e matches DomainError::InvalidInput { .. },
{
    if let Some(name) = &dto.name {
        if name.as_str().is_empty() {
            return Err(DomainError::invalid_input("Name cannot be empty"));
        }
    }
    if let Some(resource_type) = &dto.resource_type {
        if resource_type.as_str().is_empty() {
            return Err(DomainError::invalid_input("Resource type cannot be empty"));
        }
    }
    if let Some(location) = &dto.location {
        if location.as_str().is_empty() {
            return Err(DomainError::invalid_input("Location cannot be empty"));
        }
    }
    Ok(())
}

impl CreateResourceDto {
    /// The domain request this boundary shape carries; a missing tag list
    /// reads as empty, and no external id is taken from the boundary.
    pub fn into_request(self) -> (r: CreateResourceRequest)
        ensures
            r.azure_id is None,
            r.name == self.name,
            r.resource_type == self.resource_type,
            r.kind == self.kind,
            r.location == self.location,
            r.subscription_id == self.subscription_id,
            r.resource_group_id == self.resource_group_id,
            r.tags@ == (match self.tags {
                Some(t) => t@,
                None => Seq::<Tag>::empty(),
            }),
            r.extended_location == self.extended_location,
            r.vendor == self.vendor,
            r.environment == self.environment,
            r.provisioner == self.provisioner,
    {
        let tags: Vec<Tag> = match self.tags {
            Some(t) => t,
            None => Vec::new(),
        };
        CreateResourceRequest {
            azure_id: None,
            name: self.name,
            resource_type: self.resource_type,
            kind: self.kind,
            location: self.location,
            subscription_id: self.subscription_id,
            resource_group_id: self.resource_group_id,
            tags,
            extended_location: self.extended_location,
            vendor: self.vendor,
            environment: self.environment,
            provisioner: self.provisioner,
        }
    }
}

impl UpdateResourceDto {
    /// The domain request this boundary shape carries.
    pub fn into_request(self) -> (r: UpdateResourceRequest)
        ensures
            r.azure_id is None,
            r.name == self.name,
            r.resource_type == self.resource_type,
            r.kind == self.kind,
            r.location == self.location,
            r.subscription_id == self.subscription_id,
            r.resource_group_id == self.resource_group_id,
            r.tags == self.tags,
            r.extended_location == self.extended_location,
            r.vendor == self.vendor,
            r.environment == self.environment,
            r.provisioner == self.provisioner,
    {
        UpdateResourceRequest {
            azure_id: None,
            name: self.name,
            resource_type: self.resource_type,
            kind: self.kind,
            location: self.location,
            subscription_id: self.subscription_id,
            resource_group_id: self.resource_group_id,
            tags: self.tags,
            extended_location: self.extended_location,
            vendor: self.vendor,
            environment: self.environment,
            provisioner: self.provisioner,
        }
    }
}

impl CreateSubscriptionDto {
    /// The domain request this boundary shape carries.
    pub fn into_request(self) -> (r: CreateSubscriptionRequest)
        ensures
            r.name == self.name,
            r.tenant_id == self.tenant_id,
    {
        CreateSubscriptionRequest { name: self.name, tenant_id: self.tenant_id }
    }
}

impl UpdateSubscriptionDto {
    /// The domain request this boundary shape carries.
    pub fn into_request(self) -> (r: UpdateSubscriptionRequest)
        ensures
            r.name == self.name,
            r.tenant_id == self.tenant_id,
    {
        UpdateSubscriptionRequest { name: self.name, tenant_id: self.tenant_id }
    }
}

impl CreateResourceGroupDto {
    /// The domain request this boundary shape carries.
    pub fn into_request(self) -> (r: CreateResourceGroupRequest)
        ensures
            r.name == self.name,
            r.subscription_id == self.subscription_id,
    {
        CreateResourceGroupRequest { name: self.name, subscription_id: self.subscription_id }
    }
}

impl UpdateResourceGroupDto {
    /// The domain request this boundary shape carries.
    pub fn into_request(self) -> (r: UpdateResourceGroupRequest)
        ensures
            r.name == self.name,
            r.subscription_id == self.subscription_id,
    {
        UpdateResourceGroupRequest { name: self.name, subscription_id: self.subscription_id }
    }
}

impl CreateApplicationDto {
    /// The domain request this boundary shape carries.
    pub fn into_request(self) -> (r: CreateApplicationRequest)
        ensures
            r.code == self.code,
            r.name == self.name,
            r.owner_team == self.owner_team,
            r.owner_email == self.owner_email,
    {
        CreateApplicationRequest {
            code: self.code,
            name: self.name,
            owner_team: self.owner_team,
            owner_email: self.owner_email,
        }
    }
}

impl UpdateApplicationDto {
    /// The domain request this boundary shape carries.
    pub fn into_request(self) -> (r: UpdateApplicationRequest)
        ensures
            r.code == self.code,
            r.name == self.name,
            r.owner_team == self.owner_team,
            r.owner_email == self.owner_email,
    {
        UpdateApplicationRequest {
            code: self.code,
            name: self.name,
            owner_team: self.owner_team,
            owner_email: self.owner_email,
        }
    }
}

/// The sort direction a query-string value selects: `desc` descends,
/// anything else ascends, nothing means no explicit direction.
pub open spec fn direction_of(s: Option<Seq<char>>) -> Option<SortDirection> {
    match s {
        None => None,
        Some(d) => if d == "desc"@ {
            Some(SortDirection::Descending)
        } else {
            Some(SortDirection::Ascending)
        },
    }
}

impl ResourceQueryDto {
    /// The pagination, filter and sort parameters this query shape carries.
    pub fn into_params(self) -> (r: (PaginationParams, ResourceFilters, SortParams))
        ensures
            r.0.page == self.page,
            r.0.size == self.size,
            r.1.resource_type == self.resource_type,
            r.1.location == self.location,
            r.1.environment == self.environment,
            r.1.vendor == self.vendor,
            r.1.subscription_id == self.subscription_id,
            r.1.resource_group_id == self.resource_group_id,
            r.1.search == self.search,
            r.1.tags == self.tags,
            r.2.field == self.sort_field,
            r.2.direction == direction_of(view_opt(self.sort_direction)),
    {
        let direction: Option<SortDirection> = match &self.sort_direction {
            None => None,
            Some(d) => {
                if crate::text::str_eq(d.as_str(), "desc") {
                    Some(SortDirection::Descending)
                } else {
                    Some(SortDirection::Ascending)
                }
            },
        };
        let pagination = PaginationParams { page: self.page, size: self.size };
        let filters = ResourceFilters {
            resource_type: self.resource_type,
            location: self.location,
            environment: self.environment,
            vendor: self.vendor,
            subscription_id: self.subscription_id,
            resource_group_id: self.resource_group_id,
            search: self.search,
            tags: self.tags,
        };
        let sort = SortParams { field: self.sort_field, direction };
        (pagination, filters, sort)
    }
}

} // verus!
