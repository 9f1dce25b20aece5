//! The catalog's entities: subscriptions, resource groups, applications and
//! resources, with their creation and partial-update requests.
//!
//! Partial updates overwrite exactly the fields present in the request and
//! leave absent fields untouched; a resource additionally refreshes its
//! `updated_at` stamp on every update.

use vstd::prelude::*;

verus! {

/// Relies on chrono::Utc::now and DateTime::timestamp: the current time of
/// the system clock, as seconds since the Unix epoch. Two calls may return
/// different values; chrono aborts on a clock set before the epoch.
#[verifier::external_body]
fn now_seconds() -> i64 {
    chrono::Utc::now().timestamp()
}

/// One key/value annotation of a resource's tag map.
#[derive(Debug, Clone)]
pub struct Tag {
    pub key: String,
    pub value: String,
}

/// The mathematical value of a tag: its key and value characters.
#[verifier::ext_equal]
pub ghost struct TagModel {
    pub key: Seq<char>,
    pub value: Seq<char>,
}

impl View for Tag {
    type V = TagModel;

    open spec fn view(&self) -> TagModel {
        TagModel { key: self.key@, value: self.value@ }
    }
}

impl Tag {
    /// An equal copy of this tag.
    pub fn duplicate(&self) -> (t: Tag)
        ensures
            t == *self,
    {
        Tag { key: self.key.clone(), value: self.value.clone() }
    }
}

/// The characters of an optional string.
pub open spec fn view_opt(o: Option<String>) -> Option<Seq<char>> {
    match o {
        Some(s) => Some(s@),
        None => None,
    }
}

/// A tag map holds each key at most once.
pub open spec fn tags_wf(tags: Seq<TagModel>) -> bool {
    forall|i: int, j: int| 0 <= i < j < tags.len() ==> tags[i].key != tags[j].key
}

/// An equal copy of a tag list.
pub fn duplicate_tags(tags: &Vec<Tag>) -> (r: Vec<Tag>)
    ensures
        r@ == tags@,
{
    let mut r: Vec<Tag> = Vec::new();
    let mut i: usize = 0;
    while i < tags.len()
        invariant
            i <= tags@.len(),
            r@ == tags@.subrange(0, i as int),
        decreases tags.len() - i,
    {
        r.push(tags[i].duplicate());
        i = i + 1;
        proof {
            assert(r@ =~= tags@.subrange(0, i as int));
        }
    }
    proof {
        assert(r@ =~= tags@);
    }
    r
}

/// An equal copy of an optional string.
pub fn duplicate_opt(o: &Option<String>) -> (r: Option<String>)
    ensures
        r == *o,
{
    match o {
        Some(s) => Some(s.clone()),
        None => None,
    }
}

/// A tag row as the store mirrors it for indexing: one discrete row per
/// resource and key.
#[derive(Debug, Clone)]
pub struct ResourceTag {
    pub resource_id: i64,
    pub key: String,
    pub value: Option<String>,
}

/// A subscription owning resource groups and resources.
#[derive(Debug, Clone)]
pub struct Subscription {
    pub id: i64,
    pub name: String,
    pub tenant_id: Option<String>,
}

#[derive(Debug, Clone)]
pub struct CreateSubscriptionRequest {
    pub name: String,
    pub tenant_id: Option<String>,
}

#[derive(Debug, Clone)]
pub struct UpdateSubscriptionRequest {
    pub name: Option<String>,
    pub tenant_id: Option<String>,
}

impl Subscription {
    /// A subscription from a creation request; the store assigns the id.
    pub fn new(request: CreateSubscriptionRequest) -> (s: Self)
        ensures
            s.id == 0,
            s.name == request.name,
            s.tenant_id == request.tenant_id,
    {
        Subscription { id: 0, name: request.name, tenant_id: request.tenant_id }
    }

    /// Overwrites exactly the fields present in the request.
    pub fn update(&mut self, request: UpdateSubscriptionRequest)
        ensures
            final(self).id == old(self).id,
            final(self).name == (match request.name {
                Some(n) => n,
                None => old(self).name,
            }),
            final(self).tenant_id == (match request.tenant_id {
                Some(t) => Some(t),
                None => old(self).tenant_id,
            }),
    {
        if let Some(name) = request.name {
            self.name = name;
        }
        if let Some(tenant_id) = request.tenant_id {
            self.tenant_id = Some(tenant_id);
        }
    }

    /// An equal copy of this subscription.
    pub fn duplicate(&self) -> (s: Self)
        ensures
            s == *self,
    {
        Subscription {
            id: self.id,
            name: self.name.clone(),
            tenant_id: duplicate_opt(&self.tenant_id),
        }
    }
}

/// A resource group; its name is unique within its subscription.
#[derive(Debug, Clone)]
pub struct ResourceGroup {
    pub id: i64,
    pub name: String,
    pub subscription_id: i64,
}

#[derive(Debug, Clone)]
pub struct CreateResourceGroupRequest {
    pub name: String,
    pub subscription_id: i64,
}

#[derive(Debug, Clone)]
pub struct UpdateResourceGroupRequest {
    pub name: Option<String>,
    pub subscription_id: Option<i64>,
}

impl ResourceGroup {
    /// A resource group from a creation request; the store assigns the id.
    pub fn new(request: CreateResourceGroupRequest) -> (g: Self)
        ensures
            g.id == 0,
            g.name == request.name,
            g.subscription_id == request.subscription_id,
    {
        ResourceGroup { id: 0, name: request.name, subscription_id: request.subscription_id }
    }

    /// Overwrites exactly the fields present in the request.
    pub fn update(&mut self, request: UpdateResourceGroupRequest)
        ensures
            final(self).id == old(self).id,
            final(self).name == (match request.name {
                Some(n) => n,
                None => old(self).name,
            }),
            final(self).subscription_id == (match request.subscription_id {
                Some(s) => s,
                None => old(self).subscription_id,
            }),
    {
        if let Some(name) = request.name {
            self.name = name;
        }
        if let Some(subscription_id) = request.subscription_id {
            self.subscription_id = subscription_id;
        }
    }

    /// An equal copy of this resource group.
    pub fn duplicate(&self) -> (g: Self)
        ensures
            g == *self,
    {
        ResourceGroup {
            id: self.id,
            name: self.name.clone(),
            subscription_id: self.subscription_id,
        }
    }
}

/// An application owning resources through a many-to-many relation.
#[derive(Debug, Clone)]
pub struct Application {
    pub id: i64,
    pub code: Option<String>,
    pub name: Option<String>,
    pub owner_team: Option<String>,
    pub owner_email: Option<String>,
}

#[derive(Debug, Clone)]
pub struct CreateApplicationRequest {
    pub code: Option<String>,
    pub name: Option<String>,
    pub owner_team: Option<String>,
    pub owner_email: Option<String>,
}

#[derive(Debug, Clone)]
pub struct UpdateApplicationRequest {
    pub code: Option<String>,
    pub name: Option<String>,
    pub owner_team: Option<String>,
    pub owner_email: Option<String>,
}

impl Application {
    /// An application from a creation request; the store assigns the id.
    pub fn new(request: CreateApplicationRequest) -> (a: Self)
        ensures
            a.id == 0,
            a.code == request.code,
            a.name == request.name,
            a.owner_team == request.owner_team,
            a.owner_email == request.owner_email,
    {
        Application {
            id: 0,
            code: request.code,
            name: request.name,
            owner_team: request.owner_team,
            owner_email: request.owner_email,
        }
    }

    /// Overwrites exactly the fields present in the request.
    pub fn update(&mut self, request: UpdateApplicationRequest)
        ensures
            final(self).id == old(self).id,
            final(self).code == (match request.code {
                Some(c) => Some(c),
                None => old(self).code,
            }),
            final(self).name == (match request.name {
                Some(n) => Some(n),
                None => old(self).name,
            }),
            final(self).owner_team == (match request.owner_team {
                Some(t) => Some(t),
                None => old(self).owner_team,
            }),
            final(self).owner_email == (match request.owner_email {
                Some(e) => Some(e),
                None => old(self).owner_email,
            }),
    {
        if let Some(code) = request.code {
            self.code = Some(code);
        }
        if let Some(name) = request.name {
            self.name = Some(name);
        }
        if let Some(owner_team) = request.owner_team {
            self.owner_team = Some(owner_team);
        }
        if let Some(owner_email) = request.owner_email {
            self.owner_email = Some(owner_email);
        }
    }

    /// An equal copy of this application.
    pub fn duplicate(&self) -> (a: Self)
        ensures
            a == *self,
    {
        Application {
            id: self.id,
            code: duplicate_opt(&self.code),
            name: duplicate_opt(&self.name),
            owner_team: duplicate_opt(&self.owner_team),
            owner_email: duplicate_opt(&self.owner_email),
        }
    }
}

/// A cataloged cloud resource.
#[derive(Debug, Clone)]
pub struct Resource {
    pub id: i64,
    pub azure_id: Option<String>,
    pub name: String,
    pub resource_type: String,
    pub kind: Option<String>,
    pub location: String,
    pub subscription_id: i64,
    pub resource_group_id: i64,
    pub tags: Vec<Tag>,
    pub extended_location: Option<String>,
    pub vendor: Option<String>,
    pub environment: Option<String>,
    pub provisioner: Option<String>,
    /// Seconds since the Unix epoch.
    pub created_at: i64,
    /// Seconds since the Unix epoch; refreshed on every update.
    pub updated_at: i64,
}

#[derive(Debug, Clone)]
pub struct CreateResourceRequest {
    pub azure_id: Option<String>,
    pub name: String,
    pub resource_type: String,
    pub kind: Option<String>,
    pub location: String,
    pub subscription_id: i64,
    pub resource_group_id: i64,
    pub tags: Vec<Tag>,
    pub extended_location: Option<String>,
    pub vendor: Option<String>,
    pub environment: Option<String>,
    pub provisioner: Option<String>,
}

/// The mathematical value of a resource: identity, descriptive fields,
/// ownership links, tag map, and time stamps in epoch seconds.
#[verifier::ext_equal]
pub ghost struct ResourceModel {
    pub id: int,
    pub azure_id: Option<Seq<char>>,
    pub name: Seq<char>,
    pub resource_type: Seq<char>,
    pub kind: Option<Seq<char>>,
    pub location: Seq<char>,
    pub subscription_id: int,
    pub resource_group_id: int,
    pub tags: Seq<TagModel>,
    pub extended_location: Option<Seq<char>>,
    pub vendor: Option<Seq<char>>,
    pub environment: Option<Seq<char>>,
    pub provisioner: Option<Seq<char>>,
    pub created_at: int,
    pub updated_at: int,
}

impl View for Resource {
    type V = ResourceModel;

    open spec fn view(&self) -> ResourceModel {
        ResourceModel {
            id: self.id as int,
            azure_id: view_opt(self.azure_id),
            name: self.name@,
            resource_type: self.resource_type@,
            kind: view_opt(self.kind),
            location: self.location@,
            subscription_id: self.subscription_id as int,
            resource_group_id: self.resource_group_id as int,
            tags: self.tags@.map_values(|t: Tag| t@),
            extended_location: view_opt(self.extended_location),
            vendor: view_opt(self.vendor),
            environment: view_opt(self.environment),
            provisioner: view_opt(self.provisioner),
            created_at: self.created_at as int,
            updated_at: self.updated_at as int,
        }
    }
}

#[derive(Debug, Clone)]
pub struct UpdateResourceRequest {
    pub azure_id: Option<String>,
    pub name: Option<String>,
    pub resource_type: Option<String>,
    pub kind: Option<String>,
    pub location: Option<String>,
    pub subscription_id: Option<i64>,
    pub resource_group_id: Option<i64>,
    pub tags: Option<Vec<Tag>>,
    pub extended_location: Option<String>,
    pub vendor: Option<String>,
    pub environment: Option<String>,
    pub provisioner: Option<String>,
}

impl Resource {
    /// A resource from a creation request; the store assigns the id, and
    /// both time stamps are taken from the clock at the moment of the call.
    pub fn new(request: CreateResourceRequest) -> (r: Self)
        ensures
            r.id == 0,
            r.azure_id == request.azure_id,
            r.name == request.name,
            r.resource_type == request.resource_type,
            r.kind == request.kind,
            r.location == request.location,
            r.subscription_id == request.subscription_id,
            r.resource_group_id == request.resource_group_id,
            r.tags == request.tags,
            r.extended_location == request.extended_location,
            r.vendor == request.vendor,
            r.environment == request.environment,
            r.provisioner == request.provisioner,
            r.created_at == r.updated_at,
    {
        let now = now_seconds();
        Resource {
            id: 0,
            azure_id: request.azure_id,
            name: request.name,
            resource_type: request.resource_type,
            kind: request.kind,
            location: request.location,
            subscription_id: request.subscription_id,
            resource_group_id: request.resource_group_id,
            tags: request.tags,
            extended_location: request.extended_location,
            vendor: request.vendor,
            environment: request.environment,
            provisioner: request.provisioner,
            created_at: now,
            updated_at: now,
        }
    }

    /// Overwrites exactly the fields present in the request, keeping the id
    /// and creation stamp, and refreshes `updated_at` from the clock.
    pub fn update(&mut self, request: UpdateResourceRequest)
        ensures
            final(self).id == old(self).id,
            final(self).created_at == old(self).created_at,
            final(self).azure_id == (match request.azure_id {
                Some(a) => Some(a),
                None => old(self).azure_id,
            }),
            final(self).name == (match request.name {
                Some(n) => n,
                None => old(self).name,
            }),
            final(self).resource_type == (match request.resource_type {
                Some(t) => t,
                None => old(self).resource_type,
            }),
            final(self).kind == (match request.kind {
                Some(k) => Some(k),
                None => old(self).kind,
            }),
            final(self).location == (match request.location {
                Some(l) => l,
                None => old(self).location,
            }),
            final(self).subscription_id == (match request.subscription_id {
                Some(s) => s,
                None => old(self).subscription_id,
            }),
            final(self).resource_group_id == (match request.resource_group_id {
                Some(g) => g,
                None => old(self).resource_group_id,
            }),
            final(self).tags == (match request.tags {
                Some(t) => t,
                None => old(self).tags,
            }),
            final(self).extended_location == (match request.extended_location {
                Some(e) => Some(e),
                None => old(self).extended_location,
            }),
            final(self).vendor == (match request.vendor {
                Some(v) => Some(v),
                None => old(self).vendor,
            }),
            final(self).environment == (match request.environment {
                Some(e) => Some(e),
                None => old(self).environment,
            }),
            final(self).provisioner == (match request.provisioner {
                Some(p) => Some(p),
                None => old(self).provisioner,
            }),
    {
        if let Some(azure_id) = request.azure_id {
            self.azure_id = Some(azure_id);
        }
        if let Some(name) = request.name {
            self.name = name;
        }
        if let Some(resource_type) = request.resource_type {
            self.resource_type = resource_type;
        }
        if let Some(kind) = request.kind {
            self.kind = Some(kind);
        }
        if let Some(location) = request.location {
            self.location = location;
        }
        if let Some(subscription_id) = request.subscription_id {
            self.subscription_id = subscription_id;
        }
        if let Some(resource_group_id) = request.resource_group_id {
            self.resource_group_id = resource_group_id;
        }
        if let Some(tags) = request.tags {
            self.tags = tags;
        }
        if let Some(extended_location) = request.extended_location {
            self.extended_location = Some(extended_location);
        }
        if let Some(vendor) = request.vendor {
            self.vendor = Some(vendor);
        }
        if let Some(environment) = request.environment {
            self.environment = Some(environment);
        }
        if let Some(provisioner) = request.provisioner {
            self.provisioner = Some(provisioner);
        }
        self.updated_at = now_seconds();
    }

    /// A copy of this resource with the same mathematical value.
    pub fn duplicate(&self) -> (r: Self)
        ensures
            r@ == self@,
    {
        Resource {
            id: self.id,
            azure_id: duplicate_opt(&self.azure_id),
            name: self.name.clone(),
            resource_type: self.resource_type.clone(),
            kind: duplicate_opt(&self.kind),
            location: self.location.clone(),
            subscription_id: self.subscription_id,
            resource_group_id: self.resource_group_id,
            tags: duplicate_tags(&self.tags),
            extended_location: duplicate_opt(&self.extended_location),
            vendor: duplicate_opt(&self.vendor),
            environment: duplicate_opt(&self.environment),
            provisioner: duplicate_opt(&self.provisioner),
            created_at: self.created_at,
            updated_at: self.updated_at,
        }
    }
}

} // verus!
