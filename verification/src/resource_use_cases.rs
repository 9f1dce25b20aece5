//! Resource operations over the in-memory store: validated creation and
//! partial updates, lookups, ownership queries, the application relation,
//! and the paginated filter/sort query at the heart of the catalog.
//!
//! The query's total always counts every record matching the filter,
//! independent of the requested page and size.

use vstd::prelude::*;
use vstd::string::StringExecFns;
use crate::compiler::{compile_query, order_of};
use crate::entities::{
    CreateResourceRequest, Resource, ResourceModel, Tag, UpdateResourceRequest, tags_wf, view_opt,
};
use crate::errors::{DomainError, DomainResult};
use crate::matching::{matched_models, resource_matches};
use crate::resource_group_use_cases::{has_rg_id, ResourceGroupUseCases};
use crate::sorting::{models, ordered_by, sort_resources, lemma_ordered_subrange};
use crate::subscription_use_cases::{has_sub_id, SubscriptionUseCases};
use crate::text::{blank, is_blank};
use crate::value_objects::{
    Pagination, PaginationParams, ResourceFilters, SortParams, spec_page, spec_size,
    spec_total_pages,
};

verus! {

/// One row of the resource/application relation.
#[derive(Debug, Clone)]
pub struct AppLink {
    pub resource_id: i64,
    pub application_id: i64,
    pub relation_type: String,
}

/// Whether the relation links this resource to this application, under any
/// relation type.
pub open spec fn has_link(links: Seq<AppLink>, resource_id: int, application_id: int) -> bool {
    exists|k: int|
        0 <= k < links.len() && (#[trigger] links[k]).resource_id == resource_id
            && links[k].application_id == application_id
}

/// Whether the relation holds this exact triple.
pub open spec fn has_link_triple(
    links: Seq<AppLink>,
    resource_id: int,
    application_id: int,
    relation: Seq<char>,
) -> bool {
    exists|k: int|
        0 <= k < links.len() && (#[trigger] links[k]).resource_id == resource_id
            && links[k].application_id == application_id && links[k].relation_type@ == relation
}

/// Whether a resource list holds the given id.
pub open spec fn has_res_id(rs: Seq<Resource>, id: int) -> bool {
    exists|i: int| 0 <= i < rs.len() && (#[trigger] rs[i]).id == id
}

/// A stored resource is well formed: name, type and location are not
/// blank, and its tag map holds each key once.
pub open spec fn resource_wf(m: ResourceModel) -> bool {
    &&& !blank(m.name)
    &&& !blank(m.resource_type)
    &&& !blank(m.location)
    &&& tags_wf(m.tags)
}

/// The resources of a subscription, in list order.
pub open spec fn res_of_subscription(ms: Seq<ResourceModel>, sub: int) -> Seq<ResourceModel> {
    ms.filter(|m: ResourceModel| m.subscription_id == sub)
}

/// The resources of a resource group, in list order.
pub open spec fn res_of_group(ms: Seq<ResourceModel>, group: int) -> Seq<ResourceModel> {
    ms.filter(|m: ResourceModel| m.resource_group_id == group)
}

/// The resource store and its operations.
pub struct ResourceUseCases {
    pub resources: Vec<Resource>,
    pub links: Vec<AppLink>,
    pub next_id: i64,
}

impl ResourceUseCases {
    /// Well-formedness: ids are positive, below the allocation counter and
    /// unique; every stored resource is well formed; the application
    /// relation holds each (resource, application, relation type) triple at
    /// most once.
    pub open spec fn inv(&self) -> bool {
        &&& 1 <= self.next_id
        &&& forall|i: int|
            0 <= i < self.resources@.len() ==> 1 <= (#[trigger] self.resources@[i]).id
                < self.next_id
        &&& forall|i: int, j: int|
            0 <= i < j < self.resources@.len() ==> (#[trigger] self.resources@[i]).id != (
            #[trigger] self.resources@[j]).id
        &&& forall|i: int| 0 <= i < self.resources@.len() ==> resource_wf((#[trigger] self.resources@[i])@)
        &&& forall|i: int, j: int|
            0 <= i < j < self.links@.len() ==> !((#[trigger] self.links@[i]).resource_id == (
            #[trigger] self.links@[j]).resource_id && self.links@[i].application_id
                == self.links@[j].application_id && self.links@[i].relation_type@
                == self.links@[j].relation_type@)
    }

    /// An empty resource store.
    pub fn new() -> (s: Self)
        ensures
            s.inv(),
            s.resources@.len() == 0,
            s.links@.len() == 0,
            s.next_id == 1,
    {
        ResourceUseCases { resources: Vec::new(), links: Vec::new(), next_id: 1 }
    }

    /// Position of the resource with this id, if any.
    fn position_by_id(&self, id: i64) -> (r: Option<usize>)
        ensures
            match r {
                Some(i) => i < self.resources@.len() && self.resources@[i as int].id == id,
                None => !has_res_id(self.resources@, id as int),
            },
    {
        let mut i: usize = 0;
        while i < self.resources.len()
            invariant
                i <= self.resources@.len(),
                forall|j: int| 0 <= j < i ==> (#[trigger] self.resources@[j]).id != id,
            decreases self.resources.len() - i,
        {
            if self.resources[i].id == id {
                return Some(i);
            }
            i = i + 1;
        }
        None
    }

    /// Creates a resource. Fails with `InvalidInput` when the name, type or
    /// location is blank, and with `NotFound` when the referenced
    /// subscription or resource group does not exist; failures leave the
    /// store untouched. On success the resource is stored under a fresh id
    /// with equal creation and update stamps.
    pub fn create_resource(
        &mut self,
        request: CreateResourceRequest,
        subs: &SubscriptionUseCases,
        rgs: &ResourceGroupUseCases,
    ) -> (r: DomainResult<Resource>)
        requires
            old(self).inv(),
            old(self).next_id < i64::MAX,
            tags_wf(request.tags@.map_values(|t: Tag| t@)),
        ensures
            final(self).inv(),
            final(self).links == old(self).links,
            blank(request.name@) ==> (r matches Err(e) && e matches DomainError::InvalidInput { .. }
                && *final(self) == *old(self)),
            !blank(request.name@) && blank(request.resource_type@) ==> (r matches Err(e) && e
                matches DomainError::InvalidInput { .. } && *final(self) == *old(self)),
            !blank(request.name@) && !blank(request.resource_type@) && blank(request.location@)
                ==> (r matches Err(e) && e matches DomainError::InvalidInput { .. } && *final(self)
                == *old(self)),
            !blank(request.name@) && !blank(request.resource_type@) && !blank(request.location@)
                && !has_sub_id(subs.subscriptions@, request.subscription_id as int) ==> (r
                matches Err(e) && e matches DomainError::NotFound { .. } && *final(self) == *old(
                self,
            )),
            !blank(request.name@) && !blank(request.resource_type@) && !blank(request.location@)
                && has_sub_id(subs.subscriptions@, request.subscription_id as int) && !has_rg_id(
                rgs.resource_groups@,
                request.resource_group_id as int,
            ) ==> (r matches Err(e) && e matches DomainError::NotFound { .. } && *final(self)
                == *old(self)),
            !blank(request.name@) && !blank(request.resource_type@) && !blank(request.location@)
                && has_sub_id(subs.subscriptions@, request.subscription_id as int) && has_rg_id(
                rgs.resource_groups@,
                request.resource_group_id as int,
            ) ==> (r matches Ok(res) && {
                &&& res@.id == old(self).next_id
                &&& res@.name == request.name@
                &&& res@.resource_type == request.resource_type@
                &&& res@.location == request.location@
                &&& res@.azure_id == view_opt(request.azure_id)
                &&& res@.kind == view_opt(request.kind)
                &&& res@.subscription_id == request.subscription_id
                &&& res@.resource_group_id == request.resource_group_id
                &&& res@.tags == request.tags@.map_values(|t: Tag| t@)
                &&& res@.vendor == view_opt(request.vendor)
                &&& res@.environment == view_opt(request.environment)
                &&& res@.provisioner == view_opt(request.provisioner)
                &&& res@.created_at == res@.updated_at
                &&& models(final(self).resources@) == models(old(self).resources@).push(res@)
                &&& final(self).next_id == old(self).next_id + 1
            }),
    {
        if is_blank(request.name.as_str()) {
            return Err(DomainError::invalid_input("Resource name cannot be empty"));
        }
        if is_blank(request.resource_type.as_str()) {
            return Err(DomainError::invalid_input("Resource type cannot be empty"));
        }
        if is_blank(request.location.as_str()) {
            return Err(DomainError::invalid_input("Location cannot be empty"));
        }
        match subs.get_subscription_by_id(request.subscription_id) {
            Ok(_) => {},
            Err(_) => {
                return Err(DomainError::not_found("Subscription", request.subscription_id));
            },
        }
        match rgs.get_resource_group_by_id(request.resource_group_id) {
            Ok(_) => {},
            Err(_) => {
                return Err(DomainError::not_found("ResourceGroup", request.resource_group_id));
            },
        }
        let mut res = Resource::new(request);
        res.id = self.next_id;
        self.next_id = self.next_id + 1;
        let copy = res.duplicate();
        let ghost rs0 = self.resources@;
        self.resources.push(res);
        proof {
            assert(models(self.resources@) =~= models(rs0).push(self.resources@[rs0.len() as int]@));
            assert forall|i: int|
                0 <= i < self.resources@.len() implies 1 <= (#[trigger] self.resources@[i]).id
                < self.next_id by {
                if i < rs0.len() {
                    assert(1 <= rs0[i].id < old(self).next_id);
                }
            }
            assert forall|i: int, j: int|
                0 <= i < j < self.resources@.len() implies (#[trigger] self.resources@[i]).id != (
            #[trigger] self.resources@[j]).id by {
                if j == rs0.len() {
                    assert(rs0[i].id < old(self).next_id);
                }
            }
            assert forall|i: int|
                0 <= i < self.resources@.len() implies resource_wf(
                (#[trigger] self.resources@[i])@,
            ) by {
                if i < rs0.len() {
                    assert(resource_wf(rs0[i]@));
                }
            }
        }
        Ok(copy)
    }

    /// The resource with this id, or `NotFound`.
    pub fn get_resource_by_id(&self, id: i64) -> (r: DomainResult<Resource>)
        ensures
            match r {
                Ok(res) => res@.id == id && has_res_id(self.resources@, id as int) && (exists|
                    i: int,
                |
                    0 <= i < self.resources@.len() && (#[trigger] self.resources@[i])@ == res@),
                Err(e) => !has_res_id(self.resources@, id as int) && e
                    matches DomainError::NotFound { .. },
            },
    {
        match self.position_by_id(id) {
            Some(i) => {
                let res = self.resources[i].duplicate();
                proof {
                    assert((self.resources@[i as int])@ == res@);
                }
                Ok(res)
            },
            None => Err(DomainError::not_found("Resource", id)),
        }
    }

    /// Updates the resource with this id, overwriting exactly the fields
    /// present and refreshing the update stamp. Fails with `NotFound` on a
    /// missing id or missing referenced subscription or group, and with
    /// `InvalidInput` on a blank name, type or location; failures leave the
    /// store untouched.
    pub fn update_resource(
        &mut self,
        id: i64,
        request: UpdateResourceRequest,
        subs: &SubscriptionUseCases,
        rgs: &ResourceGroupUseCases,
    ) -> (r: DomainResult<Resource>)
        requires
            old(self).inv(),
            (request.tags matches Some(t) ==> tags_wf(t@.map_values(|tag: Tag| tag@))),
        ensures
            final(self).inv(),
            final(self).next_id == old(self).next_id,
            final(self).links == old(self).links,
            !has_res_id(old(self).resources@, id as int) ==> (r matches Err(e) && e
                matches DomainError::NotFound { .. } && *final(self) == *old(self)),
            r matches Err(_) ==> *final(self) == *old(self),
            has_res_id(old(self).resources@, id as int) && (request.name matches Some(n) && blank(
                n@,
            )) ==> (r matches Err(e) && e matches DomainError::InvalidInput { .. }),
            has_res_id(old(self).resources@, id as int) && (request.name matches Some(n) ==> !blank(
                n@,
            )) && (request.resource_type matches Some(t) && blank(t@)) ==> (r matches Err(e) && e
                matches DomainError::InvalidInput { .. }),
            has_res_id(old(self).resources@, id as int) && (request.name matches Some(n) ==> !blank(
                n@,
            )) && (request.resource_type matches Some(t) ==> !blank(t@)) && (request.location
                matches Some(l) && blank(l@)) ==> (r matches Err(e) && e
                matches DomainError::InvalidInput { .. }),
            has_res_id(old(self).resources@, id as int) && (request.name matches Some(n) ==> !blank(
                n@,
            )) && (request.resource_type matches Some(t) ==> !blank(t@)) && (request.location
                matches Some(l) ==> !blank(l@)) && (request.subscription_id matches Some(s)
                && !has_sub_id(subs.subscriptions@, s as int)) ==> (r matches Err(e) && e
                matches DomainError::NotFound { .. }),
            has_res_id(old(self).resources@, id as int) && (request.name matches Some(n) ==> !blank(
                n@,
            )) && (request.resource_type matches Some(t) ==> !blank(t@)) && (request.location
                matches Some(l) ==> !blank(l@)) && (request.subscription_id matches Some(s)
                ==> has_sub_id(subs.subscriptions@, s as int)) && (request.resource_group_id
                matches Some(g) && !has_rg_id(rgs.resource_groups@, g as int)) ==> (r matches Err(
                e,
            ) && e matches DomainError::NotFound { .. }),
            has_res_id(old(self).resources@, id as int) && (request.name matches Some(n)
                ==> !blank(n@)) && (request.resource_type matches Some(t) ==> !blank(t@)) && (
            request.location matches Some(l) ==> !blank(l@)) && (request.subscription_id
                matches Some(s) ==> has_sub_id(subs.subscriptions@, s as int)) && (
            request.resource_group_id matches Some(g) ==> has_rg_id(
                rgs.resource_groups@,
                g as int,
            )) ==> r matches Ok(_),
            r matches Ok(res) ==> exists|i: int|
                {
                    &&& 0 <= i < old(self).resources@.len()
                    &&& (#[trigger] old(self).resources@[i]).id == id
                    &&& res@.id == id
                    &&& res@.name == (match request.name {
                        Some(n) => n@,
                        None => old(self).resources@[i]@.name,
                    })
                    &&& res@.resource_type == (match request.resource_type {
                        Some(t) => t@,
                        None => old(self).resources@[i]@.resource_type,
                    })
                    &&& res@.location == (match request.location {
                        Some(l) => l@,
                        None => old(self).resources@[i]@.location,
                    })
                    &&& res@.azure_id == (match request.azure_id {
                        Some(a) => Some(a@),
                        None => old(self).resources@[i]@.azure_id,
                    })
                    &&& res@.kind == (match request.kind {
                        Some(k) => Some(k@),
                        None => old(self).resources@[i]@.kind,
                    })
                    &&& res@.subscription_id == (match request.subscription_id {
                        Some(s) => s as int,
                        None => old(self).resources@[i]@.subscription_id,
                    })
                    &&& res@.resource_group_id == (match request.resource_group_id {
                        Some(g) => g as int,
                        None => old(self).resources@[i]@.resource_group_id,
                    })
                    &&& res@.tags == (match request.tags {
                        Some(t) => t@.map_values(|tag: Tag| tag@),
                        None => old(self).resources@[i]@.tags,
                    })
                    &&& res@.vendor == (match request.vendor {
                        Some(v) => Some(v@),
                        None => old(self).resources@[i]@.vendor,
                    })
                    &&& res@.environment == (match request.environment {
                        Some(e) => Some(e@),
                        None => old(self).resources@[i]@.environment,
                    })
                    &&& res@.provisioner == (match request.provisioner {
                        Some(p) => Some(p@),
                        None => old(self).resources@[i]@.provisioner,
                    })
                    &&& res@.created_at == old(self).resources@[i]@.created_at
                    &&& models(final(self).resources@) == models(old(self).resources@).update(
                        i,
                        res@,
                    )
                },
    {
        let idx = match self.position_by_id(id) {
            Some(i) => i,
            None => {
                return Err(DomainError::not_found("Resource", id));
            },
        };
        if let Some(name) = &request.name {
            if is_blank(name.as_str()) {
                return Err(DomainError::invalid_input("Resource name cannot be empty"));
            }
        }
        if let Some(resource_type) = &request.resource_type {
            if is_blank(resource_type.as_str()) {
                return Err(DomainError::invalid_input("Resource type cannot be empty"));
            }
        }
        if let Some(location) = &request.location {
            if is_blank(location.as_str()) {
                return Err(DomainError::invalid_input("Location cannot be empty"));
            }
        }
        if let Some(subscription_id) = request.subscription_id {
            match subs.get_subscription_by_id(subscription_id) {
                Ok(_) => {},
                Err(_) => {
                    return Err(DomainError::not_found("Subscription", subscription_id));
                },
            }
        }
        if let Some(resource_group_id) = request.resource_group_id {
            match rgs.get_resource_group_by_id(resource_group_id) {
                Ok(_) => {},
                Err(_) => {
                    return Err(DomainError::not_found("ResourceGroup", resource_group_id));
                },
            }
        }
        let ghost rs0 = self.resources@;
        let mut entity = self.resources[idx].duplicate();
        entity.update(request);
        let copy = entity.duplicate();
        self.resources.remove(idx);
        self.resources.insert(idx, entity);
        proof {
            let i = idx as int;
            assert(self.resources@ =~= rs0.update(i, self.resources@[i]));
            assert(models(self.resources@) =~= models(rs0).update(i, self.resources@[i]@));
            assert forall|a: int|
                0 <= a < self.resources@.len() implies resource_wf(
                (#[trigger] self.resources@[a])@,
            ) by {
                if a != i {
                    assert(resource_wf(rs0[a]@));
                } else {
                    assert(resource_wf(rs0[i]@));
                }
            }
        }
        Ok(copy)
    }

    /// Deletes the resource with this id; `NotFound` when absent leaves the
    /// store untouched. Relation rows are not touched.
    pub fn delete_resource(&mut self, id: i64) -> (r: DomainResult<()>)
        requires
            old(self).inv(),
        ensures
            final(self).inv(),
            final(self).next_id == old(self).next_id,
            final(self).links == old(self).links,
            !has_res_id(old(self).resources@, id as int) ==> (r matches Err(e) && e
                matches DomainError::NotFound { .. } && *final(self) == *old(self)),
            has_res_id(old(self).resources@, id as int) ==> r matches Ok(_),
            r matches Ok(_) ==> exists|i: int|
                {
                    &&& 0 <= i < old(self).resources@.len()
                    &&& (#[trigger] old(self).resources@[i]).id == id
                    &&& final(self).resources@ == old(self).resources@.remove(i)
                },
            r matches Err(_) ==> *final(self) == *old(self),
    {
        let idx = match self.position_by_id(id) {
            Some(i) => i,
            None => {
                return Err(DomainError::not_found("Resource", id));
            },
        };
        let ghost rs0 = self.resources@;
        self.resources.remove(idx);
        proof {
            assert(self.resources@ =~= rs0.remove(idx as int));
        }
        Ok(())
    }

    /// The resources owned by this subscription, in store order. Never
    /// fails.
    pub fn get_resources_by_subscription(&self, subscription_id: i64) -> (r: DomainResult<
        Vec<Resource>,
    >)
        ensures
            match r {
                Ok(list) => models(list@) == res_of_subscription(
                    models(self.resources@),
                    subscription_id as int,
                ),
                Err(_) => false,
            },
    {
        let mut out: Vec<Resource> = Vec::new();
        let mut i: usize = 0;
        proof {
            reveal(Seq::filter);
            assert(models(self.resources@.subrange(0, 0)) =~= Seq::<ResourceModel>::empty());
            assert(models(out@) =~= res_of_subscription(
                models(self.resources@.subrange(0, 0)),
                subscription_id as int,
            ));
        }
        while i < self.resources.len()
            invariant
                i <= self.resources@.len(),
                models(out@) == res_of_subscription(
                    models(self.resources@.subrange(0, i as int)),
                    subscription_id as int,
                ),
            decreases self.resources.len() - i,
        {
            let ghost pre = models(self.resources@.subrange(0, i as int));
            let ghost x = self.resources@[i as int]@;
            if self.resources[i].subscription_id == subscription_id {
                out.push(self.resources[i].duplicate());
            }
            proof {
                reveal(Seq::filter);
                assert(models(self.resources@.subrange(0, i + 1)) =~= pre.push(x));
                assert(pre.push(x).drop_last() =~= pre);
                assert(pre.push(x).last() == x);
                assert(models(out@) =~= res_of_subscription(pre.push(x), subscription_id as int));
            }
            i = i + 1;
        }
        proof {
            assert(self.resources@.subrange(0, self.resources@.len() as int) =~= self.resources@);
        }
        Ok(out)
    }

    /// The resources in this resource group, in store order. Never fails.
    pub fn get_resources_by_resource_group(&self, resource_group_id: i64) -> (r: DomainResult<
        Vec<Resource>,
    >)
        ensures
            match r {
                Ok(list) => models(list@) == res_of_group(
                    models(self.resources@),
                    resource_group_id as int,
                ),
                Err(_) => false,
            },
    {
        let mut out: Vec<Resource> = Vec::new();
        let mut i: usize = 0;
        proof {
            reveal(Seq::filter);
            assert(models(self.resources@.subrange(0, 0)) =~= Seq::<ResourceModel>::empty());
            assert(models(out@) =~= res_of_group(
                models(self.resources@.subrange(0, 0)),
                resource_group_id as int,
            ));
        }
        while i < self.resources.len()
            invariant
                i <= self.resources@.len(),
                models(out@) == res_of_group(
                    models(self.resources@.subrange(0, i as int)),
                    resource_group_id as int,
                ),
            decreases self.resources.len() - i,
        {
            let ghost pre = models(self.resources@.subrange(0, i as int));
            let ghost x = self.resources@[i as int]@;
            if self.resources[i].resource_group_id == resource_group_id {
                out.push(self.resources[i].duplicate());
            }
            proof {
                reveal(Seq::filter);
                assert(models(self.resources@.subrange(0, i + 1)) =~= pre.push(x));
                assert(pre.push(x).drop_last() =~= pre);
                assert(pre.push(x).last() == x);
                assert(models(out@) =~= res_of_group(pre.push(x), resource_group_id as int));
            }
            i = i + 1;
        }
        proof {
            assert(self.resources@.subrange(0, self.resources@.len() as int) =~= self.resources@);
        }
        Ok(out)
    }

    /// Whether the relation links this resource to this application.
    fn linked(&self, resource_id: i64, application_id: i64) -> (b: bool)
        ensures
            b == has_link(self.links@, resource_id as int, application_id as int),
    {
        let mut k: usize = 0;
        while k < self.links.len()
            invariant
                k <= self.links@.len(),
                forall|j: int|
                    0 <= j < k ==> !((#[trigger] self.links@[j]).resource_id == resource_id
                        && self.links@[j].application_id == application_id),
            decreases self.links.len() - k,
        {
            if self.links[k].resource_id == resource_id && self.links[k].application_id
                == application_id {
                return true;
            }
            k = k + 1;
        }
        false
    }

    /// The resources linked to this application, in store order. Never
    /// fails. A resource appears once however many relation rows link it.
    pub fn get_resources_by_application(&self, application_id: i64) -> (r: DomainResult<
        Vec<Resource>,
    >)
        ensures
            match r {
                Ok(list) => {
                    &&& list@.len() <= self.resources@.len()
                    &&& forall|t: int|
                        0 <= t < list@.len() ==> has_link(
                            self.links@,
                            (#[trigger] list@[t])@.id,
                            application_id as int,
                        )
                    &&& forall|i: int|
                        0 <= i < self.resources@.len() && has_link(
                            self.links@,
                            (#[trigger] self.resources@[i])@.id,
                            application_id as int,
                        ) ==> exists|t: int| 0 <= t < list@.len() && (#[trigger] list@[t])@ == self.resources@[i]@
                },
                Err(_) => false,
            },
    {
        let mut out: Vec<Resource> = Vec::new();
        let mut i: usize = 0;
        while i < self.resources.len()
            invariant
                i <= self.resources@.len(),
                out@.len() <= i,
                forall|t: int|
                    0 <= t < out@.len() ==> has_link(
                        self.links@,
                        (#[trigger] out@[t])@.id,
                        application_id as int,
                    ),
                forall|j: int|
                    0 <= j < i && has_link(
                        self.links@,
                        (#[trigger] self.resources@[j])@.id,
                        application_id as int,
                    ) ==> exists|t: int| 0 <= t < out@.len() && (#[trigger] out@[t])@ == self.resources@[j]@,
            decreases self.resources.len() - i,
        {
            if self.linked(self.resources[i].id, application_id) {
                let ghost out0 = out@;
                out.push(self.resources[i].duplicate());
                proof {
                    assert(out@[out0.len() as int]@ == self.resources@[i as int]@);
                    assert(forall|t: int| 0 <= t < out0.len() ==> out@[t] == out0[t]);
                }
            }
            i = i + 1;
        }
        Ok(out)
    }

    /// Records that this resource is used by this application. Inserting an
    /// already-recorded relation changes nothing.
    pub fn link_resource_to_application(&mut self, resource_id: i64, application_id: i64)
        requires
            old(self).inv(),
        ensures
            final(self).inv(),
            final(self).resources == old(self).resources,
            final(self).next_id == old(self).next_id,
            has_link_triple(old(self).links@, resource_id as int, application_id as int, "uses"@)
                ==> final(self).links == old(self).links,
            !has_link_triple(old(self).links@, resource_id as int, application_id as int, "uses"@)
                ==> (final(self).links@.len() == old(self).links@.len() + 1
                && final(self).links@.subrange(0, old(self).links@.len() as int)
                == old(self).links@ && {
                let l = final(self).links@.last();
                l.resource_id == resource_id && l.application_id == application_id
                    && l.relation_type@ == "uses"@
            }),
    {
        let mut k: usize = 0;
        while k < self.links.len()
            invariant
                *self == *old(self),
                self.inv(),
                k <= self.links@.len(),
                forall|j: int|
                    0 <= j < k ==> !((#[trigger] self.links@[j]).resource_id == resource_id
                        && self.links@[j].application_id == application_id
                        && self.links@[j].relation_type@ == "uses"@),
            decreases self.links.len() - k,
        {
            let same = self.links[k].resource_id == resource_id && self.links[k].application_id
                == application_id && crate::text::str_eq(
                self.links[k].relation_type.as_str(),
                "uses",
            );
            if same {
                return ;
            }
            k = k + 1;
        }
        let ghost links0 = self.links@;
        self.links.push(
            AppLink {
                resource_id,
                application_id,
                relation_type: String::from_str("uses"),
            },
        );
        proof {
            assert(self.links@.subrange(0, links0.len() as int) =~= links0);
            assert forall|i: int, j: int|
                0 <= i < j < self.links@.len() implies !((#[trigger] self.links@[i]).resource_id
                == (#[trigger] self.links@[j]).resource_id && self.links@[i].application_id
                == self.links@[j].application_id && self.links@[i].relation_type@
                == self.links@[j].relation_type@) by {
                if j == links0.len() {
                    assert(!(links0[i].resource_id == resource_id && links0[i].application_id
                        == application_id && links0[i].relation_type@ == "uses"@));
                }
            }
        }
    }

    /// Every resource, in store order, for analysis passes such as the tag
    /// index. Never fails.
    pub fn list_all_resources(&self) -> (r: DomainResult<Vec<Resource>>)
        ensures
            match r {
                Ok(all) => models(all@) == models(self.resources@),
                Err(_) => false,
            },
    {
        let mut out: Vec<Resource> = Vec::new();
        let mut i: usize = 0;
        while i < self.resources.len()
            invariant
                i <= self.resources@.len(),
                models(out@) == models(self.resources@.subrange(0, i as int)),
            decreases self.resources.len() - i,
        {
            let ghost pre = self.resources@.subrange(0, i as int);
            let ghost x = self.resources@[i as int];
            out.push(self.resources[i].duplicate());
            i = i + 1;
            proof {
                assert(self.resources@.subrange(0, i as int) =~= pre.push(x));
                assert(models(pre.push(x)) =~= models(pre).push(x@));
                assert(models(out@) =~= models(pre).push(x@));
            }
        }
        proof {
            assert(self.resources@.subrange(0, self.resources@.len() as int) =~= self.resources@);
            assert(models(out@) =~= models(self.resources@));
        }
        Ok(out)
    }

    /// One page of the resources matching the filters, ordered by relevance
    /// and the requested sort, plus the pagination echo. The total counts
    /// every matching record, whatever page and size were requested. Never
    /// fails.
    pub fn list_resources(
        &self,
        pagination: PaginationParams,
        filters: ResourceFilters,
        sort: SortParams,
    ) -> (r: DomainResult<(Vec<Resource>, Pagination)>)
        ensures
            match r {
                Ok((items, pg)) => {
                    let matched = matched_models(models(self.resources@), filters@);
                    let order = order_of(filters@.search, view_opt(sort.field), sort.direction);
                    let total = matched.len() as int;
                    let lo = if (pg.page - 1) * pg.size <= total {
                        (pg.page - 1) * pg.size
                    } else {
                        total
                    };
                    let hi = if (pg.page - 1) * pg.size + pg.size <= total {
                        (pg.page - 1) * pg.size + pg.size
                    } else {
                        total
                    };
                    &&& pg.page == spec_page(pagination.page)
                    &&& pg.size == spec_size(pagination.size)
                    &&& pg.total == matched.len()
                    &&& pg.total_pages == spec_total_pages(pg.total, pg.size)
                    &&& ordered_by(order, models(items@))
                    &&& exists|sorted: Seq<ResourceModel>|
                        {
                            &&& (#[trigger] sorted.to_multiset()) == matched.to_multiset()
                            &&& ordered_by(order, sorted)
                            &&& models(items@) == sorted.subrange(lo, hi)
                        }
                },
                Err(_) => false,
            },
    {
        let plan = compile_query(filters, &sort, &pagination);
        let mut matched: Vec<Resource> = Vec::new();
        let mut i: usize = 0;
        proof {
            reveal(Seq::filter);
            assert(models(self.resources@.subrange(0, 0)) =~= Seq::<ResourceModel>::empty());
            assert(models(matched@) =~= matched_models(
                models(self.resources@.subrange(0, 0)),
                plan.filters@,
            ));
        }
        while i < self.resources.len()
            invariant
                i <= self.resources@.len(),
                models(matched@) == matched_models(
                    models(self.resources@.subrange(0, i as int)),
                    plan.filters@,
                ),
            decreases self.resources.len() - i,
        {
            let ghost pre = models(self.resources@.subrange(0, i as int));
            let ghost x = self.resources@[i as int]@;
            if resource_matches(&self.resources[i], &plan.filters) {
                matched.push(self.resources[i].duplicate());
            }
            proof {
                reveal(Seq::filter);
                assert(models(self.resources@.subrange(0, i + 1)) =~= pre.push(x));
                assert(pre.push(x).drop_last() =~= pre);
                assert(pre.push(x).last() == x);
                assert(models(matched@) =~= matched_models(pre.push(x), plan.filters@));
            }
            i = i + 1;
        }
        proof {
            assert(self.resources@.subrange(0, self.resources@.len() as int) =~= self.resources@);
        }
        let total = matched.len() as u64;
        let pg = Pagination::new(plan.page, plan.size, total);
        let sorted = sort_resources(&plan.order, matched);
        let ghost sorted_models = models(sorted@);
        let offset = pg.offset();
        let len = sorted.len();
        let lo: usize = if offset <= len as u64 {
            offset as usize
        } else {
            len
        };
        let hi: usize = if ((len - lo) as u64) <= plan.size as u64 {
            len
        } else {
            lo + (plan.size as usize)
        };
        let mut items: Vec<Resource> = Vec::new();
        let mut j: usize = lo;
        while j < hi
            invariant
                lo <= j <= hi <= sorted@.len(),
                models(items@) == models(sorted@).subrange(lo as int, j as int),
            decreases hi - j,
        {
            let ghost pre = models(sorted@).subrange(lo as int, j as int);
            let ghost x = sorted@[j as int];
            items.push(sorted[j].duplicate());
            j = j + 1;
            proof {
                assert(models(sorted@).subrange(lo as int, j as int) =~= pre.push(x@));
                assert(models(items@) =~= pre.push(x@));
            }
        }
        proof {
            assert(models(items@) =~= sorted_models.subrange(lo as int, hi as int));
            lemma_ordered_subrange(plan.order@, sorted_models, lo as int, hi as int);
            assert(sorted_models.to_multiset().len() == sorted_models.len()) by {
                broadcast use vstd::seq_lib::group_to_multiset_ensures;

            }
            assert(matched_models(models(self.resources@), plan.filters@).to_multiset().len()
                == matched_models(models(self.resources@), plan.filters@).len()) by {
                broadcast use vstd::seq_lib::group_to_multiset_ensures;

            }
        }
        Ok((items, pg))
    }
}

} // verus!
