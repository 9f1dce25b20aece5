//! Resource-group operations over the in-memory store. A group's name is
//! unique within its subscription; the same name under another subscription
//! is allowed. Creation and updates check that the referenced subscription
//! exists, and mutations on a missing id fail with `NotFound` and leave the
//! store untouched.

use vstd::prelude::*;
use crate::entities::{CreateResourceGroupRequest, ResourceGroup, UpdateResourceGroupRequest};
use crate::errors::{DomainError, DomainResult};
use crate::subscription_use_cases::{has_sub_id, SubscriptionUseCases};
use crate::text::{blank, concat_str, i64_to_string, is_blank, str_eq};
use crate::value_objects::{Pagination, PaginationParams, spec_page, spec_size, spec_total_pages};

verus! {

/// Whether a group list holds the given name under the given subscription.
pub open spec fn has_rg_pair(rgs: Seq<ResourceGroup>, name: Seq<char>, sub: int) -> bool {
    exists|i: int|
        0 <= i < rgs.len() && (#[trigger] rgs[i]).name@ == name && rgs[i].subscription_id == sub
}

/// The groups of a subscription, in list order.
pub open spec fn rgs_of_subscription(rgs: Seq<ResourceGroup>, sub: int) -> Seq<ResourceGroup> {
    rgs.filter(|g: ResourceGroup| g.subscription_id == sub)
}

/// Whether a group list holds the given id.
pub open spec fn has_rg_id(rgs: Seq<ResourceGroup>, id: int) -> bool {
    exists|i: int| 0 <= i < rgs.len() && (#[trigger] rgs[i]).id == id
}

/// The resource-group store and its operations.
pub struct ResourceGroupUseCases {
    pub resource_groups: Vec<ResourceGroup>,
    pub next_id: i64,
}

impl ResourceGroupUseCases {
    /// Well-formedness: ids are positive, below the allocation counter and
    /// unique, and (name, subscription) pairs are unique.
    pub open spec fn inv(&self) -> bool {
        &&& 1 <= self.next_id
        &&& forall|i: int|
            0 <= i < self.resource_groups@.len() ==> 1 <= (#[trigger] self.resource_groups@[i]).id
                < self.next_id
        &&& forall|i: int, j: int|
            0 <= i < j < self.resource_groups@.len() ==> (#[trigger] self.resource_groups@[i]).id
                != (#[trigger] self.resource_groups@[j]).id
        &&& forall|i: int, j: int|
            0 <= i < j < self.resource_groups@.len() ==> !((
            #[trigger] self.resource_groups@[i]).name@ == (
            #[trigger] self.resource_groups@[j]).name@ && self.resource_groups@[i].subscription_id
                == self.resource_groups@[j].subscription_id)
    }

    /// An empty resource-group store.
    pub fn new() -> (s: Self)
        ensures
            s.inv(),
            s.resource_groups@.len() == 0,
            s.next_id == 1,
    {
        ResourceGroupUseCases { resource_groups: Vec::new(), next_id: 1 }
    }

    /// The number of resource groups in the store.
    pub fn count_all(&self) -> (n: u64)
        ensures
            n == self.resource_groups@.len(),
    {
        self.resource_groups.len() as u64
    }

    /// Position of the group with this name under this subscription, if any.
    fn position_by_pair(&self, name: &str, subscription_id: i64) -> (r: Option<usize>)
        ensures
            match r {
                Some(i) => i < self.resource_groups@.len() && self.resource_groups@[i as int].name@
                    == name@ && self.resource_groups@[i as int].subscription_id == subscription_id,
                None => !has_rg_pair(self.resource_groups@, name@, subscription_id as int),
            },
    {
        let mut i: usize = 0;
        while i < self.resource_groups.len()
            invariant
                i <= self.resource_groups@.len(),
                forall|j: int|
                    0 <= j < i ==> !((#[trigger] self.resource_groups@[j]).name@ == name@
                        && self.resource_groups@[j].subscription_id == subscription_id),
            decreases self.resource_groups.len() - i,
        {
            if self.resource_groups[i].subscription_id == subscription_id && str_eq(
                self.resource_groups[i].name.as_str(),
                name,
            ) {
                return Some(i);
            }
            i = i + 1;
        }
        None
    }

    /// Position of the group with this id, if any.
    fn position_by_id(&self, id: i64) -> (r: Option<usize>)
        ensures
            match r {
                Some(i) => i < self.resource_groups@.len() && self.resource_groups@[i as int].id
                    == id,
                None => !has_rg_id(self.resource_groups@, id as int),
            },
    {
        let mut i: usize = 0;
        while i < self.resource_groups.len()
            invariant
                i <= self.resource_groups@.len(),
                forall|j: int| 0 <= j < i ==> (#[trigger] self.resource_groups@[j]).id != id,
            decreases self.resource_groups.len() - i,
        {
            if self.resource_groups[i].id == id {
                return Some(i);
            }
            i = i + 1;
        }
        None
    }

    /// Creates a resource group. Fails with `InvalidInput` on a blank name,
    /// `NotFound` when the subscription does not exist, and `AlreadyExists`
    /// when the name is taken under the same subscription; the same name
    /// under a different subscription succeeds. Failures leave the store
    /// untouched.
    pub fn create_resource_group(
        &mut self,
        request: CreateResourceGroupRequest,
        subs: &SubscriptionUseCases,
    ) -> (r: DomainResult<ResourceGroup>)
        requires
            old(self).inv(),
            old(self).next_id < i64::MAX,
        ensures
            final(self).inv(),
            blank(request.name@) ==> (r matches Err(e) && e matches DomainError::InvalidInput { .. }
                && *final(self) == *old(self)),
            !blank(request.name@) && !has_sub_id(subs.subscriptions@, request.subscription_id as int)
                ==> (r matches Err(e) && e matches DomainError::NotFound { .. } && *final(self)
                == *old(self)),
            !blank(request.name@) && has_sub_id(subs.subscriptions@, request.subscription_id as int)
                && has_rg_pair(old(self).resource_groups@, request.name@, request.subscription_id as int)
                ==> (r matches Err(e) && e matches DomainError::AlreadyExists { .. } && *final(self)
                == *old(self)),
            !blank(request.name@) && has_sub_id(subs.subscriptions@, request.subscription_id as int)
                && !has_rg_pair(old(self).resource_groups@, request.name@, request.subscription_id as int)
                ==> (r matches Ok(g) && g.id == old(self).next_id && g.name == request.name
                && g.subscription_id == request.subscription_id && final(self).resource_groups@
                == old(self).resource_groups@.push(g) && final(self).next_id == old(self).next_id
                + 1),
    {
        if is_blank(request.name.as_str()) {
            return Err(DomainError::invalid_input("Resource group name cannot be empty"));
        }
        match subs.get_subscription_by_id(request.subscription_id) {
            Ok(_) => {},
            Err(_) => {
                return Err(DomainError::not_found("Subscription", request.subscription_id));
            },
        }
        if let Some(_i) = self.position_by_pair(request.name.as_str(), request.subscription_id) {
            let detail = concat_str(request.name.as_str(), " in subscription ");
            let idtext = i64_to_string(request.subscription_id);
            let value = concat_str(detail.as_str(), idtext.as_str());
            return Err(
                DomainError::already_exists("ResourceGroup", "name in subscription", value.as_str()),
            );
        }
        let mut g = ResourceGroup::new(request);
        g.id = self.next_id;
        self.next_id = self.next_id + 1;
        let copy = g.duplicate();
        let ghost rgs0 = self.resource_groups@;
        self.resource_groups.push(g);
        proof {
            assert forall|i: int, j: int|
                0 <= i < j < self.resource_groups@.len() implies !((
            #[trigger] self.resource_groups@[i]).name@ == (
            #[trigger] self.resource_groups@[j]).name@ && self.resource_groups@[i].subscription_id
                == self.resource_groups@[j].subscription_id) by {
                if j == rgs0.len() {
                    assert(!has_rg_pair(
                        rgs0,
                        self.resource_groups@[j].name@,
                        self.resource_groups@[j].subscription_id as int,
                    ));
                    assert(!(rgs0[i].name@ == self.resource_groups@[j].name@
                        && rgs0[i].subscription_id == self.resource_groups@[j].subscription_id));
                }
            }
            assert forall|i: int|
                0 <= i < self.resource_groups@.len() implies 1 <= (
            #[trigger] self.resource_groups@[i]).id < self.next_id by {
                if i < rgs0.len() {
                    assert(1 <= rgs0[i].id < old(self).next_id);
                }
            }
            assert forall|i: int, j: int|
                0 <= i < j < self.resource_groups@.len() implies (
            #[trigger] self.resource_groups@[i]).id != (#[trigger] self.resource_groups@[j]).id by {
                if j == rgs0.len() {
                    assert(rgs0[i].id < old(self).next_id);
                }
            }
        }
        Ok(copy)
    }

    /// The group with this id, or `NotFound`.
    pub fn get_resource_group_by_id(&self, id: i64) -> (r: DomainResult<ResourceGroup>)
        ensures
            match r {
                Ok(g) => g.id == id && has_rg_id(self.resource_groups@, id as int) && (exists|i: int|
                    0 <= i < self.resource_groups@.len() && #[trigger] self.resource_groups@[i]
                        == g),
                Err(e) => !has_rg_id(self.resource_groups@, id as int) && e
                    matches DomainError::NotFound { .. },
            },
    {
        match self.position_by_id(id) {
            Some(i) => Ok(self.resource_groups[i].duplicate()),
            None => Err(DomainError::not_found("ResourceGroup", id)),
        }
    }

    /// The group with this name under this subscription, if any. Never fails.
    pub fn find_by_name_and_subscription(&self, name: &str, subscription_id: i64) -> (r:
        DomainResult<Option<ResourceGroup>>)
        ensures
            match r {
                Ok(Some(g)) => g.name@ == name@ && g.subscription_id == subscription_id && (exists|
                    i: int,
                |
                    0 <= i < self.resource_groups@.len() && #[trigger] self.resource_groups@[i]
                        == g),
                Ok(None) => !has_rg_pair(self.resource_groups@, name@, subscription_id as int),
                Err(_) => false,
            },
    {
        match self.position_by_pair(name, subscription_id) {
            Some(i) => Ok(Some(self.resource_groups[i].duplicate())),
            None => Ok(None),
        }
    }

    /// One page of the group list, in store order. Never fails.
    pub fn list_resource_groups(&self, pagination: PaginationParams) -> (r: DomainResult<
        (Vec<ResourceGroup>, Pagination),
    >)
        ensures
            match r {
                Ok((page, pg)) => {
                    let total = self.resource_groups@.len() as int;
                    let lo = if (pg.page - 1) * pg.size <= total {
                        (pg.page - 1) * pg.size
                    } else {
                        total
                    };
                    let hi = if (pg.page - 1) * pg.size + pg.size <= total {
                        (pg.page - 1) * pg.size + pg.size
                    } else {
                        total
                    };
                    &&& pg.page == spec_page(pagination.page)
                    &&& pg.size == spec_size(pagination.size)
                    &&& pg.total == total
                    &&& pg.total_pages == spec_total_pages(pg.total, pg.size)
                    &&& page@ == self.resource_groups@.subrange(lo, hi)
                },
                Err(_) => false,
            },
    {
        let page = pagination.page();
        let size = pagination.size();
        let total = self.resource_groups.len() as u64;
        let pg = Pagination::new(page, size, total);
        let offset = pg.offset();
        let len = self.resource_groups.len();
        let lo: usize = if offset <= len as u64 {
            offset as usize
        } else {
            len
        };
        let hi: usize = if ((len - lo) as u64) <= size as u64 {
            len
        } else {
            lo + (size as usize)
        };
        let mut out: Vec<ResourceGroup> = Vec::new();
        let mut i: usize = lo;
        while i < hi
            invariant
                lo <= i <= hi <= self.resource_groups@.len(),
                out@ == self.resource_groups@.subrange(lo as int, i as int),
            decreases hi - i,
        {
            out.push(self.resource_groups[i].duplicate());
            i = i + 1;
            proof {
                assert(out@ =~= self.resource_groups@.subrange(lo as int, i as int));
            }
        }
        proof {
            assert(out@ =~= self.resource_groups@.subrange(lo as int, hi as int));
        }
        Ok((out, pg))
    }

    /// Every group, in store order. Never fails.
    pub fn list_all(&self) -> (r: DomainResult<Vec<ResourceGroup>>)
        ensures
            match r {
                Ok(all) => all@ == self.resource_groups@,
                Err(_) => false,
            },
    {
        let mut out: Vec<ResourceGroup> = Vec::new();
        let mut i: usize = 0;
        while i < self.resource_groups.len()
            invariant
                i <= self.resource_groups@.len(),
                out@ == self.resource_groups@.subrange(0, i as int),
            decreases self.resource_groups.len() - i,
        {
            out.push(self.resource_groups[i].duplicate());
            i = i + 1;
            proof {
                assert(out@ =~= self.resource_groups@.subrange(0, i as int));
            }
        }
        proof {
            assert(out@ =~= self.resource_groups@);
        }
        Ok(out)
    }

    /// The groups belonging to this subscription, in store order; `NotFound`
    /// when the subscription does not exist.
    pub fn get_resource_groups_by_subscription(
        &self,
        subscription_id: i64,
        subs: &SubscriptionUseCases,
    ) -> (r: DomainResult<Vec<ResourceGroup>>)
        ensures
            match r {
                Ok(list) => has_sub_id(subs.subscriptions@, subscription_id as int) && list@
                    == rgs_of_subscription(self.resource_groups@, subscription_id as int),
                Err(e) => !has_sub_id(subs.subscriptions@, subscription_id as int) && e
                    matches DomainError::NotFound { .. },
            },
    {
        match subs.get_subscription_by_id(subscription_id) {
            Ok(_) => {},
            Err(_) => {
                return Err(DomainError::not_found("Subscription", subscription_id));
            },
        }
        let mut out: Vec<ResourceGroup> = Vec::new();
        let mut i: usize = 0;
        proof {
            reveal(Seq::filter);
            let empty = self.resource_groups@.subrange(0, 0);
            assert(empty =~= Seq::<ResourceGroup>::empty());
            assert(out@ =~= rgs_of_subscription(empty, subscription_id as int));
        }
        while i < self.resource_groups.len()
            invariant
                i <= self.resource_groups@.len(),
                out@ == rgs_of_subscription(
                    self.resource_groups@.subrange(0, i as int),
                    subscription_id as int,
                ),
            decreases self.resource_groups.len() - i,
        {
            let ghost pre = self.resource_groups@.subrange(0, i as int);
            let ghost x = self.resource_groups@[i as int];
            if self.resource_groups[i].subscription_id == subscription_id {
                out.push(self.resource_groups[i].duplicate());
            }
            proof {
                reveal(Seq::filter);
                assert(self.resource_groups@.subrange(0, i + 1) =~= pre.push(x));
                assert(pre.push(x).drop_last() =~= pre);
                assert(pre.push(x).last() == x);
                assert(out@ =~= rgs_of_subscription(pre.push(x), subscription_id as int));
            }
            i = i + 1;
        }
        proof {
            assert(self.resource_groups@.subrange(0, self.resource_groups@.len() as int)
                =~= self.resource_groups@);
        }
        Ok(out)
    }

    /// Updates the group with this id, overwriting exactly the fields
    /// present. Fails with `NotFound` on a missing id or subscription,
    /// `InvalidInput` on a blank name, and `AlreadyExists` when the
    /// effective (name, subscription) pair belongs to another group;
    /// failures leave the store untouched.
    pub fn update_resource_group(
        &mut self,
        id: i64,
        request: UpdateResourceGroupRequest,
        subs: &SubscriptionUseCases,
    ) -> (r: DomainResult<ResourceGroup>)
        requires
            old(self).inv(),
        ensures
            final(self).inv(),
            final(self).next_id == old(self).next_id,
            !has_rg_id(old(self).resource_groups@, id as int) ==> (r matches Err(e) && e
                matches DomainError::NotFound { .. } && *final(self) == *old(self)),
            r matches Err(_) ==> *final(self) == *old(self),
            has_rg_id(old(self).resource_groups@, id as int) && (request.name matches Some(n)
                && blank(n@)) ==> (r matches Err(e) && e matches DomainError::InvalidInput { .. }),
            has_rg_id(old(self).resource_groups@, id as int) && (request.name matches Some(n)
                ==> !blank(n@)) && (forall|i: int|
                0 <= i < old(self).resource_groups@.len() && (
                #[trigger] old(self).resource_groups@[i]).id == id ==> !has_sub_id(
                    subs.subscriptions@,
                    match request.subscription_id {
                        Some(s) => s as int,
                        None => old(self).resource_groups@[i].subscription_id as int,
                    },
                )) ==> (r matches Err(e) && e matches DomainError::NotFound { .. }),
            has_rg_id(old(self).resource_groups@, id as int) && (request.name matches Some(n)
                ==> !blank(n@)) && (forall|i: int|
                0 <= i < old(self).resource_groups@.len() && (
                #[trigger] old(self).resource_groups@[i]).id == id ==> ({
                    let eff_sub = match request.subscription_id {
                        Some(s) => s as int,
                        None => old(self).resource_groups@[i].subscription_id as int,
                    };
                    let eff_name = match request.name {
                        Some(n) => n@,
                        None => old(self).resource_groups@[i].name@,
                    };
                    &&& has_sub_id(subs.subscriptions@, eff_sub)
                    &&& exists|j: int|
                        0 <= j < old(self).resource_groups@.len() && (
                        #[trigger] old(self).resource_groups@[j]).name@ == eff_name && old(
                            self,
                        ).resource_groups@[j].subscription_id == eff_sub && old(
                            self,
                        ).resource_groups@[j].id != id
                })) ==> (r matches Err(e) && e matches DomainError::AlreadyExists { .. }),
            has_rg_id(old(self).resource_groups@, id as int) && (forall|i: int|
                0 <= i < old(self).resource_groups@.len() && (
                #[trigger] old(self).resource_groups@[i]).id == id ==> ({
                    let eff_sub = match request.subscription_id {
                        Some(s) => s as int,
                        None => old(self).resource_groups@[i].subscription_id as int,
                    };
                    let eff_name = match request.name {
                        Some(n) => n@,
                        None => old(self).resource_groups@[i].name@,
                    };
                    &&& (request.name matches Some(n) ==> !blank(n@))
                    &&& has_sub_id(subs.subscriptions@, eff_sub)
                    &&& forall|j: int|
                        0 <= j < old(self).resource_groups@.len() ==> (((
                        #[trigger] old(self).resource_groups@[j]).name@ == eff_name && old(
                            self,
                        ).resource_groups@[j].subscription_id == eff_sub) ==> old(
                            self,
                        ).resource_groups@[j].id == id)
                })) ==> r matches Ok(_),
            r matches Ok(g) ==> exists|i: int|
                {
                    &&& 0 <= i < old(self).resource_groups@.len()
                    &&& (#[trigger] old(self).resource_groups@[i]).id == id
                    &&& g.id == id
                    &&& g.name@ == (match request.name {
                        Some(n) => n@,
                        None => old(self).resource_groups@[i].name@,
                    })
                    &&& g.subscription_id == (match request.subscription_id {
                        Some(s) => s,
                        None => old(self).resource_groups@[i].subscription_id,
                    })
                    &&& has_sub_id(subs.subscriptions@, g.subscription_id as int)
                    &&& final(self).resource_groups@ == old(self).resource_groups@.update(i, g)
                },
    {
        let idx = match self.position_by_id(id) {
            Some(i) => i,
            None => {
                return Err(DomainError::not_found("ResourceGroup", id));
            },
        };
        if let Some(name) = &request.name {
            if is_blank(name.as_str()) {
                return Err(DomainError::invalid_input("Resource group name cannot be empty"));
            }
        }
        let new_subscription_id = match request.subscription_id {
            Some(s) => s,
            None => self.resource_groups[idx].subscription_id,
        };
        match subs.get_subscription_by_id(new_subscription_id) {
            Ok(_) => {},
            Err(_) => {
                return Err(DomainError::not_found("Subscription", new_subscription_id));
            },
        }
        let new_name: &String = match &request.name {
            Some(n) => n,
            None => &self.resource_groups[idx].name,
        };
        match self.position_by_pair(new_name.as_str(), new_subscription_id) {
            Some(j) => {
                if self.resource_groups[j].id != id {
                    let detail = concat_str(new_name.as_str(), " in subscription ");
                    let idtext = i64_to_string(new_subscription_id);
                    let value = concat_str(detail.as_str(), idtext.as_str());
                    return Err(
                        DomainError::already_exists(
                            "ResourceGroup",
                            "name in subscription",
                            value.as_str(),
                        ),
                    );
                }
            },
            None => {},
        }
        let ghost rgs0 = self.resource_groups@;
        let mut entity = self.resource_groups[idx].duplicate();
        entity.update(request);
        let copy = entity.duplicate();
        self.resource_groups.remove(idx);
        self.resource_groups.insert(idx, entity);
        proof {
            let i = idx as int;
            assert(self.resource_groups@ =~= rgs0.update(i, self.resource_groups@[i]));
            assert forall|a: int, b: int|
                0 <= a < b < self.resource_groups@.len() implies !((
            #[trigger] self.resource_groups@[a]).name@ == (
            #[trigger] self.resource_groups@[b]).name@ && self.resource_groups@[a].subscription_id
                == self.resource_groups@[b].subscription_id) by {
                if a != i && b != i {
                    assert(!(rgs0[a].name@ == rgs0[b].name@ && rgs0[a].subscription_id
                        == rgs0[b].subscription_id));
                } else {
                    let other = if a == i { b } else { a };
                    assert(rgs0[other] == self.resource_groups@[other]);
                }
            }
        }
        Ok(copy)
    }

    /// Deletes the group with this id; `NotFound` when absent leaves the
    /// store untouched.
    pub fn delete_resource_group(&mut self, id: i64) -> (r: DomainResult<()>)
        requires
            old(self).inv(),
        ensures
            final(self).inv(),
            final(self).next_id == old(self).next_id,
            !has_rg_id(old(self).resource_groups@, id as int) ==> (r matches Err(e) && e
                matches DomainError::NotFound { .. } && *final(self) == *old(self)),
            has_rg_id(old(self).resource_groups@, id as int) ==> r matches Ok(_),
            r matches Ok(_) ==> exists|i: int|
                {
                    &&& 0 <= i < old(self).resource_groups@.len()
                    &&& (#[trigger] old(self).resource_groups@[i]).id == id
                    &&& final(self).resource_groups@ == old(self).resource_groups@.remove(i)
                },
            r matches Err(_) ==> *final(self) == *old(self),
    {
        let idx = match self.position_by_id(id) {
            Some(i) => i,
            None => {
                return Err(DomainError::not_found("ResourceGroup", id));
            },
        };
        let ghost rgs0 = self.resource_groups@;
        self.resource_groups.remove(idx);
        proof {
            assert(self.resource_groups@ =~= rgs0.remove(idx as int));
        }
        Ok(())
    }
}

} // verus!
