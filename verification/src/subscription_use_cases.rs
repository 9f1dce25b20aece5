//! Subscription operations over the in-memory store: creation with a
//! uniqueness check on the name, lookups, pagination, partial updates and
//! deletion. Mutations on a missing id fail with `NotFound` and leave the
//! store untouched.

use vstd::prelude::*;
use crate::entities::{CreateSubscriptionRequest, Subscription, UpdateSubscriptionRequest};
use crate::errors::{DomainError, DomainResult};
use crate::text::{blank, is_blank, str_eq};
use crate::value_objects::{Pagination, PaginationParams, spec_page, spec_size, spec_total_pages};

verus! {

/// Whether a subscription list holds the given name.
pub open spec fn has_sub_name(subs: Seq<Subscription>, name: Seq<char>) -> bool {
    exists|i: int| 0 <= i < subs.len() && (#[trigger] subs[i]).name@ == name
}

/// Whether a subscription list holds the given id.
pub open spec fn has_sub_id(subs: Seq<Subscription>, id: int) -> bool {
    exists|i: int| 0 <= i < subs.len() && (#[trigger] subs[i]).id == id
}

/// The subscription store and its operations.
pub struct SubscriptionUseCases {
    pub subscriptions: Vec<Subscription>,
    pub next_id: i64,
}

impl SubscriptionUseCases {
    /// Well-formedness: every id is positive, below the allocation counter
    /// and unique, and names are unique.
    pub open spec fn inv(&self) -> bool {
        &&& 1 <= self.next_id
        &&& forall|i: int|
            0 <= i < self.subscriptions@.len() ==> 1 <= (#[trigger] self.subscriptions@[i]).id
                < self.next_id
        &&& forall|i: int, j: int|
            0 <= i < j < self.subscriptions@.len() ==> (#[trigger] self.subscriptions@[i]).id != (
            #[trigger] self.subscriptions@[j]).id
        &&& forall|i: int, j: int|
            0 <= i < j < self.subscriptions@.len() ==> (#[trigger] self.subscriptions@[i]).name@
                != (#[trigger] self.subscriptions@[j]).name@
    }

    /// An empty subscription store.
    pub fn new() -> (s: Self)
        ensures
            s.inv(),
            s.subscriptions@.len() == 0,
            s.next_id == 1,
    {
        SubscriptionUseCases { subscriptions: Vec::new(), next_id: 1 }
    }

    /// The number of subscriptions in the store.
    pub fn count_all(&self) -> (n: u64)
        ensures
            n == self.subscriptions@.len(),
    {
        self.subscriptions.len() as u64
    }

    /// Position of the subscription with this name, if any.
    fn position_by_name(&self, name: &str) -> (r: Option<usize>)
        ensures
            match r {
                Some(i) => i < self.subscriptions@.len() && self.subscriptions@[i as int].name@
                    == name@,
                None => !has_sub_name(self.subscriptions@, name@),
            },
    {
        let mut i: usize = 0;
        while i < self.subscriptions.len()
            invariant
                i <= self.subscriptions@.len(),
                forall|j: int|
                    0 <= j < i ==> (#[trigger] self.subscriptions@[j]).name@ != name@,
            decreases self.subscriptions.len() - i,
        {
            if str_eq(self.subscriptions[i].name.as_str(), name) {
                return Some(i);
            }
            i = i + 1;
        }
        None
    }

    /// Position of the subscription with this id, if any.
    fn position_by_id(&self, id: i64) -> (r: Option<usize>)
        ensures
            match r {
                Some(i) => i < self.subscriptions@.len() && self.subscriptions@[i as int].id == id,
                None => !has_sub_id(self.subscriptions@, id as int),
            },
    {
        let mut i: usize = 0;
        while i < self.subscriptions.len()
            invariant
                i <= self.subscriptions@.len(),
                forall|j: int| 0 <= j < i ==> (#[trigger] self.subscriptions@[j]).id != id,
            decreases self.subscriptions.len() - i,
        {
            if self.subscriptions[i].id == id {
                return Some(i);
            }
            i = i + 1;
        }
        None
    }

    /// Creates a subscription. Fails with `InvalidInput` on a blank name and
    /// with `AlreadyExists` on a duplicate name; succeeds otherwise, storing
    /// the new subscription under a fresh id. Failures leave the store
    /// untouched.
    pub fn create_subscription(&mut self, request: CreateSubscriptionRequest) -> (r: DomainResult<
        Subscription,
    >)
        requires
            old(self).inv(),
            old(self).next_id < i64::MAX,
        ensures
            final(self).inv(),
            blank(request.name@) ==> (r matches Err(e) && e matches DomainError::InvalidInput { .. }
                && *final(self) == *old(self)),
            !blank(request.name@) && has_sub_name(old(self).subscriptions@, request.name@) ==> (
            r matches Err(e) && e matches DomainError::AlreadyExists { .. } && *final(self) == *old(
                self,
            )),
            !blank(request.name@) && !has_sub_name(old(self).subscriptions@, request.name@) ==> (
            r matches Ok(s) && s.id == old(self).next_id && s.name == request.name && s.tenant_id
                == request.tenant_id && final(self).subscriptions@ == old(
                self,
            ).subscriptions@.push(s) && final(self).next_id == old(self).next_id + 1),
    {
        if is_blank(request.name.as_str()) {
            return Err(DomainError::invalid_input("Subscription name cannot be empty"));
        }
        if let Some(_i) = self.position_by_name(request.name.as_str()) {
            return Err(DomainError::already_exists("Subscription", "name", request.name.as_str()));
        }
        let mut s = Subscription::new(request);
        s.id = self.next_id;
        self.next_id = self.next_id + 1;
        let copy = s.duplicate();
        let ghost subs0 = self.subscriptions@;
        self.subscriptions.push(s);
        proof {
            assert forall|i: int, j: int|
                0 <= i < j < self.subscriptions@.len() implies (
            #[trigger] self.subscriptions@[i]).name@ != (#[trigger] self.subscriptions@[j]).name@ by {
                if j == subs0.len() {
                    assert(!has_sub_name(subs0, self.subscriptions@[j].name@));
                    assert(subs0[i].name@ != self.subscriptions@[j].name@);
                }
            }
            assert forall|i: int|
                0 <= i < self.subscriptions@.len() implies 1 <= (
            #[trigger] self.subscriptions@[i]).id < self.next_id by {
                if i < subs0.len() {
                    assert(1 <= subs0[i].id < old(self).next_id);
                }
            }
            assert forall|i: int, j: int|
                0 <= i < j < self.subscriptions@.len() implies (
            #[trigger] self.subscriptions@[i]).id != (#[trigger] self.subscriptions@[j]).id by {
                if j == subs0.len() {
                    assert(subs0[i].id < old(self).next_id);
                }
            }
        }
        Ok(copy)
    }

    /// The subscription with this id, or `NotFound`.
    pub fn get_subscription_by_id(&self, id: i64) -> (r: DomainResult<Subscription>)
        ensures
            match r {
                Ok(s) => s.id == id && has_sub_id(self.subscriptions@, id as int) && (exists|i: int|
                    0 <= i < self.subscriptions@.len() && #[trigger] self.subscriptions@[i] == s),
                Err(e) => !has_sub_id(self.subscriptions@, id as int) && e
                    matches DomainError::NotFound { .. },
            },
    {
        match self.position_by_id(id) {
            Some(i) => Ok(self.subscriptions[i].duplicate()),
            None => Err(DomainError::not_found("Subscription", id)),
        }
    }

    /// The subscription with this name, if any. Never fails.
    pub fn get_subscription_by_name(&self, name: &str) -> (r: DomainResult<Option<Subscription>>)
        ensures
            match r {
                Ok(Some(s)) => s.name@ == name@ && (exists|i: int|
                    0 <= i < self.subscriptions@.len() && #[trigger] self.subscriptions@[i] == s),
                Ok(None) => !has_sub_name(self.subscriptions@, name@),
                Err(_) => false,
            },
    {
        match self.position_by_name(name) {
            Some(i) => Ok(Some(self.subscriptions[i].duplicate())),
            None => Ok(None),
        }
    }

    /// One page of the subscription list, in store order, with the total
    /// count and derived page count. Never fails.
    pub fn list_subscriptions(&self, pagination: PaginationParams) -> (r: DomainResult<
        (Vec<Subscription>, Pagination),
    >)
        ensures
            match r {
                Ok((page, pg)) => {
                    let total = self.subscriptions@.len() as int;
                    let lo = if (pg.page - 1) * pg.size <= total {
                        (pg.page - 1) * pg.size
                    } else {
                        total
                    };
                    let hi = if (pg.page - 1) * pg.size + pg.size <= total {
                        (pg.page - 1) * pg.size + pg.size
                    } else {
                        total
                    };
                    &&& pg.page == spec_page(pagination.page)
                    &&& pg.size == spec_size(pagination.size)
                    &&& pg.total == total
                    &&& pg.total_pages == spec_total_pages(pg.total, pg.size)
                    &&& page@ == self.subscriptions@.subrange(lo, hi)
                },
                Err(_) => false,
            },
    {
        let page = pagination.page();
        let size = pagination.size();
        let total = self.subscriptions.len() as u64;
        let pg = Pagination::new(page, size, total);
        let offset = pg.offset();
        let len = self.subscriptions.len();
        let lo: usize = if offset <= len as u64 {
            offset as usize
        } else {
            len
        };
        let hi: usize = if ((len - lo) as u64) <= size as u64 {
            len
        } else {
            lo + (size as usize)
        };
        let mut out: Vec<Subscription> = Vec::new();
        let mut i: usize = lo;
        while i < hi
            invariant
                lo <= i <= hi <= self.subscriptions@.len(),
                out@ == self.subscriptions@.subrange(lo as int, i as int),
            decreases hi - i,
        {
            out.push(self.subscriptions[i].duplicate());
            i = i + 1;
            proof {
                assert(out@ =~= self.subscriptions@.subrange(lo as int, i as int));
            }
        }
        proof {
            assert(out@ =~= self.subscriptions@.subrange(lo as int, hi as int));
        }
        Ok((out, pg))
    }

    /// Updates the subscription with this id, overwriting exactly the fields
    /// present. Fails with `NotFound` on a missing id, `InvalidInput` on a
    /// blank name, and `AlreadyExists` when the new name belongs to another
    /// subscription; failures leave the store untouched.
    pub fn update_subscription(&mut self, id: i64, request: UpdateSubscriptionRequest) -> (r:
        DomainResult<Subscription>)
        requires
            old(self).inv(),
        ensures
            final(self).inv(),
            final(self).next_id == old(self).next_id,
            !has_sub_id(old(self).subscriptions@, id as int) ==> (r matches Err(e) && e
                matches DomainError::NotFound { .. } && *final(self) == *old(self)),
            r matches Err(_) ==> *final(self) == *old(self),
            has_sub_id(old(self).subscriptions@, id as int) && (request.name matches Some(n)
                && blank(n@)) ==> (r matches Err(e) && e matches DomainError::InvalidInput { .. }),
            has_sub_id(old(self).subscriptions@, id as int) && (request.name matches Some(n)
                && !blank(n@) && (exists|j: int|
                0 <= j < old(self).subscriptions@.len() && (
                #[trigger] old(self).subscriptions@[j]).name@ == n@ && old(
                    self,
                ).subscriptions@[j].id != id)) ==> (r matches Err(e) && e
                matches DomainError::AlreadyExists { .. }),
            has_sub_id(old(self).subscriptions@, id as int) && (match request.name {
                Some(n) => !blank(n@) && (forall|j: int|
                    0 <= j < old(self).subscriptions@.len() ==> ((
                    #[trigger] old(self).subscriptions@[j]).name@ == n@ ==> old(
                        self,
                    ).subscriptions@[j].id == id)),
                None => true,
            }) ==> r matches Ok(_),
            r matches Ok(s) ==> exists|i: int|
                {
                    &&& 0 <= i < old(self).subscriptions@.len()
                    &&& (#[trigger] old(self).subscriptions@[i]).id == id
                    &&& s.id == id
                    &&& s.name@ == (match request.name {
                        Some(n) => n@,
                        None => old(self).subscriptions@[i].name@,
                    })
                    &&& s.tenant_id == (match request.tenant_id {
                        Some(t) => Some(t),
                        None => old(self).subscriptions@[i].tenant_id,
                    })
                    &&& final(self).subscriptions@ == old(self).subscriptions@.update(i, s)
                },
    {
        let idx = match self.position_by_id(id) {
            Some(i) => i,
            None => {
                return Err(DomainError::not_found("Subscription", id));
            },
        };
        if let Some(name) = &request.name {
            if is_blank(name.as_str()) {
                return Err(DomainError::invalid_input("Subscription name cannot be empty"));
            }
            match self.position_by_name(name.as_str()) {
                Some(j) => {
                    if self.subscriptions[j].id != id {
                        return Err(
                            DomainError::already_exists("Subscription", "name", name.as_str()),
                        );
                    }
                },
                None => {},
            }
        }
        let ghost subs0 = self.subscriptions@;
        let mut entity = self.subscriptions[idx].duplicate();
        entity.update(request);
        let copy = entity.duplicate();
        self.subscriptions.remove(idx);
        self.subscriptions.insert(idx, entity);
        proof {
            let i = idx as int;
            assert(self.subscriptions@ =~= subs0.update(i, self.subscriptions@[i]));
            assert forall|a: int, b: int|
                0 <= a < b < self.subscriptions@.len() implies (
            #[trigger] self.subscriptions@[a]).name@ != (#[trigger] self.subscriptions@[b]).name@ by {
                if a != i && b != i {
                    assert(subs0[a].name@ != subs0[b].name@);
                } else {
                    let other = if a == i { b } else { a };
                    assert(subs0[other].name@ == self.subscriptions@[other].name@);
                    match request.name {
                        Some(_) => {
                            assert(self.subscriptions@[i].name@ != subs0[other].name@);
                        },
                        None => {
                            assert(self.subscriptions@[i].name@ == subs0[i].name@);
                        },
                    }
                }
            }
        }
        Ok(copy)
    }

    /// Deletes the subscription with this id; `NotFound` when absent leaves
    /// the store untouched.
    pub fn delete_subscription(&mut self, id: i64) -> (r: DomainResult<()>)
        requires
            old(self).inv(),
        ensures
            final(self).inv(),
            final(self).next_id == old(self).next_id,
            !has_sub_id(old(self).subscriptions@, id as int) ==> (r matches Err(e) && e
                matches DomainError::NotFound { .. } && *final(self) == *old(self)),
            has_sub_id(old(self).subscriptions@, id as int) ==> r matches Ok(_),
            r matches Ok(_) ==> exists|i: int|
                {
                    &&& 0 <= i < old(self).subscriptions@.len()
                    &&& (#[trigger] old(self).subscriptions@[i]).id == id
                    &&& final(self).subscriptions@ == old(self).subscriptions@.remove(i)
                },
            r matches Err(_) ==> *final(self) == *old(self),
    {
        let idx = match self.position_by_id(id) {
            Some(i) => i,
            None => {
                return Err(DomainError::not_found("Subscription", id));
            },
        };
        let ghost subs0 = self.subscriptions@;
        self.subscriptions.remove(idx);
        proof {
            assert(self.subscriptions@ =~= subs0.remove(idx as int));
        }
        Ok(())
    }
}

} // verus!
