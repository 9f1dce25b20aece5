//! Application operations over the in-memory store: creation with a
//! uniqueness check on the code and a shape check on the owner email,
//! lookups by id, code and owner, pagination, partial updates and deletion.

use vstd::prelude::*;
use crate::entities::{Application, CreateApplicationRequest, UpdateApplicationRequest};
use crate::errors::{DomainError, DomainResult};
use crate::text::{blank, is_blank, str_eq, chars_vec};
use crate::value_objects::{Pagination, PaginationParams, spec_page, spec_size, spec_total_pages};

verus! {

/// Whether a string holds an `@`, the one shape check on emails.
pub open spec fn has_at_sign(s: Seq<char>) -> bool {
    exists|i: int| 0 <= i < s.len() && s[i] == '@'
}

/// Whether an optional email passes validation: absent, or holding an `@`.
pub open spec fn email_ok(email: Option<Seq<char>>) -> bool {
    match email {
        Some(e) => has_at_sign(e),
        None => true,
    }
}

/// `@`-test matching `has_at_sign`.
pub fn contains_at_sign(s: &str) -> (r: bool)
    ensures
        r == has_at_sign(s@),
{
    let cs = chars_vec(s);
    let mut i: usize = 0;
    while i < cs.len()
        invariant
            i <= cs@.len(),
            cs@ == s@,
            forall|j: int| 0 <= j < i ==> s@[j] != '@',
        decreases cs.len() - i,
    {
        if cs[i] == '@' {
            return true;
        }
        i = i + 1;
    }
    false
}

/// Whether an application list holds the given code.
pub open spec fn has_app_code(apps: Seq<Application>, code: Seq<char>) -> bool {
    exists|i: int|
        0 <= i < apps.len() && ((#[trigger] apps[i]).code matches Some(c) && c@ == code)
}

/// Whether an application list holds the given id.
pub open spec fn has_app_id(apps: Seq<Application>, id: int) -> bool {
    exists|i: int| 0 <= i < apps.len() && (#[trigger] apps[i]).id == id
}

/// The applications owned by this email, in list order.
pub open spec fn apps_of_owner(apps: Seq<Application>, email: Seq<char>) -> Seq<Application> {
    apps.filter(|a: Application| a.owner_email matches Some(e) && e@ == email)
}

/// The application store and its operations.
pub struct ApplicationUseCases {
    pub applications: Vec<Application>,
    pub next_id: i64,
}

impl ApplicationUseCases {
    /// Well-formedness: ids are positive, below the allocation counter and
    /// unique, and present codes are unique.
    pub open spec fn inv(&self) -> bool {
        &&& 1 <= self.next_id
        &&& forall|i: int|
            0 <= i < self.applications@.len() ==> 1 <= (#[trigger] self.applications@[i]).id
                < self.next_id
        &&& forall|i: int, j: int|
            0 <= i < j < self.applications@.len() ==> (#[trigger] self.applications@[i]).id != (
            #[trigger] self.applications@[j]).id
        &&& forall|i: int, j: int|
            0 <= i < j < self.applications@.len() ==> !((#[trigger] self.applications@[i]).code
                matches Some(c) && (#[trigger] self.applications@[j]).code matches Some(d) && c@
                == d@)
    }

    /// An empty application store.
    pub fn new() -> (s: Self)
        ensures
            s.inv(),
            s.applications@.len() == 0,
            s.next_id == 1,
    {
        ApplicationUseCases { applications: Vec::new(), next_id: 1 }
    }

    /// The number of applications in the store.
    pub fn count_all(&self) -> (n: u64)
        ensures
            n == self.applications@.len(),
    {
        self.applications.len() as u64
    }

    /// Position of the application with this code, if any.
    fn position_by_code(&self, code: &str) -> (r: Option<usize>)
        ensures
            match r {
                Some(i) => i < self.applications@.len() && (self.applications@[i as int].code
                    matches Some(c) && c@ == code@),
                None => !has_app_code(self.applications@, code@),
            },
    {
        let mut i: usize = 0;
        while i < self.applications.len()
            invariant
                i <= self.applications@.len(),
                forall|j: int|
                    0 <= j < i ==> !((#[trigger] self.applications@[j]).code matches Some(c) && c@
                        == code@),
            decreases self.applications.len() - i,
        {
            match &self.applications[i].code {
                Some(c) => {
                    if str_eq(c.as_str(), code) {
                        return Some(i);
                    }
                },
                None => {},
            }
            i = i + 1;
        }
        None
    }

    /// Position of the application with this id, if any.
    fn position_by_id(&self, id: i64) -> (r: Option<usize>)
        ensures
            match r {
                Some(i) => i < self.applications@.len() && self.applications@[i as int].id == id,
                None => !has_app_id(self.applications@, id as int),
            },
    {
        let mut i: usize = 0;
        while i < self.applications.len()
            invariant
                i <= self.applications@.len(),
                forall|j: int| 0 <= j < i ==> (#[trigger] self.applications@[j]).id != id,
            decreases self.applications.len() - i,
        {
            if self.applications[i].id == id {
                return Some(i);
            }
            i = i + 1;
        }
        None
    }

    /// Creates an application. Fails with `InvalidInput` on a blank code or
    /// an email without `@`, and with `AlreadyExists` on a duplicate code;
    /// failures leave the store untouched.
    pub fn create_application(&mut self, request: CreateApplicationRequest) -> (r: DomainResult<
        Application,
    >)
        requires
            old(self).inv(),
            old(self).next_id < i64::MAX,
        ensures
            final(self).inv(),
            (request.code matches Some(c) && blank(c@)) ==> (r matches Err(e) && e
                matches DomainError::InvalidInput { .. } && *final(self) == *old(self)),
            (request.code matches Some(c) && !blank(c@) && has_app_code(
                old(self).applications@,
                c@,
            )) ==> (r matches Err(e) && e matches DomainError::AlreadyExists { .. } && *final(self)
                == *old(self)),
            r matches Err(_) ==> *final(self) == *old(self),
            ((match request.code {
                Some(c) => !blank(c@) && !has_app_code(old(self).applications@, c@),
                None => true,
            }) && email_ok(crate::entities::view_opt(request.owner_email))) ==> (r matches Ok(a)
                && a.id == old(self).next_id && a.code == request.code && a.name == request.name
                && a.owner_team == request.owner_team && a.owner_email == request.owner_email
                && final(self).applications@ == old(self).applications@.push(a)
                && final(self).next_id == old(self).next_id + 1),
            ((match request.code {
                Some(c) => !blank(c@) && !has_app_code(old(self).applications@, c@),
                None => true,
            }) && !email_ok(crate::entities::view_opt(request.owner_email))) ==> (r matches Err(e)
                && e matches DomainError::InvalidInput { .. } && *final(self) == *old(self)),
    {
        if let Some(code) = &request.code {
            if is_blank(code.as_str()) {
                return Err(DomainError::invalid_input("Application code cannot be empty"));
            }
            if let Some(_i) = self.position_by_code(code.as_str()) {
                return Err(DomainError::already_exists("Application", "code", code.as_str()));
            }
        }
        if let Some(owner_email) = &request.owner_email {
            if !contains_at_sign(owner_email.as_str()) {
                return Err(DomainError::invalid_input("Invalid email format"));
            }
        }
        let mut a = Application::new(request);
        a.id = self.next_id;
        self.next_id = self.next_id + 1;
        let copy = a.duplicate();
        let ghost apps0 = self.applications@;
        self.applications.push(a);
        proof {
            assert forall|i: int, j: int|
                0 <= i < j < self.applications@.len() implies !((
            #[trigger] self.applications@[i]).code matches Some(c) && (
            #[trigger] self.applications@[j]).code matches Some(d) && c@ == d@) by {
                if j == apps0.len() {
                    match self.applications@[j].code {
                        Some(d) => {
                            assert(!has_app_code(apps0, d@));
                        },
                        None => {},
                    }
                }
            }
            assert forall|i: int|
                0 <= i < self.applications@.len() implies 1 <= (
            #[trigger] self.applications@[i]).id < self.next_id by {
                if i < apps0.len() {
                    assert(1 <= apps0[i].id < old(self).next_id);
                }
            }
            assert forall|i: int, j: int|
                0 <= i < j < self.applications@.len() implies (
            #[trigger] self.applications@[i]).id != (#[trigger] self.applications@[j]).id by {
                if j == apps0.len() {
                    assert(apps0[i].id < old(self).next_id);
                }
            }
        }
        Ok(copy)
    }

    /// The application with this id, or `NotFound`.
    pub fn get_application_by_id(&self, id: i64) -> (r: DomainResult<Application>)
        ensures
            match r {
                Ok(a) => a.id == id && has_app_id(self.applications@, id as int) && (exists|i: int|
                    0 <= i < self.applications@.len() && #[trigger] self.applications@[i] == a),
                Err(e) => !has_app_id(self.applications@, id as int) && e
                    matches DomainError::NotFound { .. },
            },
    {
        match self.position_by_id(id) {
            Some(i) => Ok(self.applications[i].duplicate()),
            None => Err(DomainError::not_found("Application", id)),
        }
    }

    /// The application with this code, if any. Never fails.
    pub fn get_application_by_code(&self, code: &str) -> (r: DomainResult<Option<Application>>)
        ensures
            match r {
                Ok(Some(a)) => a.code matches Some(c) && c@ == code@ && (exists|i: int|
                    0 <= i < self.applications@.len() && #[trigger] self.applications@[i] == a),
                Ok(None) => !has_app_code(self.applications@, code@),
                Err(_) => false,
            },
    {
        match self.position_by_code(code) {
            Some(i) => Ok(Some(self.applications[i].duplicate())),
            None => Ok(None),
        }
    }

    /// The applications owned by this email, in store order. Never fails.
    pub fn get_applications_by_owner(&self, owner_email: &str) -> (r: DomainResult<
        Vec<Application>,
    >)
        ensures
            match r {
                Ok(list) => list@ == apps_of_owner(self.applications@, owner_email@),
                Err(_) => false,
            },
    {
        let mut out: Vec<Application> = Vec::new();
        let mut i: usize = 0;
        proof {
            reveal(Seq::filter);
            let empty = self.applications@.subrange(0, 0);
            assert(empty =~= Seq::<Application>::empty());
            assert(out@ =~= apps_of_owner(empty, owner_email@));
        }
        while i < self.applications.len()
            invariant
                i <= self.applications@.len(),
                out@ == apps_of_owner(self.applications@.subrange(0, i as int), owner_email@),
            decreases self.applications.len() - i,
        {
            let ghost pre = self.applications@.subrange(0, i as int);
            let ghost x = self.applications@[i as int];
            let matches_owner = match &self.applications[i].owner_email {
                Some(e) => str_eq(e.as_str(), owner_email),
                None => false,
            };
            if matches_owner {
                out.push(self.applications[i].duplicate());
            }
            proof {
                reveal(Seq::filter);
                assert(self.applications@.subrange(0, i + 1) =~= pre.push(x));
                assert(pre.push(x).drop_last() =~= pre);
                assert(pre.push(x).last() == x);
                assert(out@ =~= apps_of_owner(pre.push(x), owner_email@));
            }
            i = i + 1;
        }
        proof {
            assert(self.applications@.subrange(0, self.applications@.len() as int)
                =~= self.applications@);
        }
        Ok(out)
    }

    /// One page of the application list, in store order. Never fails.
    pub fn list_applications(&self, pagination: PaginationParams) -> (r: DomainResult<
        (Vec<Application>, Pagination),
    >)
        ensures
            match r {
                Ok((page, pg)) => {
                    let total = self.applications@.len() as int;
                    let lo = if (pg.page - 1) * pg.size <= total {
                        (pg.page - 1) * pg.size
                    } else {
                        total
                    };
                    let hi = if (pg.page - 1) * pg.size + pg.size <= total {
                        (pg.page - 1) * pg.size + pg.size
                    } else {
                        total
                    };
                    &&& pg.page == spec_page(pagination.page)
                    &&& pg.size == spec_size(pagination.size)
                    &&& pg.total == total
                    &&& pg.total_pages == spec_total_pages(pg.total, pg.size)
                    &&& page@ == self.applications@.subrange(lo, hi)
                },
                Err(_) => false,
            },
    {
        let page = pagination.page();
        let size = pagination.size();
        let total = self.applications.len() as u64;
        let pg = Pagination::new(page, size, total);
        let offset = pg.offset();
        let len = self.applications.len();
        let lo: usize = if offset <= len as u64 {
            offset as usize
        } else {
            len
        };
        let hi: usize = if ((len - lo) as u64) <= size as u64 {
            len
        } else {
            lo + (size as usize)
        };
        let mut out: Vec<Application> = Vec::new();
        let mut i: usize = lo;
        while i < hi
            invariant
                lo <= i <= hi <= self.applications@.len(),
                out@ == self.applications@.subrange(lo as int, i as int),
            decreases hi - i,
        {
            out.push(self.applications[i].duplicate());
            i = i + 1;
            proof {
                assert(out@ =~= self.applications@.subrange(lo as int, i as int));
            }
        }
        proof {
            assert(out@ =~= self.applications@.subrange(lo as int, hi as int));
        }
        Ok((out, pg))
    }

    /// Updates the application with this id, overwriting exactly the fields
    /// present. Fails with `NotFound` on a missing id, `InvalidInput` on a
    /// blank code or a bad email, and `AlreadyExists` when the new code
    /// belongs to another application; failures leave the store untouched.
    pub fn update_application(&mut self, id: i64, request: UpdateApplicationRequest) -> (r:
        DomainResult<Application>)
        requires
            old(self).inv(),
        ensures
            final(self).inv(),
            final(self).next_id == old(self).next_id,
            !has_app_id(old(self).applications@, id as int) ==> (r matches Err(e) && e
                matches DomainError::NotFound { .. } && *final(self) == *old(self)),
            r matches Err(_) ==> *final(self) == *old(self),
            has_app_id(old(self).applications@, id as int) && (request.code matches Some(c)
                && blank(c@)) ==> (r matches Err(e) && e matches DomainError::InvalidInput { .. }),
            has_app_id(old(self).applications@, id as int) && (request.code matches Some(c)
                && !blank(c@) && (exists|j: int|
                0 <= j < old(self).applications@.len() && ((
                #[trigger] old(self).applications@[j]).code matches Some(d) && d@ == c@) && old(
                    self,
                ).applications@[j].id != id)) ==> (r matches Err(e) && e
                matches DomainError::AlreadyExists { .. }),
            has_app_id(old(self).applications@, id as int) && (match request.code {
                Some(c) => !blank(c@) && (forall|j: int|
                    0 <= j < old(self).applications@.len() ==> (((
                    #[trigger] old(self).applications@[j]).code matches Some(d) && d@ == c@)
                        ==> old(self).applications@[j].id == id)),
                None => true,
            }) && (request.owner_email matches Some(e) && !has_at_sign(e@)) ==> (r matches Err(
                err,
            ) && err matches DomainError::InvalidInput { .. }),
            has_app_id(old(self).applications@, id as int) && (match request.code {
                Some(c) => !blank(c@) && (forall|j: int|
                    0 <= j < old(self).applications@.len() ==> (((
                    #[trigger] old(self).applications@[j]).code matches Some(d) && d@ == c@)
                        ==> old(self).applications@[j].id == id)),
                None => true,
            }) && email_ok(crate::entities::view_opt(request.owner_email)) ==> r matches Ok(_),
            r matches Ok(a) ==> exists|i: int|
                {
                    &&& 0 <= i < old(self).applications@.len()
                    &&& (#[trigger] old(self).applications@[i]).id == id
                    &&& a.id == id
                    &&& a.code == (match request.code {
                        Some(c) => Some(c),
                        None => old(self).applications@[i].code,
                    })
                    &&& a.name == (match request.name {
                        Some(n) => Some(n),
                        None => old(self).applications@[i].name,
                    })
                    &&& a.owner_team == (match request.owner_team {
                        Some(t) => Some(t),
                        None => old(self).applications@[i].owner_team,
                    })
                    &&& a.owner_email == (match request.owner_email {
                        Some(e) => Some(e),
                        None => old(self).applications@[i].owner_email,
                    })
                    &&& final(self).applications@ == old(self).applications@.update(i, a)
                },
    {
        let idx = match self.position_by_id(id) {
            Some(i) => i,
            None => {
                return Err(DomainError::not_found("Application", id));
            },
        };
        if let Some(code) = &request.code {
            if is_blank(code.as_str()) {
                return Err(DomainError::invalid_input("Application code cannot be empty"));
            }
            match self.position_by_code(code.as_str()) {
                Some(j) => {
                    if self.applications[j].id != id {
                        return Err(
                            DomainError::already_exists("Application", "code", code.as_str()),
                        );
                    }
                },
                None => {},
            }
        }
        if let Some(owner_email) = &request.owner_email {
            if !contains_at_sign(owner_email.as_str()) {
                return Err(DomainError::invalid_input("Invalid email format"));
            }
        }
        let ghost apps0 = self.applications@;
        let mut entity = self.applications[idx].duplicate();
        entity.update(request);
        let copy = entity.duplicate();
        self.applications.remove(idx);
        self.applications.insert(idx, entity);
        proof {
            let i = idx as int;
            assert(self.applications@ =~= apps0.update(i, self.applications@[i]));
            assert forall|a: int, b: int|
                0 <= a < b < self.applications@.len() implies !((
            #[trigger] self.applications@[a]).code matches Some(c) && (
            #[trigger] self.applications@[b]).code matches Some(d) && c@ == d@) by {
                if a != i && b != i {
                    assert(!(apps0[a].code matches Some(c) && apps0[b].code matches Some(d) && c@
                        == d@));
                } else {
                    let other = if a == i { b } else { a };
                    assert(apps0[other] == self.applications@[other]);
                }
            }
        }
        Ok(copy)
    }

    /// Deletes the application with this id; `NotFound` when absent leaves
    /// the store untouched.
    pub fn delete_application(&mut self, id: i64) -> (r: DomainResult<()>)
        requires
            old(self).inv(),
        ensures
            final(self).inv(),
            final(self).next_id == old(self).next_id,
            !has_app_id(old(self).applications@, id as int) ==> (r matches Err(e) && e
                matches DomainError::NotFound { .. } && *final(self) == *old(self)),
            has_app_id(old(self).applications@, id as int) ==> r matches Ok(_),
            r matches Ok(_) ==> exists|i: int|
                {
                    &&& 0 <= i < old(self).applications@.len()
                    &&& (#[trigger] old(self).applications@[i]).id == id
                    &&& final(self).applications@ == old(self).applications@.remove(i)
                },
            r matches Err(_) ==> *final(self) == *old(self),
    {
        let idx = match self.position_by_id(id) {
            Some(i) => i,
            None => {
                return Err(DomainError::not_found("Application", id));
            },
        };
        let ghost apps0 = self.applications@;
        self.applications.remove(idx);
        proof {
            assert(self.applications@ =~= apps0.remove(idx as int));
        }
        Ok(())
    }
}

} // verus!
