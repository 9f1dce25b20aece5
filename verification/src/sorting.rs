//! The ordering a query imposes on its results, and a verified sort.
//!
//! When a search term is present, results are first bucketed by relevance
//! (exact name match, prefix, substring, rest) and the requested field order
//! applies within a bucket. The sort field falls back to creation time for
//! unrecognized names, matching the store's own interpretation.

use vstd::prelude::*;
use vstd::seq_lib::lemma_multiset_commutative;
use crate::entities::{Resource, ResourceModel};
use crate::matching::{relevance_bucket, relevance_bucket_exec};
use crate::text::{lex_le, lex_le_chars, lemma_lex_total, lemma_lex_trans, chars_vec};

verus! {

/// The field a query orders by.
#[derive(Debug, Clone, Copy, PartialEq, Eq, Structural)]
pub enum SortField {
    Name,
    Location,
    ResourceType,
    CreatedAt,
    UpdatedAt,
    Id,
}

/// Field comparison, ascending.
pub open spec fn key_le(field: SortField, a: ResourceModel, b: ResourceModel) -> bool {
    match field {
        SortField::Name => lex_le(a.name, b.name),
        SortField::Location => lex_le(a.location, b.location),
        SortField::ResourceType => lex_le(a.resource_type, b.resource_type),
        SortField::CreatedAt => a.created_at <= b.created_at,
        SortField::UpdatedAt => a.updated_at <= b.updated_at,
        SortField::Id => a.id <= b.id,
    }
}

/// The mathematical value of an ordering: the folded search term that
/// drives relevance bucketing, the field, and the direction.
#[verifier::ext_equal]
pub ghost struct OrderSpec {
    pub term_lower: Option<Seq<char>>,
    pub field: SortField,
    pub ascending: bool,
}

/// An ordering as the store executes it.
#[derive(Debug)]
pub struct OrderPlan {
    /// The search term, already case-folded, when the query searches.
    pub term_lower: Option<Vec<char>>,
    pub field: SortField,
    pub ascending: bool,
}

impl View for OrderPlan {
    type V = OrderSpec;

    open spec fn view(&self) -> OrderSpec {
        OrderSpec {
            term_lower: match self.term_lower {
                Some(t) => Some(t@),
                None => None,
            },
            field: self.field,
            ascending: self.ascending,
        }
    }
}

/// The relevance bucket of a resource under an ordering; 0 when the query
/// has no search term, so bucketing is inert.
pub open spec fn bucket_val(o: OrderSpec, a: ResourceModel) -> int {
    match o.term_lower {
        Some(t) => relevance_bucket(a.name, t),
        None => 0,
    }
}

/// The complete order a query imposes: relevance bucket first, then the
/// requested field in the requested direction.
pub open spec fn res_le(o: OrderSpec, a: ResourceModel, b: ResourceModel) -> bool {
    let ba = bucket_val(o, a);
    let bb = bucket_val(o, b);
    if ba != bb {
        ba < bb
    } else if o.ascending {
        key_le(o.field, a, b)
    } else {
        key_le(o.field, b, a)
    }
}

/// A sequence ordered pairwise by the query order.
pub open spec fn ordered_by(o: OrderSpec, s: Seq<ResourceModel>) -> bool {
    forall|i: int, j: int| 0 <= i < j < s.len() ==> res_le(o, s[i], s[j])
}

/// Any two resources are comparable under a field.
proof fn lemma_key_le_total(field: SortField, a: ResourceModel, b: ResourceModel)
    ensures
        key_le(field, a, b) || key_le(field, b, a),
{
    match field {
        SortField::Name => lemma_lex_total(a.name, b.name),
        SortField::Location => lemma_lex_total(a.location, b.location),
        SortField::ResourceType => lemma_lex_total(a.resource_type, b.resource_type),
        _ => {},
    }
}

/// Field comparison is transitive.
proof fn lemma_key_le_trans(field: SortField, a: ResourceModel, b: ResourceModel, c: ResourceModel)
    requires
        key_le(field, a, b),
        key_le(field, b, c),
    ensures
        key_le(field, a, c),
{
    match field {
        SortField::Name => lemma_lex_trans(a.name, b.name, c.name),
        SortField::Location => lemma_lex_trans(a.location, b.location, c.location),
        SortField::ResourceType => lemma_lex_trans(a.resource_type, b.resource_type, c.resource_type),
        _ => {},
    }
}

/// Any two resources are comparable under a query order.
pub proof fn lemma_res_le_total(o: OrderSpec, a: ResourceModel, b: ResourceModel)
    ensures
        res_le(o, a, b) || res_le(o, b, a),
{
    if bucket_val(o, a) == bucket_val(o, b) {
        lemma_key_le_total(o.field, a, b);
    }
}

/// The query order is transitive.
pub proof fn lemma_res_le_trans(o: OrderSpec, a: ResourceModel, b: ResourceModel, c: ResourceModel)
    requires
        res_le(o, a, b),
        res_le(o, b, c),
    ensures
        res_le(o, a, c),
{
    if bucket_val(o, a) == bucket_val(o, b) && bucket_val(o, b) == bucket_val(o, c) {
        if o.ascending {
            lemma_key_le_trans(o.field, a, b, c);
        } else {
            lemma_key_le_trans(o.field, c, b, a);
        }
    }
}

/// Compares two resources under the field order.
fn key_le_exec(field: SortField, a: &Resource, b: &Resource) -> (r: bool)
    ensures
        r == key_le(field, a@, b@),
{
    match field {
        SortField::Name => {
            let ac = chars_vec(a.name.as_str());
            let bc = chars_vec(b.name.as_str());
            lex_le_chars(&ac, &bc)
        },
        SortField::Location => {
            let ac = chars_vec(a.location.as_str());
            let bc = chars_vec(b.location.as_str());
            lex_le_chars(&ac, &bc)
        },
        SortField::ResourceType => {
            let ac = chars_vec(a.resource_type.as_str());
            let bc = chars_vec(b.resource_type.as_str());
            lex_le_chars(&ac, &bc)
        },
        SortField::CreatedAt => a.created_at <= b.created_at,
        SortField::UpdatedAt => a.updated_at <= b.updated_at,
        SortField::Id => a.id <= b.id,
    }
}

/// Compares two resources under the complete query order.
pub fn res_le_exec(plan: &OrderPlan, a: &Resource, b: &Resource) -> (r: bool)
    ensures
        r == res_le(plan@, a@, b@),
{
    let ba: u8 = match &plan.term_lower {
        Some(t) => relevance_bucket_exec(a.name.as_str(), t),
        None => 0,
    };
    let bb: u8 = match &plan.term_lower {
        Some(t) => relevance_bucket_exec(b.name.as_str(), t),
        None => 0,
    };
    if ba != bb {
        ba < bb
    } else if plan.ascending {
        key_le_exec(plan.field, a, b)
    } else {
        key_le_exec(plan.field, b, a)
    }
}

/// A contiguous slice of an ordered sequence is ordered.
pub proof fn lemma_ordered_subrange(o: OrderSpec, s: Seq<ResourceModel>, lo: int, hi: int)
    requires
        ordered_by(o, s),
        0 <= lo <= hi <= s.len(),
    ensures
        ordered_by(o, s.subrange(lo, hi)),
{
    assert forall|i: int, j: int|
        0 <= i < j < s.subrange(lo, hi).len() implies res_le(
        o,
        s.subrange(lo, hi)[i],
        s.subrange(lo, hi)[j],
    ) by {
        assert(s.subrange(lo, hi)[i] == s[lo + i]);
        assert(s.subrange(lo, hi)[j] == s[lo + j]);
    }
}

/// In an ordered sequence, relevance buckets never decrease: exact name
/// matches come before prefix matches, prefix matches before substring
/// matches, and those before the rest.
pub proof fn lemma_relevance_order(o: OrderSpec, s: Seq<ResourceModel>)
    requires
        ordered_by(o, s),
    ensures
        forall|i: int, j: int|
            0 <= i < j < s.len() ==> bucket_val(o, s[i]) <= bucket_val(o, s[j]),
{
    assert forall|i: int, j: int|
        0 <= i < j < s.len() implies bucket_val(o, s[i]) <= bucket_val(o, s[j]) by {
        assert(res_le(o, s[i], s[j]));
    }
}

/// The mathematical values of a resource list.
pub open spec fn models(s: Seq<Resource>) -> Seq<ResourceModel> {
    s.map_values(|r: Resource| r@)
}

/// Sorts resources by the query order: the result holds the same values,
/// pairwise ordered.
#[verifier::loop_isolation(false)]
pub fn sort_resources(plan: &OrderPlan, input: Vec<Resource>) -> (out: Vec<Resource>)
    ensures
        models(out@).to_multiset() == models(input@).to_multiset(),
        ordered_by(plan@, models(out@)),
        out@.len() == input@.len(),
{
    broadcast use vstd::seq_lib::group_to_multiset_ensures;

    let mut src = input;
    let mut out: Vec<Resource> = Vec::new();
    proof {
        assert(models(out@) =~= Seq::<ResourceModel>::empty());
        assert(models(out@).to_multiset().add(models(src@).to_multiset()) =~= models(
            src@,
        ).to_multiset());
    }
    while src.len() > 0
        invariant
            models(out@).to_multiset().add(models(src@).to_multiset()) == models(
                input@,
            ).to_multiset(),
            ordered_by(plan@, models(out@)),
            out@.len() + src@.len() == input@.len(),
        decreases src@.len(),
    {
        let ghost src0 = src@;
        let ghost out0 = out@;
        let x = src.pop().unwrap();
        proof {
            assert(models(src0) =~= models(src@).push(x@));
            assert(models(src0).to_multiset() == models(src@).to_multiset().insert(x@));
        }
        let mut k: usize = 0;
        let mut scanning = true;
        while scanning
            invariant
                k <= out@.len(),
                forall|t: int| 0 <= t < k ==> res_le(plan@, models(out@)[t], x@),
                !scanning ==> (k == out@.len() || !res_le(plan@, models(out@)[k as int], x@)),
            decreases out@.len() - k, (if scanning { 1int } else { 0int }),
        {
            if k == out.len() {
                scanning = false;
            } else if !res_le_exec(plan, &out[k], &x) {
                scanning = false;
            } else {
                k = k + 1;
            }
        }
        out.insert(k, x);
        proof {
            let o = plan@;
            let m0 = models(out0);
            let m1 = models(out@);
            assert(m1 =~= m0.insert(k as int, x@));
            m0.insert_ensures(k as int, x@);
            if k < m0.len() {
                lemma_res_le_total(o, m0[k as int], x@);
            }
            assert(ordered_by(o, m1)) by {
                assert forall|i: int, j: int| 0 <= i < j < m1.len() implies res_le(
                    o,
                    m1[i],
                    m1[j],
                ) by {
                    if j < k {
                        assert(res_le(o, m0[i], m0[j]));
                    } else if j == k {
                        assert(res_le(o, m0[i], x@));
                    } else if i < k {
                        assert(res_le(o, m0[i], m0[j - 1]));
                    } else if i == k {
                        if j - 1 == k {
                            assert(res_le(o, x@, m0[k as int]));
                        } else {
                            lemma_res_le_trans(o, x@, m0[k as int], m0[j - 1]);
                        }
                    } else {
                        assert(res_le(o, m0[i - 1], m0[j - 1]));
                    }
                }
            }
            assert(m1.to_multiset() == m0.to_multiset().insert(x@)) by {
                assert(m0 =~= m0.subrange(0, k as int) + m0.subrange(k as int, m0.len() as int));
                lemma_multiset_commutative(
                    m0.subrange(0, k as int),
                    m0.subrange(k as int, m0.len() as int),
                );
                assert(m1 =~= (m0.subrange(0, k as int).push(x@)) + m0.subrange(
                    k as int,
                    m0.len() as int,
                ));
                lemma_multiset_commutative(
                    m0.subrange(0, k as int).push(x@),
                    m0.subrange(k as int, m0.len() as int),
                );
                assert(m0.subrange(0, k as int).push(x@).to_multiset() == m0.subrange(
                    0,
                    k as int,
                ).to_multiset().insert(x@));
                assert(m1.to_multiset() =~= m0.to_multiset().insert(x@));
            }
            assert(models(out@).to_multiset().add(models(src@).to_multiset()) =~= models(
                input@,
            ).to_multiset());
        }
    }
    out
}

} // verus!
