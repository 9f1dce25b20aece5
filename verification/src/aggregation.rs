//! Grouped counting: the engine behind the dashboard rollups, resource
//! statistics and the tag popularity ranking.
//!
//! `group_sorted_desc` turns a list of labels into one entry per distinct
//! label, carrying exactly how often the label occurs, ordered by count
//! descending. The counts of the entries always sum to the number of
//! labels counted: the grouping partitions its population.

use vstd::prelude::*;
use vstd::multiset::Multiset;
use vstd::seq_lib::lemma_multiset_commutative;
use crate::text::str_eq;

verus! {

/// The mathematical value of a label list.
pub open spec fn label_views(labels: Seq<String>) -> Seq<Seq<char>> {
    labels.map_values(|s: String| s@)
}

/// The mathematical value of a count-entry list.
pub open spec fn entry_views(entries: Seq<(String, u64)>) -> Seq<(Seq<char>, u64)> {
    entries.map_values(|e: (String, u64)| (e.0@, e.1))
}

/// Whether some entry carries this key.
pub open spec fn contains_key(entries: Seq<(Seq<char>, u64)>, k: Seq<char>) -> bool {
    exists|t: int| 0 <= t < entries.len() && (#[trigger] entries[t]).0 == k
}

/// Correct grouped counts for a label population: every entry carries the
/// exact occurrence count of its label, entries never repeat a label,
/// every label of the population has its entry, and entries are ordered by
/// count descending.
pub open spec fn counts_ok(entries: Seq<(Seq<char>, u64)>, ls: Seq<Seq<char>>) -> bool {
    &&& forall|t: int|
        0 <= t < entries.len() ==> (#[trigger] entries[t]).1 == ls.to_multiset().count(
            entries[t].0,
        ) && entries[t].1 >= 1
    &&& forall|t: int, u: int|
        0 <= t < u < entries.len() ==> (#[trigger] entries[t]).0 != (#[trigger] entries[u]).0
    &&& forall|j: int| 0 <= j < ls.len() ==> contains_key(entries, #[trigger] ls[j])
    &&& forall|t: int, u: int|
        0 <= t < u < entries.len() ==> (#[trigger] entries[t]).1 >= (#[trigger] entries[u]).1
}

/// Two positions holding the same value push its multiset count to two.
pub proof fn lemma_two_indices_count<A>(s: Seq<A>, x: A, i: int, j: int)
    requires
        0 <= i < j < s.len(),
        s[i] == x,
        s[j] == x,
    ensures
        s.to_multiset().count(x) >= 2,
{
    broadcast use vstd::seq_lib::group_to_multiset_ensures;

    let s1 = s.remove(i);
    assert(s1.to_multiset() =~= s.to_multiset().remove(x));
    assert(s1[j - 1] == x);
    assert(s1.contains(x));
    assert(s1.to_multiset().count(x) > 0);
}

/// A multiset count of two yields two distinct positions with the value.
pub proof fn lemma_count_two_indices<A>(s: Seq<A>, x: A)
    requires
        s.to_multiset().count(x) >= 2,
    ensures
        exists|i: int, j: int| 0 <= i < j < s.len() && s[i] == x && s[j] == x,
    decreases s.len(),
{
    broadcast use vstd::seq_lib::group_to_multiset_ensures;

    assert(s.contains(x));
    let i = choose|i: int| 0 <= i < s.len() && s[i] == x;
    let s1 = s.remove(i);
    assert(s1.to_multiset() =~= s.to_multiset().remove(x));
    assert(s1.to_multiset().count(x) >= 1);
    assert(s1.contains(x));
    let k = choose|k: int| 0 <= k < s1.len() && s1[k] == x;
    if k < i {
        assert(s[k] == x);
    } else {
        assert(s[k + 1] == x);
    }
}

/// The sum of the counts of an entry list.
pub open spec fn sum_entries(entries: Seq<(Seq<char>, u64)>) -> int
    decreases entries.len(),
{
    if entries.len() == 0 {
        0
    } else {
        entries[0].1 + sum_entries(entries.drop_first())
    }
}

/// The sum over a key list of a multiset's counts.
spec fn sum_ms(keys: Seq<Seq<char>>, m: Multiset<Seq<char>>) -> int
    decreases keys.len(),
{
    if keys.len() == 0 {
        0
    } else {
        m.count(keys[0]) + sum_ms(keys.drop_first(), m)
    }
}

/// Inserting a value held by exactly one key raises the sum by one.
proof fn lemma_sum_ms_insert(keys: Seq<Seq<char>>, m: Multiset<Seq<char>>, x: Seq<char>)
    requires
        forall|t: int, u: int| 0 <= t < u < keys.len() ==> keys[t] != keys[u],
        exists|t: int| 0 <= t < keys.len() && keys[t] == x,
    ensures
        sum_ms(keys, m.insert(x)) == sum_ms(keys, m) + 1,
    decreases keys.len(),
{
    broadcast use vstd::multiset::group_multiset_axioms;

    if keys[0] == x {
        lemma_sum_ms_absent(keys.drop_first(), m, x);
    } else {
        assert(forall|t: int|
            1 <= t < keys.len() && keys[t] == x ==> keys.drop_first()[t - 1] == x);
        lemma_sum_ms_insert(keys.drop_first(), m, x);
    }
}

/// Inserting a value no key holds leaves the sum unchanged.
proof fn lemma_sum_ms_absent(keys: Seq<Seq<char>>, m: Multiset<Seq<char>>, x: Seq<char>)
    requires
        forall|t: int| 0 <= t < keys.len() ==> keys[t] != x,
    ensures
        sum_ms(keys, m.insert(x)) == sum_ms(keys, m),
    decreases keys.len(),
{
    broadcast use vstd::multiset::group_multiset_axioms;

    if keys.len() > 0 {
        lemma_sum_ms_absent(keys.drop_first(), m, x);
    }
}

/// Every key counts zero in the empty multiset.
proof fn lemma_sum_ms_empty(keys: Seq<Seq<char>>)
    ensures
        sum_ms(keys, Multiset::<Seq<char>>::empty()) == 0,
    decreases keys.len(),
{
    broadcast use vstd::multiset::group_multiset_axioms;

    if keys.len() > 0 {
        lemma_sum_ms_empty(keys.drop_first());
    }
}

/// With distinct keys covering every label, the counts sum to the number
/// of labels.
proof fn lemma_sum_ms_total(keys: Seq<Seq<char>>, ls: Seq<Seq<char>>)
    requires
        forall|t: int, u: int| 0 <= t < u < keys.len() ==> keys[t] != keys[u],
        forall|j: int|
            #![trigger ls[j]]
            0 <= j < ls.len() ==> exists|t: int|
                0 <= t < keys.len() && (#[trigger] keys[t]) == ls[j],
    ensures
        sum_ms(keys, ls.to_multiset()) == ls.len(),
    decreases ls.len(),
{
    broadcast use vstd::seq_lib::group_to_multiset_ensures;

    if ls.len() == 0 {
        assert(ls.to_multiset() =~= Multiset::<Seq<char>>::empty());
        lemma_sum_ms_empty(keys);
    } else {
        let prefix = ls.drop_last();
        let x = ls.last();
        assert(forall|j: int| 0 <= j < prefix.len() ==> prefix[j] == ls[j]);
        lemma_sum_ms_total(keys, prefix);
        assert(ls =~= prefix.push(x));
        assert(ls.to_multiset() =~= prefix.to_multiset().insert(x));
        assert(exists|t: int| 0 <= t < keys.len() && keys[t] == x) by {
            assert(ls[ls.len() - 1] == x);
        }
        lemma_sum_ms_insert(keys, prefix.to_multiset(), x);
    }
}

/// The entry sum equals the key-wise count sum when every entry carries
/// its exact count.
proof fn lemma_sum_entries_as_ms(entries: Seq<(Seq<char>, u64)>, m: Multiset<Seq<char>>)
    requires
        forall|t: int| 0 <= t < entries.len() ==> (#[trigger] entries[t]).1 == m.count(entries[t].0),
    ensures
        sum_entries(entries) == sum_ms(entries.map_values(|e: (Seq<char>, u64)| e.0), m),
    decreases entries.len(),
{
    if entries.len() > 0 {
        lemma_sum_entries_as_ms(entries.drop_first(), m);
        assert(entries.map_values(|e: (Seq<char>, u64)| e.0).drop_first()
            =~= entries.drop_first().map_values(|e: (Seq<char>, u64)| e.0));
    }
}

/// Grouped counts partition their population: the counts of a correct
/// entry list sum to the number of labels counted.
pub proof fn lemma_counts_sum_to_total(entries: Seq<(Seq<char>, u64)>, ls: Seq<Seq<char>>)
    requires
        counts_ok(entries, ls),
    ensures
        sum_entries(entries) == ls.len(),
{
    let keys = entries.map_values(|e: (Seq<char>, u64)| e.0);
    lemma_sum_entries_as_ms(entries, ls.to_multiset());
    assert(forall|t: int, u: int| 0 <= t < u < keys.len() ==> keys[t] != keys[u]);
    assert forall|j: int| #![trigger ls[j]] 0 <= j < ls.len() implies exists|t: int|
        0 <= t < keys.len() && (#[trigger] keys[t]) == ls[j] by {
        assert(contains_key(entries, ls[j]));
        let t = choose|t: int| 0 <= t < entries.len() && (#[trigger] entries[t]).0 == ls[j];
        assert(keys[t] == ls[j]);
    }
    lemma_sum_ms_total(keys, ls);
}

/// The share of a total, in hundredths of a percent, truncated; zero for
/// an empty total, so the division never runs dry.
pub open spec fn spec_percentage_scaled(count: int, total: int) -> int {
    if total > 0 {
        count * 10000 / total
    } else {
        0
    }
}

/// Computes a share of a total in hundredths of a percent, truncated.
pub fn percentage_scaled(count: u64, total: u64) -> (r: u64)
    requires
        count <= total,
    ensures
        r == spec_percentage_scaled(count as int, total as int),
        r <= 10000,
{
    if total == 0 {
        0
    } else {
        proof {
            let c = count as int;
            let t = total as int;
            vstd::arithmetic::div_mod::lemma_div_is_ordered(c * 10000, t * 10000, t);
            vstd::arithmetic::div_mod::lemma_div_multiples_vanish(10000, t);
        }
        ((count as u128) * 10000 / (total as u128)) as u64
    }
}

/// Integer division distributes over addition up to one unit.
proof fn lemma_div_add_bounds(a: int, b: int, t: int)
    requires
        a >= 0,
        b >= 0,
        t > 0,
    ensures
        a / t + b / t <= (a + b) / t,
        (a + b) / t <= a / t + b / t + 1,
{
    vstd::arithmetic::div_mod::lemma_fundamental_div_mod(a, t);
    vstd::arithmetic::div_mod::lemma_fundamental_div_mod(b, t);
    vstd::arithmetic::div_mod::lemma_mod_bound(a, t);
    vstd::arithmetic::div_mod::lemma_mod_bound(b, t);
    let q = a / t + b / t;
    let r = a % t + b % t;
    assert(a + b == q * t + r) by (nonlinear_arith)
        requires
            a == t * (a / t) + (a % t),
            b == t * (b / t) + (b % t),
            q == a / t + b / t,
            r == a % t + b % t,
    ;
    if r < t {
        vstd::arithmetic::div_mod::lemma_fundamental_div_mod_converse_div(a + b, t, q, r);
    } else {
        assert(a + b == (q + 1) * t + (r - t)) by (nonlinear_arith)
            requires
                a + b == q * t + r,
        ;
        vstd::arithmetic::div_mod::lemma_fundamental_div_mod_converse_div(a + b, t, q + 1, r - t);
    }
}

/// The scaled percentages of an entry list, summed.
pub open spec fn sum_scaled(entries: Seq<(Seq<char>, u64)>, total: int) -> int
    decreases entries.len(),
{
    if entries.len() == 0 {
        0
    } else {
        spec_percentage_scaled(entries[0].1 as int, total) + sum_scaled(
            entries.drop_first(),
            total,
        )
    }
}

/// Entry counts never sum below zero.
proof fn lemma_sum_entries_nonneg(entries: Seq<(Seq<char>, u64)>)
    ensures
        sum_entries(entries) >= 0,
    decreases entries.len(),
{
    if entries.len() > 0 {
        lemma_sum_entries_nonneg(entries.drop_first());
    }
}

/// The scaled sum sits within one rounding step per entry of the exact
/// quotient of the scaled count sum.
proof fn lemma_sum_scaled_bounds(entries: Seq<(Seq<char>, u64)>, t: int)
    requires
        t > 0,
    ensures
        sum_scaled(entries, t) <= (10000 * sum_entries(entries)) / t,
        sum_scaled(entries, t) >= (10000 * sum_entries(entries)) / t - entries.len(),
    decreases entries.len(),
{
    if entries.len() == 0 {
    } else {
        let rest = entries.drop_first();
        let c0 = entries[0].1 as int;
        lemma_sum_scaled_bounds(rest, t);
        lemma_sum_entries_nonneg(rest);
        lemma_div_add_bounds(c0 * 10000, 10000 * sum_entries(rest), t);
        assert(c0 * 10000 + 10000 * sum_entries(rest) == 10000 * sum_entries(entries));
    }
}

/// Scaled percentages of a grouped rollup nearly sum to the whole: over a
/// non-empty population the truncated shares land at most one rounding
/// step per entry below ten thousand (one hundred percent in hundredths),
/// and never above it.
pub proof fn lemma_percentages_sum_to_whole(entries: Seq<(Seq<char>, u64)>, ls: Seq<Seq<char>>)
    requires
        counts_ok(entries, ls),
        ls.len() > 0,
    ensures
        10000 - entries.len() <= sum_scaled(entries, ls.len() as int),
        sum_scaled(entries, ls.len() as int) <= 10000,
{
    let t = ls.len() as int;
    lemma_counts_sum_to_total(entries, ls);
    lemma_sum_scaled_bounds(entries, t);
    vstd::arithmetic::div_mod::lemma_div_multiples_vanish(10000, t);
    assert(10000 * sum_entries(entries) == t * 10000);
    assert(entries.len() <= ls.len()) by {
        if entries.len() > ls.len() {
            lemma_entries_at_most_labels(entries, ls);
        }
    }
}

/// A correct entry list cannot hold more entries than labels: each entry
/// counts at least one label, and the counts sum to the label count.
proof fn lemma_entries_at_most_labels(entries: Seq<(Seq<char>, u64)>, ls: Seq<Seq<char>>)
    requires
        counts_ok(entries, ls),
    ensures
        entries.len() <= ls.len(),
{
    lemma_counts_sum_to_total(entries, ls);
    lemma_sum_entries_at_least_len(entries);
}

/// With every count at least one, the sum is at least the entry count.
proof fn lemma_sum_entries_at_least_len(entries: Seq<(Seq<char>, u64)>)
    requires
        forall|t: int| 0 <= t < entries.len() ==> (#[trigger] entries[t]).1 >= 1,
    ensures
        sum_entries(entries) >= entries.len(),
    decreases entries.len(),
{
    if entries.len() > 0 {
        assert(forall|t: int|
            0 <= t < entries.drop_first().len() ==> (#[trigger] entries.drop_first()[t]).1 >= 1);
        lemma_sum_entries_at_least_len(entries.drop_first());
    }
}

/// Groups labels into one entry per distinct label, in first-occurrence
/// order, each carrying its exact occurrence count.
fn group_counts(labels: &Vec<String>) -> (out: Vec<(String, u64)>)
    ensures
        forall|t: int|
            0 <= t < entry_views(out@).len() ==> (#[trigger] entry_views(out@)[t]).1
                == label_views(labels@).to_multiset().count(entry_views(out@)[t].0)
                && entry_views(out@)[t].1 >= 1,
        forall|t: int, u: int|
            0 <= t < u < entry_views(out@).len() ==> (#[trigger] entry_views(out@)[t]).0 != (
            #[trigger] entry_views(out@)[u]).0,
        forall|j: int|
            0 <= j < label_views(labels@).len() ==> contains_key(
                entry_views(out@),
                #[trigger] label_views(labels@)[j],
            ),
{
    broadcast use vstd::seq_lib::group_to_multiset_ensures;
    broadcast use vstd::multiset::group_multiset_axioms;

    let ghost all = label_views(labels@);
    let mut out: Vec<(String, u64)> = Vec::new();
    let mut j: usize = 0;
    proof {
        assert(label_views(labels@.subrange(0, 0)) =~= Seq::<Seq<char>>::empty());
        assert(label_views(labels@.subrange(0, 0)).to_multiset() =~= Seq::<
            Seq<char>,
        >::empty().to_multiset());
    }
    while j < labels.len()
        invariant
            j <= labels@.len(),
            forall|t: int|
                0 <= t < entry_views(out@).len() ==> (#[trigger] entry_views(out@)[t]).1
                    == label_views(labels@.subrange(0, j as int)).to_multiset().count(
                    entry_views(out@)[t].0,
                ) && 1 <= entry_views(out@)[t].1 <= j,
            forall|t: int, u: int|
                0 <= t < u < entry_views(out@).len() ==> (#[trigger] entry_views(out@)[t]).0 != (
                #[trigger] entry_views(out@)[u]).0,
            forall|p: int|
                0 <= p < j ==> contains_key(entry_views(out@), #[trigger] label_views(labels@)[p]),
        decreases labels.len() - j,
    {
        let ghost pre = label_views(labels@.subrange(0, j as int));
        let ghost lx = labels@[j as int]@;
        let ghost out_before = out@;
        let mut t: usize = 0;
        let mut found = false;
        while t < out.len() && !found
            invariant
                t <= out@.len(),
                !found ==> forall|u: int|
                    0 <= u < t ==> (#[trigger] entry_views(out@)[u]).0 != labels@[j as int]@,
                found ==> t < out@.len() && entry_views(out@)[t as int].0 == labels@[j as int]@,
                out@ == out_before,
                j < labels@.len(),
            decreases out@.len() - t + (if found { 0int } else { 1int }),
        {
            if str_eq(out[t].0.as_str(), labels[j].as_str()) {
                found = true;
            } else {
                t = t + 1;
            }
        }
        proof {
            broadcast use vstd::seq_lib::group_to_multiset_ensures;
            broadcast use vstd::multiset::group_multiset_axioms;

            assert(label_views(labels@.subrange(0, j + 1)) =~= pre.push(lx));
            vstd::seq_lib::to_multiset_build(pre, lx);
            assert(label_views(labels@)[j as int] == lx);
            assert(forall|p: int|
                0 <= p < pre.len() ==> pre[p] == label_views(labels@)[p]);
        }
        if found {
            let entry = out.remove(t);
            let newc = entry.1 + 1;
            out.insert(t, (entry.0, newc));
            proof {
                broadcast use vstd::seq_lib::group_to_multiset_ensures;
                broadcast use vstd::multiset::group_multiset_axioms;

                let ov0 = entry_views(out_before);
                let ov1 = entry_views(out@);
                assert(ov1 =~= ov0.update(t as int, (ov0[t as int].0, newc)));
                assert(forall|u: int| 0 <= u < ov1.len() ==> (#[trigger] ov1[u]).0 == ov0[u].0);
                assert(ov1[t as int].0 == lx);
                assert forall|u: int|
                    0 <= u < ov1.len() implies (#[trigger] ov1[u]).1 == pre.push(
                    lx,
                ).to_multiset().count(ov1[u].0) && 1 <= ov1[u].1 <= j + 1 by {
                    if u == t {
                        assert(ov0[t as int].1 == pre.to_multiset().count(lx));
                    } else {
                        assert(ov1[u] == ov0[u]);
                        assert(ov0[u].0 != lx) by {
                            if u < t {
                            } else {
                                assert(ov0[t as int].0 == lx);
                            }
                        }
                        assert(pre.to_multiset().insert(lx).count(ov0[u].0) == pre.to_multiset().count(
                            ov0[u].0,
                        ));
                    }
                }
                assert forall|p: int|
                    0 <= p < j + 1 implies contains_key(
                    ov1,
                    #[trigger] label_views(labels@)[p],
                ) by {
                    if p < j {
                        assert(contains_key(ov0, label_views(labels@)[p]));
                        let u = choose|u: int|
                            0 <= u < ov0.len() && (#[trigger] ov0[u]).0 == label_views(labels@)[p];
                        assert(ov1[u].0 == label_views(labels@)[p]);
                    } else {
                        assert(ov1[t as int].0 == label_views(labels@)[p]);
                    }
                }
            }
        } else {
            out.push((labels[j].clone(), 1));
            proof {
                broadcast use vstd::seq_lib::group_to_multiset_ensures;
                broadcast use vstd::multiset::group_multiset_axioms;

                let ov0 = entry_views(out_before);
                let ov1 = entry_views(out@);
                assert(ov1 =~= ov0.push((lx, 1u64)));
                assert(forall|u: int| 0 <= u < ov0.len() ==> (#[trigger] ov1[u]) == ov0[u]);
                assert(ov1[ov0.len() as int].0 == lx);
                assert(pre.to_multiset().count(lx) == 0) by {
                    if pre.to_multiset().count(lx) > 0 {
                        assert(pre.contains(lx));
                        let p = choose|p: int| 0 <= p < pre.len() && pre[p] == lx;
                        assert(label_views(labels@)[p] == lx);
                        assert(contains_key(ov0, label_views(labels@)[p]));
                        let u = choose|u: int|
                            0 <= u < ov0.len() && (#[trigger] ov0[u]).0 == label_views(labels@)[p];
                        assert(ov0[u].0 != lx);
                    }
                }
                assert forall|u: int|
                    0 <= u < ov1.len() implies (#[trigger] ov1[u]).1 == pre.push(
                    lx,
                ).to_multiset().count(ov1[u].0) && 1 <= ov1[u].1 <= j + 1 by {
                    if u < ov0.len() {
                        assert(ov0[u].0 != lx);
                        assert(pre.to_multiset().insert(lx).count(ov0[u].0) == pre.to_multiset().count(
                            ov0[u].0,
                        ));
                    } else {
                        assert(ov1[u] == (lx, 1u64));
                        assert(pre.to_multiset().insert(lx).count(lx) == pre.to_multiset().count(lx)
                            + 1);
                    }
                }
                assert forall|a: int, b: int|
                    0 <= a < b < ov1.len() implies (#[trigger] ov1[a]).0 != (
                #[trigger] ov1[b]).0 by {
                    if b == ov0.len() {
                        assert(ov0[a].0 != lx);
                    }
                }
                assert forall|p: int|
                    0 <= p < j + 1 implies contains_key(
                    ov1,
                    #[trigger] label_views(labels@)[p],
                ) by {
                    if p < j {
                        assert(contains_key(ov0, label_views(labels@)[p]));
                        let u = choose|u: int|
                            0 <= u < ov0.len() && (#[trigger] ov0[u]).0 == label_views(labels@)[p];
                        assert(ov1[u].0 == label_views(labels@)[p]);
                    } else {
                        assert(ov1[ov0.len() as int].0 == label_views(labels@)[p]);
                    }
                }
            }
        }
        j = j + 1;
    }
    proof {
        assert(labels@.subrange(0, labels@.len() as int) =~= labels@);
        assert(label_views(labels@).len() == labels@.len());
    }
    out
}

/// Sorts count entries by count, descending; the entries are preserved as
/// a multiset.
fn sort_entries_desc(input: Vec<(String, u64)>) -> (out: Vec<(String, u64)>)
    ensures
        entry_views(out@).to_multiset() == entry_views(input@).to_multiset(),
        forall|t: int, u: int|
            0 <= t < u < entry_views(out@).len() ==> (#[trigger] entry_views(out@)[t]).1 >= (
            #[trigger] entry_views(out@)[u]).1,
        out@.len() == input@.len(),
{
    broadcast use vstd::seq_lib::group_to_multiset_ensures;

    let mut src = input;
    let mut out: Vec<(String, u64)> = Vec::new();
    proof {
        assert(entry_views(out@) =~= Seq::<(Seq<char>, u64)>::empty());
        assert(entry_views(out@).to_multiset().add(entry_views(src@).to_multiset())
            =~= entry_views(src@).to_multiset());
    }
    while src.len() > 0
        invariant
            entry_views(out@).to_multiset().add(entry_views(src@).to_multiset()) == entry_views(
                input@,
            ).to_multiset(),
            forall|t: int, u: int|
                0 <= t < u < entry_views(out@).len() ==> (#[trigger] entry_views(out@)[t]).1 >= (
                #[trigger] entry_views(out@)[u]).1,
            out@.len() + src@.len() == input@.len(),
        decreases src@.len(),
    {
        let ghost src0 = src@;
        let ghost out0 = out@;
        let x = src.pop().unwrap();
        proof {
            assert(entry_views(src0) =~= entry_views(src@).push((x.0@, x.1)));
            vstd::seq_lib::to_multiset_build(entry_views(src@), (x.0@, x.1));
            assert(entry_views(src0).to_multiset() == entry_views(src@).to_multiset().insert(
                (x.0@, x.1),
            ));
        }
        let mut k: usize = 0;
        let mut scanning = true;
        while scanning
            invariant
                k <= out@.len(),
                out@ == out0,
                forall|t: int| 0 <= t < k ==> (#[trigger] entry_views(out@)[t]).1 >= x.1,
                !scanning ==> (k == out@.len() || !(entry_views(out@)[k as int].1 >= x.1)),
            decreases out@.len() - k, (if scanning { 1int } else { 0int }),
        {
            if k == out.len() {
                scanning = false;
            } else if !(out[k].1 >= x.1) {
                scanning = false;
            } else {
                k = k + 1;
            }
        }
        let ghost xv = (x.0@, x.1);
        out.insert(k, x);
        proof {
            let m0 = entry_views(out0);
            let m1 = entry_views(out@);
            assert(m1 =~= m0.insert(k as int, xv));
            m0.insert_ensures(k as int, xv);
            assert forall|t: int, u: int|
                0 <= t < u < m1.len() implies (#[trigger] m1[t]).1 >= (#[trigger] m1[u]).1 by {
                if u < k {
                } else if u == k {
                    assert(m1[t] == m0[t] && m0[t].1 >= xv.1);
                } else if t < k {
                    assert(m1[u] == m0[u - 1]);
                } else if t == k {
                    if k < m0.len() {
                        assert(m1[u] == m0[u - 1]);
                        if u - 1 == k {
                            assert(m0[k as int].1 < xv.1);
                        } else {
                            assert(m0[k as int].1 >= m0[u - 1].1);
                            assert(m0[k as int].1 < xv.1);
                        }
                    }
                } else {
                    assert(m1[t] == m0[t - 1] && m1[u] == m0[u - 1]);
                }
            }
            assert(m1.to_multiset() == m0.to_multiset().insert(xv)) by {
                assert(m0 =~= m0.subrange(0, k as int) + m0.subrange(k as int, m0.len() as int));
                lemma_multiset_commutative(
                    m0.subrange(0, k as int),
                    m0.subrange(k as int, m0.len() as int),
                );
                assert(m1 =~= (m0.subrange(0, k as int).push(xv)) + m0.subrange(
                    k as int,
                    m0.len() as int,
                ));
                lemma_multiset_commutative(
                    m0.subrange(0, k as int).push(xv),
                    m0.subrange(k as int, m0.len() as int),
                );
                vstd::seq_lib::to_multiset_build(m0.subrange(0, k as int), xv);
                assert(m1.to_multiset() =~= m0.to_multiset().insert(xv));
            }
            assert(entry_views(out@).to_multiset().add(entry_views(src@).to_multiset())
                =~= entry_views(input@).to_multiset());
        }
    }
    out
}

/// Groups labels and orders the result by count descending: one entry per
/// distinct label with its exact occurrence count, every label
/// represented, no label repeated.
pub fn group_sorted_desc(labels: &Vec<String>) -> (out: Vec<(String, u64)>)
    ensures
        counts_ok(entry_views(out@), label_views(labels@)),
{
    broadcast use vstd::seq_lib::group_to_multiset_ensures;

    let grouped = group_counts(labels);
    let ghost g = entry_views(grouped@);
    let out = sort_entries_desc(grouped);
    proof {
        broadcast use vstd::seq_lib::group_to_multiset_ensures;
        broadcast use vstd::multiset::group_multiset_axioms;

        let o = entry_views(out@);
        let ls = label_views(labels@);
        assert forall|t: int|
            0 <= t < o.len() implies (#[trigger] o[t]).1 == ls.to_multiset().count(o[t].0)
            && o[t].1 >= 1 by {
            assert(o.contains(o[t]));
            assert(o.to_multiset().count(o[t]) > 0);
            assert(g.to_multiset().count(o[t]) > 0);
            assert(g.contains(o[t]));
            let u = choose|u: int| 0 <= u < g.len() && g[u] == o[t];
            assert(g[u].1 == ls.to_multiset().count(g[u].0));
        }
        assert forall|t: int, u: int|
            0 <= t < u < o.len() implies (#[trigger] o[t]).0 != (#[trigger] o[u]).0 by {
            if o[t].0 == o[u].0 {
                assert(o[t].1 == ls.to_multiset().count(o[t].0)) by {
                    assert(o.contains(o[t]));
                    assert(g.to_multiset().count(o[t]) > 0);
                    assert(g.contains(o[t]));
                    let w = choose|w: int| 0 <= w < g.len() && g[w] == o[t];
                    assert(g[w].1 == ls.to_multiset().count(g[w].0));
                }
                assert(o[u].1 == ls.to_multiset().count(o[u].0)) by {
                    assert(o.contains(o[u]));
                    assert(g.to_multiset().count(o[u]) > 0);
                    assert(g.contains(o[u]));
                    let w = choose|w: int| 0 <= w < g.len() && g[w] == o[u];
                    assert(g[w].1 == ls.to_multiset().count(g[w].0));
                }
                assert(o[t] == o[u]);
                lemma_two_indices_count(o, o[t], t, u);
                assert(g.to_multiset().count(o[t]) >= 2);
                lemma_count_two_indices(g, o[t]);
                let (a, b) = choose|a: int, b: int|
                    0 <= a < b < g.len() && g[a] == o[t] && g[b] == o[t];
                assert(g[a].0 == g[b].0);
                assert(false);
            }
        }
        assert forall|p: int| 0 <= p < ls.len() implies contains_key(o, #[trigger] ls[p]) by {
            assert(contains_key(g, ls[p]));
            let w = choose|w: int| 0 <= w < g.len() && (#[trigger] g[w]).0 == ls[p];
            assert(g.contains(g[w]));
            assert(g.to_multiset().count(g[w]) > 0);
            assert(o.to_multiset().count(g[w]) > 0);
            assert(o.contains(g[w]));
            let t = choose|t: int| 0 <= t < o.len() && o[t] == g[w];
            assert(o[t].0 == ls[p]);
        }
    }
    out
}

} // verus!
