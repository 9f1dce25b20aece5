//! The tag index: a key-to-values map over every resource's tag map, a
//! popularity ranking of `key:value` pairs, and substring-based suggestion
//! queries.
//!
//! Both operations scan the full resource set on every call; there is no
//! persistent cache, which is acceptable only while the catalog stays
//! modest. Pairs are keyed by their `key:value` display text, exactly as
//! they are deduplicated and ranked.

use vstd::prelude::*;
use crate::aggregation::{counts_ok, entry_views, group_sorted_desc, label_views};
use crate::entities::{Resource, ResourceModel, TagModel};
use crate::errors::DomainResult;
use crate::resource_use_cases::ResourceUseCases;
use crate::sorting::models;
use crate::text::{
    chars_range, chars_vec, concat_str, find_char_from, first_sep_at, lemma_first_sep_at,
    string_from_chars,
};

verus! {

/// The display text of a tag: its key and value joined by a colon.
pub open spec fn tag_display(t: TagModel) -> Seq<char> {
    t.key + ":"@ + t.value
}

/// The displays of one resource's tags, in order.
pub open spec fn res_displays(m: ResourceModel) -> Seq<Seq<char>> {
    m.tags.map_values(|t: TagModel| tag_display(t))
}

/// The displays of every tag of every resource, in store order.
pub open spec fn all_tag_displays(ms: Seq<ResourceModel>) -> Seq<Seq<char>>
    decreases ms.len(),
{
    if ms.len() == 0 {
        Seq::empty()
    } else {
        all_tag_displays(ms.drop_last()) + res_displays(ms.last())
    }
}

/// The key half of a display: everything before the first colon, or the
/// whole text when it has none.
pub open spec fn split_key(s: Seq<char>) -> Seq<char> {
    s.subrange(0, first_sep_at(s, ':') as int)
}

/// The value half of a display: everything after the first colon, or
/// empty when it has none.
pub open spec fn split_value(s: Seq<char>) -> Seq<char> {
    if first_sep_at(s, ':') < s.len() {
        s.subrange(first_sep_at(s, ':') as int + 1, s.len() as int)
    } else {
        Seq::empty()
    }
}

/// Splits a display back into its key and value halves.
fn split_display(s: &str) -> (r: (String, String))
    ensures
        r.0@ == split_key(s@),
        r.1@ == split_value(s@),
{
    let cs = chars_vec(s);
    proof {
        lemma_first_sep_at(s@, ':');
    }
    match find_char_from(&cs, 0, ':') {
        Some(i) => {
            proof {
                let f = first_sep_at(s@, ':') as int;
                assert(f == i) by {
                    if f < i {
                        assert(s@[f] != ':');
                    }
                    if i < f {
                        assert(s@[i as int] != ':');
                    }
                }
            }
            let n = cs.len();
            let key = chars_range(&cs, 0, i);
            let value = chars_range(&cs, i + 1, n);
            (string_from_chars(&key), string_from_chars(&value))
        },
        None => {
            proof {
                let f = first_sep_at(s@, ':') as int;
                assert(f == s@.len()) by {
                    if f < s@.len() {
                        assert(s@[f] != ':');
                    }
                }
                assert(s@.subrange(0, f) =~= s@);
            }
            let key = s.to_owned();
            (key, String::new())
        },
    }
}

/// The display of every tag of every resource, in store order.
fn collect_tag_displays(resources: &Vec<Resource>) -> (out: Vec<String>)
    ensures
        label_views(out@) == all_tag_displays(models(resources@)),
{
    let mut out: Vec<String> = Vec::new();
    let mut i: usize = 0;
    proof {
        assert(models(resources@.subrange(0, 0)) =~= Seq::<ResourceModel>::empty());
        assert(label_views(out@) =~= all_tag_displays(models(resources@.subrange(0, 0))));
    }
    while i < resources.len()
        invariant
            i <= resources@.len(),
            label_views(out@) == all_tag_displays(models(resources@.subrange(0, i as int))),
        decreases resources.len() - i,
    {
        let ghost pre = models(resources@.subrange(0, i as int));
        let ghost x = resources@[i as int]@;
        let r = &resources[i];
        let mut j: usize = 0;
        proof {
            assert(res_displays(x).subrange(0, 0) =~= Seq::<Seq<char>>::empty());
            assert(label_views(out@) + res_displays(x).subrange(0, 0) =~= label_views(out@));
        }
        while j < r.tags.len()
            invariant
                j <= r.tags@.len(),
                x == resources@[i as int]@,
                i < resources@.len(),
                r == &resources@[i as int],
                x.tags.len() == r.tags@.len(),
                label_views(out@) == all_tag_displays(pre) + res_displays(x).subrange(
                    0,
                    j as int,
                ),
            decreases r.tags.len() - j,
        {
            let ghost lv0 = label_views(out@);
            let display = concat_str(
                concat_str(r.tags[j].key.as_str(), ":").as_str(),
                r.tags[j].value.as_str(),
            );
            proof {
                assert(x.tags[j as int] == r.tags@[j as int]@);
                assert(display@ == tag_display(x.tags[j as int]));
                assert(res_displays(x)[j as int] == tag_display(x.tags[j as int]));
            }
            out.push(display);
            j = j + 1;
            proof {
                assert(label_views(out@) =~= lv0.push(res_displays(x)[j - 1]));
                assert(res_displays(x).subrange(0, j as int) =~= res_displays(x).subrange(
                    0,
                    j - 1,
                ).push(res_displays(x)[j - 1]));
                assert(label_views(out@) =~= all_tag_displays(pre) + res_displays(x).subrange(
                    0,
                    j as int,
                ));
            }
        }
        proof {
            assert(res_displays(x).subrange(0, res_displays(x).len() as int) =~= res_displays(x));
            assert(models(resources@.subrange(0, i + 1)) =~= pre.push(x));
            assert(pre.push(x).drop_last() =~= pre);
            assert(pre.push(x).last() == x);
            assert(label_views(out@) =~= all_tag_displays(pre.push(x)));
        }
        i = i + 1;
    }
    proof {
        assert(resources@.subrange(0, resources@.len() as int) =~= resources@);
    }
    out
}

/// One ranked tag pair: how often this key and value occur together
/// across the catalog.
#[derive(Debug, Clone)]
pub struct TagUsage {
    pub key: String,
    pub value: String,
    pub count: u64,
}

/// The tag index: every value seen under every key, and the most frequent
/// pairs.
#[derive(Debug, Clone)]
pub struct TagsResponse {
    pub tags: Vec<(String, Vec<String>)>,
    pub popular_tags: Vec<TagUsage>,
}

/// Builds the tag index: the key-to-values map over all resources, and
/// the twenty most frequent `key:value` pairs, ordered by count
/// descending. Never fails.
pub fn get_available_tags(resources: &ResourceUseCases) -> (r: DomainResult<TagsResponse>)
    ensures
        match r {
            Ok(resp) => {
                let ds = all_tag_displays(models(resources.resources@));
                &&& exists|es: Seq<(Seq<char>, u64)>|
                    {
                        &&& #[trigger] counts_ok(es, ds)
                        &&& resp.popular_tags@.len() == (if es.len() <= 20 {
                            es.len() as int
                        } else {
                            20
                        })
                        &&& forall|t: int|
                            0 <= t < resp.popular_tags@.len() ==> {
                                &&& (#[trigger] resp.popular_tags@[t]).key@ == split_key(es[t].0)
                                &&& resp.popular_tags@[t].value@ == split_value(es[t].0)
                                &&& resp.popular_tags@[t].count == es[t].1
                            }
                    }
                &&& forall|t: int, u: int|
                    0 <= t < u < resp.tags@.len() ==> (#[trigger] resp.tags@[t]).0@ != (
                    #[trigger] resp.tags@[u]).0@
                &&& forall|t: int|
                    0 <= t < resp.tags@.len() ==> forall|a: int, b: int|
                        0 <= a < b < (#[trigger] resp.tags@[t]).1@.len()
                            ==> resp.tags@[t].1@[a]@ != resp.tags@[t].1@[b]@
                &&& forall|t: int|
                    0 <= t < resp.tags@.len() ==> forall|u: int|
                        0 <= u < (#[trigger] resp.tags@[t]).1@.len() ==> has_tag_pair(
                            models(resources.resources@),
                            resp.tags@[t].0@,
                            resp.tags@[t].1@[u]@,
                        )
                &&& forall|i: int|
                    0 <= i < models(resources.resources@).len() ==> forall|j: int|
                        0 <= j < (#[trigger] models(resources.resources@)[i]).tags.len()
                            ==> map_has(
                            resp.tags@,
                            models(resources.resources@)[i].tags[j].key,
                            models(resources.resources@)[i].tags[j].value,
                        )
            },
            Err(_) => false,
        },
{
    let displays = collect_tag_displays(&resources.resources);
    let counts = group_sorted_desc(&displays);
    let mut popular_tags: Vec<TagUsage> = Vec::new();
    let limit: usize = if counts.len() <= 20 {
        counts.len()
    } else {
        20
    };
    let mut t: usize = 0;
    while t < limit
        invariant
            t <= limit <= counts@.len(),
            popular_tags@.len() == t,
            forall|p: int|
                0 <= p < t ==> {
                    &&& (#[trigger] popular_tags@[p]).key@ == split_key(
                        entry_views(counts@)[p].0,
                    )
                    &&& popular_tags@[p].value@ == split_value(entry_views(counts@)[p].0)
                    &&& popular_tags@[p].count == entry_views(counts@)[p].1
                },
        decreases limit - t,
    {
        let (key, value) = split_display(counts[t].0.as_str());
        popular_tags.push(TagUsage { key, value, count: counts[t].1 });
        proof {
            assert(entry_views(counts@)[t as int] == (counts@[t as int].0@, counts@[t as int].1));
        }
        t = t + 1;
    }
    let tags = build_tag_map(&resources.resources);
    proof {
        let ghost es = entry_views(counts@);
        assert(counts_ok(es, all_tag_displays(models(resources.resources@))));
    }
    Ok(TagsResponse { tags, popular_tags })
}

/// Whether one resource carries this exact tag pair.
pub open spec fn res_has_pair(m: ResourceModel, k: Seq<char>, v: Seq<char>) -> bool {
    exists|j: int|
        0 <= j < m.tags.len() && (#[trigger] m.tags[j]).key == k && m.tags[j].value == v
}

/// Whether any resource carries this exact tag pair.
pub open spec fn has_tag_pair(ms: Seq<ResourceModel>, k: Seq<char>, v: Seq<char>) -> bool {
    exists|i: int| 0 <= i < ms.len() && res_has_pair(#[trigger] ms[i], k, v)
}

/// Whether the map holds this value under this key.
pub open spec fn map_has(mv: Seq<(String, Vec<String>)>, k: Seq<char>, v: Seq<char>) -> bool {
    exists|t: int|
        0 <= t < mv.len() && (#[trigger] mv[t]).0@ == k && (exists|u: int|
            0 <= u < mv[t].1@.len() && (#[trigger] mv[t].1@[u])@ == v)
}

/// Builds the key-to-values map: one entry per distinct key, each value
/// listed once, holding exactly the tag pairs of the resources.
fn build_tag_map(resources: &Vec<Resource>) -> (out: Vec<(String, Vec<String>)>)
    ensures
        forall|t: int, u: int|
            0 <= t < u < out@.len() ==> (#[trigger] out@[t]).0@ != (#[trigger] out@[u]).0@,
        forall|t: int|
            0 <= t < out@.len() ==> forall|a: int, b: int|
                0 <= a < b < (#[trigger] out@[t]).1@.len() ==> out@[t].1@[a]@ != out@[t].1@[b]@,
        forall|t: int|
            0 <= t < out@.len() ==> forall|u: int|
                0 <= u < (#[trigger] out@[t]).1@.len() ==> has_tag_pair(
                    models(resources@),
                    out@[t].0@,
                    out@[t].1@[u]@,
                ),
        forall|i: int|
            0 <= i < models(resources@).len() ==> forall|j: int|
                0 <= j < (#[trigger] models(resources@)[i]).tags.len() ==> map_has(
                    out@,
                    models(resources@)[i].tags[j].key,
                    models(resources@)[i].tags[j].value,
                ),
{
    let ghost ms = models(resources@);
    let mut out: Vec<(String, Vec<String>)> = Vec::new();
    let mut i: usize = 0;
    while i < resources.len()
        invariant
            i <= resources@.len(),
            ms == models(resources@),
            forall|t: int, u: int|
                0 <= t < u < out@.len() ==> (#[trigger] out@[t]).0@ != (#[trigger] out@[u]).0@,
            forall|t: int|
                0 <= t < out@.len() ==> forall|a: int, b: int|
                    0 <= a < b < (#[trigger] out@[t]).1@.len() ==> out@[t].1@[a]@
                        != out@[t].1@[b]@,
            forall|t: int|
                0 <= t < out@.len() ==> forall|u: int|
                    0 <= u < (#[trigger] out@[t]).1@.len() ==> has_tag_pair(
                        ms,
                        out@[t].0@,
                        out@[t].1@[u]@,
                    ),
            forall|p: int|
                0 <= p < i ==> forall|j: int|
                    0 <= j < (#[trigger] ms[p]).tags.len() ==> map_has(
                        out@,
                        ms[p].tags[j].key,
                        ms[p].tags[j].value,
                    ),
        decreases resources.len() - i,
    {
        let r = &resources[i];
        let mut j: usize = 0;
        while j < r.tags.len()
            invariant
                j <= r.tags@.len(),
                i < resources@.len(),
                r == &resources@[i as int],
                ms == models(resources@),
                ms[i as int] == resources@[i as int]@,
                ms[i as int].tags.len() == r.tags@.len(),
                forall|t: int, u: int|
                    0 <= t < u < out@.len() ==> (#[trigger] out@[t]).0@ != (
                    #[trigger] out@[u]).0@,
                forall|t: int|
                    0 <= t < out@.len() ==> forall|a: int, b: int|
                        0 <= a < b < (#[trigger] out@[t]).1@.len() ==> out@[t].1@[a]@
                            != out@[t].1@[b]@,
                forall|t: int|
                    0 <= t < out@.len() ==> forall|u: int|
                        0 <= u < (#[trigger] out@[t]).1@.len() ==> has_tag_pair(
                            ms,
                            out@[t].0@,
                            out@[t].1@[u]@,
                        ),
                forall|p: int|
                    0 <= p < i ==> forall|q: int|
                        0 <= q < (#[trigger] ms[p]).tags.len() ==> map_has(
                            out@,
                            ms[p].tags[q].key,
                            ms[p].tags[q].value,
                        ),
                forall|q: int|
                    0 <= q < j ==> map_has(
                        out@,
                        ms[i as int].tags[q].key,
                        (#[trigger] ms[i as int].tags[q]).value,
                    ),
            decreases r.tags.len() - j,
        {
            let ghost out0 = out@;
            let ghost kx = ms[i as int].tags[j as int].key;
            let ghost vx = ms[i as int].tags[j as int].value;
            proof {
                assert(ms[i as int].tags[j as int] == r.tags@[j as int]@);
                assert(res_has_pair(ms[i as int], kx, vx));
                assert(has_tag_pair(ms, kx, vx));
            }
            let pos = position_of_key(&out, r.tags[j].key.as_str());
            match pos {
                Some(t) => {
                    if !holds_value(&out[t].1, r.tags[j].value.as_str()) {
                        let (k0, mut vs) = out.remove(t);
                        let ghost vs0 = vs@;
                        vs.push(r.tags[j].value.clone());
                        out.insert(t, (k0, vs));
                        proof {
                            assert(out@[t as int].0@ == kx);
                            assert(out@[t as int].1@ =~= vs0.push(r.tags@[j as int].value));
                            assert(forall|u: int|
                                0 <= u < out@.len() && u != t ==> out@[u] == out0[u]);
                            assert(map_has(out@, kx, vx)) by {
                                assert(out@[t as int].1@[vs0.len() as int]@ == vx);
                            }
                            assert forall|p2: int, q2: int|
                                #![trigger out@[p2].1@[q2]]
                                0 <= p2 < out@.len() && 0 <= q2 < out@[p2].1@.len() implies has_tag_pair(
                                ms,
                                out@[p2].0@,
                                out@[p2].1@[q2]@,
                            ) by {
                                if p2 == t && q2 == vs0.len() {
                                    assert(has_tag_pair(ms, kx, vx));
                                } else if p2 == t {
                                    assert(out0[p2].1@[q2] == out@[p2].1@[q2]);
                                    assert(has_tag_pair(ms, out0[p2].0@, out0[p2].1@[q2]@));
                                } else {
                                    assert(has_tag_pair(ms, out0[p2].0@, out0[p2].1@[q2]@));
                                }
                            }
                            assert forall|p2: int|
                                0 <= p2 < i implies forall|q2: int|
                                0 <= q2 < (#[trigger] ms[p2]).tags.len() ==> map_has(
                                    out@,
                                    ms[p2].tags[q2].key,
                                    ms[p2].tags[q2].value,
                                ) by {
                                    assert forall|q2: int|
                                        0 <= q2 < ms[p2].tags.len() implies map_has(
                                        out@,
                                        ms[p2].tags[q2].key,
                                        (#[trigger] ms[p2].tags[q2]).value,
                                    ) by {
                                        assert(map_has(out0, ms[p2].tags[q2].key, ms[p2].tags[q2].value));
                                        let w = choose|w: int|
                                            0 <= w < out0.len() && (#[trigger] out0[w]).0@ == ms[p2].tags[q2].key
                                                && (exists|u2: int|
                                                0 <= u2 < out0[w].1@.len() && (#[trigger] out0[w].1@[u2])@
                                                    == ms[p2].tags[q2].value);
                                        let u2 = choose|u2: int|
                                            0 <= u2 < out0[w].1@.len() && (#[trigger] out0[w].1@[u2])@
                                                == ms[p2].tags[q2].value;
                                        if w == t {
                                            assert(out@[w].0@ == ms[p2].tags[q2].key);
                                            assert(out@[w].1@[u2]@ == ms[p2].tags[q2].value);
                                        } else {
                                            assert(out@[w] == out0[w]);
                                        }
                                    }
                                }
                            assert forall|q2: int|
                                0 <= q2 < j + 1 implies map_has(
                                out@,
                                ms[i as int].tags[q2].key,
                                (#[trigger] ms[i as int].tags[q2]).value,
                            ) by {
                                if q2 < j {
                                    assert(map_has(out0, ms[i as int].tags[q2].key, ms[i as int].tags[q2].value));
                                    let w = choose|w: int|
                                        0 <= w < out0.len() && (#[trigger] out0[w]).0@ == ms[i as int].tags[q2].key
                                            && (exists|u2: int|
                                            0 <= u2 < out0[w].1@.len() && (#[trigger] out0[w].1@[u2])@
                                                == ms[i as int].tags[q2].value);
                                    let u2 = choose|u2: int|
                                        0 <= u2 < out0[w].1@.len() && (#[trigger] out0[w].1@[u2])@
                                            == ms[i as int].tags[q2].value;
                                    if w == t {
                                        assert(out@[w].0@ == ms[i as int].tags[q2].key);
                                        assert(out@[w].1@[u2]@ == ms[i as int].tags[q2].value);
                                    } else {
                                        assert(out@[w] == out0[w]);
                                    }
                                }
                            }
                        }
                    } else {
                        proof {
                            assert(map_has(out@, kx, vx)) by {
                                assert(out@[t as int].0@ == kx);
                            }
                            assert forall|q2: int|
                                0 <= q2 < j + 1 implies map_has(
                                out@,
                                ms[i as int].tags[q2].key,
                                (#[trigger] ms[i as int].tags[q2]).value,
                            ) by {}
                        }
                    }
                },
                None => {
                    let mut vs: Vec<String> = Vec::new();
                    vs.push(r.tags[j].value.clone());
                    out.push((r.tags[j].key.clone(), vs));
                    proof {
                        assert(out@[out0.len() as int].0@ == kx);
                        assert(out@[out0.len() as int].1@.len() == 1);
                        assert(out@[out0.len() as int].1@[0]@ == vx);
                        assert(forall|u: int| 0 <= u < out0.len() ==> out@[u] == out0[u]);
                        assert(map_has(out@, kx, vx));
                        assert forall|q2: int|
                            0 <= q2 < j + 1 implies map_has(
                            out@,
                            ms[i as int].tags[q2].key,
                            (#[trigger] ms[i as int].tags[q2]).value,
                        ) by {
                            if q2 < j {
                                assert(map_has(out0, ms[i as int].tags[q2].key, ms[i as int].tags[q2].value));
                                let w = choose|w: int|
                                    0 <= w < out0.len() && (#[trigger] out0[w]).0@ == ms[i as int].tags[q2].key
                                        && (exists|u2: int|
                                        0 <= u2 < out0[w].1@.len() && (#[trigger] out0[w].1@[u2])@
                                            == ms[i as int].tags[q2].value);
                                assert(out@[w] == out0[w]);
                            }
                        }
                        assert forall|p2: int|
                            0 <= p2 < i implies forall|q2: int|
                            0 <= q2 < (#[trigger] ms[p2]).tags.len() ==> map_has(
                                out@,
                                ms[p2].tags[q2].key,
                                ms[p2].tags[q2].value,
                            ) by {
                                assert forall|q2: int|
                                    0 <= q2 < ms[p2].tags.len() implies map_has(
                                    out@,
                                    ms[p2].tags[q2].key,
                                    (#[trigger] ms[p2].tags[q2]).value,
                                ) by {
                                    assert(map_has(out0, ms[p2].tags[q2].key, ms[p2].tags[q2].value));
                                    let w = choose|w: int|
                                        0 <= w < out0.len() && (#[trigger] out0[w]).0@ == ms[p2].tags[q2].key
                                            && (exists|u2: int|
                                            0 <= u2 < out0[w].1@.len() && (#[trigger] out0[w].1@[u2])@
                                                == ms[p2].tags[q2].value);
                                    assert(out@[w] == out0[w]);
                                }
                            }
                    }
                },
            }
            j = j + 1;
        }
        i = i + 1;
    }
    proof {
        assert(ms.len() == resources@.len());
    }
    out
}

/// A suggestion request: an optional free-text term.
#[derive(Debug, Clone)]
pub struct TagSuggestionQuery {
    pub q: Option<String>,
}

/// One suggested tag pair, with its display text.
#[derive(Debug, Clone)]
pub struct TagSuggestion {
    pub key: String,
    pub value: String,
    pub display: String,
}

/// The mathematical values of a suggestion list.
pub open spec fn sugg_views(s: Seq<TagSuggestion>) -> Seq<(Seq<char>, Seq<char>, Seq<char>)> {
    s.map_values(|x: TagSuggestion| (x.key@, x.value@, x.display@))
}

/// Whether a pair matches the folded term: the term occurs in the folded
/// key or the folded value. An empty term matches everything.
pub open spec fn sugg_matches(k: Seq<char>, v: Seq<char>, tl: Seq<char>) -> bool {
    crate::text::seq_contains(crate::text::lower_of(k), tl) || crate::text::seq_contains(
        crate::text::lower_of(v),
        tl,
    )
}

/// Whether a pair matches the folded term exactly: the folded key or the
/// folded value equals it.
pub open spec fn sugg_exact(k: Seq<char>, v: Seq<char>, tl: Seq<char>) -> bool {
    crate::text::lower_of(k) == tl || crate::text::lower_of(v) == tl
}

/// Suggestion order: exact matches first, ties broken by the display text.
pub open spec fn sugg_le(
    a: (Seq<char>, Seq<char>, Seq<char>),
    b: (Seq<char>, Seq<char>, Seq<char>),
    tl: Seq<char>,
) -> bool {
    let ea = sugg_exact(a.0, a.1, tl);
    let eb = sugg_exact(b.0, b.1, tl);
    if ea != eb {
        ea
    } else {
        crate::text::lex_le(a.2, b.2)
    }
}

/// Whether a display is already listed.
pub open spec fn disp_present(full: Seq<(Seq<char>, Seq<char>, Seq<char>)>, d: Seq<char>) -> bool {
    exists|t: int| 0 <= t < full.len() && (#[trigger] full[t]).2 == d
}

/// A correct suggestion set for a catalog and folded term: every entry is
/// a matching pair of some resource with its display; displays are never
/// repeated; every matching pair's display is listed; and entries are
/// ordered with exact matches first, ties broken by display.
pub open spec fn suggestion_set_ok(
    full: Seq<(Seq<char>, Seq<char>, Seq<char>)>,
    ms: Seq<ResourceModel>,
    tl: Seq<char>,
) -> bool {
    &&& forall|t: int|
        0 <= t < full.len() ==> {
            &&& has_tag_pair(ms, (#[trigger] full[t]).0, full[t].1)
            &&& full[t].2 == full[t].0 + ":"@ + full[t].1
            &&& sugg_matches(full[t].0, full[t].1, tl)
        }
    &&& forall|t: int, u: int|
        0 <= t < u < full.len() ==> (#[trigger] full[t]).2 != (#[trigger] full[u]).2
    &&& forall|i: int|
        0 <= i < ms.len() ==> forall|j: int|
            0 <= j < (#[trigger] ms[i]).tags.len() ==> (sugg_matches(
                ms[i].tags[j].key,
                ms[i].tags[j].value,
                tl,
            ) ==> disp_present(full, tag_display(ms[i].tags[j])))
    &&& forall|t: int, u: int|
        0 <= t < u < full.len() ==> sugg_le(#[trigger] full[t], #[trigger] full[u], tl)
}

/// The folded term of a suggestion request; a missing term reads as empty.
pub open spec fn term_of(q: Option<String>) -> Seq<char> {
    crate::text::lower_of(crate::matching::opt_chars(crate::entities::view_opt(q)))
}

/// Suggestion order is total.
proof fn lemma_sugg_le_total(
    a: (Seq<char>, Seq<char>, Seq<char>),
    b: (Seq<char>, Seq<char>, Seq<char>),
    tl: Seq<char>,
)
    ensures
        sugg_le(a, b, tl) || sugg_le(b, a, tl),
{
    if sugg_exact(a.0, a.1, tl) == sugg_exact(b.0, b.1, tl) {
        crate::text::lemma_lex_total(a.2, b.2);
    }
}

/// Suggestion order is transitive.
proof fn lemma_sugg_le_trans(
    a: (Seq<char>, Seq<char>, Seq<char>),
    b: (Seq<char>, Seq<char>, Seq<char>),
    c: (Seq<char>, Seq<char>, Seq<char>),
    tl: Seq<char>,
)
    requires
        sugg_le(a, b, tl),
        sugg_le(b, c, tl),
    ensures
        sugg_le(a, c, tl),
{
    if sugg_exact(a.0, a.1, tl) == sugg_exact(b.0, b.1, tl) && sugg_exact(b.0, b.1, tl)
        == sugg_exact(c.0, c.1, tl) {
        crate::text::lemma_lex_trans(a.2, b.2, c.2);
    }
}

/// Compares two suggestions under the suggestion order for a folded term,
/// the term given both raw and folded.
fn sugg_le_exec(a: &TagSuggestion, b: &TagSuggestion, term_folded: &String) -> (r: bool)
    ensures
        r == sugg_le(
            (a.key@, a.value@, a.display@),
            (b.key@, b.value@, b.display@),
            term_folded@,
        ),
{
    let ea = is_exact(a, term_folded);
    let eb = is_exact(b, term_folded);
    if ea != eb {
        ea
    } else {
        let ac = chars_vec(a.display.as_str());
        let bc = chars_vec(b.display.as_str());
        crate::text::lex_le_chars(&ac, &bc)
    }
}

/// Whether the folded key or value equals the folded term.
fn is_exact(a: &TagSuggestion, term_folded: &String) -> (r: bool)
    ensures
        r == sugg_exact(a.key@, a.value@, term_folded@),
{
    let kl = crate::text::lowercase(a.key.as_str());
    if crate::text::str_eq(kl.as_str(), term_folded.as_str()) {
        return true;
    }
    let vl = crate::text::lowercase(a.value.as_str());
    crate::text::str_eq(vl.as_str(), term_folded.as_str())
}

/// An equal copy of a suggestion.
fn dup_sugg(a: &TagSuggestion) -> (r: TagSuggestion)
    ensures
        r.key@ == a.key@,
        r.value@ == a.value@,
        r.display@ == a.display@,
{
    TagSuggestion { key: a.key.clone(), value: a.value.clone(), display: a.display.clone() }
}

/// Sorts suggestions under the suggestion order; entries are preserved as
/// a multiset.
#[verifier::loop_isolation(false)]
fn sort_suggestions(input: Vec<TagSuggestion>, term_folded: &String) -> (out: Vec<TagSuggestion>)
    ensures
        sugg_views(out@).to_multiset() == sugg_views(input@).to_multiset(),
        forall|t: int, u: int|
            0 <= t < u < sugg_views(out@).len() ==> sugg_le(
                #[trigger] sugg_views(out@)[t],
                #[trigger] sugg_views(out@)[u],
                term_folded@,
            ),
        out@.len() == input@.len(),
{
    broadcast use vstd::seq_lib::group_to_multiset_ensures;

    let mut src = input;
    let mut out: Vec<TagSuggestion> = Vec::new();
    proof {
        assert(sugg_views(out@) =~= Seq::<(Seq<char>, Seq<char>, Seq<char>)>::empty());
        assert(sugg_views(out@).to_multiset().add(sugg_views(src@).to_multiset())
            =~= sugg_views(src@).to_multiset());
    }
    while src.len() > 0
        invariant
            sugg_views(out@).to_multiset().add(sugg_views(src@).to_multiset()) == sugg_views(
                input@,
            ).to_multiset(),
            forall|t: int, u: int|
                0 <= t < u < sugg_views(out@).len() ==> sugg_le(
                    #[trigger] sugg_views(out@)[t],
                    #[trigger] sugg_views(out@)[u],
                    term_folded@,
                ),
            out@.len() + src@.len() == input@.len(),
        decreases src@.len(),
    {
        let ghost src0 = src@;
        let ghost out0 = out@;
        let x = src.pop().unwrap();
        let ghost xv = (x.key@, x.value@, x.display@);
        proof {
            assert(sugg_views(src0) =~= sugg_views(src@).push(xv));
            vstd::seq_lib::to_multiset_build(sugg_views(src@), xv);
        }
        let mut k: usize = 0;
        let mut scanning = true;
        while scanning
            invariant
                k <= out@.len(),
                out@ == out0,
                forall|t: int|
                    0 <= t < k ==> sugg_le(#[trigger] sugg_views(out@)[t], xv, term_folded@),
                !scanning ==> (k == out@.len() || !sugg_le(
                    sugg_views(out@)[k as int],
                    xv,
                    term_folded@,
                )),
            decreases out@.len() - k, (if scanning { 1int } else { 0int }),
        {
            if k == out.len() {
                scanning = false;
            } else if !sugg_le_exec(&out[k], &x, term_folded) {
                scanning = false;
            } else {
                k = k + 1;
            }
        }
        out.insert(k, x);
        proof {
            let m0 = sugg_views(out0);
            let m1 = sugg_views(out@);
            let tl = term_folded@;
            assert(m1 =~= m0.insert(k as int, xv));
            m0.insert_ensures(k as int, xv);
            if k < m0.len() {
                lemma_sugg_le_total(m0[k as int], xv, tl);
            }
            assert forall|t: int, u: int|
                0 <= t < u < m1.len() implies sugg_le(#[trigger] m1[t], #[trigger] m1[u], tl) by {
                if u < k {
                    assert(sugg_le(m0[t], m0[u], tl));
                } else if u == k {
                    assert(sugg_le(m0[t], xv, tl));
                } else if t < k {
                    assert(sugg_le(m0[t], m0[u - 1], tl));
                } else if t == k {
                    if u - 1 == k {
                        assert(sugg_le(xv, m0[k as int], tl));
                    } else {
                        lemma_sugg_le_trans(xv, m0[k as int], m0[u - 1], tl);
                    }
                } else {
                    assert(sugg_le(m0[t - 1], m0[u - 1], tl));
                }
            }
            assert(m1.to_multiset() == m0.to_multiset().insert(xv)) by {
                assert(m0 =~= m0.subrange(0, k as int) + m0.subrange(k as int, m0.len() as int));
                vstd::seq_lib::lemma_multiset_commutative(
                    m0.subrange(0, k as int),
                    m0.subrange(k as int, m0.len() as int),
                );
                assert(m1 =~= (m0.subrange(0, k as int).push(xv)) + m0.subrange(
                    k as int,
                    m0.len() as int,
                ));
                vstd::seq_lib::lemma_multiset_commutative(
                    m0.subrange(0, k as int).push(xv),
                    m0.subrange(k as int, m0.len() as int),
                );
                vstd::seq_lib::to_multiset_build(m0.subrange(0, k as int), xv);
                assert(m1.to_multiset() =~= m0.to_multiset().insert(xv));
            }
            assert(sugg_views(out@).to_multiset().add(sugg_views(src@).to_multiset())
                =~= sugg_views(input@).to_multiset());
        }
    }
    out
}

/// The matching tag pairs, deduplicated by display, in scan order.
fn collect_suggestions(resources: &Vec<Resource>, term: &str) -> (out: Vec<TagSuggestion>)
    ensures
        ({
            let ms = models(resources@);
            let tl = crate::text::lower_of(term@);
            &&& forall|t: int|
                0 <= t < sugg_views(out@).len() ==> {
                    &&& has_tag_pair(ms, (#[trigger] sugg_views(out@)[t]).0, sugg_views(out@)[t].1)
                    &&& sugg_views(out@)[t].2 == sugg_views(out@)[t].0 + ":"@ + sugg_views(
                        out@,
                    )[t].1
                    &&& sugg_matches(sugg_views(out@)[t].0, sugg_views(out@)[t].1, tl)
                }
            &&& forall|t: int, u: int|
                0 <= t < u < sugg_views(out@).len() ==> (#[trigger] sugg_views(out@)[t]).2 != (
                #[trigger] sugg_views(out@)[u]).2
            &&& forall|i: int|
                0 <= i < ms.len() ==> forall|j: int|
                    0 <= j < (#[trigger] ms[i]).tags.len() ==> (sugg_matches(
                        ms[i].tags[j].key,
                        ms[i].tags[j].value,
                        tl,
                    ) ==> disp_present(sugg_views(out@), tag_display(ms[i].tags[j])))
        }),
{
    let ghost ms = models(resources@);
    let ghost tl = crate::text::lower_of(term@);
    let mut out: Vec<TagSuggestion> = Vec::new();
    let mut i: usize = 0;
    while i < resources.len()
        invariant
            i <= resources@.len(),
            ms == models(resources@),
            tl == crate::text::lower_of(term@),
            forall|t: int|
                0 <= t < sugg_views(out@).len() ==> {
                    &&& has_tag_pair(ms, (#[trigger] sugg_views(out@)[t]).0, sugg_views(out@)[t].1)
                    &&& sugg_views(out@)[t].2 == sugg_views(out@)[t].0 + ":"@ + sugg_views(
                        out@,
                    )[t].1
                    &&& sugg_matches(sugg_views(out@)[t].0, sugg_views(out@)[t].1, tl)
                },
            forall|t: int, u: int|
                0 <= t < u < sugg_views(out@).len() ==> (#[trigger] sugg_views(out@)[t]).2 != (
                #[trigger] sugg_views(out@)[u]).2,
            forall|p: int|
                0 <= p < i ==> forall|j: int|
                    0 <= j < (#[trigger] ms[p]).tags.len() ==> (sugg_matches(
                        ms[p].tags[j].key,
                        ms[p].tags[j].value,
                        tl,
                    ) ==> disp_present(sugg_views(out@), tag_display(ms[p].tags[j]))),
        decreases resources.len() - i,
    {
        let r = &resources[i];
        let mut j: usize = 0;
        while j < r.tags.len()
            invariant
                j <= r.tags@.len(),
                i < resources@.len(),
                r == &resources@[i as int],
                ms == models(resources@),
                tl == crate::text::lower_of(term@),
                ms[i as int] == resources@[i as int]@,
                ms[i as int].tags.len() == r.tags@.len(),
                forall|t: int|
                    0 <= t < sugg_views(out@).len() ==> {
                        &&& has_tag_pair(
                            ms,
                            (#[trigger] sugg_views(out@)[t]).0,
                            sugg_views(out@)[t].1,
                        )
                        &&& sugg_views(out@)[t].2 == sugg_views(out@)[t].0 + ":"@ + sugg_views(
                            out@,
                        )[t].1
                        &&& sugg_matches(sugg_views(out@)[t].0, sugg_views(out@)[t].1, tl)
                    },
                forall|t: int, u: int|
                    0 <= t < u < sugg_views(out@).len() ==> (#[trigger] sugg_views(out@)[t]).2
                        != (#[trigger] sugg_views(out@)[u]).2,
                forall|p: int|
                    0 <= p < i ==> forall|q: int|
                        0 <= q < (#[trigger] ms[p]).tags.len() ==> (sugg_matches(
                            ms[p].tags[q].key,
                            ms[p].tags[q].value,
                            tl,
                        ) ==> disp_present(sugg_views(out@), tag_display(ms[p].tags[q]))),
                forall|q: int|
                    0 <= q < j ==> (sugg_matches(
                        ms[i as int].tags[q].key,
                        (#[trigger] ms[i as int].tags[q]).value,
                        tl,
                    ) ==> disp_present(sugg_views(out@), tag_display(ms[i as int].tags[q]))),
            decreases r.tags.len() - j,
        {
            let ghost out0 = out@;
            let ghost kx = ms[i as int].tags[j as int].key;
            let ghost vx = ms[i as int].tags[j as int].value;
            proof {
                assert(ms[i as int].tags[j as int] == r.tags@[j as int]@);
                assert(res_has_pair(ms[i as int], kx, vx));
                assert(has_tag_pair(ms, kx, vx));
            }
            let display = concat_str(
                concat_str(r.tags[j].key.as_str(), ":").as_str(),
                r.tags[j].value.as_str(),
            );
            proof {
                assert(display@ == tag_display(ms[i as int].tags[j as int]));
            }
            let mut seen = false;
            let mut t: usize = 0;
            while t < out.len()
                invariant
                    t <= out@.len(),
                    out@ == out0,
                    display@ == kx + ":"@ + vx,
                    seen ==> disp_present(sugg_views(out@), display@),
                    !seen ==> forall|u: int|
                        0 <= u < t ==> (#[trigger] sugg_views(out@)[u]).2 != display@,
                decreases out.len() - t,
            {
                if crate::text::str_eq(out[t].display.as_str(), display.as_str()) {
                    seen = true;
                    proof {
                        assert(sugg_views(out@)[t as int].2 == display@);
                    }
                    t = out.len();
                } else {
                    t = t + 1;
                }
            }
            let keep = if seen {
                false
            } else {
                let km = crate::matching::ci_contains_str(r.tags[j].key.as_str(), term);
                let vm = crate::matching::ci_contains_str(r.tags[j].value.as_str(), term);
                km || vm
            };
            if keep {
                out.push(
                    TagSuggestion {
                        key: r.tags[j].key.clone(),
                        value: r.tags[j].value.clone(),
                        display,
                    },
                );
                proof {
                    assert(sugg_views(out@) =~= sugg_views(out0).push((kx, vx, kx + ":"@ + vx)));
                    assert(forall|u: int|
                        0 <= u < out0.len() ==> sugg_views(out@)[u] == sugg_views(out0)[u]);
                    assert(disp_present(sugg_views(out@), kx + ":"@ + vx)) by {
                        assert(sugg_views(out@)[out0.len() as int].2 == kx + ":"@ + vx);
                    }
                }
            }
            proof {
                if !keep {
                    if seen {
                        assert(disp_present(sugg_views(out@), tag_display(ms[i as int].tags[j as int])));
                    }
                }
                assert forall|q: int|
                    0 <= q < j + 1 implies (sugg_matches(
                    ms[i as int].tags[q].key,
                    (#[trigger] ms[i as int].tags[q]).value,
                    tl,
                ) ==> disp_present(sugg_views(out@), tag_display(ms[i as int].tags[q]))) by {
                    if q < j {
                        if sugg_matches(ms[i as int].tags[q].key, ms[i as int].tags[q].value, tl) {
                            assert(disp_present(sugg_views(out0), tag_display(ms[i as int].tags[q])));
                            let w = choose|w: int|
                                0 <= w < sugg_views(out0).len() && (#[trigger] sugg_views(out0)[w]).2
                                    == tag_display(ms[i as int].tags[q]);
                            assert(sugg_views(out@)[w].2 == tag_display(ms[i as int].tags[q]));
                        }
                    }
                }
                assert forall|p: int|
                    0 <= p < i implies forall|q: int|
                    0 <= q < (#[trigger] ms[p]).tags.len() ==> (sugg_matches(
                        ms[p].tags[q].key,
                        ms[p].tags[q].value,
                        tl,
                    ) ==> disp_present(sugg_views(out@), tag_display(ms[p].tags[q]))) by {
                    assert forall|q: int|
                        0 <= q < ms[p].tags.len() implies (sugg_matches(
                        ms[p].tags[q].key,
                        (#[trigger] ms[p].tags[q]).value,
                        tl,
                    ) ==> disp_present(sugg_views(out@), tag_display(ms[p].tags[q]))) by {
                        if sugg_matches(ms[p].tags[q].key, ms[p].tags[q].value, tl) {
                            assert(disp_present(sugg_views(out0), tag_display(ms[p].tags[q])));
                            let w = choose|w: int|
                                0 <= w < sugg_views(out0).len() && (#[trigger] sugg_views(out0)[w]).2
                                    == tag_display(ms[p].tags[q]);
                            assert(sugg_views(out@)[w].2 == tag_display(ms[p].tags[q]));
                        }
                    }
                }
            }
            j = j + 1;
        }
        i = i + 1;
    }
    out
}

/// Serves a suggestion query: the matching tag pairs, deduplicated by
/// display, exact matches first and ties broken by display, truncated to
/// ten. A missing or empty term matches every pair. Never fails.
pub fn get_tag_suggestions(resources: &ResourceUseCases, query: &TagSuggestionQuery) -> (r:
    DomainResult<Vec<TagSuggestion>>)
    ensures
        match r {
            Ok(out) => {
                let ms = models(resources.resources@);
                let tl = term_of(query.q);
                exists|full: Seq<(Seq<char>, Seq<char>, Seq<char>)>|
                    {
                        &&& #[trigger] suggestion_set_ok(full, ms, tl)
                        &&& sugg_views(out@) == full.take(
                            if full.len() <= 10 {
                                full.len() as int
                            } else {
                                10
                            },
                        )
                    }
            },
            Err(_) => false,
        },
{
    broadcast use vstd::seq_lib::group_to_multiset_ensures;

    let raw = crate::matching::opt_as_str(&query.q);
    let term_folded = crate::text::lowercase(raw);
    let candidates = collect_suggestions(&resources.resources, raw);
    let ghost cviews = sugg_views(candidates@);
    let mut out = sort_suggestions(candidates, &term_folded);
    let ghost full = sugg_views(out@);
    proof {
        let ms = models(resources.resources@);
        let tl = term_of(query.q);
        assert(tl == term_folded@);
        assert forall|t: int|
            0 <= t < full.len() implies {
            &&& has_tag_pair(ms, (#[trigger] full[t]).0, full[t].1)
            &&& full[t].2 == full[t].0 + ":"@ + full[t].1
            &&& sugg_matches(full[t].0, full[t].1, tl)
        } by {
            assert(full.contains(full[t]));
            assert(full.to_multiset().count(full[t]) > 0);
            assert(cviews.to_multiset().count(full[t]) > 0);
            assert(cviews.contains(full[t]));
            let w = choose|w: int| 0 <= w < cviews.len() && cviews[w] == full[t];
            assert(has_tag_pair(ms, cviews[w].0, cviews[w].1));
        }
        assert forall|t: int, u: int|
            0 <= t < u < full.len() implies (#[trigger] full[t]).2 != (#[trigger] full[u]).2 by {
            if full[t].2 == full[u].2 {
                if full[t] == full[u] {
                    crate::aggregation::lemma_two_indices_count(full, full[t], t, u);
                    assert(cviews.to_multiset().count(full[t]) >= 2);
                    crate::aggregation::lemma_count_two_indices(cviews, full[t]);
                    let (a, b) = choose|a: int, b: int|
                        0 <= a < b < cviews.len() && cviews[a] == full[t] && cviews[b] == full[t];
                    assert(cviews[a].2 == cviews[b].2);
                    assert(false);
                } else {
                    assert(full.contains(full[t]));
                    assert(cviews.to_multiset().count(full[t]) > 0);
                    assert(cviews.contains(full[t]));
                    assert(full.contains(full[u]));
                    assert(cviews.to_multiset().count(full[u]) > 0);
                    assert(cviews.contains(full[u]));
                    let a = choose|a: int| 0 <= a < cviews.len() && cviews[a] == full[t];
                    let b = choose|b: int| 0 <= b < cviews.len() && cviews[b] == full[u];
                    assert(cviews[a].2 == cviews[b].2);
                    assert(a != b);
                    if a < b {
                        assert(false);
                    } else {
                        assert(false);
                    }
                }
            }
        }
        assert forall|i: int|
            0 <= i < ms.len() implies forall|j: int|
            0 <= j < (#[trigger] ms[i]).tags.len() ==> (sugg_matches(
                ms[i].tags[j].key,
                ms[i].tags[j].value,
                tl,
            ) ==> disp_present(full, tag_display(ms[i].tags[j]))) by {
            assert forall|j: int|
                0 <= j < ms[i].tags.len() implies (sugg_matches(
                ms[i].tags[j].key,
                (#[trigger] ms[i].tags[j]).value,
                tl,
            ) ==> disp_present(full, tag_display(ms[i].tags[j]))) by {
                if sugg_matches(ms[i].tags[j].key, ms[i].tags[j].value, tl) {
                    assert(disp_present(cviews, tag_display(ms[i].tags[j])));
                    let w = choose|w: int|
                        0 <= w < cviews.len() && (#[trigger] cviews[w]).2 == tag_display(
                            ms[i].tags[j],
                        );
                    assert(cviews.contains(cviews[w]));
                    assert(cviews.to_multiset().count(cviews[w]) > 0);
                    assert(full.to_multiset().count(cviews[w]) > 0);
                    assert(full.contains(cviews[w]));
                    let z = choose|z: int| 0 <= z < full.len() && full[z] == cviews[w];
                    assert(full[z].2 == tag_display(ms[i].tags[j]));
                }
            }
        }
        assert(suggestion_set_ok(full, ms, tl));
        assert(full.take(out@.len() as int) =~= full);
    }
    while out.len() > 10
        invariant
            suggestion_set_ok(full, models(resources.resources@), term_of(query.q)),
            sugg_views(out@) == full.take(out@.len() as int),
            out@.len() <= full.len(),
            out@.len() >= (if full.len() <= 10 {
                full.len() as int
            } else {
                10
            }),
        decreases out@.len(),
    {
        let ghost outv0 = sugg_views(out@);
        out.pop();
        proof {
            assert(sugg_views(out@) =~= outv0.drop_last());
            assert(outv0.drop_last() =~= full.take(out@.len() as int));
        }
    }
    proof {
        assert(sugg_views(out@) == full.take(
            if full.len() <= 10 {
                full.len() as int
            } else {
                10
            },
        ));
    }
    Ok(out)
}

/// Position of the entry with this key, if any.
fn position_of_key(out: &Vec<(String, Vec<String>)>, key: &str) -> (r: Option<usize>)
    ensures
        match r {
            Some(t) => t < out@.len() && out@[t as int].0@ == key@,
            None => forall|t: int| 0 <= t < out@.len() ==> (#[trigger] out@[t]).0@ != key@,
        },
{
    let mut t: usize = 0;
    while t < out.len()
        invariant
            t <= out@.len(),
            forall|u: int| 0 <= u < t ==> (#[trigger] out@[u]).0@ != key@,
        decreases out.len() - t,
    {
        if crate::text::str_eq(out[t].0.as_str(), key) {
            return Some(t);
        }
        t = t + 1;
    }
    None
}

/// Whether the value list already holds this value.
fn holds_value(vs: &Vec<String>, value: &str) -> (r: bool)
    ensures
        r == (exists|u: int| 0 <= u < vs@.len() && (#[trigger] vs@[u])@ == value@),
{
    let mut u: usize = 0;
    while u < vs.len()
        invariant
            u <= vs@.len(),
            forall|w: int| 0 <= w < u ==> (#[trigger] vs@[w])@ != value@,
        decreases vs.len() - u,
    {
        if crate::text::str_eq(vs[u].as_str(), value) {
            return true;
        }
        u = u + 1;
    }
    false
}

} // verus!
