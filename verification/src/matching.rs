//! The semantics of the filter compiler: what it means for a resource to
//! match a filter set, and the relevance bucket used to order search results.
//!
//! All present field predicates are AND-combined. The type predicate and the
//! free-text search are case-insensitive substring matches; location,
//! environment, vendor and the ownership ids are exact matches. A `tags`
//! filter is a comma-separated list of `key:value` pairs, OR-combined;
//! malformed pairs are dropped, and a pair matches a resource holding that
//! exact key with a value that contains the pair's value case-insensitively.

use vstd::prelude::*;
use crate::entities::{Resource, ResourceModel};
use crate::text::{
    chars_vec, contains_chars, eq_chars, lower_of, lowercase, seq_contains, seq_starts_with,
    split_chars, split_spec, starts_with_chars, string_from_chars, trim_chars, trim_spec,
};
use crate::value_objects::{FiltersModel, ResourceFilters};

verus! {

/// The characters of an optional field, an absent field reading as empty.
pub open spec fn opt_chars(o: Option<Seq<char>>) -> Seq<char> {
    match o {
        Some(s) => s,
        None => Seq::empty(),
    }
}

/// Case-insensitive substring test: the folded needle occurs in the folded
/// haystack.
pub open spec fn ci_contains(hay: Seq<char>, needle: Seq<char>) -> bool {
    seq_contains(lower_of(hay), lower_of(needle))
}

/// Case-insensitive substring test on strings.
pub fn ci_contains_str(hay: &str, needle: &str) -> (r: bool)
    ensures
        r == ci_contains(hay@, needle@),
{
    let hl = lowercase(hay);
    let nl = lowercase(needle);
    let hc = chars_vec(hl.as_str());
    let nc = chars_vec(nl.as_str());
    contains_chars(&hc, &nc)
}

/// The empty string for an absent optional field.
pub fn opt_as_str(o: &Option<String>) -> (s: &str)
    ensures
        s@ == opt_chars(crate::entities::view_opt(*o)),
{
    match o {
        Some(x) => x.as_str(),
        None => {
            let e = "";
            proof {
                reveal_strlit("");
                assert(e@ =~= Seq::<char>::empty());
            }
            e
        },
    }
}

/// One parsed `key:value` pair of a tags filter: the pair trimmed, split at
/// its single colon, and both halves trimmed again. Pairs without exactly
/// one colon are malformed.
pub open spec fn parse_tag_token(piece: Seq<char>) -> Option<(Seq<char>, Seq<char>)> {
    let q = trim_spec(piece);
    let parts = split_spec(q, ':');
    if parts.len() == 2 {
        Some((trim_spec(parts[0]), trim_spec(parts[1])))
    } else {
        None
    }
}

/// The well-formed tokens among a list of comma-separated pieces.
pub open spec fn tokens_of(pieces: Seq<Seq<char>>) -> Seq<(Seq<char>, Seq<char>)>
    decreases pieces.len(),
{
    if pieces.len() == 0 {
        Seq::empty()
    } else {
        let rest = tokens_of(pieces.drop_first());
        match parse_tag_token(pieces[0]) {
            Some(t) => seq![t] + rest,
            None => rest,
        }
    }
}

/// The well-formed `key:value` tokens of a tags filter string.
pub open spec fn tag_tokens(t: Seq<char>) -> Seq<(Seq<char>, Seq<char>)> {
    tokens_of(split_spec(t, ','))
}

/// Whether a resource carries the token's key with a value that contains
/// the token's value, case-insensitively.
pub open spec fn tag_token_matches(r: ResourceModel, tok: (Seq<char>, Seq<char>)) -> bool {
    exists|i: int|
        0 <= i < r.tags.len() && (#[trigger] r.tags[i]).key == tok.0 && ci_contains(
            r.tags[i].value,
            tok.1,
        )
}

/// Whether a resource passes a tags filter: vacuously when no token is well
/// formed, otherwise when any token matches.
pub open spec fn matches_tags(r: ResourceModel, t: Seq<char>) -> bool {
    let toks = tag_tokens(t);
    toks.len() == 0 || exists|k: int| 0 <= k < toks.len() && tag_token_matches(r, #[trigger] toks[k])
}

/// Whether a resource matches a free-text search term: a case-insensitive
/// substring match across name, type, external id, location, vendor and
/// environment, absent fields reading as empty.
pub open spec fn matches_search(r: ResourceModel, term: Seq<char>) -> bool {
    ci_contains(r.name, term) || ci_contains(r.resource_type, term) || ci_contains(
        opt_chars(r.azure_id),
        term,
    ) || ci_contains(r.location, term) || ci_contains(opt_chars(r.vendor), term) || ci_contains(
        opt_chars(r.environment),
        term,
    )
}

/// Whether a resource matches every present predicate of a filter set.
pub open spec fn matches_filters(r: ResourceModel, f: FiltersModel) -> bool {
    &&& (f.resource_type matches Some(t) ==> ci_contains(r.resource_type, t))
    &&& (f.location matches Some(l) ==> r.location == l)
    &&& (f.environment matches Some(e) ==> r.environment == Some(e))
    &&& (f.vendor matches Some(v) ==> r.vendor == Some(v))
    &&& (f.subscription_id matches Some(s) ==> r.subscription_id == s)
    &&& (f.resource_group_id matches Some(g) ==> r.resource_group_id == g)
    &&& (f.search matches Some(t) ==> matches_search(r, t))
    &&& (f.tags matches Some(t) ==> matches_tags(r, t))
}

/// `tokens_of` distributes over concatenation.
proof fn lemma_tokens_of_concat(a: Seq<Seq<char>>, b: Seq<Seq<char>>)
    ensures
        tokens_of(a + b) == tokens_of(a) + tokens_of(b),
    decreases a.len(),
{
    if a.len() == 0 {
        assert(a + b =~= b);
        assert(tokens_of(a) + tokens_of(b) =~= tokens_of(b));
    } else {
        lemma_tokens_of_concat(a.drop_first(), b);
        assert((a + b).drop_first() =~= a.drop_first() + b);
        assert((a + b)[0] == a[0]);
        match parse_tag_token(a[0]) {
            Some(t) => {
                assert(tokens_of(a + b) =~= tokens_of(a) + tokens_of(b));
            },
            None => {},
        }
    }
}

/// Parses the well-formed `key:value` tokens out of a tags filter string.
pub fn parse_tag_tokens(t: &str) -> (toks: Vec<(String, String)>)
    ensures
        toks@.map_values(|p: (String, String)| (p.0@, p.1@)) == tag_tokens(t@),
{
    let cs = chars_vec(t);
    let pieces = split_chars(&cs, ',');
    let ghost pmodels = pieces@.map_values(|p: Vec<char>| p@);
    let mut toks: Vec<(String, String)> = Vec::new();
    let mut i: usize = 0;
    proof {
        assert(pmodels.take(0) =~= Seq::<Seq<char>>::empty());
        assert(toks@.map_values(|p: (String, String)| (p.0@, p.1@)) =~= tokens_of(
            pmodels.take(0),
        ));
    }
    while i < pieces.len()
        invariant
            i <= pieces@.len(),
            pmodels == pieces@.map_values(|p: Vec<char>| p@),
            tag_tokens(t@) == tokens_of(pmodels),
            toks@.map_values(|p: (String, String)| (p.0@, p.1@)) == tokens_of(
                pmodels.take(i as int),
            ),
        decreases pieces.len() - i,
    {
        let q = trim_chars(&pieces[i]);
        let parts = split_chars(&q, ':');
        let ghost toks0 = toks@;
        if parts.len() == 2 {
            let k = trim_chars(&parts[0]);
            let v = trim_chars(&parts[1]);
            let key = string_from_chars(&k);
            let value = string_from_chars(&v);
            proof {
                let f = |p: Vec<char>| p@;
                assert(parts@.map_values(f).len() == 2);
                assert(parts@.map_values(f)[0] == parts@[0]@);
                assert(parts@.map_values(f)[1] == parts@[1]@);
                assert(parse_tag_token(pmodels[i as int]) == Some((k@, v@)));
            }
            toks.push((key, value));
        } else {
            proof {
                let f = |p: Vec<char>| p@;
                assert(parts@.map_values(f).len() == parts@.len());
                assert(parse_tag_token(pmodels[i as int]) is None);
            }
        }
        proof {
            let g = |p: (String, String)| (p.0@, p.1@);
            let pre = pmodels.take(i as int);
            assert(pmodels.take(i + 1) =~= pre + seq![pmodels[i as int]]);
            lemma_tokens_of_concat(pre, seq![pmodels[i as int]]);
            assert(seq![pmodels[i as int]].drop_first() =~= Seq::<Seq<char>>::empty());
            assert(tokens_of(Seq::<Seq<char>>::empty()) =~= Seq::<(Seq<char>, Seq<char>)>::empty());
            match parse_tag_token(pmodels[i as int]) {
                Some(tok) => {
                    assert(tokens_of(seq![pmodels[i as int]]) =~= seq![tok]);
                    assert(toks@.map_values(g) =~= toks0.map_values(g) + seq![tok]);
                },
                None => {
                    assert(tokens_of(seq![pmodels[i as int]]) =~= Seq::<(
                        Seq<char>,
                        Seq<char>,
                    )>::empty());
                    assert(toks@.map_values(g) =~= toks0.map_values(g) + tokens_of(
                        seq![pmodels[i as int]],
                    ));
                },
            }
            assert(toks@.map_values(g) =~= tokens_of(pmodels.take(i + 1)));
        }
        i = i + 1;
    }
    proof {
        assert(pmodels.take(pieces@.len() as int) =~= pmodels);
    }
    toks
}

/// Whether the resource carries this parsed token.
fn tag_token_matches_exec(r: &Resource, key: &String, value: &String) -> (b: bool)
    ensures
        b == tag_token_matches(r@, (key@, value@)),
{
    let mut i: usize = 0;
    while i < r.tags.len()
        invariant
            i <= r.tags@.len(),
            r@.tags.len() == r.tags@.len(),
            forall|j: int|
                0 <= j < i ==> !((#[trigger] r@.tags[j]).key == key@ && ci_contains(
                    r@.tags[j].value,
                    value@,
                )),
        decreases r.tags.len() - i,
    {
        proof {
            assert(r@.tags[i as int] == r.tags@[i as int]@);
        }
        if crate::text::str_eq(r.tags[i].key.as_str(), key.as_str()) {
            if ci_contains_str(r.tags[i].value.as_str(), value.as_str()) {
                return true;
            }
        }
        i = i + 1;
    }
    false
}

/// Whether the resource passes the tags filter string.
fn matches_tags_exec(r: &Resource, t: &str) -> (b: bool)
    ensures
        b == matches_tags(r@, t@),
{
    let toks = parse_tag_tokens(t);
    let ghost tmodels = toks@.map_values(|p: (String, String)| (p.0@, p.1@));
    if toks.len() == 0 {
        return true;
    }
    let mut k: usize = 0;
    while k < toks.len()
        invariant
            k <= toks@.len(),
            tmodels == toks@.map_values(|p: (String, String)| (p.0@, p.1@)),
            tag_tokens(t@) == tmodels,
            forall|j: int| 0 <= j < k ==> !tag_token_matches(r@, #[trigger] tmodels[j]),
        decreases toks.len() - k,
    {
        proof {
            assert(tmodels[k as int] == (toks@[k as int].0@, toks@[k as int].1@));
        }
        if tag_token_matches_exec(r, &toks[k].0, &toks[k].1) {
            return true;
        }
        k = k + 1;
    }
    false
}

/// Whether the resource matches the free-text search term.
fn matches_search_exec(r: &Resource, term: &str) -> (b: bool)
    ensures
        b == matches_search(r@, term@),
{
    if ci_contains_str(r.name.as_str(), term) {
        return true;
    }
    if ci_contains_str(r.resource_type.as_str(), term) {
        return true;
    }
    if ci_contains_str(opt_as_str(&r.azure_id), term) {
        return true;
    }
    if ci_contains_str(r.location.as_str(), term) {
        return true;
    }
    if ci_contains_str(opt_as_str(&r.vendor), term) {
        return true;
    }
    if ci_contains_str(opt_as_str(&r.environment), term) {
        return true;
    }
    false
}

/// Whether the resource matches every present predicate of the filter set.
pub fn resource_matches(r: &Resource, f: &ResourceFilters) -> (b: bool)
    ensures
        b == matches_filters(r@, f@),
{
    if let Some(t) = &f.resource_type {
        if !ci_contains_str(r.resource_type.as_str(), t.as_str()) {
            return false;
        }
    }
    if let Some(l) = &f.location {
        if !crate::text::str_eq(r.location.as_str(), l.as_str()) {
            return false;
        }
    }
    if let Some(e) = &f.environment {
        match &r.environment {
            Some(re) => if !crate::text::str_eq(re.as_str(), e.as_str()) {
                return false;
            },
            None => {
                return false;
            },
        }
    }
    if let Some(v) = &f.vendor {
        match &r.vendor {
            Some(rv) => if !crate::text::str_eq(rv.as_str(), v.as_str()) {
                return false;
            },
            None => {
                return false;
            },
        }
    }
    if let Some(s) = f.subscription_id {
        if r.subscription_id != s {
            return false;
        }
    }
    if let Some(g) = f.resource_group_id {
        if r.resource_group_id != g {
            return false;
        }
    }
    if let Some(t) = &f.search {
        if !matches_search_exec(r, t.as_str()) {
            return false;
        }
    }
    if let Some(t) = &f.tags {
        if !matches_tags_exec(r, t.as_str()) {
            return false;
        }
    }
    true
}

/// The resources that match a filter set, in list order.
pub open spec fn matched_models(ms: Seq<ResourceModel>, f: FiltersModel) -> Seq<ResourceModel> {
    ms.filter(|m: ResourceModel| matches_filters(m, f))
}

/// The relevance bucket of a name against an already-folded search term:
/// 1 for an exact match, 2 for a prefix, 3 for a substring, 4 otherwise.
pub open spec fn relevance_bucket(name: Seq<char>, term_lower: Seq<char>) -> int {
    if lower_of(name) == term_lower {
        1
    } else if seq_starts_with(lower_of(name), term_lower) {
        2
    } else if seq_contains(lower_of(name), term_lower) {
        3
    } else {
        4
    }
}

/// Computes the relevance bucket of a name against a folded term.
pub fn relevance_bucket_exec(name: &str, term_lower: &Vec<char>) -> (b: u8)
    ensures
        b as int == relevance_bucket(name@, term_lower@),
{
    let nl = lowercase(name);
    let nc = chars_vec(nl.as_str());
    if eq_chars(&nc, term_lower) {
        1
    } else if starts_with_chars(&nc, term_lower) {
        2
    } else if contains_chars(&nc, term_lower) {
        3
    } else {
        4
    }
}

} // verus!
