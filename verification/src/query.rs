//! Filtering and ordering of the package list. The records themselves are
//! held once, by the application state; views select and order them through
//! index vectors, so a snapshot is never copied.

use vstd::prelude::*;
use vstd::string::StrSliceExecFns;

use crate::text::{
    contains_chars, lex_le, lex_le_chars, lower_of, lowercase, spec_contains, string_to_chars,
};
use crate::types::CratePackage;

verus! {

/// The keys a package list can be ordered by, each descending.
#[derive(Debug, Clone, Copy, PartialEq, Eq, Structural)]
pub enum SortKey {
    Downloads,
    Recent,
    Created,
}

/// Whether record `i` ranks at or below record `j` under `k`: a smaller or
/// equal download count, or an older-or-equal creation time.
pub open spec fn key_le_at(all: Seq<CratePackage>, i: usize, j: usize, k: SortKey) -> bool {
    match k {
        SortKey::Downloads => all[i as int].downloads <= all[j as int].downloads,
        SortKey::Recent => all[i as int].recent_downloads <= all[j as int].recent_downloads,
        SortKey::Created => lex_le(all[i as int].created_at@, all[j as int].created_at@),
    }
}

/// Executable form of `key_le_at`.
fn key_le_exec(all: &Vec<CratePackage>, i: usize, j: usize, k: SortKey) -> (r: bool)
    requires
        i < all@.len(),
        j < all@.len(),
    ensures
        r == key_le_at(all@, i, j, k),
{
    match k {
        SortKey::Downloads => all[i].downloads <= all[j].downloads,
        SortKey::Recent => all[i].recent_downloads <= all[j].recent_downloads,
        SortKey::Created => {
            let a = string_to_chars(all[i].created_at.as_str());
            let b = string_to_chars(all[j].created_at.as_str());
            lex_le_chars(&a, &b)
        },
    }
}

/// Index `c` inserted into an already-ordered index sequence, descending
/// under `k`, after every index it does not outrank — so records inserted
/// later never overtake equal-ranked ones, and the order is stable.
pub open spec fn spec_insert_desc(
    all: Seq<CratePackage>,
    c: usize,
    s: Seq<usize>,
    k: SortKey,
) -> Seq<usize>
    decreases s.len(),
{
    if s.len() == 0 {
        seq![c]
    } else if !key_le_at(all, c, s[0], k) {
        seq![c] + s
    } else {
        seq![s[0]] + spec_insert_desc(all, c, s.drop_first(), k)
    }
}

/// The index sequence stably sorted descending under `k`: each index in
/// turn inserted into the sorted order of those before it.
pub open spec fn spec_sort_desc(
    all: Seq<CratePackage>,
    s: Seq<usize>,
    k: SortKey,
) -> Seq<usize>
    decreases s.len(),
{
    if s.len() == 0 {
        seq![]
    } else {
        spec_insert_desc(all, s.last(), spec_sort_desc(all, s.drop_last(), k), k)
    }
}

/// Inserting at the first position whose index is outranked matches
/// `spec_insert_desc`.
proof fn lemma_insert_desc_at(all: Seq<CratePackage>, c: usize, s: Seq<usize>, k: SortKey, j: int)
    requires
        0 <= j <= s.len(),
        forall|m: int| 0 <= m < j ==> key_le_at(all, c, s[m], k),
        j < s.len() ==> !key_le_at(all, c, s[j], k),
    ensures
        spec_insert_desc(all, c, s, k) == s.insert(j, c),
    decreases s.len(),
{
    if s.len() == 0 {
        assert(spec_insert_desc(all, c, s, k) =~= s.insert(0, c));
    } else if !key_le_at(all, c, s[0], k) {
        assert(j == 0);
        assert(seq![c] + s =~= s.insert(0, c));
    } else {
        lemma_insert_desc_at(all, c, s.drop_first(), k, j - 1);
        assert(seq![s[0]] + s.drop_first().insert(j - 1, c) =~= s.insert(j, c));
    }
}

/// The identity index sequence over `n` records.
pub open spec fn spec_identity_indices(n: int) -> Seq<usize> {
    Seq::new(n as nat, |i: int| i as usize)
}

/// The indices of all records, in order.
pub fn identity_indices(n: usize) -> (r: Vec<usize>)
    ensures
        r@ == spec_identity_indices(n as int),
{
    let mut r: Vec<usize> = Vec::new();
    for i in 0..n
        invariant
            r@ == spec_identity_indices(i as int),
    {
        r.push(i);
        assert(r@ =~= spec_identity_indices(i + 1));
    }
    r
}

/// Stably sorts the identity indices of the records, descending under `k`,
/// exactly as `spec_sort_desc` says; every returned index is in range.
pub fn sort_indices_desc(all: &Vec<CratePackage>, k: SortKey) -> (r: Vec<usize>)
    ensures
        r@ == spec_sort_desc(all@, spec_identity_indices(all@.len() as int), k),
        forall|m: int| 0 <= m < r@.len() ==> r@[m] < all@.len(),
{
    let n = all.len();
    let ghost ids = spec_identity_indices(n as int);
    let mut r: Vec<usize> = Vec::new();
    proof {
        assert(ids.take(0) =~= Seq::<usize>::empty());
    }
    for idx in 0..n
        invariant
            n == all@.len(),
            ids == spec_identity_indices(n as int),
            r@ == spec_sort_desc(all@, ids.take(idx as int), k),
            forall|m: int| 0 <= m < r@.len() ==> r@[m] < n,
        decreases n - idx,
    {
        let mut j: usize = 0;
        while j < r.len() && key_le_exec(all, idx, r[j], k)
            invariant
                n == all@.len(),
                j <= r@.len(),
                forall|m: int| 0 <= m < r@.len() ==> r@[m] < n,
                idx < n,
                forall|m: int| 0 <= m < j ==> key_le_at(all@, idx, r@[m], k),
            decreases r@.len() - j,
        {
            j += 1;
        }
        proof {
            lemma_insert_desc_at(all@, idx, r@, k, j as int);
            assert(ids.take(idx + 1).drop_last() =~= ids.take(idx as int));
            assert(ids.take(idx + 1).last() == idx);
        }
        r.insert(j, idx);
    }
    proof {
        assert(ids.take(n as int) =~= ids);
    }
    r
}

/// The indices, in order, of the records a predicate keeps, looking at the
/// first `n` records.
pub open spec fn spec_filter_idx_upto(
    all: Seq<CratePackage>,
    pred: spec_fn(CratePackage) -> bool,
    n: int,
) -> Seq<usize>
    decreases n,
{
    if n <= 0 {
        seq![]
    } else {
        let rest = spec_filter_idx_upto(all, pred, n - 1);
        if pred(all[n - 1]) {
            rest.push((n - 1) as usize)
        } else {
            rest
        }
    }
}

/// The indices, in order, of the records a predicate keeps.
pub open spec fn spec_filter_idx(
    all: Seq<CratePackage>,
    pred: spec_fn(CratePackage) -> bool,
) -> Seq<usize> {
    spec_filter_idx_upto(all, pred, all.len() as int)
}

/// The indices of the core-library records, in order.
pub open spec fn spec_core_indices(all: Seq<CratePackage>) -> Seq<usize> {
    spec_filter_idx(all, |c: CratePackage| c.is_core_library)
}

/// The indices of the core-library records, in order.
pub fn filter_core_indices(all: &Vec<CratePackage>) -> (r: Vec<usize>)
    ensures
        r@ == spec_core_indices(all@),
        forall|m: int| 0 <= m < r@.len() ==> r@[m] < all@.len(),
{
    let n = all.len();
    let mut r: Vec<usize> = Vec::new();
    for i in 0..n
        invariant
            n == all@.len(),
            r@ == spec_filter_idx_upto(all@, |c: CratePackage| c.is_core_library, i as int),
            forall|m: int| 0 <= m < r@.len() ==> r@[m] < n,
    {
        if all[i].is_core_library {
            r.push(i);
        }
    }
    r
}

/// Whether a record matches a lowercased search query: the query occurs in
/// the lowercased name or in the lowercased description.
pub open spec fn crate_matches(c: CratePackage, q: Seq<char>) -> bool {
    spec_contains(lower_of(c.name@), q) || spec_contains(lower_of(c.description@), q)
}

/// The indices of the records matching a lowercased query, in order.
pub open spec fn spec_matching_indices(all: Seq<CratePackage>, q: Seq<char>) -> Seq<usize> {
    spec_filter_idx(all, |c: CratePackage| crate_matches(c, q))
}

/// The indices of the records matching a lowercased query, in order.
pub fn filter_matching_indices(all: &Vec<CratePackage>, query: &Vec<char>) -> (r: Vec<usize>)
    ensures
        r@ == spec_matching_indices(all@, query@),
        forall|m: int| 0 <= m < r@.len() ==> r@[m] < all@.len(),
{
    let n = all.len();
    let mut r: Vec<usize> = Vec::new();
    for i in 0..n
        invariant
            n == all@.len(),
            r@ == spec_filter_idx_upto(all@, |c: CratePackage| crate_matches(c, query@), i as int),
            forall|m: int| 0 <= m < r@.len() ==> r@[m] < n,
    {
        let lname = lowercase(&all[i].name);
        let ldesc = lowercase(&all[i].description);
        let nchars = string_to_chars(lname.as_str());
        let dchars = string_to_chars(ldesc.as_str());
        if contains_chars(&nchars, query) || contains_chars(&dchars, query) {
            r.push(i);
        }
    }
    r
}

} // verus!
