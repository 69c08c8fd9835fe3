//! The computed side of the presentation: the ecosystem statistics pane's
//! numbers, the top-downloads list, the distribution bars, and the word
//! wrapping of a record's description. Drawing stays outside; these
//! functions hand it exact values and lines.

use vstd::prelude::*;

use crate::codec::string_views;
use crate::query::{sort_indices_desc, spec_identity_indices, spec_sort_desc, SortKey};
use crate::state::spec_take;
use crate::text::{chars_to_string, spec_split_ws, split_ws, string_to_chars, views_of};
use crate::types::{CratePackage, Metadata};

verus! {

/// The sum of all download counters.
pub open spec fn spec_sum_downloads(s: Seq<CratePackage>) -> int
    decreases s.len(),
{
    if s.len() == 0 {
        0
    } else {
        spec_sum_downloads(s.drop_last()) + s.last().downloads
    }
}

/// The sum of all weekly download counters.
pub open spec fn spec_sum_weekly(s: Seq<CratePackage>) -> int
    decreases s.len(),
{
    if s.len() == 0 {
        0
    } else {
        spec_sum_weekly(s.drop_last()) + s.last().recent_downloads
    }
}

/// Prefix sums never exceed the whole sum.
proof fn lemma_sum_prefix(s: Seq<CratePackage>, i: int)
    requires
        0 <= i <= s.len(),
    ensures
        spec_sum_downloads(s.take(i)) <= spec_sum_downloads(s),
        spec_sum_weekly(s.take(i)) <= spec_sum_weekly(s),
        spec_sum_downloads(s.take(i)) >= 0,
        spec_sum_weekly(s.take(i)) >= 0,
    decreases s.len() - i,
{
    if i == s.len() {
        assert(s.take(i) =~= s);
        lemma_sum_nonneg(s);
    } else {
        lemma_sum_prefix(s, i + 1);
        lemma_sum_nonneg(s.take(i));
        assert(s.take(i + 1).drop_last() =~= s.take(i));
        assert(spec_sum_downloads(s.take(i + 1)) == spec_sum_downloads(s.take(i))
            + s[i].downloads);
        assert(spec_sum_weekly(s.take(i + 1)) == spec_sum_weekly(s.take(i))
            + s[i].recent_downloads);
    }
}

/// Sums of counters are never negative.
proof fn lemma_sum_nonneg(s: Seq<CratePackage>)
    ensures
        spec_sum_downloads(s) >= 0,
        spec_sum_weekly(s) >= 0,
    decreases s.len(),
{
    if s.len() > 0 {
        lemma_sum_nonneg(s.drop_last());
    }
}

/// The numbers of the statistics pane.
#[derive(Debug, Clone, Copy, PartialEq, Eq, Structural)]
pub struct StatsSummary {
    pub total: usize,
    pub core: usize,
    pub community: usize,
    pub total_downloads: u64,
    pub avg_downloads: u64,
    pub total_weekly: u64,
    pub core_pct: u64,
    pub community_pct: u64,
}

/// Computes the statistics pane's numbers: the record counts, the total
/// and average download counters, the weekly total, and the core share of
/// the whole, in integer percent.
pub fn stats_summary(crates: &Vec<CratePackage>, metadata: &Metadata) -> (r: StatsSummary)
    requires
        crates@.len() > 0,
        crates@.len() <= u64::MAX / 100,
        metadata.core_libraries <= crates@.len(),
        spec_sum_downloads(crates@) <= u64::MAX,
        spec_sum_weekly(crates@) <= u64::MAX,
    ensures
        r.total == crates@.len(),
        r.core == metadata.core_libraries,
        r.community == metadata.community_packages,
        r.total_downloads == spec_sum_downloads(crates@),
        r.avg_downloads == spec_sum_downloads(crates@) / crates@.len() as int,
        r.total_weekly == spec_sum_weekly(crates@),
        r.core_pct == metadata.core_libraries * 100 / crates@.len() as int,
        r.community_pct == 100 - metadata.core_libraries * 100 / crates@.len() as int,
{
    let n = crates.len();
    let mut dl: u64 = 0;
    let mut wk: u64 = 0;
    let mut i: usize = 0;
    proof {
        assert(crates@.take(0) =~= Seq::<CratePackage>::empty());
    }
    while i < n
        invariant
            n == crates@.len(),
            i <= n,
            dl == spec_sum_downloads(crates@.take(i as int)),
            wk == spec_sum_weekly(crates@.take(i as int)),
            spec_sum_downloads(crates@) <= u64::MAX,
            spec_sum_weekly(crates@) <= u64::MAX,
        decreases n - i,
    {
        proof {
            lemma_sum_prefix(crates@, i + 1);
            assert(crates@.take(i + 1).drop_last() =~= crates@.take(i as int));
            assert(crates@.take(i + 1).last() == crates@[i as int]);
        }
        dl = dl + crates[i].downloads;
        wk = wk + crates[i].recent_downloads;
        i += 1;
    }
    proof {
        assert(crates@.take(n as int) =~= crates@);
    }
    let core = metadata.core_libraries;
    let pct: u64 = (core as u64) * 100 / (n as u64);
    proof {
        assert(core * 100 / n as int <= 100) by {
            assert(core * 100 <= n * 100) by (nonlinear_arith)
                requires
                    core <= n,
            ;
            assert(n * 100 / n as int == 100) by (nonlinear_arith)
                requires
                    n > 0,
            ;
            assert(core * 100 / n as int <= n * 100 / n as int) by (nonlinear_arith)
                requires
                    core * 100 <= n * 100,
                    n > 0,
            ;
        };
    }
    StatsSummary {
        total: n,
        core,
        community: metadata.community_packages,
        total_downloads: dl,
        avg_downloads: dl / (n as u64),
        total_weekly: wk,
        core_pct: pct,
        community_pct: 100 - pct,
    }
}

/// The indices of the most-downloaded records, descending and stable, the
/// first `n` of them.
pub fn top_by_downloads(crates: &Vec<CratePackage>, n: usize) -> (r: Vec<usize>)
    ensures
        r@ == spec_take(
            spec_sort_desc(crates@, spec_identity_indices(crates@.len() as int), SortKey::Downloads),
            n as int,
        ),
        forall|m: int| 0 <= m < r@.len() ==> r@[m] < crates@.len(),
{
    let mut idx = sort_indices_desc(crates, SortKey::Downloads);
    idx.truncate(n);
    idx
}

/// A string of one character repeated.
pub fn repeat_char(c: char, n: usize) -> (r: String)
    ensures
        r@ == Seq::new(n as nat, |i: int| c),
{
    let mut out: Vec<char> = Vec::new();
    let mut i: usize = 0;
    while i < n
        invariant
            i <= n,
            out@ == Seq::new(i as nat, |k: int| c),
        decreases n - i,
    {
        out.push(c);
        proof {
            assert(out@ =~= Seq::new((i + 1) as nat, |k: int| c));
        }
        i += 1;
    }
    chars_to_string(&out)
}

/// Greedy word wrap: the completed lines so far, and the line being built,
/// after the given words are placed against a width.
pub open spec fn spec_wrap_acc(words: Seq<Seq<char>>, cur: Seq<char>, width: int) -> (
    Seq<Seq<char>>,
    Seq<char>,
)
    decreases words.len(),
{
    if words.len() == 0 {
        (seq![], cur)
    } else {
        let w = words[0];
        if cur.len() + w.len() + 1 > width {
            let rest = spec_wrap_acc(words.drop_first(), w, width);
            (seq![cur] + rest.0, rest.1)
        } else {
            let cur2 = if cur.len() == 0 {
                w
            } else {
                cur + seq![' '] + w
            };
            spec_wrap_acc(words.drop_first(), cur2, width)
        }
    }
}

/// The lines of a description wrapped against a width: words are packed
/// greedily, and a word that does not fit starts the next line.
pub open spec fn spec_wrap(text: Seq<char>, width: int) -> Seq<Seq<char>> {
    let r = spec_wrap_acc(spec_split_ws(text), seq![], width);
    if r.1.len() == 0 {
        r.0
    } else {
        r.0.push(r.1)
    }
}

/// Wraps a description into lines, exactly as `spec_wrap` says.
pub fn wrap_description(text: &String, width: usize) -> (r: Vec<String>)
    ensures
        string_views(r@) == spec_wrap(text@, width as int),
{
    let chars = string_to_chars(text.as_str());
    let words = split_ws(&chars);
    let ghost wviews = spec_split_ws(text@);
    let ghost target = spec_wrap_acc(wviews, seq![], width as int);
    let n = words.len();
    let mut lines: Vec<String> = Vec::new();
    let mut cur: Vec<char> = Vec::new();
    let mut i: usize = 0;
    proof {
        assert(wviews.skip(0) =~= wviews);
        assert(cur@ =~= Seq::<char>::empty());
        assert(string_views(lines@) =~= Seq::<Seq<char>>::empty());
        assert(Seq::<Seq<char>>::empty() + spec_wrap_acc(wviews.skip(0), cur@, width as int).0
            =~= spec_wrap_acc(wviews.skip(0), cur@, width as int).0);
    }
    while i < n
        invariant
            n == words@.len(),
            i <= n,
            wviews == views_of(words@),
            target == spec_wrap_acc(wviews, seq![], width as int),
            target.0 == string_views(lines@) + spec_wrap_acc(
                wviews.skip(i as int),
                cur@,
                width as int,
            ).0,
            target.1 == spec_wrap_acc(wviews.skip(i as int), cur@, width as int).1,
        decreases n - i,
    {
        let w = &words[i];
        proof {
            assert(wviews.skip(i as int)[0] == words@[i as int]@);
            assert(wviews.skip(i as int).drop_first() =~= wviews.skip(i + 1));
        }
        let cl = cur.len();
        let wl = w.len();
        if cl >= width || wl > width - cl - 1 {
            assert(cur@.len() + w@.len() + 1 > width);
            let done = chars_to_string(&cur);
            let ghost lv = string_views(lines@);
            let ghost dv = done@;
            lines.push(done);
            proof {
                assert(string_views(lines@) =~= lv.push(dv));
            }
            let mut fresh: Vec<char> = Vec::new();
            let mut k: usize = 0;
            while k < w.len()
                invariant
                    k <= w@.len(),
                    fresh@ == w@.take(k as int),
                decreases w@.len() - k,
            {
                fresh.push(w[k]);
                assert(fresh@ =~= w@.take(k + 1));
                k += 1;
            }
            proof {
                assert(fresh@ =~= w@);
            }
            cur = fresh;
            proof {
                let rest = spec_wrap_acc(wviews.skip(i + 1), cur@, width as int);
                assert(spec_wrap_acc(wviews.skip(i as int), dv, width as int) == (
                seq![dv] + rest.0, rest.1));
                assert(lv.push(dv) + rest.0 =~= lv + (seq![dv] + rest.0));
                assert(target.0 == string_views(lines@) + rest.0);
                assert(target.1 == rest.1);
            }
        } else {
            let ghost cur_entry = cur@;
            if cur.len() > 0 {
                cur.push(' ');
            }
            let mut k: usize = 0;
            let ghost cur0 = cur@;
            while k < w.len()
                invariant
                    k <= w@.len(),
                    cur@ == cur0 + w@.take(k as int),
                decreases w@.len() - k,
            {
                cur.push(w[k]);
                assert(cur@ =~= cur0 + w@.take(k + 1));
                k += 1;
            }
            proof {
                assert(cur@ =~= cur0 + w@);
                if cur_entry.len() == 0 {
                    assert(cur@ =~= w@);
                } else {
                    assert(cur0 =~= cur_entry + seq![' ']);
                    assert(cur@ =~= cur_entry + seq![' '] + w@);
                }
                assert(spec_wrap_acc(wviews.skip(i as int), cur_entry, width as int)
                    == spec_wrap_acc(wviews.skip(i + 1), cur@, width as int));
            }
        }
        i += 1;
    }
    proof {
        assert(wviews.skip(n as int) =~= Seq::<Seq<char>>::empty());
        assert(string_views(lines@) + Seq::<Seq<char>>::empty() =~= string_views(lines@));
    }
    if cur.len() > 0 {
        let done = chars_to_string(&cur);
        let ghost lv = string_views(lines@);
        let ghost dv = done@;
        lines.push(done);
        proof {
            assert(string_views(lines@) =~= lv.push(dv));
        }
    }
    lines
}

} // verus!
