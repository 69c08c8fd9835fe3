//! Cache and fetch rules: when the local cache file is fresh enough to
//! serve, which source a data request uses, what the primary fetch job
//! yields for each transport outcome, and the cache document itself. The
//! network and the file system stay outside; they hand in plain values —
//! the file's age, the response status, the parsed body — and take the
//! document text back.

use vstd::prelude::*;
use vstd::string::StringExecFns;

use crate::codec::{decode_snapshot, enc_doc, encode_snapshot, pkg_views, sp_doc};
use crate::text::{dec_str, u64_to_string};
use crate::types::{AppError, CratePackage};

verus! {

/// How many days the cache file may serve before a refresh is required.
pub const CACHE_MAX_AGE_DAYS: u64 = 7;

/// The freshness window in seconds.
pub const CACHE_MAX_AGE_SECS: u64 = CACHE_MAX_AGE_DAYS * 24 * 3600;

/// Whether the cache must be refreshed: it is stale when the file is
/// absent, or older than the freshness window.
pub fn is_cache_stale(file_exists: bool, age_secs: u64) -> (b: bool)
    ensures
        b == (!file_exists || age_secs > CACHE_MAX_AGE_SECS),
{
    !file_exists || age_secs > CACHE_MAX_AGE_SECS
}

/// Where a data request is served from.
#[derive(Debug, Clone, Copy, PartialEq, Eq, Structural)]
pub enum DataPlan {
    /// Fetch from the network, then rewrite the cache file.
    Download,
    /// Read the fresh cache file.
    LoadCache,
}

/// Which source serves a data request: the network when a refresh is
/// forced or the cache is stale, the cache file otherwise. A download
/// always rewrites the cache file.
pub fn choose_data_source(force_refresh: bool, file_exists: bool, age_secs: u64) -> (p: DataPlan)
    ensures
        (p == DataPlan::Download) == (force_refresh || !file_exists || age_secs
            > CACHE_MAX_AGE_SECS),
        (p == DataPlan::LoadCache) == !(force_refresh || !file_exists || age_secs
            > CACHE_MAX_AGE_SECS),
{
    if force_refresh || is_cache_stale(file_exists, age_secs) {
        DataPlan::Download
    } else {
        DataPlan::LoadCache
    }
}

/// The cache document for a snapshot: the written form of the package
/// list, ready to be put on disk.
pub fn render_cache_document(pkgs: &Vec<CratePackage>) -> (r: String)
    ensures
        r@ == enc_doc(pkg_views(pkgs@)),
{
    encode_snapshot(pkgs)
}

/// Reads a cache document back into the package list, or nothing when the
/// text is not a written snapshot.
pub fn parse_cache_document(s: &str) -> (r: Option<Vec<CratePackage>>)
    ensures
        match r {
            Some(ps) => sp_doc(s@) == Some(pkg_views(ps@)),
            None => sp_doc(s@) is None,
        },
{
    decode_snapshot(s)
}

/// The records of a snapshot with the retracted ones removed, in order.
pub open spec fn spec_keep_active(s: Seq<CratePackage>) -> Seq<CratePackage>
    decreases s.len(),
{
    if s.len() == 0 {
        seq![]
    } else {
        let rest = spec_keep_active(s.drop_first());
        if s[0].spec_is_retracted() {
            rest
        } else {
            seq![s[0]] + rest
        }
    }
}

/// Removes the retracted records from a fetched snapshot, keeping the
/// order of the rest.
pub fn filter_retracted(list: Vec<CratePackage>) -> (r: Vec<CratePackage>)
    ensures
        r@ == spec_keep_active(list@),
{
    let ghost orig = list@;
    let mut v = list;
    let mut r: Vec<CratePackage> = Vec::new();
    proof {
        assert(r@ + Seq::<CratePackage>::empty() =~= r@);
    }
    while v.len() > 0
        invariant
            spec_keep_active(orig) == r@ + spec_keep_active(v@),
        decreases v@.len(),
    {
        let c = v.remove(0);
        if c.is_retracted() {
        } else {
            let ghost r0 = r@;
            r.push(c);
            proof {
                assert(r@ =~= r0 + seq![r@.last()]);
            }
        }
    }
    proof {
        assert(spec_keep_active(v@) =~= Seq::<CratePackage>::empty());
        assert(r@ + Seq::<CratePackage>::empty() =~= r@);
    }
    r
}

/// What the primary fetch job yields, from the transport outcome: a
/// non-success status is the one network error, carrying the status code;
/// an unparsable body is the one parse error, carrying the raw body to
/// diagnose with; a parsed body yields the snapshot with retracted records
/// removed.
pub fn primary_fetch_outcome(
    status_ok: bool,
    status_code: u16,
    parsed: Option<Vec<CratePackage>>,
    raw_body: &String,
) -> (r: Result<Vec<CratePackage>, AppError>)
    ensures
        match r {
            Ok(ps) => status_ok && (parsed matches Some(list) && ps@ == spec_keep_active(list@)),
            Err(e) => {
                if !status_ok {
                    e matches AppError::NetworkError(m) && m@ == "Server returned status: "@
                        + dec_str(status_code as int)
                } else {
                    parsed is None && (e matches AppError::ParseError(m) && m@
                        == "Failed to parse downloaded data: "@ + raw_body@)
                }
            },
        },
        (r is Ok) == (status_ok && parsed is Some),
{
    if !status_ok {
        let code_s = u64_to_string(status_code as u64);
        let mut e = String::from_str("Server returned status: ");
        e.append(code_s.as_str());
        return Err(AppError::NetworkError(e));
    }
    match parsed {
        Some(list) => Ok(filter_retracted(list)),
        None => {
            let mut e = String::from_str("Failed to parse downloaded data: ");
            e.append(raw_body.as_str());
            Err(AppError::ParseError(e))
        },
    }
}

} // verus!
