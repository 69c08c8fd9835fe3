//! Tests of the snapshot codec, the cache rules, the fetch outcome and the
//! text helpers.

use ratcrate::cache::{
    choose_data_source, filter_retracted, is_cache_stale, parse_cache_document,
    primary_fetch_outcome, render_cache_document, DataPlan, CACHE_MAX_AGE_SECS,
};
use ratcrate::codec::{decode_snapshot, encode_snapshot};
use ratcrate::state::App;
use ratcrate::stats::{repeat_char, stats_summary, top_by_downloads, wrap_description};
use ratcrate::text::format_number;
use ratcrate::types::{
    AppError, CratePackage, CratesData, Metadata, RatatuiDependency, Statistics,
};

fn full_pkg(name: &str, downloads: u64, retracted: Option<bool>) -> CratePackage {
    CratePackage {
        id: format!("id-{}", name),
        name: name.to_string(),
        description: "a \"quoted\" desc with \\ and \n newline, tab \t and ünïcode".to_string(),
        version: "1.2.3".to_string(),
        created_at: "2023-11-05T12:00:00Z".to_string(),
        updated_at: "2024-06-01T08:30:00Z".to_string(),
        downloads,
        recent_downloads: downloads / 10,
        categories: Some(vec!["tui".to_string(), "widgets, more".to_string()]),
        repository: Some(format!("https://example.invalid/{}", name)),
        homepage: None,
        documentation: Some("https://docs.example.invalid".to_string()),
        ratatui_dependency: RatatuiDependency {
            version: "0.29".to_string(),
            optional: true,
            dev_dependency: false,
        },
        is_core_library: downloads > 1000,
        retracted,
    }
}

fn meta(total: usize, core: usize, community: usize) -> Metadata {
    Metadata {
        version: "1".to_string(),
        generated_at: "now".to_string(),
        total_crates: total,
        core_libraries: core,
        community_packages: community,
        data_sources: vec![],
        statistics: Statistics { etag_cache_hits: 1, etag_cache_misses: 2 },
    }
}

#[test]
fn snapshot_round_trip_reproduces_the_list() {
    let pkgs = vec![
        full_pkg("ratatui", 5000, None),
        full_pkg("tui-input", 800, Some(false)),
        full_pkg("odd \u{1}control", 3, Some(true)),
    ];
    let doc = encode_snapshot(&pkgs);
    let back = decode_snapshot(doc.as_str()).expect("a written snapshot reads back");
    assert_eq!(back, pkgs);
}

#[test]
fn empty_snapshot_round_trips() {
    let pkgs: Vec<CratePackage> = vec![];
    let doc = encode_snapshot(&pkgs);
    assert_eq!(doc, "[]");
    let back = decode_snapshot(doc.as_str()).expect("the empty snapshot reads back");
    assert_eq!(back, pkgs);
}

#[test]
fn malformed_documents_are_rejected() {
    assert_eq!(decode_snapshot(""), None);
    assert_eq!(decode_snapshot("["), None);
    assert_eq!(decode_snapshot("{}"), None);
    assert_eq!(decode_snapshot("[]x"), None);
    assert_eq!(decode_snapshot("[[]]"), None);
    let pkgs = vec![full_pkg("a", 1, None)];
    let mut doc = encode_snapshot(&pkgs);
    doc.push('x');
    assert_eq!(decode_snapshot(doc.as_str()), None);
}

#[test]
fn cache_round_trip_before_freshness_window() {
    // the cache file is written with the fetched snapshot
    let pkgs = vec![full_pkg("ratatui", 5000, None), full_pkg("tui-logger", 90, None)];
    let written = render_cache_document(&pkgs);
    // before the freshness window elapses, the cache is served
    assert!(!is_cache_stale(true, CACHE_MAX_AGE_SECS));
    assert_eq!(choose_data_source(false, true, 10), DataPlan::LoadCache);
    let reloaded = parse_cache_document(written.as_str()).expect("the cache document reads back");
    assert_eq!(reloaded, pkgs);
}

#[test]
fn absent_cache_triggers_download_and_rewrite() {
    // cache file absent: the fetch path runs
    assert!(is_cache_stale(false, 0));
    assert_eq!(choose_data_source(false, false, 0), DataPlan::Download);
    // a stale file and a forced refresh also download
    assert_eq!(choose_data_source(false, true, CACHE_MAX_AGE_SECS + 1), DataPlan::Download);
    assert_eq!(choose_data_source(true, true, 0), DataPlan::Download);
    // the fetched snapshot is what the rewritten cache file holds
    let fetched = vec![full_pkg("ratatui", 5000, None)];
    let outcome = primary_fetch_outcome(true, 200, Some(fetched.clone()), &String::new());
    let snapshot = outcome.expect("a parsed body yields the snapshot");
    assert_eq!(snapshot, fetched);
    let written = render_cache_document(&snapshot);
    assert_eq!(parse_cache_document(written.as_str()), Some(snapshot));
}

#[test]
fn fetch_errors_carry_diagnostics() {
    let raw = "<html>not json</html>".to_string();
    let r = primary_fetch_outcome(false, 503, None, &raw);
    assert_eq!(r, Err(AppError::NetworkError("Server returned status: 503".to_string())));
    let r = primary_fetch_outcome(true, 200, None, &raw);
    assert_eq!(
        r,
        Err(AppError::ParseError(
            "Failed to parse downloaded data: <html>not json</html>".to_string()
        ))
    );
    let e = AppError::NetworkError("Server returned status: 503".to_string());
    assert_eq!(e.message(), "Network error: Server returned status: 503");
    assert_eq!(AppError::Busy.message(), "A job of this category is already running");
    assert_eq!(AppError::AlreadyInstalled.message(), "Already installed in a sandbox");
    assert_eq!(
        AppError::InstallFailure("permission denied".to_string()).message(),
        "Install failed: permission denied"
    );
}

#[test]
fn retracted_records_are_removed_from_the_snapshot() {
    let fetched = vec![
        full_pkg("keep-a", 10, None),
        full_pkg("drop-b", 20, Some(true)),
        full_pkg("keep-c", 30, Some(false)),
    ];
    let kept = filter_retracted(fetched);
    let names: Vec<&str> = kept.iter().map(|c| c.name.as_str()).collect();
    assert_eq!(names, vec!["keep-a", "keep-c"]);
}

#[test]
fn format_number_renders_compactly() {
    assert_eq!(format_number(0), "0");
    assert_eq!(format_number(532), "532");
    assert_eq!(format_number(999), "999");
    assert_eq!(format_number(1_000), "1.0K");
    assert_eq!(format_number(15_300), "15.3K");
    assert_eq!(format_number(999_949), "999.9K");
    assert_eq!(format_number(1_234_567), "1.2M");
    assert_eq!(format_number(2_550_000), "2.6M");
}

#[test]
fn stats_summary_computes_exact_numbers() {
    let crates = vec![
        full_pkg("a", 4000, None),
        full_pkg("b", 1500, None),
        full_pkg("c", 500, None),
        full_pkg("d", 1, None),
    ];
    let m = meta(4, 2, 2);
    let s = stats_summary(&crates, &m);
    assert_eq!(s.total, 4);
    assert_eq!(s.core, 2);
    assert_eq!(s.community, 2);
    assert_eq!(s.total_downloads, 6001);
    assert_eq!(s.avg_downloads, 1500);
    assert_eq!(s.total_weekly, 400 + 150 + 50 + 0);
    assert_eq!(s.core_pct, 50);
    assert_eq!(s.community_pct, 50);
    let top = top_by_downloads(&crates, 3);
    assert_eq!(top, vec![0, 1, 2]);
}

#[test]
fn distribution_bar_repeats_the_block() {
    let bar = repeat_char('#', 5);
    assert_eq!(bar, "#####");
    assert_eq!(repeat_char('x', 0), "");
}

#[test]
fn descriptions_wrap_greedily() {
    let text = "alpha beta gamma delta".to_string();
    let lines = wrap_description(&text, 11);
    assert_eq!(lines, vec!["alpha beta", "gamma delta"]);
    let lines = wrap_description(&"short".to_string(), 60);
    assert_eq!(lines, vec!["short"]);
    let lines = wrap_description(&"".to_string(), 60);
    assert!(lines.is_empty());
}

#[test]
fn app_state_serves_stats_inputs() {
    let data = CratesData {
        metadata: meta(2, 1, 1),
        crates: vec![full_pkg("x", 2000, None), full_pkg("y", 10, None)],
    };
    let app = App::new(data);
    let s = stats_summary(&app.all_crates, &app.metadata);
    assert_eq!(s.total_downloads, 2010);
    assert_eq!(s.core_pct, 50);
}
