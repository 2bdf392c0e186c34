use ginkgo_dashboard::data::git::{
    bench_file_candidates, build_manifest_lookup, commit_info_from_walk, format_git_time, manifest_to_commits,
    match_manifest, resolve_bench_file, subject_line, ManifestEntry, ManifestLookup, GIT_PROGRESS_BATCH_SIZE,
};
use ginkgo_dashboard::data::state::{batch_progress, PROGRESS_BATCH_SIZE};

/// Prefix-match test — a 40-char git SHA should find the matching 7-char
/// manifest key and return its path.
#[test]
fn test_sha_prefix_matching() {
    let mut lookup = ManifestLookup::new();
    lookup.insert("abcdef0".to_string(), "/bench/bench_abcdef0.json".to_string());
    lookup.insert("1234567".to_string(), "/bench/bench_1234567.json".to_string());

    let full_sha = "abcdef0123456789abcdef0123456789abcdef01";
    let hit = match_manifest(full_sha, &lookup).expect("should resolve via prefix");
    assert_eq!(hit, "/bench/bench_abcdef0.json".to_string());

    let miss = match_manifest("deadbeef0000000000000000000000000000beef", &lookup);
    assert!(miss.is_none(), "no matching prefix should return None");
}

/// `manifest_to_commits`: pure conversion from parsed manifest entries
/// to `CommitInfo` rows.
#[test]
fn test_manifest_to_commits() {
    let entries = vec![
        ManifestEntry {
            sha: "abcdef0123456789abcdef0123456789abcdef01".to_string(),
            author: "Dev <dev@example.com>".to_string(),
            date: "2026-01-01T00:00:00Z".to_string(),
            message: "first".to_string(),
            file: "bench_abcdef0.json".to_string(),
        },
        ManifestEntry {
            sha: "1234567".to_string(),
            author: "Other <other@example.com>".to_string(),
            date: "2026-01-02T00:00:00Z".to_string(),
            message: "second".to_string(),
            file: "bench_1234567.json".to_string(),
        },
    ];

    let commits = manifest_to_commits(entries);
    assert_eq!(commits.len(), 2);

    // Long SHA gets truncated to 7 chars; short SHA is preserved whole.
    assert_eq!(commits[0].sha.len(), 40);
    assert_eq!(commits[0].short_sha, "abcdef0");
    assert_eq!(commits[1].sha, "1234567");
    assert_eq!(commits[1].short_sha, "1234567");

    // Field passthrough.
    assert_eq!(commits[0].author, "Dev <dev@example.com>");
    assert_eq!(commits[0].date, "2026-01-01T00:00:00Z");
    assert_eq!(commits[0].message, "first");

    // bench_file is populated with the benchmarks/<file> prefix.
    assert_eq!(commits[0].bench_file, Some("benchmarks/bench_abcdef0.json".to_string()));
    assert_eq!(commits[1].bench_file, Some("benchmarks/bench_1234567.json".to_string()));
}

#[test]
fn short_shas_shorter_than_seven_are_kept_whole() {
    let commits = manifest_to_commits(vec![ManifestEntry {
        sha: "abc".to_string(),
        author: String::new(),
        date: String::new(),
        message: String::new(),
        file: "f.json".to_string(),
    }]);
    assert_eq!(commits[0].short_sha, "abc");
}

#[test]
fn exact_manifest_key_wins_and_empty_key_never_matches() {
    let mut lookup = ManifestLookup::new();
    lookup.insert("".to_string(), "/empty".to_string());
    assert!(match_manifest("abc", &lookup).is_none());
    lookup.insert("abc".to_string(), "/exact".to_string());
    assert_eq!(match_manifest("abc", &lookup).as_deref(), Some("/exact"));
    lookup.insert("abc".to_string(), "/replaced".to_string());
    assert_eq!(lookup.len(), 2);
    assert_eq!(lookup.get("abc").as_deref(), Some("/replaced"));
}

#[test]
fn manifest_lookup_and_candidates() {
    let entries = vec![ManifestEntry {
        sha: "abcdef0".to_string(),
        author: "a".to_string(),
        date: "d".to_string(),
        message: "m".to_string(),
        file: "bench_abcdef0.json".to_string(),
    }];
    let lookup = build_manifest_lookup("/repo/benchmarks", &entries);
    assert_eq!(lookup.get("abcdef0").as_deref(), Some("/repo/benchmarks/bench_abcdef0.json"));

    let full = "abcdef0123456789abcdef0123456789abcdef01";
    let cands = bench_file_candidates(full, "abcdef0", "/repo/benchmarks", Some(&lookup));
    assert_eq!(
        cands,
        vec!["/repo/benchmarks/bench_abcdef0.json".to_string(), "/repo/benchmarks/bench_abcdef0.json".to_string()]
    );
    let none = bench_file_candidates("1234567aaaa", "1234567", "/repo/benchmarks", None);
    assert_eq!(none, vec!["/repo/benchmarks/bench_1234567.json".to_string()]);

    // The first file that exists wins; none existing gives None.
    let c = vec!["/a".to_string(), "/b".to_string()];
    assert_eq!(resolve_bench_file(&c, &vec![false, true]).as_deref(), Some("/b"));
    assert_eq!(resolve_bench_file(&c, &vec![true, true]).as_deref(), Some("/a"));
    assert_eq!(resolve_bench_file(&c, &vec![false, false]), None);
}

#[test]
fn subject_lines_are_first_lines_trimmed() {
    assert_eq!(subject_line(b"  Fix bug  \nlonger body\n"), "Fix bug");
    assert_eq!(subject_line(b"single"), "single");
    assert_eq!(subject_line(b"\nsecond"), "");
    assert_eq!(subject_line(b"caf\xe9 au lait\nx"), "caf\u{FFFD} au lait");
}

#[test]
fn git_times_are_rfc3339_utc() {
    assert_eq!(format_git_time(0), "1970-01-01T00:00:00Z");
    assert_eq!(format_git_time(1431648000), "2015-05-15T00:00:00Z");
    assert_eq!(format_git_time(-86400), "1969-12-31T00:00:00Z");
    assert_eq!(format_git_time(i64::MAX), "unix:9223372036854775807");
    assert_eq!(format_git_time(i64::MIN), "unix:-9223372036854775808");
}

#[test]
fn walked_commit_rows() {
    let c = commit_info_from_walk(
        "abcdef0123456789abcdef0123456789abcdef01".to_string(),
        b"Dev",
        b"dev@example.com",
        1767225600,
        b"first commit\n\nbody ignored",
        Some("/repo/benchmarks/bench_abcdef0.json".to_string()),
    );
    assert_eq!(c.short_sha, "abcdef0");
    assert_eq!(c.author, "Dev <dev@example.com>");
    assert_eq!(c.date, "2026-01-01T00:00:00Z");
    assert_eq!(c.message, "first commit");
    assert_eq!(c.bench_file.as_deref(), Some("/repo/benchmarks/bench_abcdef0.json"));
}

#[test]
fn progress_is_reported_per_batch() {
    assert!(batch_progress(15, PROGRESS_BATCH_SIZE, "Parsing").is_none());
    let p = batch_progress(32, PROGRESS_BATCH_SIZE, "Parsing").expect("multiple of the batch");
    assert_eq!((p.current, p.total, p.phase.as_str()), (32, None, "Parsing"));
    assert!(batch_progress(33, GIT_PROGRESS_BATCH_SIZE, "Walking commits").is_none());
    assert!(batch_progress(64, GIT_PROGRESS_BATCH_SIZE, "Walking commits").is_some());
}
