use ginkgo_dashboard::datagen::commit_series::{
    fake_sha, series_commit_day, series_commit_meta, series_signals, CommitMeta,
};
use ginkgo_dashboard::datagen::{bench_file_name, short_sha_of, single_commit_entry, upsert_manifest};

fn meta(sha: &str, author: &str) -> CommitMeta {
    CommitMeta {
        sha: sha.to_string(),
        author: author.to_string(),
        date: "2026-04-19T00:00:00Z".to_string(),
        message: "m".to_string(),
        file: format!("bench_{}.json", &sha[..7]),
    }
}

#[test]
fn fake_shas_are_seven_hex_digits() {
    assert_eq!(fake_sha(0, 42), "0eb954f");
    assert_eq!(fake_sha(1, 42), "0e84c32");
    assert_eq!(fake_sha(2, 42), "0f17d9d");
    assert_eq!(fake_sha(0, 0), "0eb6fed");
    assert_eq!(fake_sha(7, 9), fake_sha(7, 9));
}

#[test]
fn series_marks_regression_and_improvement() {
    assert_eq!(series_signals(2, 5), (true, false));
    assert_eq!(series_signals(0, 5), (false, true));
    assert_eq!(series_signals(0, 3), (false, false));
    assert_eq!(series_signals(1, 3), (true, false));
    let m = series_commit_meta(2, 5, 42, "2026-01-03");
    assert_eq!(m.sha, "0f17d9d");
    assert_eq!(m.file, "bench_0f17d9d.json");
    assert_eq!(m.date, "2026-01-03T00:00:00Z");
    assert_eq!(m.message, "Refactor ELL format (performance regression)");
    assert_eq!(m.author, "Jonas Weber <jonas@ginkgo.dev>");
    let i = series_commit_meta(0, 5, 42, "2026-01-01");
    assert_eq!(i.message, "Vectorize HYBRID inner loop (large speedup)");
    let o = series_commit_meta(4, 5, 42, "2026-01-05");
    assert_eq!(o.message, "Rework SELLP slice grouping");
}

#[test]
fn upsert_keeps_one_entry_per_sha_and_sorts() {
    let sha1 = "abcd123abcdef1234567890abcdef1234567890ab";
    let sha2 = "feed456abcdef1234567890abcdef1234567890ab";
    let m = upsert_manifest(Vec::new(), meta(sha2, "first"));
    let m = upsert_manifest(m, meta(sha1, "second"));
    assert_eq!(m.len(), 2);
    assert_eq!(m[0].sha, sha1);
    assert_eq!(m[1].sha, sha2);
    let m = upsert_manifest(m, meta(sha2, "third"));
    assert_eq!(m.len(), 2);
    assert_eq!(m[1].author, "third");
}

#[test]
fn upsert_is_order_independent() {
    let a = meta("aaaaaaa1111", "a");
    let b = meta("bbbbbbb2222", "b");
    let ab = upsert_manifest(upsert_manifest(Vec::new(), a.clone()), b.clone());
    let ba = upsert_manifest(upsert_manifest(Vec::new(), b), a);
    let shas = |v: &Vec<CommitMeta>| v.iter().map(|e| (e.sha.clone(), e.author.clone())).collect::<Vec<_>>();
    assert_eq!(shas(&ab), shas(&ba));
}

#[test]
fn single_commit_entries() {
    let e = single_commit_entry("abcd1234567890", None, None, None).expect("long enough");
    assert_eq!(e.file, "bench_abcd123.json");
    assert_eq!(e.author, "Unknown <unknown@example.com>");
    assert_eq!(e.date, "1970-01-01T00:00:00Z");
    let err = single_commit_entry("abc", None, None, None).err().expect("too short");
    assert_eq!(err, "--sha must be at least 7 characters, got 3 (\"abc\")");
    assert_eq!(short_sha_of("abcd1234567890").ok().as_deref(), Some("abcd123"));
    assert_eq!(bench_file_name("abcd123"), "bench_abcd123.json");
}

#[test]
fn series_days_count_from_new_year_2026() {
    assert_eq!(series_commit_day(0).as_deref(), Some("2026-01-01"));
    assert_eq!(series_commit_day(59).as_deref(), Some("2026-03-01"));
    assert_eq!(series_commit_day(365).as_deref(), Some("2027-01-01"));
    assert_eq!(series_commit_day(95_005_782).as_deref(), Some("+262142-12-31"));
    assert_eq!(series_commit_day(95_005_783), None);
    assert_eq!(series_commit_day(u64::MAX), None);
}
