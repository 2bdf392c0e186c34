use ginkgo_dashboard::data::git::CommitInfo;
use ginkgo_dashboard::data::state::{Dashboard, LoadErrorKind, LoadProgress};

fn make_commits(n: usize) -> Vec<CommitInfo> {
    (0..n)
        .map(|i| {
            let short = format!("{:07x}", i);
            CommitInfo {
                sha: format!("{short}0000000000000000000000000000000000"),
                short_sha: short,
                author: "Test <t@example.com>".to_string(),
                date: "2026-01-01T00:00:00Z".to_string(),
                message: format!("commit {i}"),
                bench_file: None,
            }
        })
        .collect()
}

#[test]
fn step_commit_clamps_at_zero() {
    let mut dash = Dashboard::new();
    dash.git.commits = make_commits(3);
    dash.git.selected_commit_idx = Some(0);
    dash.step_commit(-1);
    assert_eq!(dash.git.selected_commit_idx, Some(0));
    dash.step_commit(-5);
    assert_eq!(dash.git.selected_commit_idx, Some(0));
}

#[test]
fn step_commit_clamps_at_end() {
    let mut dash = Dashboard::new();
    dash.git.commits = make_commits(3);
    dash.git.selected_commit_idx = Some(2);
    dash.step_commit(1);
    assert_eq!(dash.git.selected_commit_idx, Some(2));
    dash.step_commit(999);
    assert_eq!(dash.git.selected_commit_idx, Some(2));
}

#[test]
fn step_commit_from_none_selects_zero_or_last() {
    let mut dash = Dashboard::new();
    dash.git.commits = make_commits(4);
    dash.git.selected_commit_idx = None;
    dash.step_commit(1);
    assert_eq!(dash.git.selected_commit_idx, Some(0));

    dash.git.selected_commit_idx = None;
    dash.step_commit(-1);
    assert_eq!(dash.git.selected_commit_idx, Some(3));
}

#[test]
fn step_commit_on_empty_is_noop() {
    let mut dash = Dashboard::new();
    assert!(dash.git.commits.is_empty());
    dash.step_commit(1);
    assert_eq!(dash.git.selected_commit_idx, None);
    dash.step_commit(-1);
    assert_eq!(dash.git.selected_commit_idx, None);
}

#[test]
fn step_commit_is_undone_by_opposite_step() {
    let mut dash = Dashboard::new();
    dash.git.commits = make_commits(10);
    dash.git.selected_commit_idx = Some(4);
    dash.step_commit(3);
    assert_eq!(dash.git.selected_commit_idx, Some(7));
    dash.step_commit(-3);
    assert_eq!(dash.git.selected_commit_idx, Some(4));
    dash.step_commit(i32::MIN);
    assert_eq!(dash.git.selected_commit_idx, Some(0));
    dash.step_commit(i32::MAX);
    assert_eq!(dash.git.selected_commit_idx, Some(9));
}

#[test]
fn prefetch_skips_when_loading() {
    let mut dash = Dashboard::new();
    dash.git.commits = make_commits(3);
    // Register bench files so the prefetch path would otherwise fire.
    for c in dash.git.commits.iter_mut() {
        c.bench_file = Some(format!("benchmarks/bench_{}.json", c.short_sha));
    }
    dash.git.selected_commit_idx = Some(1);
    dash.loading.is_loading = true;

    let load = dash.prefetch_adjacent_commits();
    // is_loading guard must short-circuit before state mutation.
    assert!(load.is_none());
    assert!(!dash.git.prefetch_in_flight);
    assert_eq!(dash.git.last_prefetch_idx, None);
}

#[test]
fn prefetch_respects_last_idx() {
    let mut dash = Dashboard::new();
    dash.git.commits = make_commits(3);
    // All commits already "loaded" → prefetch will find nothing to do
    // but still stamp `last_prefetch_idx`.
    for c in &dash.git.commits {
        let key = Dashboard::commit_dataset_key(c);
        dash.data_selection.sorted_dataset_keys.push(key);
    }
    dash.git.selected_commit_idx = Some(1);

    let load = dash.prefetch_adjacent_commits();
    assert!(load.is_none());
    assert_eq!(dash.git.last_prefetch_idx, Some(1));
    assert!(!dash.git.prefetch_in_flight);

    // Second call with the same idx: still a no-op; `last_prefetch_idx`
    // stays at Some(1).
    let load = dash.prefetch_adjacent_commits();
    assert!(load.is_none());
    assert_eq!(dash.git.last_prefetch_idx, Some(1));
}

#[test]
fn prefetch_starts_older_neighbour_first() {
    let mut dash = Dashboard::new();
    dash.git.commits = make_commits(3);
    for c in dash.git.commits.iter_mut() {
        c.bench_file = Some(format!("benchmarks/bench_{}.json", c.short_sha));
    }
    dash.git.selected_commit_idx = Some(1);
    let load = dash.prefetch_adjacent_commits().expect("a neighbour is not loaded");
    assert_eq!(load.path, "benchmarks/bench_0000002.json");
    assert_eq!(load.key, "bench_0000002");
    assert!(dash.git.prefetch_in_flight);
    assert!(dash.loading.is_loading);
    assert_eq!(dash.git.last_prefetch_idx, Some(1));
}

#[test]
fn commit_dataset_key_is_deterministic() {
    let commits = make_commits(1);
    assert_eq!(Dashboard::commit_dataset_key(&commits[0]), "bench_0000000");
}

/// `on_commit_selected` on an already-loaded commit key activates the
/// dataset without touching the loading channel.
#[test]
fn on_commit_selected_activates_preloaded_dataset() {
    let mut dash = Dashboard::new();
    dash.git.commits = make_commits(2);
    let key0 = Dashboard::commit_dataset_key(&dash.git.commits[0]);
    dash.data_selection.sorted_dataset_keys.push(key0.clone());
    // Pretend some other dataset was active before the switch.
    dash.data_selection.active_dataset.push("stale".to_string());

    let load = dash.on_commit_selected(0);

    assert!(load.is_none());
    assert_eq!(dash.git.selected_commit_idx, Some(0));
    assert_eq!(dash.data_selection.active_dataset, vec![key0.clone()]);
    // Comparison view's commit_b tracks the selection.
    assert_eq!(dash.comparison.commit_b.as_deref(), Some(key0.as_str()));
    // No load was kicked off.
    assert!(!dash.loading.is_loading);
}

#[test]
fn on_commit_selected_without_bench_file_reports_it() {
    let mut dash = Dashboard::new();
    dash.git.commits = make_commits(2);
    let load = dash.on_commit_selected(1);
    assert!(load.is_none());
    assert_eq!(dash.git.selected_commit_idx, Some(1));
    let expected = format!(
        "No benchmark file registered for commit {} (short {}).",
        dash.git.commits[1].sha, dash.git.commits[1].short_sha
    );
    assert_eq!(dash.loading.last_error.as_deref(), Some(expected.as_str()));
    assert!(!dash.loading.is_loading);
    // Out of range: nothing changes.
    assert!(dash.on_commit_selected(5).is_none());
    assert_eq!(dash.git.selected_commit_idx, Some(1));
}

#[test]
fn foreground_load_then_finish_activates_dataset() {
    let mut dash = Dashboard::new();
    dash.git.commits = make_commits(2);
    dash.git.commits[0].bench_file = Some("benchmarks/bench_0000000.json".to_string());
    let load = dash.on_commit_selected(0).expect("load starts");
    assert_eq!(load.key, "bench_0000000");
    assert!(dash.loading.is_loading);
    dash.on_load_progress(LoadProgress { current: 5, total: Some(10), phase: "Parsing".to_string() });
    assert_eq!(dash.loading.progress.as_ref().map(|p| p.current), Some(5));
    let key = dash.on_benchmark_loaded();
    assert_eq!(key, "bench_0000000");
    assert!(!dash.loading.is_loading);
    assert!(dash.loading.progress.is_none());
    assert_eq!(dash.data_selection.sorted_dataset_keys, vec!["bench_0000000".to_string()]);
    assert_eq!(dash.data_selection.active_dataset, vec!["bench_0000000".to_string()]);
    assert_eq!(dash.outlier_ordered_keys(), vec!["bench_0000000".to_string()]);
}

#[test]
fn failed_loads_are_routed() {
    let mut dash = Dashboard::new();
    assert!(dash.begin_git_load(Some("/repo".to_string()), "git".to_string()));
    assert!(!dash.begin_git_load(Some("/other".to_string()), "git".to_string()));
    dash.on_load_failed(LoadErrorKind::Git, "not a repository".to_string());
    assert!(!dash.loading.is_loading);
    assert!(dash.git.last_error.is_some());

    dash.loading.picked_file = Some("/data/run.json".to_string());
    let path = dash.begin_file_load("run#10-11-12".to_string());
    assert_eq!(path.as_deref(), Some("/data/run.json"));
    dash.on_load_failed(LoadErrorKind::Other, "bad json".to_string());
    assert!(!dash.loading.is_loading);
    assert!(dash.loading.last_error.is_some());
}

#[test]
fn git_load_replaces_commits() {
    let mut dash = Dashboard::new();
    dash.git.commits = make_commits(2);
    dash.git.selected_commit_idx = Some(1);
    assert!(dash.begin_git_load(Some("/repo".to_string()), "git".to_string()));
    assert!(dash.git.commits.is_empty());
    dash.on_git_loaded(make_commits(3));
    assert_eq!(dash.git.commits.len(), 3);
    assert_eq!(dash.git.selected_commit_idx, None);
    assert!(!dash.loading.is_loading);
}

#[test]
fn file_label_uses_stem_and_time() {
    let mut dash = Dashboard::new();
    assert_eq!(dash.encode_file("10-11-12"), "unknown_file#10-11-12");
    dash.loading.picked_file = Some("/data/runs/benchmark.json".to_string());
    assert_eq!(dash.encode_file("10-11-12"), "benchmark#10-11-12");
}

/// The stem of a bare file name: up to the last dot, unless the only dot
/// leads the name.
#[test]
fn file_label_stem_of_bare_names() {
    let mut dash = Dashboard::new();
    let cases = [("run.v2.json", "run.v2"), (".hidden", ".hidden"), ("..foo", "."), ("plain", "plain"), ("trail.", "trail")];
    for (name, stem) in cases {
        dash.loading.picked_file = Some(name.to_string());
        assert_eq!(dash.encode_file("t"), format!("{stem}#t"));
    }
}

#[test]
fn outlier_order_is_oldest_first() {
    let mut dash = Dashboard::new();
    dash.data_selection.sorted_dataset_keys = vec!["a".to_string(), "b".to_string()];
    assert_eq!(dash.outlier_ordered_keys(), vec!["a".to_string(), "b".to_string()]);
    dash.git.commits = make_commits(3);
    dash.data_selection.sorted_dataset_keys =
        vec!["bench_0000000".to_string(), "bench_0000002".to_string()];
    assert_eq!(
        dash.outlier_ordered_keys(),
        vec!["bench_0000002".to_string(), "bench_0000000".to_string()]
    );
}

#[test]
fn step_commit_reads_huge_selections_as_negative() {
    let mut dash = Dashboard::new();
    dash.git.commits = make_commits(3);
    dash.git.selected_commit_idx = Some(usize::MAX);
    dash.step_commit(0);
    assert_eq!(dash.git.selected_commit_idx, Some(0));
    dash.git.selected_commit_idx = Some(usize::MAX);
    dash.step_commit(2);
    assert_eq!(dash.git.selected_commit_idx, Some(1));
    dash.git.selected_commit_idx = Some(usize::MAX);
    dash.step_commit(5);
    assert_eq!(dash.git.selected_commit_idx, Some(2));
}
