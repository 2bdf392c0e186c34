use ginkgo_dashboard::data::git::CommitInfo;
use ginkgo_dashboard::data::state::Dashboard;
use ginkgo_dashboard::types::{DataFormat, MetricType};
use ginkgo_dashboard::visualization::timeseries::{timeseries_ordered_keys, timeseries_y_label, AggregationKind};

fn commit(sha: &str, bench: Option<&str>) -> CommitInfo {
    CommitInfo {
        sha: sha.to_string(),
        short_sha: sha.chars().take(7).collect(),
        author: "A <a@example.com>".to_string(),
        date: "2026-01-01T00:00:00Z".to_string(),
        message: "m".to_string(),
        bench_file: bench.map(|b| b.to_string()),
    }
}

#[test]
fn without_commits_keys_follow_sorted_order() {
    let mut dash = Dashboard::new();
    dash.data_selection.sorted_dataset_keys = vec!["a".to_string(), "b".to_string(), "c".to_string()];
    dash.data_selection.active_dataset = vec!["c".to_string(), "a".to_string()];
    assert_eq!(timeseries_ordered_keys(&dash), vec!["a".to_string(), "c".to_string()]);
}

#[test]
fn keys_are_laid_out_oldest_commit_first() {
    let mut dash = Dashboard::new();
    // Newest first, as the walk returns them.
    dash.git.commits = vec![
        commit("cccccccaaaa", Some("benchmarks/bench_ccccccc.json")),
        commit("bbbbbbbaaaa", None),
        commit("AAAAAAAaaaa", None),
    ];
    dash.data_selection.active_dataset = vec![
        "bench_ccccccc".to_string(),
        "import-aaaaaaa".to_string(),
        "other".to_string(),
        "BBBBBBB-run".to_string(),
    ];
    assert_eq!(
        timeseries_ordered_keys(&dash),
        vec![
            "other".to_string(),
            "import-aaaaaaa".to_string(),
            "BBBBBBB-run".to_string(),
            "bench_ccccccc".to_string(),
        ]
    );
}

#[test]
fn keys_of_one_commit_are_in_descending_order() {
    let mut dash = Dashboard::new();
    dash.git.commits = vec![commit("1234567ffff", None)];
    dash.data_selection.active_dataset =
        vec!["x-1234567".to_string(), "z-1234567".to_string(), "y-1234567".to_string()];
    assert_eq!(
        timeseries_ordered_keys(&dash),
        vec!["z-1234567".to_string(), "y-1234567".to_string(), "x-1234567".to_string()]
    );
}

#[test]
fn y_axis_title_names_aggregation_metric_and_format() {
    assert_eq!(
        timeseries_y_label(AggregationKind::GeometricMean, MetricType::GflopsPerSecond, DataFormat::HYBRID),
        "geomean (GflopsPerSecond, HYBRID)"
    );
    assert_eq!(timeseries_y_label(AggregationKind::Median, MetricType::Time, DataFormat::CSR), "median (Time, CSR)");
}
