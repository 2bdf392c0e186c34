use ginkgo_dashboard::data::state::FormatFlags;
use ginkgo_dashboard::types::{DataFormat, DataMode};
use ginkgo_dashboard::visualization::filter::{get_formats_to_plot, outlier_trim_indices, FilterStats};
use ginkgo_dashboard::visualization::timeseries::AggregationKind;

#[test]
fn test_outlier_logic_indices() {
    // Verify index logic for 5-95th percentile
    let len = 20;
    let p5_idx = (len as f64 * 0.05) as usize;
    let p95_idx = (len as f64 * 0.95) as usize;
    assert_eq!(p5_idx, 1);
    assert_eq!(p95_idx, 19);
    let (k5, k95) = outlier_trim_indices(len);
    assert_eq!(k5, 1);
    assert_eq!(k95, 19);
}

#[test]
fn outlier_indices_stay_inside_the_list() {
    assert_eq!(outlier_trim_indices(0), (0, 0));
    assert_eq!(outlier_trim_indices(1), (0, 0));
    assert_eq!(outlier_trim_indices(19), (0, 18));
    assert_eq!(outlier_trim_indices(100), (5, 95));
    assert_eq!(outlier_trim_indices(1000), (50, 950));
    for n in 1..500usize {
        let (k5, k95) = outlier_trim_indices(n);
        assert_eq!(k5, ((n as f64 * 0.05) as usize).min(n - 1));
        assert_eq!(k95, ((n as f64 * 0.95) as usize).min(n - 1));
    }
}

#[test]
fn formats_to_plot_by_mode() {
    let mut flags = FormatFlags::new();
    assert!(get_formats_to_plot(None, &flags).is_empty());
    assert_eq!(
        get_formats_to_plot(Some(DataMode::Single), &flags),
        vec![DataFormat::CSR, DataFormat::COO, DataFormat::ELL, DataFormat::HYBRID, DataFormat::SELLP]
    );
    assert!(get_formats_to_plot(Some(DataMode::Multi), &flags).is_empty());
    flags.insert(DataFormat::SELLP, true);
    flags.insert(DataFormat::COO, true);
    flags.insert(DataFormat::CSR, false);
    assert_eq!(
        get_formats_to_plot(Some(DataMode::Multi), &flags),
        vec![DataFormat::COO, DataFormat::SELLP]
    );
}

#[test]
fn filter_stats_start_at_zero() {
    let s = FilterStats::default();
    assert_eq!(s.total_matrices, 0);
    assert_eq!(s.shown_matrices, 0);
    assert_eq!(s.filtered_outliers, 0);
}

#[test]
fn aggregation_labels() {
    assert_eq!(AggregationKind::Mean.as_label(), "mean");
    assert_eq!(AggregationKind::Median.as_label(), "median");
    assert_eq!(AggregationKind::GeometricMean.as_label(), "geomean");
}
