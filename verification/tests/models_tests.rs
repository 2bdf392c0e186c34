use ginkgo_dashboard::data::models::{calculate_optimal_csr_bytes, BenchmarkOptimal};
use ginkgo_dashboard::datagen::storage::{coo_storage, csr_storage};

#[test]
fn test_optimal_csr_bytes() {
    let bytes = calculate_optimal_csr_bytes(4, 10) as f64;
    assert_eq!(bytes, 140.0);
}

#[test]
fn test_optimal_csr_bytes_large() {
    let bytes = calculate_optimal_csr_bytes(100, 1000) as f64;
    assert_eq!(bytes, 12404.0);
}

#[test]
fn optimal_csr_bytes_switch_to_wide_indices() {
    // rows beyond u32::MAX: 8-byte indices.
    let rows: u64 = 5_000_000_000;
    assert_eq!(calculate_optimal_csr_bytes(rows, 0), (rows + 1) * 8);
    assert_eq!(calculate_optimal_csr_bytes(0, 0), 4);
    assert_eq!(csr_storage(4, 10), 140);
    assert_eq!(coo_storage(10), 160);
}

#[test]
fn optimal_record_holds_name() {
    let o = BenchmarkOptimal { spmv: "csr".to_string() };
    assert_eq!(o.clone().spmv, "csr");
}
