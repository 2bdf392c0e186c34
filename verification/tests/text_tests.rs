use ginkgo_dashboard::text::{short_tick_label, trim, trim_start, truncate_str};

#[test]
fn truncate_counts_characters() {
    assert_eq!(truncate_str("short", 10), "short");
    assert_eq!(truncate_str("exactly10!", 10), "exactly10!");
    assert_eq!(truncate_str("a longer commit message", 8), "a longe…");
    assert_eq!(truncate_str("ééééé", 2), "é…");
    assert_eq!(truncate_str("ééééé", 1), "…");
    assert_eq!(truncate_str("abc", 0), "");
    for max in 0..8usize {
        assert!(truncate_str("a longer commit message", max).chars().count() <= max);
    }
    assert_eq!(truncate_str("", 0), "");
}

#[test]
fn tick_labels_keep_ten_characters() {
    assert_eq!(short_tick_label("bench_abc"), "bench_abc");
    assert_eq!(short_tick_label("bench_abcd"), "bench_abcd");
    assert_eq!(short_tick_label("bench_abcdef0#12-34-56"), "bench_abcd…");
}

#[test]
fn trimming() {
    assert_eq!(trim("  a b \t\n"), "a b");
    assert_eq!(trim_start("\u{a0} x "), "x ");
    assert_eq!(trim("   "), "");
}
