use ginkgo_dashboard::data::state::{Dashboard, ExportKind};
use ginkgo_dashboard::export::dashboard::{comparison_pane_config, current_config, export_file_name};
use ginkgo_dashboard::export::pdf::ExportError;
use ginkgo_dashboard::export::svg::{escape_xml, render_comparison_pair, strip_svg_wrapper, ExportConfig};
use ginkgo_dashboard::types::{MetricType, PlotType, XaxisType};

#[test]
fn escape_xml_covers_specials() {
    assert_eq!(escape_xml("a&b<c>\"'"), "a&amp;b&lt;c&gt;&quot;&apos;");
    assert_eq!(escape_xml("plain"), "plain");
}

#[test]
fn escape_xml_keeps_non_ascii_and_empty() {
    assert_eq!(escape_xml(""), "");
    assert_eq!(escape_xml("τ ≤ 1 & ρ"), "τ ≤ 1 &amp; ρ");
    assert_eq!(escape_xml("&amp;"), "&amp;amp;");
}

#[test]
fn strip_svg_wrapper_removes_outer_tags() {
    let svg = "<svg xmlns=\"x\"><rect/></svg>";
    let stripped = strip_svg_wrapper(svg);
    assert_eq!(stripped, "<rect/>");
}

#[test]
fn strip_svg_wrapper_edge_cases() {
    // No `>` at all: unchanged.
    assert_eq!(strip_svg_wrapper("plain text"), "plain text");
    // First tag is not `<svg`: unchanged.
    assert_eq!(strip_svg_wrapper("<g><svg></svg></g>"), "<g><svg></svg></g>");
    // Leading white space before `<svg` is allowed.
    assert_eq!(strip_svg_wrapper("  \n<svg a=\"1\">\n<g/>\n</svg>\n"), "\n<g/>\n");
    // No closing tag: everything after the opening tag.
    assert_eq!(strip_svg_wrapper("<svg><rect/>"), "<rect/>");
    // The last closing tag is the one removed.
    assert_eq!(strip_svg_wrapper("<svg><svg></svg></svg>"), "<svg></svg>");
}

#[test]
fn comparison_pair_nests_both_panes() {
    let a = "<svg w=\"1\"><rect id=\"a\"/></svg>";
    let b = "<svg w=\"2\"><rect id=\"b\"/></svg>";
    let doc = render_comparison_pair(a, b, "1600", "500", "800");
    let expected = "<svg xmlns=\"http://www.w3.org/2000/svg\" width=\"1600\" height=\"500\" viewBox=\"0 0 1600 500\" font-family=\"sans-serif\">\n  <rect x=\"0\" y=\"0\" width=\"1600\" height=\"500\" fill=\"white\"/>\n  <g transform=\"translate(0,0)\">\n<rect id=\"a\"/>\n  </g>\n  <g transform=\"translate(800,0)\">\n<rect id=\"b\"/>\n  </g>\n</svg>\n";
    assert_eq!(doc, expected);
}

#[test]
fn current_config_follows_plot_settings() {
    let mut dash = Dashboard::new();
    let cfg = current_config(&dash);
    assert_eq!(cfg.title.as_deref(), Some("Scatter"));
    assert_eq!(cfg.x_axis_label.as_deref(), Some("NonZeros"));
    assert_eq!(cfg.y_axis_label.as_deref(), Some("Time"));
    assert!(!cfg.log_scale_x);

    dash.plot_config.x_axis = Some(XaxisType::RowCv);
    dash.plot_config.data_metric = Some(MetricType::GflopsPerSecond);
    dash.plot_config.log_scale_x = true;
    let cfg = current_config(&dash);
    assert_eq!(cfg.x_axis_label.as_deref(), Some("RowCv"));
    assert_eq!(cfg.y_axis_label.as_deref(), Some("GflopsPerSecond"));
    assert!(cfg.log_scale_x);

    dash.plot_config.x_axis = None;
    dash.plot_config.data_metric = None;
    let cfg = current_config(&dash);
    assert_eq!(cfg.x_axis_label.as_deref(), Some("NonZeros"));
    assert_eq!(cfg.y_axis_label.as_deref(), Some("Time"));

    dash.plot_config.plot_type = PlotType::PerformanceProfile;
    let cfg = current_config(&dash);
    assert_eq!(cfg.title.as_deref(), Some("Performance Profile"));
    assert_eq!(cfg.x_axis_label.as_deref(), Some("Performance Ratio (tau)"));
    assert_eq!(cfg.y_axis_label.as_deref(), Some("Probability (rho)"));
}

#[test]
fn comparison_pane_titles() {
    let cfg = ExportConfig {
        title: Some("Scatter".to_string()),
        x_axis_label: Some("Rows".to_string()),
        y_axis_label: None,
        log_scale_x: true,
    };
    let a = comparison_pane_config(&cfg, "A");
    assert_eq!(a.title.as_deref(), Some("Scatter (A)"));
    assert_eq!(a.x_axis_label.as_deref(), Some("Rows"));
    assert_eq!(a.y_axis_label, None);
    assert!(a.log_scale_x);
    let untitled = ExportConfig::default();
    let b = comparison_pane_config(&untitled, "B");
    assert_eq!(b.title.as_deref(), Some("B"));
}

#[test]
fn export_file_names() {
    assert_eq!(export_file_name(PlotType::Scatter, ExportKind::Svg, "101112"), "plot_scatter_101112.svg");
    assert_eq!(
        export_file_name(PlotType::PerformanceProfile, ExportKind::Pdf, "235959"),
        "plot_profile_235959.pdf"
    );
}

#[test]
fn export_error_messages() {
    assert_eq!(ExportError::Parse("bad".to_string()).message(), "SVG parsing failed: bad");
    assert_eq!(ExportError::Convert("x".to_string()).message(), "PDF conversion failed: x");
    assert_eq!(ExportError::Io("denied".to_string()).message(), "I/O error: denied");
}
