use ginkgo_dashboard::data::git::CommitInfo;
use ginkgo_dashboard::data::state::{Dashboard, ViewMode};
use ginkgo_dashboard::state_url::{
    data_format_from_str, data_format_to_str, fragment_from_json, json_from_fragment, metric_from_str,
    metric_to_str, plot_type_from_str, plot_type_to_str, view_mode_from_str, view_mode_to_str,
    xaxis_from_str, xaxis_to_str, StateV1,
};
use ginkgo_dashboard::types::{DataFormat, MetricType, PlotType, XaxisType};
use ginkgo_dashboard::visualization::formula::resolve_var_slots;

fn json_value(bytes: &[u8]) -> serde_json::Value {
    serde_json::from_slice(bytes).expect("valid JSON")
}

fn object(fields: Vec<(&str, serde_json::Value)>) -> Vec<u8> {
    let mut map = serde_json::Map::new();
    for (k, v) in fields {
        map.insert(k.to_string(), v);
    }
    serde_json::to_vec(&serde_json::Value::Object(map)).expect("serialize")
}

/// Framing a populated state's JSON and unframing it gives the same bytes back.
#[test]
fn roundtrip_populated() {
    let json = object(vec![
        ("schema", serde_json::Value::from(1)),
        ("commit", serde_json::Value::from("abcd123")),
        ("view", serde_json::Value::from("Benchmark")),
        ("plot_type", serde_json::Value::from("Scatter")),
        ("x_axis", serde_json::Value::from("NonZeros")),
        ("y_metric", serde_json::Value::from("Time")),
        ("normalize", serde_json::Value::from(false)),
        ("formats", serde_json::Value::from(vec!["CSR", "ELL"])),
    ]);
    let encoded = fragment_from_json(&json);
    assert!(encoded.starts_with("v1="));
    let decoded = json_from_fragment(&encoded).expect("decode");
    assert_eq!(decoded, json);
}

/// Round-trip with a `#` prefix (as delivered by `window.location.hash`).
#[test]
fn roundtrip_with_hash_prefix() {
    let json = object(vec![("schema", serde_json::Value::from(1)), ("view", serde_json::Value::from("Solver"))]);
    let encoded = format!("#{}", fragment_from_json(&json));
    let decoded = json_from_fragment(&encoded).expect("decode");
    assert_eq!(json_value(&decoded)["view"], "Solver");
}

/// Golden fixture: the fragment of the minimal JSON `{"schema":1,"view":"Solver"}`.
#[test]
fn golden_fixture_decodes_to_expected() {
    let golden = "v1=eyJzY2hlbWEiOjEsInZpZXciOiJTb2x2ZXIifQ";
    let decoded = json_from_fragment(golden).expect("golden fixture must decode");
    assert_eq!(decoded, br#"{"schema":1,"view":"Solver"}"#.to_vec());
    let v = json_value(&decoded);
    assert_eq!(v["schema"], 1);
    assert_eq!(v["view"], "Solver");
    assert!(v.get("commit").is_none());
    assert!(v.get("plot_type").is_none());
    assert!(v.get("x_axis").is_none());
    assert!(v.get("y_metric").is_none());
    assert!(v.get("normalize").is_none());
    assert!(v.get("formats").is_none());
    // And the framing of those bytes is the fixture.
    assert_eq!(fragment_from_json(&decoded), golden);
}

/// Unknown version prefix: no panic, `None` returned.
#[test]
fn unknown_version_prefix_returns_none() {
    assert!(json_from_fragment("v2=garbage").is_none());
    assert!(json_from_fragment("v99=whatever").is_none());
    assert!(json_from_fragment("").is_none());
}

/// Malformed base64: no panic, `None` returned.
#[test]
fn malformed_base64_returns_none() {
    // '???' is not a valid base64url character set.
    assert!(json_from_fragment("v1=???").is_none());
}

#[test]
fn fragment_edge_cases() {
    assert!(json_from_fragment("#").is_none());
    assert_eq!(json_from_fragment("v1=").expect("empty payload"), Vec::<u8>::new());
    assert_eq!(fragment_from_json(b""), "v1=");
    assert_eq!(fragment_from_json(b"{}"), "v1=e30");
    // Padding is not accepted by the URL-safe, unpadded alphabet.
    assert!(json_from_fragment("v1=e30=").is_none());
}

/// Wrong schema version: `None`. Prevents `StateV2` payloads from being
/// silently interpreted as v1.
#[test]
fn wrong_schema_version_returns_none() {
    let state = StateV1 { schema: 2, ..StateV1::default() };
    assert!(state.checked_schema().is_none());
    let ok = StateV1 { schema: 1, ..StateV1::default() };
    assert_eq!(ok.clone().checked_schema(), Some(ok));
}

/// Unknown enum variant on `view` does not apply.
#[test]
fn unknown_enum_variant_decodes_but_does_not_apply() {
    let decoded = StateV1 { schema: 1, view: Some("Foobar".to_string()), ..StateV1::default() };
    assert_eq!(decoded.view.as_deref(), Some("Foobar"));

    // Applying the unknown variant leaves view_mode at its default.
    let mut dash = Dashboard::new();
    let before = dash.view_mode;
    dash.apply_state_v1(&decoded, None);
    assert_eq!(dash.view_mode, before, "unknown variant must not mutate");
}

/// Applying a fully-populated StateV1 mutates all the addressed dashboard
/// fields and leaves non-addressed ones alone.
#[test]
fn apply_state_v1_mutates_expected_fields() {
    let state = StateV1 {
        schema: 1,
        commit: None, // no commits loaded, so skipped (and that's fine)
        view: Some("Solver".to_string()),
        plot_type: Some("PerformanceProfile".to_string()),
        x_axis: Some("Rows".to_string()),
        y_metric: Some("GflopsPerSecond".to_string()),
        normalize: Some(true),
        formats: Some(vec!["CSR".to_string(), "ELL".to_string()]),
        y_formula: None,
    };

    let mut dash = Dashboard::new();
    dash.apply_state_v1(&state, None);

    assert_eq!(dash.view_mode, ViewMode::Solver);
    assert_eq!(dash.plot_config.plot_type, PlotType::PerformanceProfile);
    assert_eq!(dash.plot_config.x_axis, Some(XaxisType::Rows));
    assert_eq!(dash.plot_config.data_metric, Some(MetricType::GflopsPerSecond));
    assert!(dash.plot_config.normalize);
    assert_eq!(dash.data_selection.active_formats.get(DataFormat::CSR), Some(true));
    assert_eq!(dash.data_selection.active_formats.get(DataFormat::ELL), Some(true));
    assert_eq!(dash.data_selection.active_formats.get(DataFormat::COO), Some(false));
    assert_eq!(dash.data_selection.active_formats.get(DataFormat::HYBRID), Some(false));
    assert_eq!(dash.data_selection.active_formats.get(DataFormat::SELLP), Some(false));
}

/// A valid y_formula sets data_metric = Custom and keeps the formula.
#[test]
fn y_formula_decodes_to_custom_metric_via_apply_state_v1() {
    let state = StateV1 { schema: 1, y_formula: Some("gflops / time".to_string()), ..StateV1::default() };
    // Both variables are known, so the formula compiles.
    let slots = resolve_var_slots(&vec!["gflops".to_string(), "time".to_string()]);
    assert!(slots.is_ok());
    let mut dash = Dashboard::new();
    dash.apply_state_v1(&state, Some("gflops / time".to_string()));
    assert_eq!(dash.plot_config.data_metric, Some(MetricType::Custom));
    assert_eq!(dash.plot_config.custom_formula_text, "gflops / time");
    assert!(dash.plot_config.custom_formula_source.is_some(), "formula should be compiled");
}

/// An invalid y_formula falls back to y_metric.
#[test]
fn y_formula_parse_failure_falls_back_to_y_metric() {
    let state = StateV1 {
        schema: 1,
        y_formula: Some("bogus_var + 1".to_string()),
        y_metric: Some("Storage".to_string()),
        ..StateV1::default()
    };
    // The formula names an unknown variable, so it does not compile.
    assert!(resolve_var_slots(&vec!["bogus_var".to_string()]).is_err());
    let mut dash = Dashboard::new();
    dash.apply_state_v1(&state, None);
    assert_eq!(
        dash.plot_config.data_metric,
        Some(MetricType::Storage),
        "should fall back to y_metric on parse failure"
    );
    assert!(dash.plot_config.custom_formula_source.is_none(), "formula should not be set after parse failure");
    assert_eq!(dash.plot_config.custom_formula_text, "bogus_var + 1");
}

fn commit(sha: &str) -> CommitInfo {
    CommitInfo {
        sha: sha.to_string(),
        short_sha: sha.chars().take(7).collect(),
        author: "A <a@example.com>".to_string(),
        date: "2026-01-01T00:00:00Z".to_string(),
        message: "m".to_string(),
        bench_file: None,
    }
}

/// The state of a dashboard, applied to a fresh one with the same commits,
/// reproduces its settings.
#[test]
fn state_round_trips_through_apply() {
    let mut d = Dashboard::new();
    d.git.commits = vec![commit("1111111aaaa"), commit("2222222bbbb"), commit("3333333cccc")];
    d.git.selected_commit_idx = Some(1);
    d.view_mode = ViewMode::Solver;
    d.plot_config.plot_type = PlotType::PerformanceProfile;
    d.plot_config.x_axis = Some(XaxisType::Sparsity);
    d.plot_config.data_metric = Some(MetricType::Storage);
    d.plot_config.normalize = true;
    d.data_selection.active_formats.insert(DataFormat::HYBRID, true);
    d.data_selection.active_formats.insert(DataFormat::CSR, false);
    let s = d.state_v1();
    assert_eq!(s.commit.as_deref(), Some("2222222"));
    assert_eq!(s.formats, Some(vec!["HYBRID".to_string()]));
    assert_eq!(s.y_metric.as_deref(), Some("Storage"));
    assert!(s.y_formula.is_none());

    let mut e = Dashboard::new();
    e.git.commits = vec![commit("1111111aaaa"), commit("2222222bbbb"), commit("3333333cccc")];
    e.apply_state_v1(&s, None);
    assert_eq!(e.git.selected_commit_idx, Some(1));
    assert_eq!(e.view_mode, ViewMode::Solver);
    assert_eq!(e.plot_config.plot_type, PlotType::PerformanceProfile);
    assert_eq!(e.plot_config.x_axis, Some(XaxisType::Sparsity));
    assert_eq!(e.plot_config.data_metric, Some(MetricType::Storage));
    assert!(e.plot_config.normalize);
    assert_eq!(e.data_selection.active_formats.get(DataFormat::HYBRID), Some(true));
    assert_eq!(e.data_selection.active_formats.get(DataFormat::CSR), Some(false));
    assert_eq!(e.data_selection.active_formats.get(DataFormat::COO), Some(false));
}

#[test]
fn custom_formula_state_round_trips() {
    let mut d = Dashboard::new();
    d.plot_config.data_metric = Some(MetricType::Custom);
    d.plot_config.custom_formula_source = Some("time * 2".to_string());
    let s = d.state_v1();
    assert_eq!(s.y_formula.as_deref(), Some("time * 2"));
    assert!(s.y_metric.is_none());
    let mut e = Dashboard::new();
    e.apply_state_v1(&s, Some("time * 2".to_string()));
    assert_eq!(e.plot_config.data_metric, Some(MetricType::Custom));
    assert_eq!(e.plot_config.custom_formula_source.as_deref(), Some("time * 2"));
}

#[test]
fn commit_prefix_selects_first_match() {
    let mut e = Dashboard::new();
    e.git.commits = vec![commit("abc1234ffff"), commit("abc9999eeee")];
    let s = StateV1 { schema: 1, commit: Some("abc".to_string()), ..StateV1::default() };
    e.apply_state_v1(&s, None);
    assert_eq!(e.git.selected_commit_idx, Some(0));
    let s = StateV1 { schema: 1, commit: Some("abc9999e".to_string()), ..StateV1::default() };
    e.apply_state_v1(&s, None);
    assert_eq!(e.git.selected_commit_idx, Some(1));
    let s = StateV1 { schema: 1, commit: Some("zzz".to_string()), ..StateV1::default() };
    e.apply_state_v1(&s, None);
    assert_eq!(e.git.selected_commit_idx, Some(1));
}

#[test]
fn enum_names_round_trip() {
    for v in [ViewMode::Benchmark, ViewMode::Solver] {
        assert_eq!(view_mode_from_str(view_mode_to_str(v)), Some(v));
    }
    for p in [PlotType::Scatter, PlotType::PerformanceProfile] {
        assert_eq!(plot_type_from_str(plot_type_to_str(p)), Some(p));
    }
    for x in [
        XaxisType::Cols,
        XaxisType::ColCv,
        XaxisType::Rows,
        XaxisType::RowCv,
        XaxisType::NonZeros,
        XaxisType::Sparsity,
        XaxisType::AvgNnzPerRow,
        XaxisType::AvgNnzPerCol,
        XaxisType::MatrixShapeRatio,
    ] {
        assert_eq!(xaxis_from_str(xaxis_to_str(x)), Some(x));
    }
    for m in [
        MetricType::Storage,
        MetricType::Time,
        MetricType::GflopsPerSecond,
        MetricType::Repetitions,
        MetricType::OperationalIntensity,
        MetricType::EffectiveMemoryBandwidth,
        MetricType::Custom,
    ] {
        assert_eq!(metric_from_str(metric_to_str(m)), Some(m));
    }
    for f in [DataFormat::CSR, DataFormat::COO, DataFormat::ELL, DataFormat::HYBRID, DataFormat::SELLP] {
        assert_eq!(data_format_from_str(data_format_to_str(f)), Some(f));
    }
    assert_eq!(view_mode_to_str(ViewMode::Solver), "Solver");
    assert_eq!(xaxis_to_str(XaxisType::AvgNnzPerCol), "AvgNnzPerCol");
    assert_eq!(metric_to_str(MetricType::EffectiveMemoryBandwidth), "EffectiveMemoryBandwidth");
    assert_eq!(data_format_to_str(DataFormat::SELLP), "SELLP");
    assert_eq!(view_mode_from_str("solver"), None);
    assert_eq!(data_format_from_str("csr"), None);
}

/// y_formula text survives framing without loss.
#[test]
fn y_formula_roundtrips() {
    let json = object(vec![
        ("schema", serde_json::Value::from(1)),
        ("y_formula", serde_json::Value::from("gflops / time")),
    ]);
    let encoded = fragment_from_json(&json);
    let decoded = json_from_fragment(&encoded).expect("decode");
    assert_eq!(json_value(&decoded)["y_formula"], "gflops / time");
}

/// The JSON object of a state as the wire format writes it: absent fields
/// are left out.
fn state_json(s: &StateV1) -> Vec<u8> {
    let mut fields: Vec<(&str, serde_json::Value)> = vec![("schema", serde_json::Value::from(s.schema))];
    let strings = [
        ("commit", &s.commit),
        ("view", &s.view),
        ("plot_type", &s.plot_type),
        ("x_axis", &s.x_axis),
        ("y_metric", &s.y_metric),
        ("y_formula", &s.y_formula),
    ];
    for (k, v) in strings {
        if let Some(v) = v {
            fields.push((k, serde_json::Value::from(v.as_str())));
        }
    }
    if let Some(n) = s.normalize {
        fields.push(("normalize", serde_json::Value::from(n)));
    }
    if let Some(f) = &s.formats {
        fields.push(("formats", serde_json::Value::from(f.clone())));
    }
    object(fields)
}

/// A state read back from its JSON object; unknown fields are ignored and
/// the schema is checked.
fn state_from_json(bytes: &[u8]) -> Option<StateV1> {
    let v: serde_json::Value = serde_json::from_slice(bytes).ok()?;
    let text = |k: &str| v.get(k).and_then(|x| x.as_str()).map(|x| x.to_string());
    let state = StateV1 {
        schema: u8::try_from(v.get("schema")?.as_u64()?).ok()?,
        commit: text("commit"),
        view: text("view"),
        plot_type: text("plot_type"),
        x_axis: text("x_axis"),
        y_metric: text("y_metric"),
        normalize: v.get("normalize").and_then(|x| x.as_bool()),
        formats: v.get("formats").and_then(|x| x.as_array()).map(|a| {
            a.iter().filter_map(|s| s.as_str().map(|s| s.to_string())).collect()
        }),
        y_formula: text("y_formula"),
    };
    state.checked_schema()
}

/// A populated state goes through framing and unframing unchanged, with and
/// without the leading `#`, and its payload uses only the URL-safe alphabet.
#[test]
fn state_struct_roundtrip_end_to_end() {
    let populated = StateV1 {
        schema: 1,
        commit: Some("abcd123".to_string()),
        view: Some("Benchmark".to_string()),
        plot_type: Some("Scatter".to_string()),
        x_axis: Some("NonZeros".to_string()),
        y_metric: Some("Time".to_string()),
        normalize: Some(false),
        formats: Some(vec!["CSR".to_string(), "ELL".to_string()]),
        y_formula: Some("gflops / time".to_string()),
    };
    let encoded = fragment_from_json(&state_json(&populated));
    assert!(encoded.starts_with("v1="));
    assert!(encoded[3..].chars().all(|c| c.is_ascii_alphanumeric() || c == '-' || c == '_'));
    let decoded = state_from_json(&json_from_fragment(&encoded).expect("unframe")).expect("decode");
    assert_eq!(decoded, populated);
    let hashed = format!("#{encoded}");
    let decoded = state_from_json(&json_from_fragment(&hashed).expect("unframe")).expect("decode");
    assert_eq!(decoded, populated);
}

/// A schema-2 payload frames and unframes, but is refused as a v1 state.
#[test]
fn schema_two_payload_is_refused_end_to_end() {
    let fragment = fragment_from_json(br#"{"schema":2}"#);
    let bytes = json_from_fragment(&fragment).expect("unframe");
    assert!(state_from_json(&bytes).is_none());
    // Unknown fields do not matter.
    let fragment = fragment_from_json(br#"{"schema":1,"future_field":123,"view":"Solver"}"#);
    let decoded = state_from_json(&json_from_fragment(&fragment).expect("unframe")).expect("decode");
    assert_eq!(decoded, StateV1 { schema: 1, view: Some("Solver".to_string()), ..StateV1::default() });
}

/// The dashboard's own state survives the fragment round trip and applies
/// back onto a fresh dashboard.
#[test]
fn dashboard_state_survives_fragment_and_apply() {
    let mut dash = Dashboard::new();
    let state = StateV1 {
        schema: 1,
        view: Some("Solver".to_string()),
        plot_type: Some("PerformanceProfile".to_string()),
        normalize: Some(true),
        formats: Some(vec!["COO".to_string()]),
        ..StateV1::default()
    };
    dash.apply_state_v1(&state, None);
    let snapshot = dash.state_v1();
    let fragment = fragment_from_json(&state_json(&snapshot));
    let decoded = state_from_json(&json_from_fragment(&fragment).expect("unframe")).expect("decode");
    assert_eq!(decoded, snapshot);
    let mut fresh = Dashboard::new();
    fresh.apply_state_v1(&decoded, None);
    assert_eq!(fresh.view_mode, ViewMode::Solver);
    assert_eq!(fresh.plot_config.plot_type, PlotType::PerformanceProfile);
    assert!(fresh.plot_config.normalize);
    assert_eq!(fresh.data_selection.active_formats.get(DataFormat::COO), Some(true));
    assert_eq!(fresh.data_selection.active_formats.get(DataFormat::CSR), Some(false));
    assert_eq!(fresh.state_v1(), snapshot);
}
