//! Export settings and file names derived from the dashboard.
use vstd::prelude::*;
use crate::data::state::{Dashboard, ExportKind};
use crate::export::svg::ExportConfig;
use crate::state_url::{metric_name, metric_to_str, xaxis_name, xaxis_to_str};
use crate::text::concat;
use crate::types::{MetricType, PlotType, XaxisType};

verus! {

/// Title of an exported plot.
pub open spec fn plot_title(p: PlotType) -> Seq<char> {
    match p {
        PlotType::Scatter => "Scatter"@,
        PlotType::PerformanceProfile => "Performance Profile"@,
    }
}

/// X-axis label of an exported plot.
pub open spec fn x_label(p: PlotType, x: Option<XaxisType>) -> Seq<char> {
    match p {
        PlotType::PerformanceProfile => "Performance Ratio (tau)"@,
        PlotType::Scatter => match x {
            Some(x) => xaxis_name(x),
            None => xaxis_name(XaxisType::NonZeros),
        },
    }
}

/// Y-axis label of an exported plot.
pub open spec fn y_label(p: PlotType, m: Option<MetricType>) -> Seq<char> {
    match p {
        PlotType::PerformanceProfile => "Probability (rho)"@,
        PlotType::Scatter => match m {
            Some(m) => metric_name(m),
            None => metric_name(MetricType::Time),
        },
    }
}

/// The export settings of the visible plot: its title, and axis labels
/// from the plot configuration (the profile's own axes for a performance
/// profile; the chosen x axis and metric, `NonZeros` and `Time` when
/// unset, otherwise).
pub fn current_config(app: &Dashboard) -> (res: ExportConfig)
    ensures
        res.title matches Some(t) && t@ == plot_title(app.plot_config.plot_type),
        res.x_axis_label matches Some(l) && l@ == x_label(app.plot_config.plot_type, app.plot_config.x_axis),
        res.y_axis_label matches Some(l) && l@ == y_label(
            app.plot_config.plot_type,
            app.plot_config.data_metric,
        ),
        res.log_scale_x == app.plot_config.log_scale_x,
{
    let plot_type = app.plot_config.plot_type;
    let x: String = match plot_type {
        PlotType::PerformanceProfile => String::from_str("Performance Ratio (tau)"),
        PlotType::Scatter => match app.plot_config.x_axis {
            Some(x) => String::from_str(xaxis_to_str(x)),
            None => String::from_str(xaxis_to_str(XaxisType::NonZeros)),
        },
    };
    let y: String = match plot_type {
        PlotType::PerformanceProfile => String::from_str("Probability (rho)"),
        PlotType::Scatter => match app.plot_config.data_metric {
            Some(m) => String::from_str(metric_to_str(m)),
            None => String::from_str(metric_to_str(MetricType::Time)),
        },
    };
    let title: String = match plot_type {
        PlotType::Scatter => String::from_str("Scatter"),
        PlotType::PerformanceProfile => String::from_str("Performance Profile"),
    };
    ExportConfig {
        title: Some(title),
        x_axis_label: Some(x),
        y_axis_label: Some(y),
        log_scale_x: app.plot_config.log_scale_x,
    }
}

/// Title of one pane of the side-by-side comparison: `"<title> (A)"`, or
/// just the side's letter when the plot has no title.
pub open spec fn pane_title(title: Option<Seq<char>>, side: Seq<char>) -> Seq<char> {
    match title {
        Some(t) => t + " ("@ + side + ")"@,
        None => side,
    }
}

fn clone_label(l: &Option<String>) -> (res: Option<String>)
    ensures
        res.deep_view() == l.deep_view(),
{
    match l {
        Some(s) => Some(s.clone()),
        None => None,
    }
}

/// The settings of one comparison pane (`side` is `"A"` or `"B"`): the
/// plot's settings with the pane's title.
pub fn comparison_pane_config(config: &ExportConfig, side: &str) -> (res: ExportConfig)
    ensures
        res.title matches Some(t) && t@ == pane_title(config.title.deep_view(), side@),
        res.x_axis_label.deep_view() == config.x_axis_label.deep_view(),
        res.y_axis_label.deep_view() == config.y_axis_label.deep_view(),
        res.log_scale_x == config.log_scale_x,
{
    let title: String = match &config.title {
        Some(t) => {
            let a = concat(t.as_str(), " (");
            let b = concat(a.as_str(), side);
            concat(b.as_str(), ")")
        },
        None => String::from_str(side),
    };
    ExportConfig {
        title: Some(title),
        x_axis_label: clone_label(&config.x_axis_label),
        y_axis_label: clone_label(&config.y_axis_label),
        log_scale_x: config.log_scale_x,
    }
}

/// File-name stem of an exported plot.
pub open spec fn export_stem(p: PlotType) -> Seq<char> {
    match p {
        PlotType::Scatter => "scatter"@,
        PlotType::PerformanceProfile => "profile"@,
    }
}

/// File extension of an export kind.
pub open spec fn export_extension(k: ExportKind) -> Seq<char> {
    match k {
        ExportKind::Svg => "svg"@,
        ExportKind::Pdf => "pdf"@,
    }
}

/// Output file name `plot_<stem>_<time>.<ext>`, where `time` is the local
/// wall-clock time as `HHMMSS` (read by the caller), so that repeated saves
/// in one session do not collide.
pub fn export_file_name(plot_type: PlotType, kind: ExportKind, time: &str) -> (res: String)
    ensures
        res@ == "plot_"@ + export_stem(plot_type) + "_"@ + time@ + "."@ + export_extension(kind),
{
    let stem: &str = match plot_type {
        PlotType::Scatter => "scatter",
        PlotType::PerformanceProfile => "profile",
    };
    let ext: &str = match kind {
        ExportKind::Svg => "svg",
        ExportKind::Pdf => "pdf",
    };
    let mut out = String::from_str("plot_");
    out.append(stem);
    out.append("_");
    out.append(time);
    out.append(".");
    out.append(ext);
    out
}

} // verus!

verus! {

/// The texts of an export: a scatter plot is titled "Scatter" and labels
/// its axes with the wire names of the chosen x axis and metric (`NonZeros`
/// and `Time` when none is chosen); a performance profile is titled
/// "Performance Profile" with its own ratio and probability axes; files are
/// named `plot_scatter_…`/`plot_profile_…` with the `svg` or `pdf`
/// extension of their kind.
pub proof fn export_texts_follow_the_plot(x: XaxisType, m: MetricType)
    ensures
        plot_title(PlotType::Scatter) == "Scatter"@,
        plot_title(PlotType::PerformanceProfile) == "Performance Profile"@,
        x_label(PlotType::Scatter, Some(x)) == xaxis_name(x),
        x_label(PlotType::Scatter, None) == "NonZeros"@,
        y_label(PlotType::Scatter, Some(m)) == metric_name(m),
        y_label(PlotType::Scatter, None) == "Time"@,
        x_label(PlotType::PerformanceProfile, Some(x)) == "Performance Ratio (tau)"@,
        y_label(PlotType::PerformanceProfile, Some(m)) == "Probability (rho)"@,
        export_stem(PlotType::Scatter) == "scatter"@,
        export_stem(PlotType::PerformanceProfile) == "profile"@,
        export_extension(ExportKind::Svg) == "svg"@,
        export_extension(ExportKind::Pdf) == "pdf"@,
{
    crate::state_url::xaxis_wire_names_are_variant_names();
    crate::state_url::metric_wire_names_are_variant_names();
}

} // verus!
