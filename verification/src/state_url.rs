//! Versioned URL-fragment state: `#v1=<base64url-no-pad(JSON)>`.
//!
//! The JSON itself is read and written around this module (into and out
//! of [`StateV1`]); here live the fragment framing, the schema check, the
//! stable enum names, and how a state is taken from and applied to the
//! dashboard.
use vstd::prelude::*;
use base64::engine::general_purpose::URL_SAFE_NO_PAD;
use base64::Engine;
use crate::data::state::{Dashboard, DataSelection, PlotConfig, ViewMode, FormatFlags, strings};
use crate::data::git::GitState;
use crate::data::git::CommitInfo;
use crate::types::{DataFormat, MetricType, PlotType, XaxisType};
use crate::text::{concat, has_prefix, starts_with, str_eq, trimmed};

verus! {

/// Current schema version.
pub const SCHEMA_VERSION: u8 = 1;

/// Decoded URL-fragment state (v1 schema). Every field but `schema` is
/// optional; an absent field leaves the dashboard's value alone.
#[derive(Debug, Clone, PartialEq, Eq)]
pub struct StateV1 {
    /// Schema version; 1 for this struct.
    pub schema: u8,
    /// Commit SHA prefix to select.
    pub commit: Option<String>,
    pub view: Option<String>,
    pub plot_type: Option<String>,
    pub x_axis: Option<String>,
    pub y_metric: Option<String>,
    pub normalize: Option<bool>,
    /// Formats to activate; the others are deactivated.
    pub formats: Option<Vec<String>>,
    /// Custom Y formula; when it compiles it takes precedence over `y_metric`.
    pub y_formula: Option<String>,
}

impl Default for StateV1 {
    fn default() -> (res: Self)
        ensures
            res.schema == 1,
            res.commit is None,
            res.view is None,
            res.plot_type is None,
            res.x_axis is None,
            res.y_metric is None,
            res.normalize is None,
            res.formats is None,
            res.y_formula is None,
    {
        StateV1 {
            schema: SCHEMA_VERSION,
            commit: None,
            view: None,
            plot_type: None,
            x_axis: None,
            y_metric: None,
            normalize: None,
            formats: None,
            y_formula: None,
        }
    }
}

impl StateV1 {
    /// The state if its schema is the supported one.
    pub fn checked_schema(self) -> (res: Option<StateV1>)
        ensures
            self.schema == SCHEMA_VERSION ==> res == Some(self),
            self.schema != SCHEMA_VERSION ==> res is None,
    {
        if self.schema == SCHEMA_VERSION {
            Some(self)
        } else {
            None
        }
    }
}


/// Stable wire name of a `ViewMode`.
pub open spec fn view_mode_name(v: ViewMode) -> Seq<char> {
    match v {
        ViewMode::Benchmark => "Benchmark"@,
        ViewMode::Solver => "Solver"@,
    }
}

/// The `ViewMode` whose wire name is `s`.
pub open spec fn parse_view_mode(s: Seq<char>) -> Option<ViewMode> {
    if s == "Benchmark"@ {
        Some(ViewMode::Benchmark)
    } else if s == "Solver"@ {
        Some(ViewMode::Solver)
    } else {
        None
    }
}

pub fn view_mode_to_str(v: ViewMode) -> (res: &'static str)
    ensures
        res@ == view_mode_name(v),
{
    match v {
        ViewMode::Benchmark => "Benchmark",
        ViewMode::Solver => "Solver",
    }
}

pub fn view_mode_from_str(s: &str) -> (res: Option<ViewMode>)
    ensures
        res == parse_view_mode(s@),
{
    if str_eq(s, "Benchmark") {
        Some(ViewMode::Benchmark)
    } else if str_eq(s, "Solver") {
        Some(ViewMode::Solver)
    } else {
        None
    }
}

/// The wire names of `ViewMode` round-trip: each name parses back to its
/// variant, and only names parse.
pub proof fn view_mode_names_round_trip(v: ViewMode, s: Seq<char>)
    ensures
        parse_view_mode(view_mode_name(v)) == Some(v),
        parse_view_mode(s) matches Some(w) ==> s == view_mode_name(w),
{
    reveal_strlit("Benchmark");
    reveal_strlit("Solver");
    assert("Benchmark"@.len() != "Solver"@.len());
}


/// Stable wire name of a `PlotType`.
pub open spec fn plot_type_name(p: PlotType) -> Seq<char> {
    match p {
        PlotType::Scatter => "Scatter"@,
        PlotType::PerformanceProfile => "PerformanceProfile"@,
    }
}

/// The `PlotType` whose wire name is `s`.
pub open spec fn parse_plot_type(s: Seq<char>) -> Option<PlotType> {
    if s == "Scatter"@ {
        Some(PlotType::Scatter)
    } else if s == "PerformanceProfile"@ {
        Some(PlotType::PerformanceProfile)
    } else {
        None
    }
}

pub fn plot_type_to_str(p: PlotType) -> (res: &'static str)
    ensures
        res@ == plot_type_name(p),
{
    match p {
        PlotType::Scatter => "Scatter",
        PlotType::PerformanceProfile => "PerformanceProfile",
    }
}

pub fn plot_type_from_str(s: &str) -> (res: Option<PlotType>)
    ensures
        res == parse_plot_type(s@),
{
    if str_eq(s, "Scatter") {
        Some(PlotType::Scatter)
    } else if str_eq(s, "PerformanceProfile") {
        Some(PlotType::PerformanceProfile)
    } else {
        None
    }
}

/// The wire names of `PlotType` round-trip: each name parses back to its
/// variant, and only names parse.
pub proof fn plot_type_names_round_trip(p: PlotType, s: Seq<char>)
    ensures
        parse_plot_type(plot_type_name(p)) == Some(p),
        parse_plot_type(s) matches Some(w) ==> s == plot_type_name(w),
{
    reveal_strlit("Scatter");
    reveal_strlit("PerformanceProfile");
    assert("Scatter"@.len() != "PerformanceProfile"@.len());
}


/// Stable wire name of a `XaxisType`.
pub open spec fn xaxis_name(x: XaxisType) -> Seq<char> {
    match x {
        XaxisType::Cols => "Cols"@,
        XaxisType::ColCv => "ColCv"@,
        XaxisType::Rows => "Rows"@,
        XaxisType::RowCv => "RowCv"@,
        XaxisType::NonZeros => "NonZeros"@,
        XaxisType::Sparsity => "Sparsity"@,
        XaxisType::AvgNnzPerRow => "AvgNnzPerRow"@,
        XaxisType::AvgNnzPerCol => "AvgNnzPerCol"@,
        XaxisType::MatrixShapeRatio => "MatrixShapeRatio"@,
    }
}

/// The `XaxisType` whose wire name is `s`.
pub open spec fn parse_xaxis(s: Seq<char>) -> Option<XaxisType> {
    if s == "Cols"@ {
        Some(XaxisType::Cols)
    } else if s == "ColCv"@ {
        Some(XaxisType::ColCv)
    } else if s == "Rows"@ {
        Some(XaxisType::Rows)
    } else if s == "RowCv"@ {
        Some(XaxisType::RowCv)
    } else if s == "NonZeros"@ {
        Some(XaxisType::NonZeros)
    } else if s == "Sparsity"@ {
        Some(XaxisType::Sparsity)
    } else if s == "AvgNnzPerRow"@ {
        Some(XaxisType::AvgNnzPerRow)
    } else if s == "AvgNnzPerCol"@ {
        Some(XaxisType::AvgNnzPerCol)
    } else if s == "MatrixShapeRatio"@ {
        Some(XaxisType::MatrixShapeRatio)
    } else {
        None
    }
}

pub fn xaxis_to_str(x: XaxisType) -> (res: &'static str)
    ensures
        res@ == xaxis_name(x),
{
    match x {
        XaxisType::Cols => "Cols",
        XaxisType::ColCv => "ColCv",
        XaxisType::Rows => "Rows",
        XaxisType::RowCv => "RowCv",
        XaxisType::NonZeros => "NonZeros",
        XaxisType::Sparsity => "Sparsity",
        XaxisType::AvgNnzPerRow => "AvgNnzPerRow",
        XaxisType::AvgNnzPerCol => "AvgNnzPerCol",
        XaxisType::MatrixShapeRatio => "MatrixShapeRatio",
    }
}

pub fn xaxis_from_str(s: &str) -> (res: Option<XaxisType>)
    ensures
        res == parse_xaxis(s@),
{
    if str_eq(s, "Cols") {
        Some(XaxisType::Cols)
    } else if str_eq(s, "ColCv") {
        Some(XaxisType::ColCv)
    } else if str_eq(s, "Rows") {
        Some(XaxisType::Rows)
    } else if str_eq(s, "RowCv") {
        Some(XaxisType::RowCv)
    } else if str_eq(s, "NonZeros") {
        Some(XaxisType::NonZeros)
    } else if str_eq(s, "Sparsity") {
        Some(XaxisType::Sparsity)
    } else if str_eq(s, "AvgNnzPerRow") {
        Some(XaxisType::AvgNnzPerRow)
    } else if str_eq(s, "AvgNnzPerCol") {
        Some(XaxisType::AvgNnzPerCol)
    } else if str_eq(s, "MatrixShapeRatio") {
        Some(XaxisType::MatrixShapeRatio)
    } else {
        None
    }
}

/// The wire names of `XaxisType` round-trip: each name parses back to its
/// variant, and only names parse.
pub proof fn xaxis_names_round_trip(x: XaxisType, s: Seq<char>)
    ensures
        parse_xaxis(xaxis_name(x)) == Some(x),
        parse_xaxis(s) matches Some(w) ==> s == xaxis_name(w),
{
    reveal_strlit("Cols");
    reveal_strlit("ColCv");
    reveal_strlit("Rows");
    reveal_strlit("RowCv");
    reveal_strlit("NonZeros");
    reveal_strlit("Sparsity");
    reveal_strlit("AvgNnzPerRow");
    reveal_strlit("AvgNnzPerCol");
    reveal_strlit("MatrixShapeRatio");
    assert("Cols"@.len() != "ColCv"@.len());
    assert("Cols"@[0] != "Rows"@[0]);
    assert("Cols"@.len() != "RowCv"@.len());
    assert("Cols"@.len() != "NonZeros"@.len());
    assert("Cols"@.len() != "Sparsity"@.len());
    assert("Cols"@.len() != "AvgNnzPerRow"@.len());
    assert("Cols"@.len() != "AvgNnzPerCol"@.len());
    assert("Cols"@.len() != "MatrixShapeRatio"@.len());
    assert("ColCv"@.len() != "Rows"@.len());
    assert("ColCv"@[0] != "RowCv"@[0]);
    assert("ColCv"@.len() != "NonZeros"@.len());
    assert("ColCv"@.len() != "Sparsity"@.len());
    assert("ColCv"@.len() != "AvgNnzPerRow"@.len());
    assert("ColCv"@.len() != "AvgNnzPerCol"@.len());
    assert("ColCv"@.len() != "MatrixShapeRatio"@.len());
    assert("Rows"@.len() != "RowCv"@.len());
    assert("Rows"@.len() != "NonZeros"@.len());
    assert("Rows"@.len() != "Sparsity"@.len());
    assert("Rows"@.len() != "AvgNnzPerRow"@.len());
    assert("Rows"@.len() != "AvgNnzPerCol"@.len());
    assert("Rows"@.len() != "MatrixShapeRatio"@.len());
    assert("RowCv"@.len() != "NonZeros"@.len());
    assert("RowCv"@.len() != "Sparsity"@.len());
    assert("RowCv"@.len() != "AvgNnzPerRow"@.len());
    assert("RowCv"@.len() != "AvgNnzPerCol"@.len());
    assert("RowCv"@.len() != "MatrixShapeRatio"@.len());
    assert("NonZeros"@[0] != "Sparsity"@[0]);
    assert("NonZeros"@.len() != "AvgNnzPerRow"@.len());
    assert("NonZeros"@.len() != "AvgNnzPerCol"@.len());
    assert("NonZeros"@.len() != "MatrixShapeRatio"@.len());
    assert("Sparsity"@.len() != "AvgNnzPerRow"@.len());
    assert("Sparsity"@.len() != "AvgNnzPerCol"@.len());
    assert("Sparsity"@.len() != "MatrixShapeRatio"@.len());
    assert("AvgNnzPerRow"@[9] != "AvgNnzPerCol"@[9]);
    assert("AvgNnzPerRow"@.len() != "MatrixShapeRatio"@.len());
    assert("AvgNnzPerCol"@.len() != "MatrixShapeRatio"@.len());
}


/// Stable wire name of a `MetricType`.
pub open spec fn metric_name(m: MetricType) -> Seq<char> {
    match m {
        MetricType::Storage => "Storage"@,
        MetricType::Time => "Time"@,
        MetricType::GflopsPerSecond => "GflopsPerSecond"@,
        MetricType::Repetitions => "Repetitions"@,
        MetricType::OperationalIntensity => "OperationalIntensity"@,
        MetricType::EffectiveMemoryBandwidth => "EffectiveMemoryBandwidth"@,
        MetricType::Custom => "Custom"@,
    }
}

/// The `MetricType` whose wire name is `s`.
pub open spec fn parse_metric(s: Seq<char>) -> Option<MetricType> {
    if s == "Storage"@ {
        Some(MetricType::Storage)
    } else if s == "Time"@ {
        Some(MetricType::Time)
    } else if s == "GflopsPerSecond"@ {
        Some(MetricType::GflopsPerSecond)
    } else if s == "Repetitions"@ {
        Some(MetricType::Repetitions)
    } else if s == "OperationalIntensity"@ {
        Some(MetricType::OperationalIntensity)
    } else if s == "EffectiveMemoryBandwidth"@ {
        Some(MetricType::EffectiveMemoryBandwidth)
    } else if s == "Custom"@ {
        Some(MetricType::Custom)
    } else {
        None
    }
}

pub fn metric_to_str(m: MetricType) -> (res: &'static str)
    ensures
        res@ == metric_name(m),
{
    match m {
        MetricType::Storage => "Storage",
        MetricType::Time => "Time",
        MetricType::GflopsPerSecond => "GflopsPerSecond",
        MetricType::Repetitions => "Repetitions",
        MetricType::OperationalIntensity => "OperationalIntensity",
        MetricType::EffectiveMemoryBandwidth => "EffectiveMemoryBandwidth",
        MetricType::Custom => "Custom",
    }
}

pub fn metric_from_str(s: &str) -> (res: Option<MetricType>)
    ensures
        res == parse_metric(s@),
{
    if str_eq(s, "Storage") {
        Some(MetricType::Storage)
    } else if str_eq(s, "Time") {
        Some(MetricType::Time)
    } else if str_eq(s, "GflopsPerSecond") {
        Some(MetricType::GflopsPerSecond)
    } else if str_eq(s, "Repetitions") {
        Some(MetricType::Repetitions)
    } else if str_eq(s, "OperationalIntensity") {
        Some(MetricType::OperationalIntensity)
    } else if str_eq(s, "EffectiveMemoryBandwidth") {
        Some(MetricType::EffectiveMemoryBandwidth)
    } else if str_eq(s, "Custom") {
        Some(MetricType::Custom)
    } else {
        None
    }
}

/// The wire names of `MetricType` round-trip: each name parses back to its
/// variant, and only names parse.
pub proof fn metric_names_round_trip(m: MetricType, s: Seq<char>)
    ensures
        parse_metric(metric_name(m)) == Some(m),
        parse_metric(s) matches Some(w) ==> s == metric_name(w),
{
    reveal_strlit("Storage");
    reveal_strlit("Time");
    reveal_strlit("GflopsPerSecond");
    reveal_strlit("Repetitions");
    reveal_strlit("OperationalIntensity");
    reveal_strlit("EffectiveMemoryBandwidth");
    reveal_strlit("Custom");
    assert("Storage"@.len() != "Time"@.len());
    assert("Storage"@.len() != "GflopsPerSecond"@.len());
    assert("Storage"@.len() != "Repetitions"@.len());
    assert("Storage"@.len() != "OperationalIntensity"@.len());
    assert("Storage"@.len() != "EffectiveMemoryBandwidth"@.len());
    assert("Storage"@.len() != "Custom"@.len());
    assert("Time"@.len() != "GflopsPerSecond"@.len());
    assert("Time"@.len() != "Repetitions"@.len());
    assert("Time"@.len() != "OperationalIntensity"@.len());
    assert("Time"@.len() != "EffectiveMemoryBandwidth"@.len());
    assert("Time"@.len() != "Custom"@.len());
    assert("GflopsPerSecond"@.len() != "Repetitions"@.len());
    assert("GflopsPerSecond"@.len() != "OperationalIntensity"@.len());
    assert("GflopsPerSecond"@.len() != "EffectiveMemoryBandwidth"@.len());
    assert("GflopsPerSecond"@.len() != "Custom"@.len());
    assert("Repetitions"@.len() != "OperationalIntensity"@.len());
    assert("Repetitions"@.len() != "EffectiveMemoryBandwidth"@.len());
    assert("Repetitions"@.len() != "Custom"@.len());
    assert("OperationalIntensity"@.len() != "EffectiveMemoryBandwidth"@.len());
    assert("OperationalIntensity"@.len() != "Custom"@.len());
    assert("EffectiveMemoryBandwidth"@.len() != "Custom"@.len());
}


/// Stable wire name of a `DataFormat`.
pub open spec fn data_format_name(f: DataFormat) -> Seq<char> {
    match f {
        DataFormat::CSR => "CSR"@,
        DataFormat::COO => "COO"@,
        DataFormat::ELL => "ELL"@,
        DataFormat::HYBRID => "HYBRID"@,
        DataFormat::SELLP => "SELLP"@,
    }
}

/// The `DataFormat` whose wire name is `s`.
pub open spec fn parse_data_format(s: Seq<char>) -> Option<DataFormat> {
    if s == "CSR"@ {
        Some(DataFormat::CSR)
    } else if s == "COO"@ {
        Some(DataFormat::COO)
    } else if s == "ELL"@ {
        Some(DataFormat::ELL)
    } else if s == "HYBRID"@ {
        Some(DataFormat::HYBRID)
    } else if s == "SELLP"@ {
        Some(DataFormat::SELLP)
    } else {
        None
    }
}

pub fn data_format_to_str(f: DataFormat) -> (res: &'static str)
    ensures
        res@ == data_format_name(f),
{
    match f {
        DataFormat::CSR => "CSR",
        DataFormat::COO => "COO",
        DataFormat::ELL => "ELL",
        DataFormat::HYBRID => "HYBRID",
        DataFormat::SELLP => "SELLP",
    }
}

pub fn data_format_from_str(s: &str) -> (res: Option<DataFormat>)
    ensures
        res == parse_data_format(s@),
{
    if str_eq(s, "CSR") {
        Some(DataFormat::CSR)
    } else if str_eq(s, "COO") {
        Some(DataFormat::COO)
    } else if str_eq(s, "ELL") {
        Some(DataFormat::ELL)
    } else if str_eq(s, "HYBRID") {
        Some(DataFormat::HYBRID)
    } else if str_eq(s, "SELLP") {
        Some(DataFormat::SELLP)
    } else {
        None
    }
}

/// The wire names of `DataFormat` round-trip: each name parses back to its
/// variant, and only names parse.
pub proof fn data_format_names_round_trip(f: DataFormat, s: Seq<char>)
    ensures
        parse_data_format(data_format_name(f)) == Some(f),
        parse_data_format(s) matches Some(w) ==> s == data_format_name(w),
{
    reveal_strlit("CSR");
    reveal_strlit("COO");
    reveal_strlit("ELL");
    reveal_strlit("HYBRID");
    reveal_strlit("SELLP");
    assert("CSR"@[1] != "COO"@[1]);
    assert("CSR"@[0] != "ELL"@[0]);
    assert("CSR"@.len() != "HYBRID"@.len());
    assert("CSR"@.len() != "SELLP"@.len());
    assert("COO"@[0] != "ELL"@[0]);
    assert("COO"@.len() != "HYBRID"@.len());
    assert("COO"@.len() != "SELLP"@.len());
    assert("ELL"@.len() != "HYBRID"@.len());
    assert("ELL"@.len() != "SELLP"@.len());
    assert("HYBRID"@.len() != "SELLP"@.len());
}


// ---------------------------------------------------------------------------
// Fragment framing
// ---------------------------------------------------------------------------

/// The URL-safe base64 alphabet (RFC 4648 §5): `A-Z a-z 0-9 - _`.
pub open spec fn b64_url_char(v: int) -> char {
    if v < 26 {
        (('A' as int) + v) as char
    } else if v < 52 {
        (('a' as int) + v - 26) as char
    } else if v < 62 {
        (('0' as int) + v - 52) as char
    } else if v == 62 {
        '-'
    } else {
        '_'
    }
}

/// URL-safe base64 without padding: each 3 bytes become 4 characters, a
/// trailing 1 or 2 bytes become 2 or 3.
pub open spec fn base64_url_encoded(b: Seq<u8>) -> Seq<char>
    decreases b.len(),
{
    if b.len() == 0 {
        Seq::empty()
    } else if b.len() == 1 {
        seq![b64_url_char(b[0] as int / 4), b64_url_char((b[0] as int % 4) * 16)]
    } else if b.len() == 2 {
        seq![
            b64_url_char(b[0] as int / 4),
            b64_url_char((b[0] as int % 4) * 16 + b[1] as int / 16),
            b64_url_char((b[1] as int % 16) * 4),
        ]
    } else {
        seq![
            b64_url_char(b[0] as int / 4),
            b64_url_char((b[0] as int % 4) * 16 + b[1] as int / 16),
            b64_url_char((b[1] as int % 16) * 4 + b[2] as int / 64),
            b64_url_char(b[2] as int % 64),
        ] + base64_url_encoded(b.skip(3))
    }
}

/// URL-safe, unpadded base64 decoding of `s`: the bytes whose encoding `s`
/// is, `None` when `s` encodes no bytes (a character outside the alphabet,
/// padding, a length of the form `4k + 1`, or non-zero trailing bits).
pub open spec fn base64_url_decoded(s: Seq<char>) -> Option<Seq<u8>> {
    if exists|b: Seq<u8>| base64_url_encoded(b) == s {
        Some(choose|b: Seq<u8>| base64_url_encoded(b) == s)
    } else {
        None
    }
}

/// The 64 characters of the alphabet are distinct.
proof fn lemma_b64_char_injective(v: int, w: int)
    requires
        0 <= v < 64,
        0 <= w < 64,
        b64_url_char(v) == b64_url_char(w),
    ensures
        v == w,
{
}

/// The length of an encoding: four characters per three bytes, two or
/// three for a trailing one or two bytes.
proof fn lemma_encoded_len(b: Seq<u8>)
    ensures
        base64_url_encoded(b).len() == 4 * (b.len() / 3) + (if b.len() % 3 == 0 {
            0int
        } else if b.len() % 3 == 1 {
            2int
        } else {
            3int
        }),
    decreases b.len(),
{
    if b.len() >= 3 {
        lemma_encoded_len(b.skip(3));
        assert(b.skip(3).len() == b.len() - 3);
    }
}

/// One byte is recovered from its two characters.
proof fn lemma_chunk1(x: u8, y: u8)
    requires
        b64_url_char(x as int / 4) == b64_url_char(y as int / 4),
        b64_url_char((x as int % 4) * 16) == b64_url_char((y as int % 4) * 16),
    ensures
        x == y,
{
    lemma_b64_char_injective(x as int / 4, y as int / 4);
    lemma_b64_char_injective((x as int % 4) * 16, (y as int % 4) * 16);
}

/// Two bytes are recovered from their three characters.
proof fn lemma_chunk2(x0: u8, x1: u8, y0: u8, y1: u8)
    requires
        b64_url_char(x0 as int / 4) == b64_url_char(y0 as int / 4),
        b64_url_char((x0 as int % 4) * 16 + x1 as int / 16) == b64_url_char((y0 as int % 4) * 16 + y1 as int / 16),
        b64_url_char((x1 as int % 16) * 4) == b64_url_char((y1 as int % 16) * 4),
    ensures
        x0 == y0,
        x1 == y1,
{
    lemma_b64_char_injective(x0 as int / 4, y0 as int / 4);
    lemma_b64_char_injective((x0 as int % 4) * 16 + x1 as int / 16, (y0 as int % 4) * 16 + y1 as int / 16);
    lemma_b64_char_injective((x1 as int % 16) * 4, (y1 as int % 16) * 4);
}

/// Three bytes are recovered from their four characters.
proof fn lemma_chunk3(x0: u8, x1: u8, x2: u8, y0: u8, y1: u8, y2: u8)
    requires
        b64_url_char(x0 as int / 4) == b64_url_char(y0 as int / 4),
        b64_url_char((x0 as int % 4) * 16 + x1 as int / 16) == b64_url_char((y0 as int % 4) * 16 + y1 as int / 16),
        b64_url_char((x1 as int % 16) * 4 + x2 as int / 64) == b64_url_char((y1 as int % 16) * 4 + y2 as int / 64),
        b64_url_char(x2 as int % 64) == b64_url_char(y2 as int % 64),
    ensures
        x0 == y0,
        x1 == y1,
        x2 == y2,
{
    lemma_b64_char_injective(x0 as int / 4, y0 as int / 4);
    lemma_b64_char_injective((x0 as int % 4) * 16 + x1 as int / 16, (y0 as int % 4) * 16 + y1 as int / 16);
    lemma_b64_char_injective((x1 as int % 16) * 4 + x2 as int / 64, (y1 as int % 16) * 4 + y2 as int / 64);
    lemma_b64_char_injective(x2 as int % 64, y2 as int % 64);
}

/// Different bytes have different encodings.
pub proof fn lemma_encoded_injective(a: Seq<u8>, b: Seq<u8>)
    requires
        base64_url_encoded(a) == base64_url_encoded(b),
    ensures
        a == b,
    decreases a.len(),
{
    let ea = base64_url_encoded(a);
    lemma_encoded_len(a);
    lemma_encoded_len(b);
    assert(a.len() == b.len()) by (nonlinear_arith)
        requires
            4 * (a.len() / 3) + (if a.len() % 3 == 0 { 0int } else if a.len() % 3 == 1 { 2int } else { 3int })
                == 4 * (b.len() / 3) + (if b.len() % 3 == 0 { 0int } else if b.len() % 3 == 1 { 2int } else { 3int }),
    ;
    if a.len() == 0 {
        assert(a =~= b);
    } else if a.len() == 1 {
        lemma_chunk1(a[0], b[0]);
        assert(a =~= b);
    } else if a.len() == 2 {
        lemma_chunk2(a[0], a[1], b[0], b[1]);
        assert(a =~= b);
    } else {
        let eb = base64_url_encoded(b);
        assert(ea[0] == eb[0] && ea[1] == eb[1] && ea[2] == eb[2] && ea[3] == eb[3]);
        assert(ea[0] == b64_url_char(a[0] as int / 4));
        assert(ea[1] == b64_url_char((a[0] as int % 4) * 16 + a[1] as int / 16));
        assert(ea[2] == b64_url_char((a[1] as int % 16) * 4 + a[2] as int / 64));
        assert(ea[3] == b64_url_char(a[2] as int % 64));
        assert(eb[0] == b64_url_char(b[0] as int / 4));
        assert(eb[1] == b64_url_char((b[0] as int % 4) * 16 + b[1] as int / 16));
        assert(eb[2] == b64_url_char((b[1] as int % 16) * 4 + b[2] as int / 64));
        assert(eb[3] == b64_url_char(b[2] as int % 64));
        lemma_chunk3(a[0], a[1], a[2], b[0], b[1], b[2]);
        assert(ea.skip(4) =~= base64_url_encoded(a.skip(3)));
        assert(base64_url_encoded(b).skip(4) =~= base64_url_encoded(b.skip(3)));
        lemma_encoded_injective(a.skip(3), b.skip(3));
        assert(a =~= a.take(3) + a.skip(3));
        assert(b =~= b.take(3) + b.skip(3));
        assert(a.take(3) =~= b.take(3));
    }
}

/// The encoding of `b` decodes to `b`.
pub proof fn lemma_decode_encoded(b: Seq<u8>)
    ensures
        base64_url_decoded(base64_url_encoded(b)) == Some(b),
{
    let s = base64_url_encoded(b);
    assert(exists|c: Seq<u8>| base64_url_encoded(c) == s);
    let c = choose|c: Seq<u8>| base64_url_encoded(c) == s;
    lemma_encoded_injective(c, b);
}

/// Every character of an encoding is in the alphabet.
proof fn lemma_encoded_chars(b: Seq<u8>, i: int)
    requires
        0 <= i < base64_url_encoded(b).len(),
    ensures
        exists|v: int| 0 <= v < 64 && base64_url_encoded(b)[i] == b64_url_char(v),
    decreases b.len(),
{
    let e = base64_url_encoded(b);
    if b.len() == 1 {
        if i == 0 {
            assert(e[i] == b64_url_char(b[0] as int / 4));
        } else {
            assert(e[i] == b64_url_char((b[0] as int % 4) * 16));
        }
    } else if b.len() == 2 {
        if i == 0 {
            assert(e[i] == b64_url_char(b[0] as int / 4));
        } else if i == 1 {
            assert(e[i] == b64_url_char((b[0] as int % 4) * 16 + b[1] as int / 16));
        } else {
            assert(e[i] == b64_url_char((b[1] as int % 16) * 4));
        }
    } else if b.len() >= 3 {
        if i == 0 {
            assert(e[i] == b64_url_char(b[0] as int / 4));
        } else if i == 1 {
            assert(e[i] == b64_url_char((b[0] as int % 4) * 16 + b[1] as int / 16));
        } else if i == 2 {
            assert(e[i] == b64_url_char((b[1] as int % 16) * 4 + b[2] as int / 64));
        } else if i == 3 {
            assert(e[i] == b64_url_char(b[2] as int % 64));
        } else {
            lemma_encoded_chars(b.skip(3), i - 4);
            assert(e[i] == base64_url_encoded(b.skip(3))[i - 4]);
        }
    }
}

/// Text holding a character outside the URL-safe alphabet (`?`, `=`, `+`,
/// `/`, white space, ...) decodes to nothing.
pub proof fn decoding_rejects_foreign_characters(s: Seq<char>, i: int)
    requires
        0 <= i < s.len(),
        forall|v: int| 0 <= v < 64 ==> s[i] != #[trigger] b64_url_char(v),
    ensures
        base64_url_decoded(s) is None,
{
    if exists|b: Seq<u8>| base64_url_encoded(b) == s {
        let b = choose|b: Seq<u8>| base64_url_encoded(b) == s;
        lemma_encoded_chars(b, i);
    }
}

/// Encodes bytes as URL-safe base64 without padding.
///
/// Trusted: calls `base64`'s `URL_SAFE_NO_PAD.encode`; the contract claims
/// the standard RFC 4648 URL-safe encoding without `=` padding. The length
/// bound keeps the crate's output-size computation from overflowing.
#[verifier::external_body]
fn base64_url_encode(bytes: &[u8]) -> (res: String)
    requires
        bytes@.len() <= usize::MAX / 2,
    ensures
        res@ == base64_url_encoded(bytes@),
{
    URL_SAFE_NO_PAD.encode(bytes)
}

/// Decodes URL-safe base64 without padding.
///
/// Trusted: calls `base64`'s `URL_SAFE_NO_PAD.decode` and maps its error
/// to `None`; the contract claims that exactly the canonical unpadded
/// encodings decode, each to the bytes it encodes ([`base64_url_decoded`]):
/// the engine allows no padding and no non-zero trailing bits.
#[verifier::external_body]
fn base64_url_decode(s: &str) -> (res: Option<Vec<u8>>)
    ensures
        res matches Some(v) ==> base64_url_decoded(s@) == Some(v@),
        res is None ==> base64_url_decoded(s@) is None,
{
    URL_SAFE_NO_PAD.decode(s).ok()
}

/// The fragment (without `#`) carrying the JSON text `json`.
pub open spec fn fragment_of(json: Seq<u8>) -> Seq<char> {
    "v1="@ + base64_url_encoded(json)
}

/// The JSON bytes a fragment carries: an optional leading `#` is dropped,
/// then only a `v1=` fragment whose payload is valid base64 yields bytes.
pub open spec fn fragment_payload(fragment: Seq<char>) -> Option<Seq<u8>> {
    let f = if fragment.len() > 0 && fragment[0] == '#' { fragment.drop_first() } else { fragment };
    if f.len() == 0 || !has_prefix(f, "v1="@) {
        None
    } else {
        base64_url_decoded(f.skip(3))
    }
}

/// Frames JSON text as a `v1=` fragment. The fragment, with or without a
/// leading `#`, gives the same JSON back.
pub fn fragment_from_json(json: &[u8]) -> (res: String)
    requires
        json@.len() <= usize::MAX / 2,
    ensures
        res@ == fragment_of(json@),
        fragment_payload(res@) == Some(json@),
        fragment_payload(seq!['#'] + res@) == Some(json@),
{
    let b64 = base64_url_encode(json);
    let res = concat("v1=", b64.as_str());
    proof {
        lemma_decode_encoded(json@);
        reveal_strlit("v1=");
        assert(res@.skip(3) =~= b64@);
        assert(res@.subrange(0, 3) =~= "v1="@);
        assert((seq!['#'] + res@).drop_first() =~= res@);
    }
    res
}

/// The JSON bytes carried by a fragment (see [`fragment_payload`]).
pub fn json_from_fragment(fragment: &str) -> (res: Option<Vec<u8>>)
    ensures
        res matches Some(v) ==> fragment_payload(fragment@) == Some(v@),
        res is None ==> fragment_payload(fragment@) is None,
{
    let n = fragment.unicode_len();
    let f: &str = if n > 0 && fragment.get_char(0) == '#' {
        fragment.substring_char(1, n)
    } else {
        fragment
    };
    proof {
        if n > 0 && fragment@[0] == '#' {
            assert(f@ =~= fragment@.drop_first());
        }
    }
    let m = f.unicode_len();
    if m == 0 || !starts_with(f, "v1=") {
        return None;
    }
    proof {
        reveal_strlit("v1=");
    }
    let payload = f.substring_char(3, m);
    assert(payload@ =~= f@.skip(3));
    base64_url_decode(payload)
}

// ---------------------------------------------------------------------------
// Dashboard <-> state
// ---------------------------------------------------------------------------

/// Wire names of the active formats, in canonical order.
pub open spec fn active_format_names(flags: FormatFlags) -> Seq<Seq<char>> {
    let pick = |f: DataFormat|
        if flags.is_active(f) { seq![data_format_name(f)] } else { Seq::<Seq<char>>::empty() };
    pick(DataFormat::CSR) + pick(DataFormat::COO) + pick(DataFormat::ELL) + pick(DataFormat::HYBRID)
        + pick(DataFormat::SELLP)
}

/// Index of the first commit, from `i` on, whose SHA or short SHA starts
/// with `prefix`.
pub open spec fn first_commit_with_prefix(commits: Seq<CommitInfo>, prefix: Seq<char>, i: int) -> Option<int>
    decreases commits.len() - i,
{
    if i < 0 || i >= commits.len() {
        None
    } else if has_prefix(commits[i].sha@, prefix) || has_prefix(commits[i].short_sha@, prefix) {
        Some(i)
    } else {
        first_commit_with_prefix(commits, prefix, i + 1)
    }
}

/// `s` is the URL state of dashboard `d`.
pub open spec fn state_describes(d: Dashboard, s: StateV1) -> bool {
    let y_formula: Option<Seq<char>> = if d.plot_config.data_metric == Some(MetricType::Custom) {
        d.plot_config.custom_formula_source.deep_view()
    } else {
        None
    };
    &&& s.schema == SCHEMA_VERSION
    &&& s.commit.deep_view() == (match d.git.selected_commit_idx {
        Some(i) => if i < d.git.commits@.len() { Some(d.git.commits@[i as int].short_sha@) } else { None },
        None => None,
    })
    &&& s.view.deep_view() == Some(view_mode_name(d.view_mode))
    &&& s.plot_type.deep_view() == Some(plot_type_name(d.plot_config.plot_type))
    &&& s.x_axis.deep_view() == (match d.plot_config.x_axis {
        Some(x) => Some(xaxis_name(x)),
        None => None,
    })
    &&& s.y_formula.deep_view() == y_formula
    &&& s.y_metric.deep_view() == (if y_formula is None {
        match d.plot_config.data_metric {
            Some(m) => Some(metric_name(m)),
            None => None,
        }
    } else {
        None
    })
    &&& s.normalize == Some(d.plot_config.normalize)
    &&& s.formats matches Some(v) && strings(v@) == active_format_names(d.data_selection.active_formats)
}

/// The metric a state's `y_metric` selects, `current` when absent or unknown.
pub open spec fn metric_after(y_metric: Option<String>, current: Option<MetricType>) -> Option<MetricType> {
    match y_metric {
        Some(y) => match parse_metric(y@) {
            Some(m) => Some(m),
            None => current,
        },
        None => current,
    }
}

/// `after` is `before` with the URL state `s` applied, where `compiled` is
/// the source of the compiled `y_formula` when it compiles.
///
/// Each named field with a known value is set; unknown names and absent
/// fields leave the dashboard's value alone; nothing else changes.
pub open spec fn applied(before: Dashboard, s: StateV1, compiled: Option<String>, after: Dashboard) -> bool {
    let pc = before.plot_config;
    let apc = after.plot_config;
    &&& after.view_mode == (match s.view {
        Some(v) => match parse_view_mode(v@) {
            Some(m) => m,
            None => before.view_mode,
        },
        None => before.view_mode,
    })
    &&& apc.plot_type == (match s.plot_type {
        Some(v) => match parse_plot_type(v@) {
            Some(t) => t,
            None => pc.plot_type,
        },
        None => pc.plot_type,
    })
    &&& apc.x_axis == (match s.x_axis {
        Some(v) => match parse_xaxis(v@) {
            Some(x) => Some(x),
            None => pc.x_axis,
        },
        None => pc.x_axis,
    })
    &&& (match s.y_formula {
        Some(src) => {
            &&& apc.custom_formula_text@ == src@
            &&& (match compiled {
                Some(c) => {
                    &&& apc.custom_formula_source matches Some(cs) && cs@ == c@
                    &&& apc.data_metric == Some(MetricType::Custom)
                },
                None => {
                    &&& apc.custom_formula_source == pc.custom_formula_source
                    &&& apc.data_metric == metric_after(s.y_metric, pc.data_metric)
                },
            })
        },
        None => {
            &&& apc.custom_formula_text == pc.custom_formula_text
            &&& apc.custom_formula_source == pc.custom_formula_source
            &&& apc.data_metric == metric_after(s.y_metric, pc.data_metric)
        },
    })
    &&& apc.normalize == (match s.normalize {
        Some(n) => n,
        None => pc.normalize,
    })
    &&& (match s.formats {
        Some(list) => forall|f: DataFormat|
            #[trigger] after.data_selection.active_formats.flag(f) == Some(
                strings(list@).contains(data_format_name(f)),
            ),
        None => after.data_selection.active_formats == before.data_selection.active_formats,
    })
    &&& after.git.selected_commit_idx == (match s.commit {
        Some(p) => match first_commit_with_prefix(before.git.commits@, p@, 0) {
            Some(i) => Some(i as usize),
            None => before.git.selected_commit_idx,
        },
        None => before.git.selected_commit_idx,
    })
    &&& apc.baseline_format == pc.baseline_format
    &&& apc.filter_outliers == pc.filter_outliers
    &&& apc.log_scale_x == pc.log_scale_x
    &&& apc.show_percentile_bands == pc.show_percentile_bands
    &&& apc.custom_formula_error == pc.custom_formula_error
    &&& after.data_selection.mode == before.data_selection.mode
    &&& after.data_selection.sorted_dataset_keys == before.data_selection.sorted_dataset_keys
    &&& after.data_selection.active_dataset == before.data_selection.active_dataset
    &&& after.git.commits == before.git.commits
    &&& after.git.repo_path == before.git.repo_path
    &&& after.git.last_error == before.git.last_error
    &&& after.git.last_prefetch_idx == before.git.last_prefetch_idx
    &&& after.git.prefetch_in_flight == before.git.prefetch_in_flight
    &&& after.loading == before.loading
    &&& after.comparison == before.comparison
    &&& after.timeseries == before.timeseries
    &&& after.stacked_bar == before.stacked_bar
    &&& after.export == before.export
}

fn push_name(v: &mut Vec<String>, name: &str)
    ensures
        strings(final(v)@) == strings(old(v)@).push(name@),
{
    v.push(String::from_str(name));
    proof {
        assert(strings(v@) =~= strings(old(v)@).push(name@));
    }
}

fn first_commit_matching(commits: &Vec<CommitInfo>, prefix: &str) -> (res: Option<usize>)
    ensures
        res matches Some(i) ==> first_commit_with_prefix(commits@, prefix@, 0) == Some(i as int),
        res is None ==> first_commit_with_prefix(commits@, prefix@, 0) is None,
{
    let mut i: usize = 0;
    while i < commits.len()
        invariant
            i <= commits@.len(),
            first_commit_with_prefix(commits@, prefix@, 0) == first_commit_with_prefix(commits@, prefix@, i as int),
        decreases commits@.len() - i,
    {
        if starts_with(commits[i].sha.as_str(), prefix) || starts_with(commits[i].short_sha.as_str(), prefix) {
            return Some(i);
        }
        i = i + 1;
    }
    None
}

fn list_names_format(list: &Vec<String>, f: DataFormat) -> (res: bool)
    ensures
        res == strings(list@).contains(data_format_name(f)),
{
    let mut i: usize = 0;
    while i < list.len()
        invariant
            i <= list@.len(),
            forall|j: int| 0 <= j < i ==> (#[trigger] list@[j])@ != data_format_name(f),
        decreases list@.len() - i,
    {
        proof {
            data_format_names_round_trip(f, list@[i as int]@);
        }
        if let Some(g) = data_format_from_str(list[i].as_str()) {
            if g == f {
                assert(strings(list@)[i as int] == data_format_name(f));
                return true;
            }
        }
        i = i + 1;
    }
    proof {
        if strings(list@).contains(data_format_name(f)) {
            let j = choose|j: int| 0 <= j < strings(list@).len() && strings(list@)[j] == data_format_name(f);
            assert(list@[j]@ == data_format_name(f));
        }
    }
    false
}

impl Dashboard {
    /// The URL state of the dashboard (serialised and framed around it).
    pub fn state_v1(&self) -> (res: StateV1)
        ensures
            state_describes(*self, res),
    {
        let y_formula: Option<String> = match self.plot_config.data_metric {
            Some(MetricType::Custom) => match &self.plot_config.custom_formula_source {
                Some(src) => Some(src.clone()),
                None => None,
            },
            _ => None,
        };
        let y_metric: Option<String> = if y_formula.is_none() {
            match self.plot_config.data_metric {
                Some(m) => Some(String::from_str(metric_to_str(m))),
                None => None,
            }
        } else {
            None
        };
        let commit: Option<String> = match self.git.selected_commit_idx {
            Some(i) => if i < self.git.commits.len() {
                Some(self.git.commits[i].short_sha.clone())
            } else {
                None
            },
            None => None,
        };
        let x_axis: Option<String> = match self.plot_config.x_axis {
            Some(x) => Some(String::from_str(xaxis_to_str(x))),
            None => None,
        };
        let flags = &self.data_selection.active_formats;
        let mut formats: Vec<String> = Vec::new();
        if flags.active(DataFormat::CSR) {
            push_name(&mut formats, data_format_to_str(DataFormat::CSR));
        }
        if flags.active(DataFormat::COO) {
            push_name(&mut formats, data_format_to_str(DataFormat::COO));
        }
        if flags.active(DataFormat::ELL) {
            push_name(&mut formats, data_format_to_str(DataFormat::ELL));
        }
        if flags.active(DataFormat::HYBRID) {
            push_name(&mut formats, data_format_to_str(DataFormat::HYBRID));
        }
        if flags.active(DataFormat::SELLP) {
            push_name(&mut formats, data_format_to_str(DataFormat::SELLP));
        }
        assert(strings(formats@) =~= active_format_names(*flags));
        StateV1 {
            schema: SCHEMA_VERSION,
            commit,
            view: Some(String::from_str(view_mode_to_str(self.view_mode))),
            plot_type: Some(String::from_str(plot_type_to_str(self.plot_config.plot_type))),
            x_axis,
            y_metric,
            normalize: Some(self.plot_config.normalize),
            formats: Some(formats),
            y_formula,
        }
    }

    fn apply_y_metric(&mut self, y_metric: &Option<String>)
        ensures
            *final(self) == (Dashboard {
                plot_config: PlotConfig {
                    data_metric: metric_after(*y_metric, old(self).plot_config.data_metric),
                    ..old(self).plot_config
                },
                ..*old(self)
            }),
    {
        if let Some(y) = y_metric {
            if let Some(m) = metric_from_str(y.as_str()) {
                self.plot_config.data_metric = Some(m);
            }
        }
    }

    fn apply_view(&mut self, view: &Option<String>)
        ensures
            *final(self) == (Dashboard {
                view_mode: (match *view {
                    Some(v) => match parse_view_mode(v@) {
                        Some(m) => m,
                        None => old(self).view_mode,
                    },
                    None => old(self).view_mode,
                }),
                ..*old(self)
            }),
    {
        if let Some(v) = view {
            if let Some(mode) = view_mode_from_str(v.as_str()) {
                self.view_mode = mode;
            }
        }
    }

    fn apply_plot_type(&mut self, plot_type: &Option<String>)
        ensures
            *final(self) == (Dashboard {
                plot_config: PlotConfig {
                    plot_type: (match *plot_type {
                        Some(v) => match parse_plot_type(v@) {
                            Some(t) => t,
                            None => old(self).plot_config.plot_type,
                        },
                        None => old(self).plot_config.plot_type,
                    }),
                    ..old(self).plot_config
                },
                ..*old(self)
            }),
    {
        if let Some(p) = plot_type {
            if let Some(pt) = plot_type_from_str(p.as_str()) {
                self.plot_config.plot_type = pt;
            }
        }
    }

    fn apply_x_axis(&mut self, x_axis: &Option<String>)
        ensures
            *final(self) == (Dashboard {
                plot_config: PlotConfig {
                    x_axis: (match *x_axis {
                        Some(v) => match parse_xaxis(v@) {
                            Some(x) => Some(x),
                            None => old(self).plot_config.x_axis,
                        },
                        None => old(self).plot_config.x_axis,
                    }),
                    ..old(self).plot_config
                },
                ..*old(self)
            }),
    {
        if let Some(x) = x_axis {
            if let Some(ax) = xaxis_from_str(x.as_str()) {
                self.plot_config.x_axis = Some(ax);
            }
        }
    }

    fn apply_normalize(&mut self, normalize: Option<bool>)
        ensures
            *final(self) == (Dashboard {
                plot_config: PlotConfig {
                    normalize: (match normalize {
                        Some(n) => n,
                        None => old(self).plot_config.normalize,
                    }),
                    ..old(self).plot_config
                },
                ..*old(self)
            }),
    {
        if let Some(n) = normalize {
            self.plot_config.normalize = n;
        }
    }

    fn apply_formula(&mut self, state: &StateV1, compiled: Option<String>)
        ensures
            final(self).view_mode == old(self).view_mode,
            final(self).data_selection == old(self).data_selection,
            final(self).git == old(self).git,
            final(self).loading == old(self).loading,
            final(self).comparison == old(self).comparison,
            final(self).timeseries == old(self).timeseries,
            final(self).stacked_bar == old(self).stacked_bar,
            final(self).export == old(self).export,
            final(self).plot_config.plot_type == old(self).plot_config.plot_type,
            final(self).plot_config.x_axis == old(self).plot_config.x_axis,
            final(self).plot_config.normalize == old(self).plot_config.normalize,
            final(self).plot_config.baseline_format == old(self).plot_config.baseline_format,
            final(self).plot_config.filter_outliers == old(self).plot_config.filter_outliers,
            final(self).plot_config.log_scale_x == old(self).plot_config.log_scale_x,
            final(self).plot_config.show_percentile_bands == old(self).plot_config.show_percentile_bands,
            final(self).plot_config.custom_formula_error == old(self).plot_config.custom_formula_error,
            (match state.y_formula {
                Some(src) => {
                    &&& final(self).plot_config.custom_formula_text@ == src@
                    &&& (match compiled {
                        Some(c) => {
                            &&& final(self).plot_config.custom_formula_source matches Some(cs) && cs@ == c@
                            &&& final(self).plot_config.data_metric == Some(MetricType::Custom)
                        },
                        None => {
                            &&& final(self).plot_config.custom_formula_source == old(self).plot_config.custom_formula_source
                            &&& final(self).plot_config.data_metric == metric_after(
                                state.y_metric,
                                old(self).plot_config.data_metric,
                            )
                        },
                    })
                },
                None => {
                    &&& final(self).plot_config.custom_formula_text == old(self).plot_config.custom_formula_text
                    &&& final(self).plot_config.custom_formula_source == old(self).plot_config.custom_formula_source
                    &&& final(self).plot_config.data_metric == metric_after(
                        state.y_metric,
                        old(self).plot_config.data_metric,
                    )
                },
            }),
    {
        match &state.y_formula {
            Some(src) => {
                self.plot_config.custom_formula_text = src.clone();
                match compiled {
                    Some(c) => {
                        self.plot_config.custom_formula_source = Some(c);
                        self.plot_config.data_metric = Some(MetricType::Custom);
                    },
                    None => {
                        self.apply_y_metric(&state.y_metric);
                    },
                }
            },
            None => {
                self.apply_y_metric(&state.y_metric);
            },
        }
    }

    fn apply_formats(&mut self, formats: &Option<Vec<String>>)
        ensures
            *final(self) == (Dashboard {
                data_selection: DataSelection {
                    active_formats: final(self).data_selection.active_formats,
                    ..old(self).data_selection
                },
                ..*old(self)
            }),
            (match *formats {
                Some(list) => forall|f: DataFormat|
                    #[trigger] final(self).data_selection.active_formats.flag(f) == Some(
                        strings(list@).contains(data_format_name(f)),
                    ),
                None => final(self).data_selection.active_formats == old(self).data_selection.active_formats,
            }),
    {
        if let Some(list) = formats {
            let csr = list_names_format(list, DataFormat::CSR);
            let coo = list_names_format(list, DataFormat::COO);
            let ell = list_names_format(list, DataFormat::ELL);
            let hybrid = list_names_format(list, DataFormat::HYBRID);
            let sellp = list_names_format(list, DataFormat::SELLP);
            self.data_selection.active_formats.insert(DataFormat::CSR, csr);
            self.data_selection.active_formats.insert(DataFormat::COO, coo);
            self.data_selection.active_formats.insert(DataFormat::ELL, ell);
            self.data_selection.active_formats.insert(DataFormat::HYBRID, hybrid);
            self.data_selection.active_formats.insert(DataFormat::SELLP, sellp);
            assert forall|f: DataFormat| #[trigger] self.data_selection.active_formats.flag(f) == Some(
                strings(list@).contains(data_format_name(f)),
            ) by {
                match f {
                    DataFormat::CSR => {},
                    DataFormat::COO => {},
                    DataFormat::ELL => {},
                    DataFormat::HYBRID => {},
                    DataFormat::SELLP => {},
                }
            }
        }
    }

    fn apply_commit(&mut self, commit: &Option<String>)
        ensures
            *final(self) == (Dashboard {
                git: GitState {
                    selected_commit_idx: (match *commit {
                        Some(p) => match first_commit_with_prefix(old(self).git.commits@, p@, 0) {
                            Some(i) => Some(i as usize),
                            None => old(self).git.selected_commit_idx,
                        },
                        None => old(self).git.selected_commit_idx,
                    }),
                    ..old(self).git
                },
                ..*old(self)
            }),
    {
        if let Some(prefix) = commit {
            if let Some(idx) = first_commit_matching(&self.git.commits, prefix.as_str()) {
                self.git.selected_commit_idx = Some(idx);
            }
        }
    }

    /// Apply a decoded URL state: every field the state names with a known
    /// value is set, the rest of the dashboard is left alone.
    ///
    /// `compiled` is the source of the compiled `y_formula` (the formula
    /// trimmed) when the state has one and it compiles; otherwise `None`, and
    /// the state's `y_metric` applies.
    pub fn apply_state_v1(&mut self, state: &StateV1, compiled: Option<String>)
        requires
            compiled matches Some(c) ==> (state.y_formula matches Some(src) && c@ == trimmed(src@)),
        ensures
            applied(*old(self), *state, compiled, *final(self)),
    {
        self.apply_view(&state.view);
        self.apply_plot_type(&state.plot_type);
        self.apply_x_axis(&state.x_axis);
        self.apply_normalize(state.normalize);
        self.apply_formula(state, compiled);
        self.apply_formats(&state.formats);
        self.apply_commit(&state.commit);
    }
}



proof fn lemma_add_contains(a: Seq<Seq<char>>, b: Seq<Seq<char>>, x: Seq<char>)
    ensures
        (a + b).contains(x) <==> a.contains(x) || b.contains(x),
{
    if a.contains(x) {
        let k = choose|k: int| 0 <= k < a.len() && a[k] == x;
        assert((a + b)[k] == x);
    }
    if b.contains(x) {
        let k = choose|k: int| 0 <= k < b.len() && b[k] == x;
        assert((a + b)[a.len() + k] == x);
    }
    if (a + b).contains(x) {
        let k = choose|k: int| 0 <= k < (a + b).len() && (a + b)[k] == x;
        if k < a.len() {
            assert(a[k] == x);
        } else {
            assert(b[k - a.len()] == x);
        }
    }
}

proof fn lemma_single_contains(y: Seq<char>, x: Seq<char>)
    ensures
        seq![y].contains(x) <==> x == y,
{
    assert(seq![y][0] == y);
}

/// A format's wire name is among the active names exactly when the format
/// is active.
proof fn lemma_active_format_names(flags: FormatFlags, f: DataFormat)
    ensures
        active_format_names(flags).contains(data_format_name(f)) == flags.is_active(f),
{
    let x = data_format_name(f);
    let pick = |g: DataFormat|
        if flags.is_active(g) { seq![data_format_name(g)] } else { Seq::<Seq<char>>::empty() };
    let a = pick(DataFormat::CSR);
    let b = pick(DataFormat::COO);
    let c = pick(DataFormat::ELL);
    let h = pick(DataFormat::HYBRID);
    let e = pick(DataFormat::SELLP);
    assert(active_format_names(flags) == a + b + c + h + e);
    lemma_add_contains(a + b + c + h, e, x);
    lemma_add_contains(a + b + c, h, x);
    lemma_add_contains(a + b, c, x);
    lemma_add_contains(a, b, x);
    lemma_single_contains(data_format_name(DataFormat::CSR), x);
    lemma_single_contains(data_format_name(DataFormat::COO), x);
    lemma_single_contains(data_format_name(DataFormat::ELL), x);
    lemma_single_contains(data_format_name(DataFormat::HYBRID), x);
    lemma_single_contains(data_format_name(DataFormat::SELLP), x);
    data_format_names_round_trip(f, Seq::empty());
    data_format_names_round_trip(DataFormat::CSR, Seq::empty());
    data_format_names_round_trip(DataFormat::COO, Seq::empty());
    data_format_names_round_trip(DataFormat::ELL, Seq::empty());
    data_format_names_round_trip(DataFormat::HYBRID, Seq::empty());
    data_format_names_round_trip(DataFormat::SELLP, Seq::empty());
}

/// A commit that matches `prefix` at index `i` is found at or before `i`,
/// and what is found matches.
proof fn lemma_first_commit_found(commits: Seq<CommitInfo>, prefix: Seq<char>, k: int, i: int)
    requires
        0 <= k <= i < commits.len(),
        has_prefix(commits[i].sha@, prefix) || has_prefix(commits[i].short_sha@, prefix),
    ensures
        first_commit_with_prefix(commits, prefix, k) matches Some(j) && k <= j <= i && (has_prefix(
            commits[j].sha@,
            prefix,
        ) || has_prefix(commits[j].short_sha@, prefix)),
    decreases i - k,
{
    if k < i && !(has_prefix(commits[k].sha@, prefix) || has_prefix(commits[k].short_sha@, prefix)) {
        lemma_first_commit_found(commits, prefix, k + 1, i);
    }
}

/// Sharing a dashboard's URL state and opening it again reproduces the
/// dashboard's view: applying `state_v1(d)` to any dashboard `e` gives
/// `d`'s view mode, plot type, normalisation and active formats, `d`'s
/// x axis where `d` has one, `d`'s Y metric where it has one (a custom
/// metric when its formula compiles again, handed in as `compiled`), `d`'s
/// custom formula when it compiles again, and, where `e` lists the same commits, a selected
/// commit whose SHA starts with the short SHA of `d`'s selection (the
/// first such commit, so at or before it).
pub proof fn state_round_trip(d: Dashboard, s: StateV1, e: Dashboard, compiled: Option<String>, after: Dashboard)
    requires
        state_describes(d, s),
        compiled matches Some(c) ==> (s.y_formula matches Some(src) && c@ == src@),
        applied(e, s, compiled, after),
    ensures
        after.view_mode == d.view_mode,
        after.plot_config.plot_type == d.plot_config.plot_type,
        d.plot_config.x_axis is Some ==> after.plot_config.x_axis == d.plot_config.x_axis,
        after.plot_config.normalize == d.plot_config.normalize,
        forall|f: DataFormat| #[trigger] after.data_selection.active_formats.flag(f) == Some(
            d.data_selection.active_formats.is_active(f),
        ),
        d.plot_config.data_metric is Some && (s.y_formula is Some ==> compiled is Some)
            ==> after.plot_config.data_metric == d.plot_config.data_metric,
        d.plot_config.data_metric == Some(MetricType::Custom) && d.plot_config.custom_formula_source is Some
            && compiled is Some
            ==> after.plot_config.custom_formula_source.deep_view() == d.plot_config.custom_formula_source.deep_view(),
        d.git.selected_commit_idx matches Some(i) ==> (e.git.commits@ == d.git.commits@ && i < d.git.commits@.len()
            ==> (after.git.selected_commit_idx matches Some(j) && j <= i && (has_prefix(
                d.git.commits@[j as int].sha@,
                d.git.commits@[i as int].short_sha@,
            ) || has_prefix(d.git.commits@[j as int].short_sha@, d.git.commits@[i as int].short_sha@)))),
{
    let pc = d.plot_config;
    view_mode_names_round_trip(d.view_mode, Seq::empty());
    plot_type_names_round_trip(pc.plot_type, Seq::empty());
    if let Some(x) = pc.x_axis {
        xaxis_names_round_trip(x, Seq::empty());
    }
    if let Some(m) = pc.data_metric {
        metric_names_round_trip(m, Seq::empty());
    }
    assert forall|f: DataFormat| #[trigger] after.data_selection.active_formats.flag(f) == Some(
        d.data_selection.active_formats.is_active(f),
    ) by {
        lemma_active_format_names(d.data_selection.active_formats, f);
    }
    if e.git.commits@ == d.git.commits@ && d.git.selected_commit_idx is Some {
        let i = d.git.selected_commit_idx.unwrap();
        if i < d.git.commits@.len() {
            let p = d.git.commits@[i as int].short_sha@;
            assert(has_prefix(d.git.commits@[i as int].short_sha@, p)) by {
                assert(p.subrange(0, p.len() as int) =~= p);
            }
            lemma_first_commit_found(d.git.commits@, p, 0, i as int);
        }
    }
}

} // verus!

verus! {

/// The wire name of every view mode is the name of its variant, spelt the
/// same way, and each such name parses to that variant and no other.
pub proof fn view_mode_wire_names_are_variant_names()
    ensures
        view_mode_name(ViewMode::Benchmark) == "Benchmark"@,
        view_mode_name(ViewMode::Solver) == "Solver"@,
        parse_view_mode("Benchmark"@) == Some(ViewMode::Benchmark),
        parse_view_mode("Solver"@) == Some(ViewMode::Solver),
{
    view_mode_names_round_trip(ViewMode::Benchmark, Seq::empty());
    view_mode_names_round_trip(ViewMode::Solver, Seq::empty());
}

/// The wire name of every plot type is the name of its variant, spelt the
/// same way, and each such name parses to that variant and no other.
pub proof fn plot_type_wire_names_are_variant_names()
    ensures
        plot_type_name(PlotType::Scatter) == "Scatter"@,
        plot_type_name(PlotType::PerformanceProfile) == "PerformanceProfile"@,
        parse_plot_type("Scatter"@) == Some(PlotType::Scatter),
        parse_plot_type("PerformanceProfile"@) == Some(PlotType::PerformanceProfile),
{
    plot_type_names_round_trip(PlotType::Scatter, Seq::empty());
    plot_type_names_round_trip(PlotType::PerformanceProfile, Seq::empty());
}

/// The wire name of every x axis is the name of its variant, spelt the
/// same way, and each such name parses to that variant and no other.
pub proof fn xaxis_wire_names_are_variant_names()
    ensures
        xaxis_name(XaxisType::Cols) == "Cols"@,
        xaxis_name(XaxisType::ColCv) == "ColCv"@,
        xaxis_name(XaxisType::Rows) == "Rows"@,
        xaxis_name(XaxisType::RowCv) == "RowCv"@,
        xaxis_name(XaxisType::NonZeros) == "NonZeros"@,
        xaxis_name(XaxisType::Sparsity) == "Sparsity"@,
        xaxis_name(XaxisType::AvgNnzPerRow) == "AvgNnzPerRow"@,
        xaxis_name(XaxisType::AvgNnzPerCol) == "AvgNnzPerCol"@,
        xaxis_name(XaxisType::MatrixShapeRatio) == "MatrixShapeRatio"@,
        parse_xaxis("Cols"@) == Some(XaxisType::Cols),
        parse_xaxis("ColCv"@) == Some(XaxisType::ColCv),
        parse_xaxis("Rows"@) == Some(XaxisType::Rows),
        parse_xaxis("RowCv"@) == Some(XaxisType::RowCv),
        parse_xaxis("NonZeros"@) == Some(XaxisType::NonZeros),
        parse_xaxis("Sparsity"@) == Some(XaxisType::Sparsity),
        parse_xaxis("AvgNnzPerRow"@) == Some(XaxisType::AvgNnzPerRow),
        parse_xaxis("AvgNnzPerCol"@) == Some(XaxisType::AvgNnzPerCol),
        parse_xaxis("MatrixShapeRatio"@) == Some(XaxisType::MatrixShapeRatio),
{
    xaxis_names_round_trip(XaxisType::Cols, Seq::empty());
    xaxis_names_round_trip(XaxisType::ColCv, Seq::empty());
    xaxis_names_round_trip(XaxisType::Rows, Seq::empty());
    xaxis_names_round_trip(XaxisType::RowCv, Seq::empty());
    xaxis_names_round_trip(XaxisType::NonZeros, Seq::empty());
    xaxis_names_round_trip(XaxisType::Sparsity, Seq::empty());
    xaxis_names_round_trip(XaxisType::AvgNnzPerRow, Seq::empty());
    xaxis_names_round_trip(XaxisType::AvgNnzPerCol, Seq::empty());
    xaxis_names_round_trip(XaxisType::MatrixShapeRatio, Seq::empty());
}

/// The wire name of every metric is the name of its variant, spelt the
/// same way, and each such name parses to that variant and no other.
pub proof fn metric_wire_names_are_variant_names()
    ensures
        metric_name(MetricType::Storage) == "Storage"@,
        metric_name(MetricType::Time) == "Time"@,
        metric_name(MetricType::GflopsPerSecond) == "GflopsPerSecond"@,
        metric_name(MetricType::Repetitions) == "Repetitions"@,
        metric_name(MetricType::OperationalIntensity) == "OperationalIntensity"@,
        metric_name(MetricType::EffectiveMemoryBandwidth) == "EffectiveMemoryBandwidth"@,
        metric_name(MetricType::Custom) == "Custom"@,
        parse_metric("Storage"@) == Some(MetricType::Storage),
        parse_metric("Time"@) == Some(MetricType::Time),
        parse_metric("GflopsPerSecond"@) == Some(MetricType::GflopsPerSecond),
        parse_metric("Repetitions"@) == Some(MetricType::Repetitions),
        parse_metric("OperationalIntensity"@) == Some(MetricType::OperationalIntensity),
        parse_metric("EffectiveMemoryBandwidth"@) == Some(MetricType::EffectiveMemoryBandwidth),
        parse_metric("Custom"@) == Some(MetricType::Custom),
{
    metric_names_round_trip(MetricType::Storage, Seq::empty());
    metric_names_round_trip(MetricType::Time, Seq::empty());
    metric_names_round_trip(MetricType::GflopsPerSecond, Seq::empty());
    metric_names_round_trip(MetricType::Repetitions, Seq::empty());
    metric_names_round_trip(MetricType::OperationalIntensity, Seq::empty());
    metric_names_round_trip(MetricType::EffectiveMemoryBandwidth, Seq::empty());
    metric_names_round_trip(MetricType::Custom, Seq::empty());
}

/// The wire name of every data format is the name of its variant, spelt the
/// same way, and each such name parses to that variant and no other.
pub proof fn data_format_wire_names_are_variant_names()
    ensures
        data_format_name(DataFormat::CSR) == "CSR"@,
        data_format_name(DataFormat::COO) == "COO"@,
        data_format_name(DataFormat::ELL) == "ELL"@,
        data_format_name(DataFormat::HYBRID) == "HYBRID"@,
        data_format_name(DataFormat::SELLP) == "SELLP"@,
        parse_data_format("CSR"@) == Some(DataFormat::CSR),
        parse_data_format("COO"@) == Some(DataFormat::COO),
        parse_data_format("ELL"@) == Some(DataFormat::ELL),
        parse_data_format("HYBRID"@) == Some(DataFormat::HYBRID),
        parse_data_format("SELLP"@) == Some(DataFormat::SELLP),
{
    data_format_names_round_trip(DataFormat::CSR, Seq::empty());
    data_format_names_round_trip(DataFormat::COO, Seq::empty());
    data_format_names_round_trip(DataFormat::ELL, Seq::empty());
    data_format_names_round_trip(DataFormat::HYBRID, Seq::empty());
    data_format_names_round_trip(DataFormat::SELLP, Seq::empty());
}

} // verus!
