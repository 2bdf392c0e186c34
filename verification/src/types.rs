//! The small enum vocabulary shared by every view.
use vstd::prelude::*;

verus! {

/// Whether one benchmark file or several are being compared.
#[derive(PartialEq, Eq, Structural, Hash, PartialOrd, Ord, Clone, Copy, Debug)]
pub enum DataMode {
    Single,
    Multi,
}

/// The chart kind drawn in the benchmark view.
#[derive(PartialEq, Eq, Structural, Hash, PartialOrd, Ord, Clone, Copy, Debug)]
pub enum PlotType {
    Scatter,
    PerformanceProfile,
}

/// Sparse-matrix storage formats measured by the benchmarks.
#[derive(PartialEq, Eq, Structural, Hash, PartialOrd, Ord, Clone, Copy, Debug)]
pub enum DataFormat {
    CSR,
    COO,
    ELL,
    HYBRID,
    SELLP,
}

/// JSON key under which a format's measurements are stored.
pub open spec fn format_key(f: DataFormat) -> Seq<char> {
    match f {
        DataFormat::CSR => "csr"@,
        DataFormat::COO => "coo"@,
        DataFormat::ELL => "ell"@,
        DataFormat::HYBRID => "hybrid"@,
        DataFormat::SELLP => "sellp"@,
    }
}

/// The five formats in their canonical (legend) order.
pub open spec fn all_formats() -> Seq<DataFormat> {
    seq![DataFormat::CSR, DataFormat::COO, DataFormat::ELL, DataFormat::HYBRID, DataFormat::SELLP]
}

impl DataFormat {
    /// Returns the JSON key string for this format.
    pub fn as_key(&self) -> (res: &'static str)
        ensures
            res@ == format_key(*self),
    {
        match self {
            DataFormat::CSR => "csr",
            DataFormat::COO => "coo",
            DataFormat::ELL => "ell",
            DataFormat::HYBRID => "hybrid",
            DataFormat::SELLP => "sellp",
        }
    }
}

/// Returns the five formats in canonical order.
pub fn all_data_formats() -> (res: Vec<DataFormat>)
    ensures
        res@ == all_formats(),
{
    let v = vec![DataFormat::CSR, DataFormat::COO, DataFormat::ELL, DataFormat::HYBRID, DataFormat::SELLP];
    assert(v@ =~= all_formats());
    v
}

/// The measured quantity shown on the Y axis.
#[derive(PartialEq, Eq, Structural, Hash, PartialOrd, Ord, Debug, Clone, Copy)]
pub enum MetricType {
    Storage,
    Time,
    GflopsPerSecond,
    Repetitions,
    OperationalIntensity,
    EffectiveMemoryBandwidth,
    Custom,
}

/// The matrix property shown on the X axis.
#[derive(PartialEq, Eq, Structural, Hash, Clone, Copy, Debug)]
pub enum XaxisType {
    Cols,
    ColCv,
    Rows,
    RowCv,
    NonZeros,
    Sparsity,
    AvgNnzPerRow,
    AvgNnzPerCol,
    MatrixShapeRatio,
}

} // verus!
