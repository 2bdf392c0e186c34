//! Solver-plot settings.
use vstd::prelude::*;
use crate::data::state::SolverXAxis;

verus! {

/// Which solver series are drawn and how the axes are scaled.
pub struct SolverPlotOptions {
    pub show_recurrent: bool,
    pub show_true: bool,
    pub show_implicit: bool,
    pub show_timestamp: bool,
    pub log_scale: bool,
    pub x_axis: SolverXAxis,
}

} // verus!
