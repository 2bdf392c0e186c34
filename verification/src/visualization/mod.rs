//! Plot-side logic that does not depend on the measured values.
pub mod formula;
pub mod timeseries;
pub mod filter;
pub mod solver;
