//! Benchmark-file records that carry no measured values, and the storage
//! bound the performance metrics are computed against.
use vstd::prelude::*;
use crate::datagen::storage::{csr_bytes, csr_storage};

verus! {

/// The optimal format recorded for a benchmark entry.
#[derive(Debug, Clone)]
pub struct BenchmarkOptimal {
    /// Name of the fastest SpMV format.
    pub spmv: String,
}

/// Theoretical minimum CSR storage in bytes of a matrix with `rows` rows
/// and `nonzeros` stored entries; 64-bit indices once either count
/// exceeds the 32-bit range.
pub fn calculate_optimal_csr_bytes(rows: u64, nonzeros: u64) -> (res: u64)
    requires
        csr_bytes(rows as nat, nonzeros as nat) <= u64::MAX,
    ensures
        res == csr_bytes(rows as nat, nonzeros as nat),
{
    csr_storage(rows, nonzeros)
}

} // verus!
