//! Byte counts of the sparse-matrix storage formats.
use vstd::prelude::*;

verus! {

/// Index width in bytes: 4, or 8 once rows or non-zeros exceed `u32::MAX`.
pub open spec fn index_bytes(rows: nat, nnz: nat) -> nat {
    if rows > u32::MAX || nnz > u32::MAX { 8 } else { 4 }
}

/// CSR storage: row pointers, column indices and `f64` values.
pub open spec fn csr_bytes(rows: nat, nnz: nat) -> nat {
    (rows + 1) * index_bytes(rows, nnz) + nnz * index_bytes(rows, nnz) + nnz * 8
}

/// Storage (bytes) for CSR format.
/// Uses 32-bit indices unless rows or nnz exceeds u32::MAX, in which case uses 64-bit.
pub fn csr_storage(rows: u64, nnz: u64) -> (res: u64)
    requires
        csr_bytes(rows as nat, nnz as nat) <= u64::MAX,
    ensures
        res == csr_bytes(rows as nat, nnz as nat),
{
    let idx_bytes: u64 = if rows > 0xffff_ffff || nnz > 0xffff_ffff { 8 } else { 4 };
    assert((rows + 1) * idx_bytes + nnz * idx_bytes + nnz * 8 == csr_bytes(rows as nat, nnz as nat));
    assert(0 <= (rows + 1) * idx_bytes <= csr_bytes(rows as nat, nnz as nat)) by (nonlinear_arith)
        requires
            idx_bytes >= 0,
            nnz * idx_bytes >= 0,
            nnz * 8 >= 0,
            (rows + 1) * idx_bytes + nnz * idx_bytes + nnz * 8 == csr_bytes(rows as nat, nnz as nat),
    ;
    assert(0 <= nnz * idx_bytes) by (nonlinear_arith)
        requires
            idx_bytes >= 0,
    ;
    assert(0 <= nnz * 8) by (nonlinear_arith);
    (rows + 1) * idx_bytes + nnz * idx_bytes + nnz * 8
}

/// Whether the CSR byte count of a matrix fits in 64 bits (the callers of
/// [`csr_storage`] test this first).
pub fn csr_bytes_fit(rows: u64, nnz: u64) -> (res: bool)
    ensures
        res == (csr_bytes(rows as nat, nnz as nat) <= u64::MAX),
{
    let idx: u128 = if rows > 0xffff_ffff || nnz > 0xffff_ffff { 8 } else { 4 };
    let r: u128 = rows as u128;
    let n: u128 = nnz as u128;
    assert((r + 1) * idx <= 0x1_0000_0000_0000_0000 * 8) by (nonlinear_arith)
        requires
            r < 0x1_0000_0000_0000_0000,
            idx <= 8,
    ;
    assert(n * idx <= 0x1_0000_0000_0000_0000 * 8) by (nonlinear_arith)
        requires
            n < 0x1_0000_0000_0000_0000,
            idx <= 8,
    ;
    assert(n * 8 <= 0x1_0000_0000_0000_0000 * 8) by (nonlinear_arith)
        requires
            n < 0x1_0000_0000_0000_0000,
    ;
    let total: u128 = (r + 1) * idx + n * idx + n * 8;
    assert(total == csr_bytes(rows as nat, nnz as nat));
    total <= 0xffff_ffff_ffff_ffff
}

/// COO storage: row and column indices (4 bytes each) and `f64` values.
pub open spec fn coo_bytes(nnz: nat) -> nat {
    nnz * 4 + nnz * 4 + nnz * 8
}

/// Storage (bytes) for COO format.
pub fn coo_storage(nnz: u64) -> (res: u64)
    requires
        coo_bytes(nnz as nat) <= u64::MAX,
    ensures
        res == coo_bytes(nnz as nat),
{
    nnz * 4 + nnz * 4 + nnz * 8
}

/// ELL storage for a padded width of `width` entries per row.
pub open spec fn ell_bytes(rows: nat, width: nat) -> nat {
    rows * width * (4 + 8)
}

/// Storage (bytes) for ELL format with `width` slots per row (the row's
/// maximum non-zero count, rounded up).
pub fn ell_storage_for_width(rows: u64, width: u64) -> (res: u64)
    requires
        ell_bytes(rows as nat, width as nat) <= u64::MAX,
    ensures
        res == ell_bytes(rows as nat, width as nat),
{
    assert(0 <= rows * width <= rows * width * 12) by (nonlinear_arith);
    rows * width * (4 + 8)
}

/// HYBRID storage: an ELL part `width` wide plus COO storage for the
/// non-zeros that overflow it.
pub open spec fn hybrid_bytes(rows: nat, nnz: nat, width: nat) -> nat {
    let ell_nnz = rows * width;
    let coo_nnz: nat = if nnz >= ell_nnz { (nnz - ell_nnz) as nat } else { 0 };
    ell_nnz * (4 + 8) + coo_nnz * (4 + 4 + 8)
}

/// Storage (bytes) for HYBRID format: ELL for rows up to `width` (the
/// median non-zeros per row, rounded up), COO for the overflow.
pub fn hybrid_storage_for_width(rows: u64, nnz: u64, width: u64) -> (res: u64)
    requires
        hybrid_bytes(rows as nat, nnz as nat, width as nat) <= u64::MAX,
    ensures
        res == hybrid_bytes(rows as nat, nnz as nat, width as nat),
{
    assert(0 <= rows * width <= rows * width * 12) by (nonlinear_arith);
    let ell_nnz = rows * width;
    let coo_nnz = nnz.saturating_sub(ell_nnz);
    let ell_bytes = ell_nnz * (4 + 8);
    let coo_bytes = coo_nnz * (4 + 4 + 8);
    ell_bytes + coo_bytes
}

} // verus!

verus! {

/// COO costs sixteen bytes per non-zero (a 4-byte row index, a 4-byte
/// column index and an 8-byte `f64` value) and nothing else: no non-zeros
/// take no bytes, and each further non-zero adds exactly sixteen.
pub proof fn coo_costs_sixteen_bytes_per_nonzero(nnz: nat)
    ensures
        coo_bytes(0) == 0,
        coo_bytes(nnz + 1) == coo_bytes(nnz) + 16,
        coo_bytes(nnz) == 16 * nnz,
{
}

/// An ELL slot is a COO entry without its row index: `rows * width` padded
/// slots take the COO bytes of as many non-zeros less four bytes each, so
/// each slot costs twelve bytes (a 4-byte column index and an 8-byte
/// value), and widening every row by one slot adds twelve bytes per row.
pub proof fn ell_slot_is_coo_entry_without_row_index(rows: nat, width: nat)
    ensures
        ell_bytes(rows, width) + rows * width * 4 == coo_bytes(rows * width),
        ell_bytes(rows, width) == 12 * (rows * width),
        ell_bytes(rows, width + 1) == ell_bytes(rows, width) + 12 * rows,
        ell_bytes(rows + 1, width) == ell_bytes(rows, width) + 12 * width,
        ell_bytes(0, width) == 0 && ell_bytes(rows, 0) == 0,
{
    assert(rows * (width + 1) == rows * width + rows) by (nonlinear_arith);
    assert((rows + 1) * width == rows * width + width) by (nonlinear_arith);
    assert(rows * width * (4 + 8) == 12 * (rows * width)) by (nonlinear_arith);
    assert((rows * width + rows) * (4 + 8) == 12 * (rows * width) + 12 * rows) by (nonlinear_arith);
    assert((rows * width + width) * (4 + 8) == 12 * (rows * width) + 12 * width) by (nonlinear_arith);
    assert(0 * width == 0 && rows * 0 == 0) by (nonlinear_arith);
}

/// HYBRID stores the first `rows * width` non-zeros in the ELL part and
/// only the overflow in COO: when the non-zeros fit in the ELL part it
/// costs exactly the ELL bytes, otherwise the ELL bytes plus the COO bytes
/// of the non-zeros that do not fit. It never costs more than the ELL part
/// plus COO storage of every non-zero, and one more non-zero beyond the
/// ELL part adds exactly one COO entry.
pub proof fn hybrid_is_ell_plus_coo_overflow(rows: nat, nnz: nat, width: nat)
    ensures
        nnz <= rows * width ==> hybrid_bytes(rows, nnz, width) == ell_bytes(rows, width),
        nnz >= rows * width ==> hybrid_bytes(rows, nnz, width) == ell_bytes(rows, width) + coo_bytes(
            (nnz - rows * width) as nat,
        ),
        hybrid_bytes(rows, nnz, width) <= ell_bytes(rows, width) + coo_bytes(nnz),
        nnz >= rows * width ==> hybrid_bytes(rows, nnz + 1, width) == hybrid_bytes(rows, nnz, width) + 16,
{
    ell_slot_is_coo_entry_without_row_index(rows, width);
    let e = rows * width;
    assert(rows * width * (4 + 8) == 12 * e) by (nonlinear_arith)
        requires
            e == rows * width,
    ;
    let over: nat = if nnz >= e { (nnz - e) as nat } else { 0 };
    assert(hybrid_bytes(rows, nnz, width) == e * (4 + 8) + over * (4 + 4 + 8));
    assert(e * (4 + 8) == 12 * e && over * (4 + 4 + 8) == 16 * over) by (nonlinear_arith);
    assert(hybrid_bytes(rows, nnz, width) == 12 * e + 16 * over);
    assert(ell_bytes(rows, width) == 12 * e);
    if nnz >= e {
        let over1: nat = (nnz + 1 - e) as nat;
        assert(hybrid_bytes(rows, nnz + 1, width) == e * (4 + 8) + over1 * (4 + 4 + 8));
        assert(over1 * (4 + 4 + 8) == 16 * over1) by (nonlinear_arith);
    }
}

/// With 32-bit indices CSR replaces COO's per-entry row index by `rows + 1`
/// row pointers: its bytes plus four per non-zero equal the COO bytes plus
/// four per row pointer. With 64-bit indices every index takes eight bytes.
pub proof fn csr_is_coo_with_row_pointers(rows: nat, nnz: nat)
    ensures
        rows <= u32::MAX && nnz <= u32::MAX ==> csr_bytes(rows, nnz) + 4 * nnz == coo_bytes(nnz) + 4 * (rows + 1),
        rows > u32::MAX || nnz > u32::MAX ==> csr_bytes(rows, nnz) == 8 * (rows + 1) + 16 * nnz,
{
    assert((rows + 1) * 4 == 4 * (rows + 1) && (rows + 1) * 8 == 8 * (rows + 1)) by (nonlinear_arith);
}

} // verus!
