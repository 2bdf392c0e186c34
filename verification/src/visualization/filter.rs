//! Which formats a plot shows, and the index arithmetic of outlier
//! trimming.
use vstd::prelude::*;
use crate::data::state::FormatFlags;
use crate::types::{all_formats, DataFormat, DataMode};

verus! {

/// Statistics about data filtering.
#[derive(Clone, Debug)]
pub struct FilterStats {
    pub total_matrices: usize,
    pub shown_matrices: usize,
    pub filtered_missing_time: usize,
    pub filtered_no_format_data: usize,
    pub filtered_invalid_values: usize,
    pub filtered_outliers: usize,
}

impl Default for FilterStats {
    fn default() -> (res: Self)
        ensures
            res.total_matrices == 0,
            res.shown_matrices == 0,
            res.filtered_missing_time == 0,
            res.filtered_no_format_data == 0,
            res.filtered_invalid_values == 0,
            res.filtered_outliers == 0,
    {
        FilterStats {
            total_matrices: 0,
            shown_matrices: 0,
            filtered_missing_time: 0,
            filtered_no_format_data: 0,
            filtered_invalid_values: 0,
            filtered_outliers: 0,
        }
    }
}

/// The formats of `all_formats()[i..]` that are switched on, in canonical
/// order.
pub open spec fn active_from(flags: FormatFlags, i: int) -> Seq<DataFormat>
    decreases 5 - i,
{
    if i < 0 || i >= 5 {
        Seq::empty()
    } else if flags.is_active(all_formats()[i]) {
        seq![all_formats()[i]] + active_from(flags, i + 1)
    } else {
        active_from(flags, i + 1)
    }
}

/// The formats a plot draws: all five for a single file, the switched-on
/// ones (in canonical order) when comparing files, none before a file is
/// loaded.
pub open spec fn formats_to_plot(mode: Option<DataMode>, flags: FormatFlags) -> Seq<DataFormat> {
    match mode {
        Some(DataMode::Single) => all_formats(),
        Some(DataMode::Multi) => active_from(flags, 0),
        None => Seq::empty(),
    }
}

/// Determines which data formats to include in the plot based on mode and
/// active selection.
pub fn get_formats_to_plot(mode: Option<DataMode>, active_formats: &FormatFlags) -> (res: Vec<DataFormat>)
    ensures
        res@ == formats_to_plot(mode, *active_formats),
{
    match mode {
        Some(DataMode::Single) => crate::types::all_data_formats(),
        Some(DataMode::Multi) => {
            let all = crate::types::all_data_formats();
            let mut out: Vec<DataFormat> = Vec::new();
            let mut i: usize = 5;
            while i > 0
                invariant
                    i <= 5,
                    all@ == all_formats(),
                    out@ == active_from(*active_formats, i as int),
                decreases i,
            {
                i = i - 1;
                if active_formats.active(all[i]) {
                    out.insert(0, all[i]);
                    assert(out@ =~= active_from(*active_formats, i as int));
                }
            }
            out
        },
        None => Vec::new(),
    }
}

/// A format is drawn when comparing files exactly when it is switched on,
/// and it is drawn once.
pub proof fn compared_formats_are_the_active_ones(flags: FormatFlags, f: DataFormat)
    ensures
        formats_to_plot(Some(DataMode::Multi), flags).contains(f) <==> flags.is_active(f),
        formats_to_plot(Some(DataMode::Multi), flags).no_duplicates(),
{
    lemma_active_from(flags, 0, f);
}

proof fn lemma_active_from(flags: FormatFlags, i: int, f: DataFormat)
    requires
        0 <= i <= 5,
    ensures
        active_from(flags, i).contains(f) <==> (flags.is_active(f) && exists|j: int|
            i <= j < 5 && all_formats()[j] == f),
        active_from(flags, i).no_duplicates(),
        forall|k: int| 0 <= k < active_from(flags, i).len() ==> exists|j: int|
            i <= j < 5 && all_formats()[j] == #[trigger] active_from(flags, i)[k],
    decreases 5 - i,
{
    if i < 5 {
        lemma_active_from(flags, i + 1, f);
        let g = all_formats()[i];
        lemma_active_from(flags, i + 1, g);
        let rest = active_from(flags, i + 1);
        if flags.is_active(g) {
            let whole = seq![g] + rest;
            assert(whole[0] == g);
            assert forall|k: int| 1 <= k < whole.len() implies whole[k] == rest[k - 1] by {}
            if whole.contains(f) && f != g {
                let k = choose|k: int| 0 <= k < whole.len() && whole[k] == f;
                assert(rest[k - 1] == f);
            }
            if rest.contains(f) {
                let k = choose|k: int| 0 <= k < rest.len() && rest[k] == f;
                assert(whole[k + 1] == f);
            }
            assert forall|k: int| 0 <= k < whole.len() implies exists|j: int|
                i <= j < 5 && all_formats()[j] == #[trigger] whole[k] by {
                if k == 0 {
                    assert(all_formats()[i] == whole[0]);
                } else {
                    assert(whole[k] == rest[k - 1]);
                }
            }
            assert forall|a: int, b: int| 0 <= a < whole.len() && 0 <= b < whole.len() && a != b
                implies whole[a] != whole[b] by {
                if a == 0 && b > 0 {
                    let j = choose|j: int| i + 1 <= j < 5 && all_formats()[j] == rest[b - 1];
                    assert(whole[b] == rest[b - 1]);
                } else if b == 0 && a > 0 {
                    let j = choose|j: int| i + 1 <= j < 5 && all_formats()[j] == rest[a - 1];
                    assert(whole[a] == rest[a - 1]);
                } else if a > 0 && b > 0 {
                    assert(whole[a] == rest[a - 1]);
                    assert(whole[b] == rest[b - 1]);
                }
            }
        }
        if exists|j: int| i <= j < 5 && all_formats()[j] == f {
            let j = choose|j: int| i <= j < 5 && all_formats()[j] == f;
            if j > i {
                assert(exists|j: int| i + 1 <= j < 5 && all_formats()[j] == f);
            }
        }
    }
}

/// Index of the `percent`-th percentile of `total` sorted values,
/// rounded down and kept inside the list.
pub open spec fn percentile_index(total: nat, percent: nat) -> nat {
    let k = total * percent / 100;
    if total == 0 {
        0
    } else if k > total - 1 {
        (total - 1) as nat
    } else {
        k
    }
}

/// The indices of the 5th and 95th percentile among `total` sorted values,
/// between which outlier filtering keeps points.
pub fn outlier_trim_indices(total: usize) -> (res: (usize, usize))
    ensures
        res.0 == percentile_index(total as nat, 5),
        res.1 == percentile_index(total as nat, 95),
{
    let q = total / 20;
    let r = total % 20;
    let k5 = q;
    let k95 = q * 19 + r * 19 / 20;
    assert(k5 == total * 5 / 100) by (nonlinear_arith)
        requires
            q == total / 20,
            r == total % 20,
            k5 == q,
    ;
    assert(k95 == total * 95 / 100 && q * 19 + r * 19 / 20 <= total) by (nonlinear_arith)
        requires
            q == total / 20,
            r == total % 20,
            k95 == q * 19 + r * 19 / 20,
    ;
    let last = if total == 0 { 0 } else { total - 1 };
    (if k5 > last { last } else { k5 }, if k95 > last { last } else { k95 })
}

} // verus!
