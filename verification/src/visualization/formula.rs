//! Custom Y-axis formulas: the variable whitelist, the resolution of the
//! variables a parsed formula mentions, and "did you mean" suggestions
//! for unknown names.
//!
//! Parsing and evaluating the arithmetic itself is done by the `exmex`
//! expression engine around this module; here lives every decision that
//! does not need the numbers.
use vstd::prelude::*;
use crate::text::{chars_of, concat, str_eq, trim, trimmed};

verus! {

// ---------------------------------------------------------------------------
// Edit distance
// ---------------------------------------------------------------------------

pub open spec fn min3(x: int, y: int, z: int) -> int {
    if x <= y && x <= z {
        x
    } else if y <= z {
        y
    } else {
        z
    }
}

/// Levenshtein distance: the least number of single-character insertions,
/// deletions and substitutions that turn `a` into `b`.
pub open spec fn edit_distance(a: Seq<char>, b: Seq<char>) -> nat
    decreases a.len() + b.len(),
{
    if a.len() == 0 {
        b.len()
    } else if b.len() == 0 {
        a.len()
    } else {
        let cost: int = if a.last() == b.last() { 0 } else { 1 };
        min3(
            edit_distance(a.drop_last(), b.drop_last()) + cost,
            edit_distance(a.drop_last(), b) + 1int,
            edit_distance(a, b.drop_last()) + 1int,
        ) as nat
    }
}

/// Distance between the prefixes of lengths `i` and `j`.
spec fn prefix_distance(a: Seq<char>, b: Seq<char>, i: int, j: int) -> nat {
    edit_distance(a.take(i), b.take(j))
}

proof fn lemma_prefix_distance_unfold(a: Seq<char>, b: Seq<char>, i: int, j: int)
    requires
        0 <= i <= a.len(),
        0 <= j <= b.len(),
    ensures
        i == 0 ==> prefix_distance(a, b, i, j) == j,
        i > 0 && j == 0 ==> prefix_distance(a, b, i, j) == i,
        i > 0 && j > 0 ==> prefix_distance(a, b, i, j) == min3(
            prefix_distance(a, b, i - 1, j - 1) + (if a[i - 1] == b[j - 1] { 0int } else { 1int }),
            prefix_distance(a, b, i - 1, j) + 1int,
            prefix_distance(a, b, i, j - 1) + 1int,
        ),
{
    if i > 0 {
        assert(a.take(i).drop_last() =~= a.take(i - 1));
    }
    if j > 0 {
        assert(b.take(j).drop_last() =~= b.take(j - 1));
    }
}

/// The distance never exceeds the longer of the two lengths.
proof fn lemma_edit_distance_bound(a: Seq<char>, b: Seq<char>)
    ensures
        edit_distance(a, b) <= (if a.len() >= b.len() { a.len() } else { b.len() }),
    decreases a.len() + b.len(),
{
    if a.len() > 0 && b.len() > 0 {
        lemma_edit_distance_bound(a.drop_last(), b.drop_last());
    }
}

/// Easy direction: one more character costs at most one more edit.
proof fn lemma_step_up(a: Seq<char>, b: Seq<char>, i: int, j: int)
    requires
        0 <= i <= a.len(),
        0 <= j <= b.len(),
    ensures
        i > 0 ==> prefix_distance(a, b, i, j) <= prefix_distance(a, b, i - 1, j) + 1,
        j > 0 ==> prefix_distance(a, b, i, j) <= prefix_distance(a, b, i, j - 1) + 1,
{
    lemma_prefix_distance_unfold(a, b, i, j);
    if i > 0 {
        lemma_prefix_distance_unfold(a, b, i - 1, j);
    }
    if j > 0 {
        lemma_prefix_distance_unfold(a, b, i, j - 1);
    }
}

/// Hard direction: dropping a character lowers the distance by at most one.
proof fn lemma_step_down(a: Seq<char>, b: Seq<char>, i: int, j: int)
    requires
        0 <= i <= a.len(),
        0 <= j <= b.len(),
    ensures
        i > 0 ==> prefix_distance(a, b, i - 1, j) <= prefix_distance(a, b, i, j) + 1,
        j > 0 ==> prefix_distance(a, b, i, j - 1) <= prefix_distance(a, b, i, j) + 1,
    decreases i + j,
{
    lemma_prefix_distance_unfold(a, b, i, j);
    if i > 0 {
        lemma_prefix_distance_unfold(a, b, i - 1, j);
    }
    if j > 0 {
        lemma_prefix_distance_unfold(a, b, i, j - 1);
    }
    if i > 0 && j > 0 {
        lemma_step_up(a, b, i - 1, j);
        lemma_step_up(a, b, i, j - 1);
        lemma_step_down(a, b, i, j - 1);
        lemma_step_down(a, b, i - 1, j);
    }
}

/// Levenshtein distance between two strings, counted in characters.
pub fn levenshtein(a: &str, b: &str) -> (res: usize)
    ensures
        res == edit_distance(a@, b@),
{
    let a = chars_of(a);
    let b = chars_of(b);
    let ghost sa = a@;
    let ghost sb = b@;
    let m = a.len();
    let n = b.len();
    let mut row: Vec<usize> = Vec::new();
    while row.len() <= n
        invariant
            row@.len() <= n + 1,
            forall|k: int| 0 <= k < row@.len() ==> row@[k] == k,
        decreases n + 1 - row@.len(),
    {
        let k = row.len();
        row.push(k);
    }
    proof {
        assert forall|k: int| 0 <= k <= n implies row@[k] == prefix_distance(sa, sb, 0, k) by {
            lemma_prefix_distance_unfold(sa, sb, 0, k);
        }
    }
    let mut i: usize = 0;
    while i < m
        invariant
            a@ == sa,
            b@ == sb,
            m == sa.len(),
            n == sb.len(),
            i <= m,
            row@.len() == n + 1,
            forall|k: int| 0 <= k <= n ==> row@[k] == prefix_distance(sa, sb, i as int, k),
        decreases m - i,
    {
        let ii = i + 1;
        let mut prev = row[0];
        proof {
            lemma_prefix_distance_unfold(sa, sb, ii as int, 0);
        }
        row.set(0, ii);
        let mut j: usize = 0;
        while j < n
            invariant
                a@ == sa,
                b@ == sb,
                m == sa.len(),
                n == sb.len(),
                i < m,
                ii == i + 1,
                j <= n,
                row@.len() == n + 1,
                prev == prefix_distance(sa, sb, i as int, j as int),
                forall|k: int| 0 <= k <= j ==> row@[k] == prefix_distance(sa, sb, ii as int, k),
                forall|k: int| j < k <= n ==> row@[k] == prefix_distance(sa, sb, i as int, k),
            decreases n - j,
        {
            let jj = j + 1;
            let old = row[jj];
            proof {
                lemma_prefix_distance_unfold(sa, sb, ii as int, jj as int);
                lemma_step_down(sa, sb, i as int, jj as int);
                lemma_step_down(sa, sb, ii as int, j as int);
                lemma_edit_distance_bound(sa.take(i as int), sb.take(j as int));
            }
            let value = if a[i] == b[j] {
                prev
            } else {
                let left = row[j];
                let mut best = prev;
                if old < best {
                    best = old;
                }
                if left < best {
                    best = left;
                }
                1 + best
            };
            row.set(jj, value);
            prev = old;
            j = jj;
        }
        i = ii;
    }
    proof {
        assert(sa.take(m as int) =~= sa);
        assert(sb.take(n as int) =~= sb);
    }
    row[n]
}


// ---------------------------------------------------------------------------
// Variable whitelist
// ---------------------------------------------------------------------------

/// The field a formula variable reads from.
#[derive(PartialEq, Eq, Structural, Clone, Copy, Debug)]
pub enum VarSlot {
    // entry fields
    Time,
    Storage,
    Repetitions,
    MaxRelativeNorm2,
    GflopsPerSecond,
    BytesPerNnz,
    OperationalIntensity,
    EffectiveMemoryBandwidth,
    // matrix fields
    Rows,
    Cols,
    Nonzeros,
    Sparsity,
    AvgNnzPerRow,
    AvgNnzPerCol,
    MatrixShapeRatio,
    Psym,
    Nsym,
    RowCv,
    ColCv,
    // baseline fields
    BaselineTime,
    BaselineStorage,
    BaselineGflopsPerSecond,
    BaselineRepetitions,
    BaselineOperationalIntensity,
    BaselineEffectiveMemoryBandwidth,
    BaselineBytesPerNnz,
}

/// The whitelist of formula variables, sorted by name (`gflops` and
/// `baseline_gflops` are aliases).
pub open spec fn formula_vars() -> Seq<(Seq<char>, VarSlot)> {
    seq![
        ("avg_nnz_per_col"@, VarSlot::AvgNnzPerCol),
        ("avg_nnz_per_row"@, VarSlot::AvgNnzPerRow),
        ("baseline_bytes_per_nnz"@, VarSlot::BaselineBytesPerNnz),
        ("baseline_effective_memory_bandwidth"@, VarSlot::BaselineEffectiveMemoryBandwidth),
        ("baseline_gflops"@, VarSlot::BaselineGflopsPerSecond),
        ("baseline_gflops_per_second"@, VarSlot::BaselineGflopsPerSecond),
        ("baseline_operational_intensity"@, VarSlot::BaselineOperationalIntensity),
        ("baseline_repetitions"@, VarSlot::BaselineRepetitions),
        ("baseline_storage"@, VarSlot::BaselineStorage),
        ("baseline_time"@, VarSlot::BaselineTime),
        ("bytes_per_nnz"@, VarSlot::BytesPerNnz),
        ("col_cv"@, VarSlot::ColCv),
        ("cols"@, VarSlot::Cols),
        ("effective_memory_bandwidth"@, VarSlot::EffectiveMemoryBandwidth),
        ("gflops"@, VarSlot::GflopsPerSecond),
        ("gflops_per_second"@, VarSlot::GflopsPerSecond),
        ("matrix_shape_ratio"@, VarSlot::MatrixShapeRatio),
        ("max_relative_norm2"@, VarSlot::MaxRelativeNorm2),
        ("nonzeros"@, VarSlot::Nonzeros),
        ("nsym"@, VarSlot::Nsym),
        ("operational_intensity"@, VarSlot::OperationalIntensity),
        ("psym"@, VarSlot::Psym),
        ("repetitions"@, VarSlot::Repetitions),
        ("row_cv"@, VarSlot::RowCv),
        ("rows"@, VarSlot::Rows),
        ("sparsity"@, VarSlot::Sparsity),
        ("storage"@, VarSlot::Storage),
        ("time"@, VarSlot::Time)
    ]
}

/// The whitelisted names, in the order of [`formula_vars`].
pub open spec fn formula_var_names() -> Seq<Seq<char>> {
    formula_vars().map_values(|e: (Seq<char>, VarSlot)| e.0)
}

fn vars_table() -> (res: Vec<(&'static str, VarSlot)>)
    ensures
        res@.len() == formula_vars().len(),
        forall|i: int| 0 <= i < res@.len() ==> (#[trigger] res@[i]).0@ == formula_vars()[i].0
            && res@[i].1 == formula_vars()[i].1,
{
    let v = vec![
        ("avg_nnz_per_col", VarSlot::AvgNnzPerCol),
        ("avg_nnz_per_row", VarSlot::AvgNnzPerRow),
        ("baseline_bytes_per_nnz", VarSlot::BaselineBytesPerNnz),
        ("baseline_effective_memory_bandwidth", VarSlot::BaselineEffectiveMemoryBandwidth),
        ("baseline_gflops", VarSlot::BaselineGflopsPerSecond),
        ("baseline_gflops_per_second", VarSlot::BaselineGflopsPerSecond),
        ("baseline_operational_intensity", VarSlot::BaselineOperationalIntensity),
        ("baseline_repetitions", VarSlot::BaselineRepetitions),
        ("baseline_storage", VarSlot::BaselineStorage),
        ("baseline_time", VarSlot::BaselineTime),
        ("bytes_per_nnz", VarSlot::BytesPerNnz),
        ("col_cv", VarSlot::ColCv),
        ("cols", VarSlot::Cols),
        ("effective_memory_bandwidth", VarSlot::EffectiveMemoryBandwidth),
        ("gflops", VarSlot::GflopsPerSecond),
        ("gflops_per_second", VarSlot::GflopsPerSecond),
        ("matrix_shape_ratio", VarSlot::MatrixShapeRatio),
        ("max_relative_norm2", VarSlot::MaxRelativeNorm2),
        ("nonzeros", VarSlot::Nonzeros),
        ("nsym", VarSlot::Nsym),
        ("operational_intensity", VarSlot::OperationalIntensity),
        ("psym", VarSlot::Psym),
        ("repetitions", VarSlot::Repetitions),
        ("row_cv", VarSlot::RowCv),
        ("rows", VarSlot::Rows),
        ("sparsity", VarSlot::Sparsity),
        ("storage", VarSlot::Storage),
        ("time", VarSlot::Time)
    ];
    v
}

/// All known variable names, for the formula-editor tooltip.
pub fn known_variables() -> (res: Vec<&'static str>)
    ensures
        res@.len() == formula_var_names().len(),
        forall|i: int| 0 <= i < res@.len() ==> (#[trigger] res@[i])@ == formula_var_names()[i],
{
    let v = vec![
        "avg_nnz_per_col",
        "avg_nnz_per_row",
        "baseline_bytes_per_nnz",
        "baseline_effective_memory_bandwidth",
        "baseline_gflops",
        "baseline_gflops_per_second",
        "baseline_operational_intensity",
        "baseline_repetitions",
        "baseline_storage",
        "baseline_time",
        "bytes_per_nnz",
        "col_cv",
        "cols",
        "effective_memory_bandwidth",
        "gflops",
        "gflops_per_second",
        "matrix_shape_ratio",
        "max_relative_norm2",
        "nonzeros",
        "nsym",
        "operational_intensity",
        "psym",
        "repetitions",
        "row_cv",
        "rows",
        "sparsity",
        "storage",
        "time"
    ];
    v
}


/// The slot bound to `name`, searching the whitelist from position `k`.
pub open spec fn var_slot_from(name: Seq<char>, k: int) -> Option<VarSlot>
    decreases formula_vars().len() - k,
{
    if k < 0 || k >= formula_vars().len() {
        None
    } else if formula_vars()[k].0 == name {
        Some(formula_vars()[k].1)
    } else {
        var_slot_from(name, k + 1)
    }
}

/// The slot a whitelisted variable name reads; `None` for unknown names.
pub open spec fn var_slot_named(name: Seq<char>) -> Option<VarSlot> {
    var_slot_from(name, 0)
}

/// Looks `name` up in the whitelist.
pub fn lookup_var(name: &str) -> (res: Option<VarSlot>)
    ensures
        res == var_slot_named(name@),
{
    let table = vars_table();
    let mut k: usize = 0;
    while k < table.len()
        invariant
            table@.len() == formula_vars().len(),
            forall|i: int| 0 <= i < table@.len() ==> (#[trigger] table@[i]).0@ == formula_vars()[i].0
                && table@[i].1 == formula_vars()[i].1,
            k <= table@.len(),
            var_slot_named(name@) == var_slot_from(name@, k as int),
        decreases table@.len() - k,
    {
        let (key, slot) = table[k];
        if str_eq(key, name) {
            return Some(slot);
        }
        k = k + 1;
    }
    None
}

/// Entry `i` of the whitelist is the closest name to `name` within two
/// edits, and the first such entry when several are equally close.
pub open spec fn is_best_suggestion(name: Seq<char>, i: int) -> bool {
    let names = formula_var_names();
    &&& 0 <= i < names.len()
    &&& edit_distance(name, names[i]) <= 2
    &&& forall|j: int|
        0 <= j < names.len() && #[trigger] edit_distance(name, names[j]) <= 2 ==> edit_distance(
            name,
            names[i],
        ) <= edit_distance(name, names[j])
    &&& forall|j: int|
        0 <= j < i && #[trigger] edit_distance(name, names[j]) <= 2 ==> edit_distance(name, names[j])
            > edit_distance(name, names[i])
}

/// The "did you mean" suggestion for an unknown variable: the nearest
/// whitelisted name at edit distance at most two (the first on ties), if any.
pub open spec fn suggestion_for(name: Seq<char>) -> Option<Seq<char>> {
    if exists|i: int| is_best_suggestion(name, i) {
        Some(formula_var_names()[choose|i: int| is_best_suggestion(name, i)])
    } else {
        None
    }
}

proof fn lemma_best_suggestion_unique(name: Seq<char>, i: int, j: int)
    requires
        is_best_suggestion(name, i),
        is_best_suggestion(name, j),
    ensures
        i == j,
{
    let names = formula_var_names();
    if i < j {
        assert(edit_distance(name, names[i]) <= 2);
    } else if j < i {
        assert(edit_distance(name, names[j]) <= 2);
    }
}

/// Suggests the nearest whitelisted variable name for a misspelt one.
pub fn suggest(name: &str) -> (res: Option<String>)
    ensures
        res.deep_view() == suggestion_for(name@),
{
    let table = vars_table();
    let ghost names = formula_var_names();
    assert forall|i: int| 0 <= i < table@.len() implies (#[trigger] table@[i]).0@ == names[i] by {}
    let mut best: Option<(usize, usize)> = None;
    let mut k: usize = 0;
    while k < table.len()
        invariant
            table@.len() == names.len(),
            names == formula_var_names(),
            forall|i: int| 0 <= i < table@.len() ==> (#[trigger] table@[i]).0@ == names[i],
            k <= table@.len(),
            best matches Some(b) ==> {
                &&& b.0 < k
                &&& b.1 == edit_distance(name@, names[b.0 as int])
                &&& b.1 <= 2
                &&& forall|j: int|
                    0 <= j < k && #[trigger] edit_distance(name@, names[j]) <= 2 ==> b.1
                        <= edit_distance(name@, names[j])
                &&& forall|j: int|
                    0 <= j < b.0 && #[trigger] edit_distance(name@, names[j]) <= 2
                        ==> edit_distance(name@, names[j]) > b.1
            },
            best is None ==> forall|j: int| 0 <= j < k ==> #[trigger] edit_distance(name@, names[j]) > 2,
        decreases table@.len() - k,
    {
        let (key, _) = table[k];
        let d = levenshtein(name, key);
        if d <= 2 {
            match best {
                None => {
                    best = Some((k, d));
                },
                Some((_, bd)) => {
                    if d < bd {
                        best = Some((k, d));
                    }
                },
            }
        }
        k = k + 1;
    }
    match best {
        None => {
            assert(!exists|i: int| is_best_suggestion(name@, i));
            None
        },
        Some((bi, _)) => {
            assert(is_best_suggestion(name@, bi as int));
            proof {
                let c = choose|i: int| is_best_suggestion(name@, i);
                lemma_best_suggestion_unique(name@, c, bi as int);
            }
            let (key, _) = table[bi];
            Some(String::from_str(key))
        },
    }
}

// ---------------------------------------------------------------------------
// Errors and variable resolution
// ---------------------------------------------------------------------------

/// Why a formula could not be compiled.
#[derive(Debug)]
pub enum FormulaError {
    Empty,
    Parse(String),
    UnknownVariable { name: String, suggestion: Option<String> },
}

/// The user-facing text of a formula error.
pub open spec fn formula_error_text(e: FormulaError) -> Seq<char> {
    match e {
        FormulaError::Empty => "formula is empty"@,
        FormulaError::Parse(msg) => "parse error: "@ + msg@,
        FormulaError::UnknownVariable { name, suggestion } => {
            let head = "unknown variable '"@ + name@ + "'"@;
            match suggestion {
                Some(s) => head + " — did you mean '"@ + s@ + "'?"@,
                None => head,
            }
        },
    }
}

impl FormulaError {
    /// The message shown beneath the formula editor.
    pub fn message(&self) -> (res: String)
        ensures
            res@ == formula_error_text(*self),
    {
        match self {
            FormulaError::Empty => String::from_str("formula is empty"),
            FormulaError::Parse(msg) => concat("parse error: ", msg.as_str()),
            FormulaError::UnknownVariable { name, suggestion } => {
                let mut out = concat("unknown variable '", name.as_str());
                out.append("'");
                match suggestion {
                    Some(s) => {
                        out.append(" — did you mean '");
                        out.append(s.as_str());
                        out.append("'?");
                    },
                    None => {},
                }
                out
            },
        }
    }
}

/// A formula's source text after trimming, or `Empty` when nothing is left.
pub fn checked_source(src: &str) -> (res: Result<String, FormulaError>)
    ensures
        trimmed(src@).len() == 0 ==> res matches Err(FormulaError::Empty),
        trimmed(src@).len() > 0 ==> (res matches Ok(s) && s@ == trimmed(src@)),
{
    let t = trim(src);
    if t.unicode_len() == 0 {
        Err(FormulaError::Empty)
    } else {
        Ok(t)
    }
}

/// Resolves the variables a parsed formula mentions (in the order the
/// expression engine lists them) to their slots; the first unknown name is
/// reported together with a suggestion.
pub fn resolve_var_slots(var_names: &Vec<String>) -> (res: Result<Vec<VarSlot>, FormulaError>)
    ensures
        res is Ok <==> forall|i: int|
            #![trigger var_names@[i]]
            0 <= i < var_names@.len() ==> var_slot_named(var_names@[i]@) is Some,
        res matches Ok(slots) ==> slots@.len() == var_names@.len() && forall|i: int|
            #![trigger var_names@[i]]
            0 <= i < var_names@.len() ==> var_slot_named(var_names@[i]@) == Some(slots@[i]),
        res matches Err(e) ==> exists|i: int|
            {
                &&& 0 <= i < var_names@.len()
                &&& var_slot_named(var_names@[i]@) is None
                &&& forall|j: int|
                    #![trigger var_names@[j]]
                    0 <= j < i ==> var_slot_named(var_names@[j]@) is Some
                &&& e matches FormulaError::UnknownVariable { name, suggestion }
                &&& name@ == var_names@[i]@
                &&& suggestion.deep_view() == suggestion_for(var_names@[i]@)
            },
{
    let mut slots: Vec<VarSlot> = Vec::new();
    let mut i: usize = 0;
    while i < var_names.len()
        invariant
            i <= var_names@.len(),
            slots@.len() == i,
            forall|j: int|
                #![trigger var_names@[j]]
                0 <= j < i ==> var_slot_named(var_names@[j]@) == Some(slots@[j]),
        decreases var_names@.len() - i,
    {
        match lookup_var(var_names[i].as_str()) {
            Some(slot) => {
                slots.push(slot);
            },
            None => {
                let name = var_names[i].clone();
                let suggestion = suggest(var_names[i].as_str());
                return Err(FormulaError::UnknownVariable { name, suggestion });
            },
        }
        i = i + 1;
    }
    Ok(slots)
}

} // verus!

verus! {

/// The field a slot reads, under the name a formula writes it with.
pub open spec fn slot_field_name(s: VarSlot) -> Seq<char> {
    match s {
        VarSlot::Time => "time"@,
        VarSlot::Storage => "storage"@,
        VarSlot::Repetitions => "repetitions"@,
        VarSlot::MaxRelativeNorm2 => "max_relative_norm2"@,
        VarSlot::GflopsPerSecond => "gflops_per_second"@,
        VarSlot::BytesPerNnz => "bytes_per_nnz"@,
        VarSlot::OperationalIntensity => "operational_intensity"@,
        VarSlot::EffectiveMemoryBandwidth => "effective_memory_bandwidth"@,
        VarSlot::Rows => "rows"@,
        VarSlot::Cols => "cols"@,
        VarSlot::Nonzeros => "nonzeros"@,
        VarSlot::Sparsity => "sparsity"@,
        VarSlot::AvgNnzPerRow => "avg_nnz_per_row"@,
        VarSlot::AvgNnzPerCol => "avg_nnz_per_col"@,
        VarSlot::MatrixShapeRatio => "matrix_shape_ratio"@,
        VarSlot::Psym => "psym"@,
        VarSlot::Nsym => "nsym"@,
        VarSlot::RowCv => "row_cv"@,
        VarSlot::ColCv => "col_cv"@,
        VarSlot::BaselineTime => "baseline_time"@,
        VarSlot::BaselineStorage => "baseline_storage"@,
        VarSlot::BaselineGflopsPerSecond => "baseline_gflops_per_second"@,
        VarSlot::BaselineRepetitions => "baseline_repetitions"@,
        VarSlot::BaselineOperationalIntensity => "baseline_operational_intensity"@,
        VarSlot::BaselineEffectiveMemoryBandwidth => "baseline_effective_memory_bandwidth"@,
        VarSlot::BaselineBytesPerNnz => "baseline_bytes_per_nnz"@,
    }
}

/// The short second name of a slot, where it has one.
pub open spec fn slot_alias(s: VarSlot) -> Option<Seq<char>> {
    match s {
        VarSlot::GflopsPerSecond => Some("gflops"@),
        VarSlot::BaselineGflopsPerSecond => Some("baseline_gflops"@),
        _ => None,
    }
}

/// A name that resolves was found at some position at or after `k`.
proof fn lemma_var_slot_from_found(name: Seq<char>, k: int)
    requires
        0 <= k,
    ensures
        var_slot_from(name, k) matches Some(s) ==> exists|j: int|
            k <= j < formula_vars().len() && formula_vars()[j].0 == name && formula_vars()[j].1 == s,
    decreases formula_vars().len() - k,
{
    if k < formula_vars().len() && formula_vars()[k].0 != name {
        lemma_var_slot_from_found(name, k + 1);
    }
}

/// Every entry of the whitelist binds a slot's field name or its alias.
proof fn lemma_entries_name_their_slot(j: int)
    requires
        0 <= j < formula_vars().len(),
    ensures
        formula_vars()[j].0 == slot_field_name(formula_vars()[j].1) || slot_alias(formula_vars()[j].1) == Some(
            formula_vars()[j].0,
        ),
{
    assert(formula_vars().len() == 28);
    if j == 0 {
        assert(formula_vars()[0].0 == "avg_nnz_per_col"@);
    } else if j == 1 {
        assert(formula_vars()[1].0 == "avg_nnz_per_row"@);
    } else if j == 2 {
        assert(formula_vars()[2].0 == "baseline_bytes_per_nnz"@);
    } else if j == 3 {
        assert(formula_vars()[3].0 == "baseline_effective_memory_bandwidth"@);
    } else if j == 4 {
        assert(formula_vars()[4].0 == "baseline_gflops"@);
    } else if j == 5 {
        assert(formula_vars()[5].0 == "baseline_gflops_per_second"@);
    } else if j == 6 {
        assert(formula_vars()[6].0 == "baseline_operational_intensity"@);
    } else if j == 7 {
        assert(formula_vars()[7].0 == "baseline_repetitions"@);
    } else if j == 8 {
        assert(formula_vars()[8].0 == "baseline_storage"@);
    } else if j == 9 {
        assert(formula_vars()[9].0 == "baseline_time"@);
    } else if j == 10 {
        assert(formula_vars()[10].0 == "bytes_per_nnz"@);
    } else if j == 11 {
        assert(formula_vars()[11].0 == "col_cv"@);
    } else if j == 12 {
        assert(formula_vars()[12].0 == "cols"@);
    } else if j == 13 {
        assert(formula_vars()[13].0 == "effective_memory_bandwidth"@);
    } else if j == 14 {
        assert(formula_vars()[14].0 == "gflops"@);
    } else if j == 15 {
        assert(formula_vars()[15].0 == "gflops_per_second"@);
    } else if j == 16 {
        assert(formula_vars()[16].0 == "matrix_shape_ratio"@);
    } else if j == 17 {
        assert(formula_vars()[17].0 == "max_relative_norm2"@);
    } else if j == 18 {
        assert(formula_vars()[18].0 == "nonzeros"@);
    } else if j == 19 {
        assert(formula_vars()[19].0 == "nsym"@);
    } else if j == 20 {
        assert(formula_vars()[20].0 == "operational_intensity"@);
    } else if j == 21 {
        assert(formula_vars()[21].0 == "psym"@);
    } else if j == 22 {
        assert(formula_vars()[22].0 == "repetitions"@);
    } else if j == 23 {
        assert(formula_vars()[23].0 == "row_cv"@);
    } else if j == 24 {
        assert(formula_vars()[24].0 == "rows"@);
    } else if j == 25 {
        assert(formula_vars()[25].0 == "sparsity"@);
    } else if j == 26 {
        assert(formula_vars()[26].0 == "storage"@);
    } else if j == 27 {
        assert(formula_vars()[27].0 == "time"@);
    }
}

/// The whitelist's entries, one by one.
proof fn lemma_entries()
    ensures
        formula_vars().len() == 28,
        formula_vars()[0].0 == "avg_nnz_per_col"@,
        formula_vars()[1].0 == "avg_nnz_per_row"@,
        formula_vars()[2].0 == "baseline_bytes_per_nnz"@,
        formula_vars()[3].0 == "baseline_effective_memory_bandwidth"@,
        formula_vars()[4].0 == "baseline_gflops"@,
        formula_vars()[5].0 == "baseline_gflops_per_second"@,
        formula_vars()[6].0 == "baseline_operational_intensity"@,
        formula_vars()[7].0 == "baseline_repetitions"@,
        formula_vars()[8].0 == "baseline_storage"@,
        formula_vars()[9].0 == "baseline_time"@,
        formula_vars()[10].0 == "bytes_per_nnz"@,
        formula_vars()[11].0 == "col_cv"@,
        formula_vars()[12].0 == "cols"@,
        formula_vars()[13].0 == "effective_memory_bandwidth"@,
        formula_vars()[14].0 == "gflops"@,
        formula_vars()[15].0 == "gflops_per_second"@,
        formula_vars()[16].0 == "matrix_shape_ratio"@,
        formula_vars()[17].0 == "max_relative_norm2"@,
        formula_vars()[18].0 == "nonzeros"@,
        formula_vars()[19].0 == "nsym"@,
        formula_vars()[20].0 == "operational_intensity"@,
        formula_vars()[21].0 == "psym"@,
        formula_vars()[22].0 == "repetitions"@,
        formula_vars()[23].0 == "row_cv"@,
        formula_vars()[24].0 == "rows"@,
        formula_vars()[25].0 == "sparsity"@,
        formula_vars()[26].0 == "storage"@,
        formula_vars()[27].0 == "time"@,
{
}

/// Each field name, and each alias, resolves to its own slot.
proof fn lemma_names_resolve()
    ensures
        var_slot_named("avg_nnz_per_col"@) == Some(VarSlot::AvgNnzPerCol),
        var_slot_named("avg_nnz_per_row"@) == Some(VarSlot::AvgNnzPerRow),
        var_slot_named("baseline_bytes_per_nnz"@) == Some(VarSlot::BaselineBytesPerNnz),
        var_slot_named("baseline_effective_memory_bandwidth"@) == Some(VarSlot::BaselineEffectiveMemoryBandwidth),
        var_slot_named("baseline_gflops"@) == Some(VarSlot::BaselineGflopsPerSecond),
        var_slot_named("baseline_gflops_per_second"@) == Some(VarSlot::BaselineGflopsPerSecond),
        var_slot_named("baseline_operational_intensity"@) == Some(VarSlot::BaselineOperationalIntensity),
        var_slot_named("baseline_repetitions"@) == Some(VarSlot::BaselineRepetitions),
        var_slot_named("baseline_storage"@) == Some(VarSlot::BaselineStorage),
        var_slot_named("baseline_time"@) == Some(VarSlot::BaselineTime),
        var_slot_named("bytes_per_nnz"@) == Some(VarSlot::BytesPerNnz),
        var_slot_named("col_cv"@) == Some(VarSlot::ColCv),
        var_slot_named("cols"@) == Some(VarSlot::Cols),
        var_slot_named("effective_memory_bandwidth"@) == Some(VarSlot::EffectiveMemoryBandwidth),
        var_slot_named("gflops"@) == Some(VarSlot::GflopsPerSecond),
        var_slot_named("gflops_per_second"@) == Some(VarSlot::GflopsPerSecond),
        var_slot_named("matrix_shape_ratio"@) == Some(VarSlot::MatrixShapeRatio),
        var_slot_named("max_relative_norm2"@) == Some(VarSlot::MaxRelativeNorm2),
        var_slot_named("nonzeros"@) == Some(VarSlot::Nonzeros),
        var_slot_named("nsym"@) == Some(VarSlot::Nsym),
        var_slot_named("operational_intensity"@) == Some(VarSlot::OperationalIntensity),
        var_slot_named("psym"@) == Some(VarSlot::Psym),
        var_slot_named("repetitions"@) == Some(VarSlot::Repetitions),
        var_slot_named("row_cv"@) == Some(VarSlot::RowCv),
        var_slot_named("rows"@) == Some(VarSlot::Rows),
        var_slot_named("sparsity"@) == Some(VarSlot::Sparsity),
        var_slot_named("storage"@) == Some(VarSlot::Storage),
        var_slot_named("time"@) == Some(VarSlot::Time),
{
    lemma_entries();
    reveal_strlit("avg_nnz_per_col");
    reveal_strlit("avg_nnz_per_row");
    reveal_strlit("baseline_bytes_per_nnz");
    reveal_strlit("baseline_effective_memory_bandwidth");
    reveal_strlit("baseline_gflops");
    reveal_strlit("baseline_gflops_per_second");
    reveal_strlit("baseline_operational_intensity");
    reveal_strlit("baseline_repetitions");
    reveal_strlit("baseline_storage");
    reveal_strlit("baseline_time");
    reveal_strlit("bytes_per_nnz");
    reveal_strlit("col_cv");
    reveal_strlit("cols");
    reveal_strlit("effective_memory_bandwidth");
    reveal_strlit("gflops");
    reveal_strlit("gflops_per_second");
    reveal_strlit("matrix_shape_ratio");
    reveal_strlit("max_relative_norm2");
    reveal_strlit("nonzeros");
    reveal_strlit("nsym");
    reveal_strlit("operational_intensity");
    reveal_strlit("psym");
    reveal_strlit("repetitions");
    reveal_strlit("row_cv");
    reveal_strlit("rows");
    reveal_strlit("sparsity");
    reveal_strlit("storage");
    reveal_strlit("time");
    // Names of different lengths differ; names of equal length differ at some position.
    assert("avg_nnz_per_col"@.len() == 15);
    assert("avg_nnz_per_row"@.len() == 15);
    assert("baseline_bytes_per_nnz"@.len() == 22);
    assert("baseline_effective_memory_bandwidth"@.len() == 35);
    assert("baseline_gflops"@.len() == 15);
    assert("baseline_gflops_per_second"@.len() == 26);
    assert("baseline_operational_intensity"@.len() == 30);
    assert("baseline_repetitions"@.len() == 20);
    assert("baseline_storage"@.len() == 16);
    assert("baseline_time"@.len() == 13);
    assert("bytes_per_nnz"@.len() == 13);
    assert("col_cv"@.len() == 6);
    assert("cols"@.len() == 4);
    assert("effective_memory_bandwidth"@.len() == 26);
    assert("gflops"@.len() == 6);
    assert("gflops_per_second"@.len() == 17);
    assert("matrix_shape_ratio"@.len() == 18);
    assert("max_relative_norm2"@.len() == 18);
    assert("nonzeros"@.len() == 8);
    assert("nsym"@.len() == 4);
    assert("operational_intensity"@.len() == 21);
    assert("psym"@.len() == 4);
    assert("repetitions"@.len() == 11);
    assert("row_cv"@.len() == 6);
    assert("rows"@.len() == 4);
    assert("sparsity"@.len() == 8);
    assert("storage"@.len() == 7);
    assert("time"@.len() == 4);
    assert("avg_nnz_per_col"@[12] != "avg_nnz_per_row"@[12]);
    assert("avg_nnz_per_col"@[0] != "baseline_gflops"@[0]);
    assert("avg_nnz_per_row"@[0] != "baseline_gflops"@[0]);
    assert("baseline_gflops_per_second"@[0] != "effective_memory_bandwidth"@[0]);
    assert("baseline_time"@[1] != "bytes_per_nnz"@[1]);
    assert("col_cv"@[0] != "gflops"@[0]);
    assert("col_cv"@[0] != "row_cv"@[0]);
    assert("cols"@[0] != "nsym"@[0]);
    assert("cols"@[0] != "psym"@[0]);
    assert("cols"@[0] != "rows"@[0]);
    assert("cols"@[0] != "time"@[0]);
    assert("gflops"@[0] != "row_cv"@[0]);
    assert("matrix_shape_ratio"@[2] != "max_relative_norm2"@[2]);
    assert("nonzeros"@[0] != "sparsity"@[0]);
    assert("nsym"@[0] != "psym"@[0]);
    assert("nsym"@[0] != "rows"@[0]);
    assert("nsym"@[0] != "time"@[0]);
    assert("psym"@[0] != "rows"@[0]);
    assert("psym"@[0] != "time"@[0]);
    assert("rows"@[0] != "time"@[0]);
    assert(var_slot_named("avg_nnz_per_col"@) == Some(VarSlot::AvgNnzPerCol)) by {
        reveal_with_fuel(var_slot_from, 2);
    }
    assert(var_slot_named("avg_nnz_per_row"@) == Some(VarSlot::AvgNnzPerRow)) by {
        reveal_with_fuel(var_slot_from, 3);
    }
    assert(var_slot_named("baseline_bytes_per_nnz"@) == Some(VarSlot::BaselineBytesPerNnz)) by {
        reveal_with_fuel(var_slot_from, 4);
    }
    assert(var_slot_named("baseline_effective_memory_bandwidth"@) == Some(VarSlot::BaselineEffectiveMemoryBandwidth)) by {
        reveal_with_fuel(var_slot_from, 5);
    }
    assert(var_slot_named("baseline_gflops"@) == Some(VarSlot::BaselineGflopsPerSecond)) by {
        reveal_with_fuel(var_slot_from, 6);
    }
    assert(var_slot_named("baseline_gflops_per_second"@) == Some(VarSlot::BaselineGflopsPerSecond)) by {
        reveal_with_fuel(var_slot_from, 7);
    }
    assert(var_slot_named("baseline_operational_intensity"@) == Some(VarSlot::BaselineOperationalIntensity)) by {
        reveal_with_fuel(var_slot_from, 8);
    }
    assert(var_slot_named("baseline_repetitions"@) == Some(VarSlot::BaselineRepetitions)) by {
        reveal_with_fuel(var_slot_from, 9);
    }
    assert(var_slot_named("baseline_storage"@) == Some(VarSlot::BaselineStorage)) by {
        reveal_with_fuel(var_slot_from, 10);
    }
    assert(var_slot_named("baseline_time"@) == Some(VarSlot::BaselineTime)) by {
        reveal_with_fuel(var_slot_from, 11);
    }
    assert(var_slot_named("bytes_per_nnz"@) == Some(VarSlot::BytesPerNnz)) by {
        reveal_with_fuel(var_slot_from, 12);
    }
    assert(var_slot_named("col_cv"@) == Some(VarSlot::ColCv)) by {
        reveal_with_fuel(var_slot_from, 13);
    }
    assert(var_slot_named("cols"@) == Some(VarSlot::Cols)) by {
        reveal_with_fuel(var_slot_from, 14);
    }
    assert(var_slot_named("effective_memory_bandwidth"@) == Some(VarSlot::EffectiveMemoryBandwidth)) by {
        reveal_with_fuel(var_slot_from, 15);
    }
    assert(var_slot_named("gflops"@) == Some(VarSlot::GflopsPerSecond)) by {
        reveal_with_fuel(var_slot_from, 16);
    }
    assert(var_slot_named("gflops_per_second"@) == Some(VarSlot::GflopsPerSecond)) by {
        reveal_with_fuel(var_slot_from, 17);
    }
    assert(var_slot_named("matrix_shape_ratio"@) == Some(VarSlot::MatrixShapeRatio)) by {
        reveal_with_fuel(var_slot_from, 18);
    }
    assert(var_slot_named("max_relative_norm2"@) == Some(VarSlot::MaxRelativeNorm2)) by {
        reveal_with_fuel(var_slot_from, 19);
    }
    assert(var_slot_named("nonzeros"@) == Some(VarSlot::Nonzeros)) by {
        reveal_with_fuel(var_slot_from, 20);
    }
    assert(var_slot_named("nsym"@) == Some(VarSlot::Nsym)) by {
        reveal_with_fuel(var_slot_from, 21);
    }
    assert(var_slot_named("operational_intensity"@) == Some(VarSlot::OperationalIntensity)) by {
        reveal_with_fuel(var_slot_from, 22);
    }
    assert(var_slot_named("psym"@) == Some(VarSlot::Psym)) by {
        reveal_with_fuel(var_slot_from, 23);
    }
    assert(var_slot_named("repetitions"@) == Some(VarSlot::Repetitions)) by {
        reveal_with_fuel(var_slot_from, 24);
    }
    assert(var_slot_named("row_cv"@) == Some(VarSlot::RowCv)) by {
        reveal_with_fuel(var_slot_from, 25);
    }
    assert(var_slot_named("rows"@) == Some(VarSlot::Rows)) by {
        reveal_with_fuel(var_slot_from, 26);
    }
    assert(var_slot_named("sparsity"@) == Some(VarSlot::Sparsity)) by {
        reveal_with_fuel(var_slot_from, 27);
    }
    assert(var_slot_named("storage"@) == Some(VarSlot::Storage)) by {
        reveal_with_fuel(var_slot_from, 28);
    }
    assert(var_slot_named("time"@) == Some(VarSlot::Time)) by {
        reveal_with_fuel(var_slot_from, 29);
    }
}

/// Every formula variable reads the field it names: the field name of each
/// slot, and its alias where it has one, resolve to that slot, and a name
/// that resolves to a slot is that slot's field name or alias. So no two
/// names share a slot unless one is the other's alias.
pub proof fn variables_read_the_field_they_name(name: Seq<char>, s: VarSlot)
    ensures
        var_slot_named(slot_field_name(s)) == Some(s),
        slot_alias(s) matches Some(a) ==> var_slot_named(a) == Some(s),
        var_slot_named(name) == Some(s) ==> name == slot_field_name(s) || slot_alias(s) == Some(name),
{
    lemma_names_resolve();
    lemma_var_slot_from_found(name, 0);
    if var_slot_named(name) == Some(s) {
        let j = choose|j: int|
            0 <= j < formula_vars().len() && formula_vars()[j].0 == name && formula_vars()[j].1 == s;
        lemma_entries_name_their_slot(j);
    }
}

} // verus!

verus! {

/// A suggestion is offered exactly when some whitelisted name lies within
/// two edits of the input, and then it is a whitelisted name at the least
/// distance among them (the earliest on ties); with no name within two
/// edits there is none.
pub proof fn suggestion_is_a_nearest_name_within_two_edits(name: Seq<char>)
    ensures
        suggestion_for(name) is Some <==> exists|j: int|
            0 <= j < formula_var_names().len() && #[trigger] edit_distance(name, formula_var_names()[j]) <= 2,
        suggestion_for(name) matches Some(sug) ==> {
            &&& formula_var_names().contains(sug)
            &&& edit_distance(name, sug) <= 2
            &&& forall|j: int|
                0 <= j < formula_var_names().len() ==> edit_distance(name, sug) <= #[trigger] edit_distance(
                    name,
                    formula_var_names()[j],
                ) || edit_distance(name, formula_var_names()[j]) > 2
        },
{
    let names = formula_var_names();
    if exists|j: int| 0 <= j < names.len() && #[trigger] edit_distance(name, names[j]) <= 2 {
        let j0 = choose|j: int| 0 <= j < names.len() && #[trigger] edit_distance(name, names[j]) <= 2;
        let b = lemma_best_exists(name, j0);
        assert(is_best_suggestion(name, b));
    }
    if suggestion_for(name) is Some {
        let i = choose|i: int| is_best_suggestion(name, i);
        assert(names[i] == suggestion_for(name)->0);
        assert(names.contains(names[i]));
    }
}

/// Some entry is the best suggestion once any entry is within two edits:
/// the earliest entry at the least distance.
proof fn lemma_best_exists(name: Seq<char>, j0: int) -> (b: int)
    requires
        0 <= j0 < formula_var_names().len(),
        edit_distance(name, formula_var_names()[j0]) <= 2,
    ensures
        is_best_suggestion(name, b),
{
    let names = formula_var_names();
    // The least distance d among entries within two edits.
    let d: nat = if exists|j: int| 0 <= j < names.len() && #[trigger] edit_distance(name, names[j]) == 0 {
        0
    } else if exists|j: int| 0 <= j < names.len() && #[trigger] edit_distance(name, names[j]) == 1 {
        1
    } else {
        2
    };
    assert(exists|j: int| 0 <= j < names.len() && #[trigger] edit_distance(name, names[j]) == d);
    let b = lemma_first_at_distance(name, d, 0);
    b
}

/// The first entry at or after `k` whose distance is `d`, given there is one.
proof fn lemma_first_at_distance(name: Seq<char>, d: nat, k: int) -> (b: int)
    requires
        0 <= k,
        exists|j: int| k <= j < formula_var_names().len() && #[trigger] edit_distance(name, formula_var_names()[j]) == d,
    ensures
        k <= b < formula_var_names().len(),
        edit_distance(name, formula_var_names()[b]) == d,
        forall|j: int| k <= j < b ==> #[trigger] edit_distance(name, formula_var_names()[j]) != d,
    decreases formula_var_names().len() - k,
{
    if edit_distance(name, formula_var_names()[k]) == d {
        k
    } else {
        lemma_first_at_distance(name, d, k + 1)
    }
}

} // verus!

verus! {

/// A string is at distance zero from itself.
proof fn lemma_edit_distance_self(a: Seq<char>)
    ensures
        edit_distance(a, a) == 0,
    decreases a.len(),
{
    if a.len() > 0 {
        lemma_edit_distance_self(a.drop_last());
    }
}

/// Small edits cost what Levenshtein distance charges for them: nothing
/// for no change, one for inserting, deleting or substituting a character,
/// at most two for swapping the last two characters; and the distance is
/// at least the difference in length and zero only between equal lengths.
pub proof fn edit_distance_of_small_edits(a: Seq<char>, b: Seq<char>, x: char, y: char)
    ensures
        edit_distance(a, a) == 0,
        edit_distance(a.push(x), a) == 1,
        edit_distance(a, a.push(x)) == 1,
        edit_distance(a.push(x), a.push(y)) == (if x == y { 0nat } else { 1nat }),
        edit_distance(a.push(x).push(y), a.push(y).push(x)) <= 2,
        edit_distance(a, b) >= a.len() - b.len() && edit_distance(a, b) >= b.len() - a.len(),
{
    lemma_edit_distance_self(a);
    lemma_edit_distance_self(a.push(x));
    lemma_edit_distance_self(a.push(y));
    lemma_len_gap(a, b);
    lemma_len_gap(a.push(x), a);
    lemma_len_gap(a, a.push(x));
    lemma_len_gap(a.push(x), a.push(y));
    assert(a.push(x).drop_last() =~= a);
    assert(a.push(y).drop_last() =~= a);
    assert(a.push(x).push(y).drop_last() =~= a.push(x));
    assert(a.push(y).push(x).drop_last() =~= a.push(y));
    if a.len() > 0 {
        lemma_len_gap(a.push(x), a.drop_last());
        lemma_len_gap(a.drop_last(), a.push(x));
    }
}

/// The distance is at least the difference in length.
proof fn lemma_len_gap(a: Seq<char>, b: Seq<char>)
    ensures
        edit_distance(a, b) >= a.len() - b.len(),
        edit_distance(a, b) >= b.len() - a.len(),
    decreases a.len() + b.len(),
{
    if a.len() > 0 && b.len() > 0 {
        lemma_len_gap(a.drop_last(), b.drop_last());
        lemma_len_gap(a.drop_last(), b);
        lemma_len_gap(a, b.drop_last());
    }
}

} // verus!
