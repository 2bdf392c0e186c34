//! Commit-series metadata for the synthetic data generator: fake SHAs and
//! the manifest entry written for each synthetic commit.
use vstd::prelude::*;
use crate::text::{concat, push_char};

verus! {

/// Metadata for one commit in a `commits.json` manifest.
#[derive(Debug, Clone)]
pub struct CommitMeta {
    pub sha: String,
    pub author: String,
    pub date: String,
    pub message: String,
    pub file: String,
}

/// FNV-1a-style mix of a commit index and a seed (64-bit wrapping).
pub open spec fn fnv_mix(commit_idx: u64, base_seed: u64) -> u64 {
    let h1 = (0xcbf2_9ce4_8422_2325u64 ^ commit_idx);
    let h2 = ((h1 as nat * 0x0000_0100_0000_01b3nat) % 0x1_0000_0000_0000_0000nat) as u64;
    let h3 = h2 ^ base_seed;
    ((h3 as nat * 0x0000_0100_0000_01b3nat) % 0x1_0000_0000_0000_0000nat) as u64
}

/// Lower-case hexadecimal digit for `d` (`0 <= d < 16`).
pub open spec fn hex_digit(d: int) -> char {
    if d == 0 { '0' } else if d == 1 { '1' } else if d == 2 { '2' } else if d == 3 { '3' }
    else if d == 4 { '4' } else if d == 5 { '5' } else if d == 6 { '6' } else if d == 7 { '7' }
    else if d == 8 { '8' } else if d == 9 { '9' } else if d == 10 { 'a' } else if d == 11 { 'b' }
    else if d == 12 { 'c' } else if d == 13 { 'd' } else if d == 14 { 'e' } else { 'f' }
}

/// `v` as 7 lower-case hex digits, zero-padded (`format!("{:07x}", v)` for `v < 16^7`).
pub open spec fn hex7(v: nat) -> Seq<char> {
    seq![
        hex_digit(((v / 0x100_0000) % 16) as int),
        hex_digit(((v / 0x10_0000) % 16) as int),
        hex_digit(((v / 0x1_0000) % 16) as int),
        hex_digit(((v / 0x1000) % 16) as int),
        hex_digit(((v / 0x100) % 16) as int),
        hex_digit(((v / 0x10) % 16) as int),
        hex_digit((v % 16) as int),
    ]
}

/// The synthetic short SHA of commit `commit_idx`: the low 24 bits of the
/// mix, in 7 hex digits.
pub open spec fn fake_sha_spec(commit_idx: u64, base_seed: u64) -> Seq<char> {
    hex7((fnv_mix(commit_idx, base_seed) % 0x100_0000) as nat)
}

/// A lower-case hexadecimal digit.
pub open spec fn is_lower_hex(c: char) -> bool {
    ('0' <= c && c <= '9') || ('a' <= c && c <= 'f')
}

/// A synthetic SHA is seven lower-case hex digits, the first of them `0`
/// (it holds 24 bits).
pub proof fn fake_sha_is_seven_hex_digits(commit_idx: u64, base_seed: u64)
    ensures
        fake_sha_spec(commit_idx, base_seed).len() == 7,
        forall|i: int| 0 <= i < 7 ==> is_lower_hex(#[trigger] fake_sha_spec(commit_idx, base_seed)[i]),
        fake_sha_spec(commit_idx, base_seed)[0] == '0',
{
    let v = (fnv_mix(commit_idx, base_seed) % 0x100_0000) as nat;
    assert(v / 0x100_0000 == 0);
}

fn hex_char(d: u64) -> (res: char)
    requires
        d < 16,
    ensures
        res == hex_digit(d as int),
{
    if d == 0 { '0' } else if d == 1 { '1' } else if d == 2 { '2' } else if d == 3 { '3' }
    else if d == 4 { '4' } else if d == 5 { '5' } else if d == 6 { '6' } else if d == 7 { '7' }
    else if d == 8 { '8' } else if d == 9 { '9' } else if d == 10 { 'a' } else if d == 11 { 'b' }
    else if d == 12 { 'c' } else if d == 13 { 'd' } else if d == 14 { 'e' } else { 'f' }
}

/// Derive a deterministic 7-char fake hex SHA from a commit index and base seed.
///
/// This is a synthetic hash, not a real git SHA.
pub fn fake_sha(commit_idx: usize, base_seed: u64) -> (res: String)
    ensures
        res@ == fake_sha_spec(commit_idx as u64, base_seed),
{
    let mut h: u64 = 0xcbf2_9ce4_8422_2325;
    h = h ^ (commit_idx as u64);
    h = h.wrapping_mul(0x0000_0100_0000_01b3);
    h = h ^ base_seed;
    h = h.wrapping_mul(0x0000_0100_0000_01b3);
    let v = h & 0x00ff_ffff;
    assert(h & 0x00ff_ffff == h % 0x100_0000) by (bit_vector);
    let mut out = String::new();
    push_char(&mut out, hex_char((v / 0x100_0000) % 16));
    push_char(&mut out, hex_char((v / 0x10_0000) % 16));
    push_char(&mut out, hex_char((v / 0x1_0000) % 16));
    push_char(&mut out, hex_char((v / 0x1000) % 16));
    push_char(&mut out, hex_char((v / 0x100) % 16));
    push_char(&mut out, hex_char((v / 0x10) % 16));
    push_char(&mut out, hex_char(v % 16));
    assert(out@ =~= hex7(v as nat));
    out
}

/// Author pool, cycled by commit index.
pub open spec fn series_authors() -> Seq<Seq<char>> {
    seq![
        "Alex Chen <alex@ginkgo.dev>"@,
        "Maya Patel <maya@ginkgo.dev>"@,
        "Jonas Weber <jonas@ginkgo.dev>"@,
        "Sara Lima <sara@ginkgo.dev>"@,
        "Dmitri Volkov <dmitri@ginkgo.dev>"@,
    ]
}

/// Commit-message pool, cycled by commit index.
pub open spec fn series_messages() -> Seq<Seq<char>> {
    seq![
        "Optimize SpMV kernel"@,
        "Tune ELL row-padding heuristic"@,
        "Reorder loop nest in COO traversal"@,
        "Reduce shared-memory bank conflicts (HYBRID)"@,
        "Rework SELLP slice grouping"@,
        "Inline hot path in CSR matvec"@,
        "Cache column indices once per warp"@,
        "Bump compiler flags (-O3, vectorize)"@,
        "Pre-compute row offsets for HYBRID partition"@,
        "Drop redundant bounds check in inner loop"@,
    ]
}

fn author_at(i: usize) -> (res: &'static str)
    requires
        i < 5,
    ensures
        res@ == series_authors()[i as int],
{
    if i == 0 { "Alex Chen <alex@ginkgo.dev>" }
    else if i == 1 { "Maya Patel <maya@ginkgo.dev>" }
    else if i == 2 { "Jonas Weber <jonas@ginkgo.dev>" }
    else if i == 3 { "Sara Lima <sara@ginkgo.dev>" }
    else { "Dmitri Volkov <dmitri@ginkgo.dev>" }
}

fn message_at(i: usize) -> (res: &'static str)
    requires
        i < 10,
    ensures
        res@ == series_messages()[i as int],
{
    if i == 0 { "Optimize SpMV kernel" }
    else if i == 1 { "Tune ELL row-padding heuristic" }
    else if i == 2 { "Reorder loop nest in COO traversal" }
    else if i == 3 { "Reduce shared-memory bank conflicts (HYBRID)" }
    else if i == 4 { "Rework SELLP slice grouping" }
    else if i == 5 { "Inline hot path in CSR matvec" }
    else if i == 6 { "Cache column indices once per warp" }
    else if i == 7 { "Bump compiler flags (-O3, vectorize)" }
    else if i == 8 { "Pre-compute row offsets for HYBRID partition" }
    else { "Drop redundant bounds check in inner loop" }
}

/// The commit that carries the ELL regression: the middle of the series.
pub open spec fn is_regression_commit(commit_idx: int, commits: int) -> bool {
    commit_idx == commits / 2
}

/// The commit that carries the HYBRID improvement: two before the
/// regression (saturating at 0), only in series of at least four commits.
pub open spec fn is_improvement_commit(commit_idx: int, commits: int) -> bool {
    let regression = commits / 2;
    let improvement = if regression >= 2 { regression - 2 } else { 0 };
    commit_idx == improvement && commits >= 4
}

/// Which signal bumps commit `commit_idx` of a `commits`-long series gets:
/// `(is_regression, is_improvement)`.
pub fn series_signals(commit_idx: usize, commits: usize) -> (res: (bool, bool))
    ensures
        res.0 == is_regression_commit(commit_idx as int, commits as int),
        res.1 == is_improvement_commit(commit_idx as int, commits as int),
{
    let regression_commit = commits / 2;
    let improvement_commit = regression_commit.saturating_sub(2);
    (commit_idx == regression_commit, commit_idx == improvement_commit && commits >= 4)
}

/// The manifest message of a series commit.
pub open spec fn series_message(commit_idx: int, commits: int) -> Seq<char> {
    if is_regression_commit(commit_idx, commits) {
        "Refactor ELL format (performance regression)"@
    } else if is_improvement_commit(commit_idx, commits) {
        "Vectorize HYBRID inner loop (large speedup)"@
    } else {
        series_messages()[commit_idx % 10]
    }
}

/// The manifest entry of commit `commit_idx` in a synthetic series of
/// `commits` commits; `day` is the commit's calendar date (`YYYY-MM-DD`).
pub fn series_commit_meta(commit_idx: usize, commits: usize, base_seed: u64, day: &str) -> (res: CommitMeta)
    ensures
        res.sha@ == fake_sha_spec(commit_idx as u64, base_seed),
        res.file@ == "bench_"@ + fake_sha_spec(commit_idx as u64, base_seed) + ".json"@,
        res.date@ == day@ + "T00:00:00Z"@,
        res.message@ == series_message(commit_idx as int, commits as int),
        res.author@ == series_authors()[(commit_idx % 5) as int],
{
    let sha = fake_sha(commit_idx, base_seed);
    let mut file = concat("bench_", sha.as_str());
    file.append(".json");
    let date = concat(day, "T00:00:00Z");
    let (is_regression, is_improvement) = series_signals(commit_idx, commits);
    let message = if is_regression {
        String::from_str("Refactor ELL format (performance regression)")
    } else if is_improvement {
        String::from_str("Vectorize HYBRID inner loop (large speedup)")
    } else {
        String::from_str(message_at(commit_idx % 10))
    };
    let author = String::from_str(author_at(commit_idx % 5));
    CommitMeta { sha, author, date, message, file }
}

/// What chrono gives for the calendar date `days` days after
/// `year-month-day`, in `NaiveDate`'s ISO 8601 display form (`YYYY-MM-DD`
/// for years 0 to 9999, with an explicit sign otherwise); `None` when the
/// start is not a date or the result is out of chrono's range.
pub uninterp spec fn date_after_days(year: int, month: int, day: int, days: int) -> Option<Seq<char>>;

/// `chrono::NaiveDate::from_ymd_opt`, `checked_add_signed` of whole days,
/// and the date's display form. Its result is named by
/// [`date_after_days`]; the calendar itself is not restated.
#[verifier::external_body]
fn naive_date_plus_days(year: i32, month: u32, day: u32, days: i64) -> (res: Option<String>)
    ensures
        res.deep_view() == date_after_days(year as int, month as int, day as int, days as int),
{
    let start = chrono::NaiveDate::from_ymd_opt(year, month, day)?;
    let delta = chrono::TimeDelta::try_days(days)?;
    match start.checked_add_signed(delta) {
        Some(date) => Some(date.to_string()),
        None => None,
    }
}

/// The calendar day of commit `commit_idx` of a synthetic series: one day
/// per commit from 2026-01-01 on; `None` past the last date chrono can
/// represent.
pub fn series_commit_day(commit_idx: u64) -> (res: Option<String>)
    ensures
        commit_idx <= i64::MAX ==> res.deep_view() == date_after_days(2026, 1, 1, commit_idx as int),
        commit_idx > i64::MAX ==> res is None,
{
    if commit_idx > 0x7fff_ffff_ffff_ffff {
        return None;
    }
    naive_date_plus_days(2026, 1, 1, commit_idx as i64)
}

} // verus!
