//! The dashboard's state and the decisions it takes on user actions and
//! on load events.
//!
//! Reading files, walking repositories, parsing JSON and drawing happen
//! around this module: it is told what happened (a commit was picked, a
//! load finished, failed or reported progress) and answers with the new
//! state and, where a load must start, what to load.
use vstd::prelude::*;
use crate::data::git::{bare_file_name, file_stem, name_stem, path_file_stem, CommitInfo, GitState};
use crate::types::{DataFormat, DataMode, MetricType, PlotType, XaxisType, all_formats};
use crate::visualization::timeseries::AggregationKind;
use crate::text::{concat, lex_lt, lex_le, str_lt, lemma_lex_lt_irreflexive, lemma_lex_lt_total,
    lemma_lex_lt_asymmetric, lemma_lex_lt_transitive};

verus! {

/// Maximum number of commits to walk when loading a git repository.
pub const MAX_GIT_COMMITS: usize = 1000;

/// Emit a streaming-parse progress update every this many items.
pub const PROGRESS_BATCH_SIZE: usize = 16;

/// Per-item progress reported by a background load. `total = None` marks
/// a streaming source whose size is not known up front.
#[derive(Debug, Clone)]
pub struct LoadProgress {
    pub current: usize,
    pub total: Option<usize>,
    pub phase: String,
}

/// The progress report after `count` items of a load that reports every
/// `batch` items: one at each multiple of `batch`, none in between.
pub fn batch_progress(count: usize, batch: usize, phase: &str) -> (res: Option<LoadProgress>)
    requires
        batch > 0,
    ensures
        count % batch == 0 ==> (res matches Some(p) && p.current == count && p.total is None && p.phase@
            == phase@),
        count % batch != 0 ==> res is None,
{
    if count % batch == 0 {
        Some(LoadProgress { current: count, total: None, phase: String::from_str(phase) })
    } else {
        None
    }
}

/// File picker for builds without a native file dialog: the buttons exist
/// but nothing is ever picked.
pub struct FileDialog;

impl FileDialog {
    pub fn new() -> (res: FileDialog) {
        FileDialog
    }

    pub fn pick_file(&mut self) {
    }

    pub fn pick_directory(&mut self) {
    }

    /// The picked path, if any; this picker never has one.
    pub fn take_picked(&mut self) -> (res: Option<String>)
        ensures
            res is None,
    {
        None
    }
}

/// Top-level view.
#[derive(PartialEq, Eq, Structural, Clone, Copy, Debug)]
pub enum ViewMode {
    Benchmark,
    Solver,
}

/// X axis of the solver convergence plot.
#[derive(PartialEq, Eq, Structural, Clone, Copy, Debug)]
pub enum SolverXAxis {
    Iteration,
    Time,
}

/// Which side is the "before" reference in an A-vs-B comparison.
#[derive(PartialEq, Eq, Structural, Clone, Copy, Hash, Debug)]
pub enum CompareSide {
    A,
    B,
}

/// Vector-export file kind.
#[derive(PartialEq, Eq, Structural, Clone, Copy, Debug)]
pub enum ExportKind {
    Svg,
    Pdf,
}

/// Per-format on/off switches. A format never switched has no entry.
pub struct FormatFlags {
    pub csr: Option<bool>,
    pub coo: Option<bool>,
    pub ell: Option<bool>,
    pub hybrid: Option<bool>,
    pub sellp: Option<bool>,
}

impl FormatFlags {
    /// The flag of `f`, if it was ever set.
    pub open spec fn flag(&self, f: DataFormat) -> Option<bool> {
        match f {
            DataFormat::CSR => self.csr,
            DataFormat::COO => self.coo,
            DataFormat::ELL => self.ell,
            DataFormat::HYBRID => self.hybrid,
            DataFormat::SELLP => self.sellp,
        }
    }

    /// Whether `f` is switched on (an unset flag counts as off).
    pub open spec fn is_active(&self, f: DataFormat) -> bool {
        self.flag(f) == Some(true)
    }

    /// No flag set.
    pub fn new() -> (res: FormatFlags)
        ensures
            forall|f: DataFormat| res.flag(f) is None,
    {
        FormatFlags { csr: None, coo: None, ell: None, hybrid: None, sellp: None }
    }

    /// The flag of `f`, if it was ever set.
    pub fn get(&self, f: DataFormat) -> (res: Option<bool>)
        ensures
            res == self.flag(f),
    {
        match f {
            DataFormat::CSR => self.csr,
            DataFormat::COO => self.coo,
            DataFormat::ELL => self.ell,
            DataFormat::HYBRID => self.hybrid,
            DataFormat::SELLP => self.sellp,
        }
    }

    /// Sets the flag of `f`.
    pub fn insert(&mut self, f: DataFormat, on: bool)
        ensures
            final(self).flag(f) == Some(on),
            forall|g: DataFormat| g != f ==> final(self).flag(g) == old(self).flag(g),
    {
        match f {
            DataFormat::CSR => self.csr = Some(on),
            DataFormat::COO => self.coo = Some(on),
            DataFormat::ELL => self.ell = Some(on),
            DataFormat::HYBRID => self.hybrid = Some(on),
            DataFormat::SELLP => self.sellp = Some(on),
        }
    }

    /// Whether `f` is switched on.
    pub fn active(&self, f: DataFormat) -> (res: bool)
        ensures
            res == self.is_active(f),
    {
        match self.get(f) {
            Some(b) => b,
            None => false,
        }
    }
}

/// Chart settings of the benchmark view.
pub struct PlotConfig {
    pub plot_type: PlotType,
    pub x_axis: Option<XaxisType>,
    pub data_metric: Option<MetricType>,
    pub baseline_format: DataFormat,
    pub normalize: bool,
    pub filter_outliers: bool,
    pub log_scale_x: bool,
    pub show_percentile_bands: bool,
    /// Raw text of the custom-formula editor.
    pub custom_formula_text: String,
    /// Source of the compiled custom formula; `Some` while one is compiled.
    pub custom_formula_source: Option<String>,
    /// Error shown beneath the formula editor.
    pub custom_formula_error: Option<String>,
}

impl PlotConfig {
    pub fn new() -> (res: PlotConfig)
        ensures
            res.plot_type == PlotType::Scatter,
            res.x_axis == Some(XaxisType::NonZeros),
            res.data_metric == Some(MetricType::Time),
            res.baseline_format == DataFormat::CSR,
            !res.normalize,
            !res.filter_outliers,
            !res.log_scale_x,
            !res.show_percentile_bands,
            res.custom_formula_text@.len() == 0,
            res.custom_formula_source is None,
            res.custom_formula_error is None,
    {
        PlotConfig {
            plot_type: PlotType::Scatter,
            x_axis: Some(XaxisType::NonZeros),
            data_metric: Some(MetricType::Time),
            baseline_format: DataFormat::CSR,
            normalize: false,
            filter_outliers: false,
            log_scale_x: false,
            show_percentile_bands: false,
            custom_formula_text: String::new(),
            custom_formula_source: None,
            custom_formula_error: None,
        }
    }
}

/// Strictly ascending, hence free of duplicates.
pub open spec fn strictly_sorted(s: Seq<Seq<char>>) -> bool {
    forall|i: int, j: int| 0 <= i < j < s.len() ==> lex_lt(#[trigger] s[i], #[trigger] s[j])
}

/// Which datasets are loaded and shown.
pub struct DataSelection {
    pub mode: Option<DataMode>,
    /// Keys of the loaded datasets, ascending.
    pub sorted_dataset_keys: Vec<String>,
    /// Keys of the datasets currently shown.
    pub active_dataset: Vec<String>,
    pub active_formats: FormatFlags,
}

impl DataSelection {
    /// The set of loaded dataset keys.
    pub open spec fn loaded(&self) -> Set<Seq<char>> {
        self.sorted_dataset_keys@.map_values(|k: String| k@).to_set()
    }

    pub open spec fn wf(&self) -> bool {
        strictly_sorted(self.sorted_dataset_keys@.map_values(|k: String| k@))
    }
}

/// Progress of the one background load that may be in flight.
pub struct LoadingState {
    pub is_loading: bool,
    pub picked_file: Option<String>,
    pub last_error: Option<String>,
    /// Latest progress snapshot from the running load.
    pub progress: Option<LoadProgress>,
    /// Label of the running load, used as the dataset key when it finishes.
    pub current_label: Option<String>,
}

/// Which loaded datasets the A-vs-B comparison uses.
pub struct ComparisonState {
    pub commit_a: Option<String>,
    pub commit_b: Option<String>,
    pub baseline_side: CompareSide,
    pub shared_y_range: bool,
    pub lower_is_better: bool,
}

/// Line-timeseries controls. `problem_filter == Some(name)` narrows the
/// aggregate to one problem.
#[derive(Clone)]
pub struct TimeseriesState {
    pub aggregation: AggregationKind,
    pub format: DataFormat,
    pub problem_filter: Option<String>,
}

impl TimeseriesState {
    pub fn new() -> (res: TimeseriesState)
        ensures
            res.aggregation == AggregationKind::Median,
            res.format == DataFormat::CSR,
            res.problem_filter is None,
    {
        TimeseriesState { aggregation: AggregationKind::Median, format: DataFormat::CSR, problem_filter: None }
    }
}

/// Stacked-bar controls. `dataset == None` until one is picked.
#[derive(Clone)]
pub struct StackedBarState {
    pub dataset: Option<String>,
    pub sort_by_total: bool,
    pub top_n: usize,
}

impl StackedBarState {
    pub fn new() -> (res: StackedBarState)
        ensures
            res.dataset is None,
            res.sort_by_total,
            res.top_n == 30,
    {
        StackedBarState { dataset: None, sort_by_total: true, top_n: 30 }
    }
}

/// Last status line of the export buttons.
pub struct ExportState {
    pub last_message: Option<String>,
}

/// The dashboard state.
pub struct Dashboard {
    pub view_mode: ViewMode,
    pub plot_config: PlotConfig,
    pub data_selection: DataSelection,
    pub loading: LoadingState,
    pub comparison: ComparisonState,
    pub timeseries: TimeseriesState,
    pub stacked_bar: StackedBarState,
    pub git: GitState,
    pub export: ExportState,
}

/// Dataset key of a commit's benchmark: `bench_<short_sha>`.
/// What starting the bench-file load of commit `idx` does to the loading
/// state: nothing while another load runs or for an index out of range;
/// for a commit without a bench file, no load (and, in the foreground, the
/// reason as the error); otherwise a load of that file under the commit's
/// dataset key.
pub open spec fn commit_load_outcome(
    before: Dashboard,
    after: Dashboard,
    idx: usize,
    is_prefetch: bool,
    res: Option<BenchLoad>,
) -> bool {
    &&& ((before.loading.is_loading || idx >= before.git.commits@.len()) ==> {
            &&& res is None
            &&& after.loading == before.loading
            &&& after.git.prefetch_in_flight == before.git.prefetch_in_flight
        })
    &&& (!before.loading.is_loading && idx < before.git.commits@.len() ==> {
            let c = before.git.commits@[idx as int];
            match c.bench_file {
                None => {
                    &&& res is None
                    &&& after.loading.is_loading == before.loading.is_loading
                    &&& after.loading.progress == before.loading.progress
                    &&& after.loading.current_label == before.loading.current_label
                    &&& after.git.prefetch_in_flight == before.git.prefetch_in_flight
                    &&& is_prefetch ==> after.loading.last_error == before.loading.last_error
                    &&& !is_prefetch ==> (after.loading.last_error matches Some(m) && m@
                        == no_bench_file_error(c))
                },
                Some(path) => {
                    &&& res matches Some(l) && l.path@ == path@ && l.key@ == commit_key(c)
                    &&& after.loading.is_loading
                    &&& after.loading.last_error is None
                    &&& after.loading.progress is None
                    &&& after.loading.current_label matches Some(k) && k@ == commit_key(c)
                    &&& after.git.prefetch_in_flight == is_prefetch
                },
            }
        })
}

/// A prefetch may start: a commit is selected, no load runs, and the
/// selection moved since the last prefetch.
pub open spec fn prefetch_gate_open(d: Dashboard) -> bool {
    &&& d.git.selected_commit_idx is Some
    &&& !d.loading.is_loading
    &&& d.git.last_prefetch_idx != d.git.selected_commit_idx
}

/// Commit `c` can be prefetched: it exists, its dataset is not loaded,
/// and its bench file is known.
pub open spec fn prefetchable(d: Dashboard, c: int) -> bool {
    &&& 0 <= c < d.git.commits@.len()
    &&& !d.data_selection.loaded().contains(commit_key(d.git.commits@[c]))
    &&& d.git.commits@[c].bench_file is Some
}

/// The neighbour of selected commit `i` a prefetch loads: the older one
/// (`i + 1`) when it can be prefetched, else the newer one (`i - 1`).
pub open spec fn prefetch_target(d: Dashboard, i: int) -> Option<int> {
    if prefetchable(d, i + 1) {
        Some(i + 1)
    } else if i > 0 && prefetchable(d, i - 1) {
        Some(i - 1)
    } else {
        None
    }
}

/// `after` shows the same view as `before`: the view mode, the plot,
/// comparison, timeseries, stacked-bar and export settings are unchanged.
pub open spec fn keeps_view_settings(before: Dashboard, after: Dashboard) -> bool {
    &&& after.view_mode == before.view_mode
    &&& after.plot_config == before.plot_config
    &&& after.comparison == before.comparison
    &&& after.timeseries == before.timeseries
    &&& after.stacked_bar == before.stacked_bar
    &&& after.export == before.export
}

pub open spec fn commit_key(c: CommitInfo) -> Seq<char> {
    "bench_"@ + c.short_sha@
}

impl Dashboard {
    pub open spec fn wf(&self) -> bool {
        self.data_selection.wf()
    }

    /// A fresh dashboard: benchmark view, default chart settings, nothing
    /// loaded.
    pub fn new() -> (res: Dashboard)
        ensures
            res.wf(),
            res.view_mode == ViewMode::Benchmark,
            res.plot_config.plot_type == PlotType::Scatter,
            res.plot_config.x_axis == Some(XaxisType::NonZeros),
            res.plot_config.data_metric == Some(MetricType::Time),
            res.plot_config.baseline_format == DataFormat::CSR,
            !res.plot_config.normalize,
            res.plot_config.custom_formula_text@.len() == 0,
            res.plot_config.custom_formula_source is None,
            res.plot_config.custom_formula_error is None,
            res.data_selection.mode is None,
            res.data_selection.sorted_dataset_keys@.len() == 0,
            res.data_selection.active_dataset@.len() == 0,
            forall|f: DataFormat| res.data_selection.active_formats.flag(f) is None,
            !res.loading.is_loading,
            res.loading.picked_file is None,
            res.loading.last_error is None,
            res.loading.progress is None,
            res.loading.current_label is None,
            res.comparison.commit_a is None,
            res.comparison.commit_b is None,
            res.comparison.baseline_side == CompareSide::A,
            res.comparison.shared_y_range,
            res.comparison.lower_is_better,
            res.timeseries.aggregation == AggregationKind::Median,
            res.timeseries.format == DataFormat::CSR,
            res.timeseries.problem_filter is None,
            res.stacked_bar.dataset is None,
            res.stacked_bar.sort_by_total,
            res.stacked_bar.top_n == 30,
            res.git.repo_path is None,
            res.git.commits@.len() == 0,
            res.git.selected_commit_idx is None,
            res.git.last_error is None,
            res.git.last_prefetch_idx is None,
            !res.git.prefetch_in_flight,
            res.export.last_message is None,
    {
        let d = Dashboard {
            view_mode: ViewMode::Benchmark,
            plot_config: PlotConfig::new(),
            data_selection: DataSelection {
                mode: None,
                sorted_dataset_keys: Vec::new(),
                active_dataset: Vec::new(),
                active_formats: FormatFlags::new(),
            },
            loading: LoadingState {
                is_loading: false,
                picked_file: None,
                last_error: None,
                progress: None,
                current_label: None,
            },
            comparison: ComparisonState {
                commit_a: None,
                commit_b: None,
                baseline_side: CompareSide::A,
                shared_y_range: true,
                lower_is_better: true,
            },
            timeseries: TimeseriesState::new(),
            stacked_bar: StackedBarState::new(),
            git: GitState::new(),
            export: ExportState { last_message: None },
        };
        assert(d.data_selection.sorted_dataset_keys@.map_values(|k: String| k@) =~= Seq::<Seq<char>>::empty());
        d
    }

    /// Dataset key used when a commit's bench file is loaded:
    /// `"bench_<short_sha>"`, the same on every build.
    pub fn commit_dataset_key(commit: &CommitInfo) -> (res: String)
        ensures
            res@ == commit_key(*commit),
    {
        concat("bench_", commit.short_sha.as_str())
    }

    /// Step the commit selection by `delta` (positive = later in the list,
    /// i.e. older commits, since the walk is newest-first).
    ///
    /// An empty list is left alone; with no selection a positive step picks
    /// the first commit and any other step the last; otherwise the index
    /// moves by `delta`, saturating at both ends.
    pub fn step_commit(&mut self, delta: i32)
        ensures
            old(self).git.commits@.len() == 0 ==> final(self).git.selected_commit_idx == old(
                self,
            ).git.selected_commit_idx,
            old(self).git.commits@.len() > 0 ==> final(self).git.selected_commit_idx == Some(
                step_target(old(self).git.selected_commit_idx, delta as int, old(self).git.commits@.len() as int) as usize,
            ),
            final(self).git.commits == old(self).git.commits,
            final(self).git.last_prefetch_idx == old(self).git.last_prefetch_idx,
            final(self).git.prefetch_in_flight == old(self).git.prefetch_in_flight,
            final(self).git.repo_path == old(self).git.repo_path,
            final(self).git.last_error == old(self).git.last_error,
            final(self).data_selection == old(self).data_selection,
            final(self).loading == old(self).loading,
            keeps_view_settings(*old(self), *final(self)),
    {
        let len = self.git.commits.len();
        if len == 0 {
            return;
        }
        let last = len - 1;
        let new_idx: usize = match self.git.selected_commit_idx {
            None => {
                if delta > 0 {
                    0
                } else {
                    last
                }
            },
            Some(cur) => {
                let wide: i128 = cur as i128;
                let signed: i128 = if wide > 0x7fff_ffff_ffff_ffff { wide - 0x1_0000_0000_0000_0000 } else { wide };
                let raw: i128 = signed + delta as i128;
                if raw < 0 {
                    0
                } else if raw > last as i128 {
                    last
                } else {
                    raw as usize
                }
            },
        };
        self.git.selected_commit_idx = Some(new_idx);
    }
}

/// The selected index read as a signed 64-bit number (indices past
/// `i64::MAX` wrap to negative).
pub open spec fn signed_index(cur: usize) -> int {
    if cur <= i64::MAX { cur as int } else { cur as int - 0x1_0000_0000_0000_0000 }
}

/// Index selected by [`Dashboard::step_commit`] in a list of `len > 0`
/// commits: `current + delta` clamped to `[0, len - 1]`, or the first/last
/// commit when nothing was selected.
pub open spec fn step_target(current: Option<usize>, delta: int, len: int) -> int {
    match current {
        None => if delta > 0 { 0 } else { len - 1 },
        Some(cur) => {
            let raw = signed_index(cur) + delta;
            if raw < 0 { 0 } else if raw > len - 1 { len - 1 } else { raw }
        },
    }
}

/// A step over a non-empty commit list always lands on a commit.
pub proof fn step_commit_stays_in_range(current: Option<usize>, delta: int, len: int)
    requires
        len > 0,
    ensures
        0 <= step_target(current, delta, len) < len,
{
}

/// A step that does not run past either end is undone by the opposite
/// step.
pub proof fn step_commit_undone_by_opposite(cur: usize, delta: int, len: int)
    requires
        0 <= cur < len,
        0 <= cur + delta < len,
        cur <= i64::MAX,
        cur + delta <= i64::MAX,
        cur + delta <= usize::MAX,
    ensures
        step_target(Some((cur + delta) as usize), -delta, len) == cur,
{
}

/// What to load in the background: the file and the dataset key it will
/// be stored under.
pub struct BenchLoad {
    pub path: String,
    pub key: String,
}

/// The kind of a failed load, for routing its message.
#[derive(PartialEq, Eq, Structural, Clone, Copy, Debug)]
pub enum LoadErrorKind {
    /// Opening or walking a git repository failed.
    Git,
    /// Reading, parsing or checking a data file failed.
    Other,
}

/// The error for a commit whose benchmark file is unknown.
pub open spec fn no_bench_file_error(c: CommitInfo) -> Seq<char> {
    "No benchmark file registered for commit "@ + c.sha@ + " (short "@ + c.short_sha@ + ")."@
}

/// Keys of the loaded datasets among `commits`, oldest first (`commits`
/// is newest first).
pub open spec fn loaded_commit_keys(commits: Seq<CommitInfo>, loaded: Set<Seq<char>>) -> Seq<Seq<char>>
    decreases commits.len(),
{
    if commits.len() == 0 {
        Seq::empty()
    } else {
        let rest = loaded_commit_keys(commits.drop_first(), loaded);
        if loaded.contains(commit_key(commits[0])) {
            rest.push(commit_key(commits[0]))
        } else {
            rest
        }
    }
}

/// The strings of a vector, by value.
pub open spec fn strings(v: Seq<String>) -> Seq<Seq<char>> {
    v.map_values(|k: String| k@)
}

pub(crate) fn contains_string(v: &Vec<String>, key: &String) -> (res: bool)
    ensures
        res == strings(v@).contains(key@),
{
    let mut i: usize = 0;
    while i < v.len()
        invariant
            i <= v@.len(),
            forall|j: int| 0 <= j < i ==> (#[trigger] v@[j])@ != key@,
        decreases v@.len() - i,
    {
        if v[i] == *key {
            assert(strings(v@)[i as int] == key@);
            return true;
        }
        i = i + 1;
    }
    assert(!strings(v@).contains(key@)) by {
        if strings(v@).contains(key@) {
            let j = choose|j: int| 0 <= j < strings(v@).len() && strings(v@)[j] == key@;
            assert(v@[j]@ == key@);
        }
    }
    false
}

pub(crate) fn clone_strings(v: &Vec<String>) -> (res: Vec<String>)
    ensures
        res@ == v@,
{
    let mut out: Vec<String> = Vec::new();
    let mut i: usize = 0;
    while i < v.len()
        invariant
            i <= v@.len(),
            out@ == v@.take(i as int),
        decreases v@.len() - i,
    {
        out.push(v[i].clone());
        i = i + 1;
        assert(out@ =~= v@.take(i as int));
    }
    assert(v@.take(v@.len() as int) =~= v@);
    out
}

/// Inserts `key` into a strictly ascending key list, unless present.
fn insert_sorted_key(keys: &mut Vec<String>, key: String)
    requires
        strictly_sorted(strings(old(keys)@)),
    ensures
        strictly_sorted(strings(final(keys)@)),
        strings(final(keys)@).to_set() == strings(old(keys)@).to_set().insert(key@),
{
    let ghost s = strings(keys@);
    let mut p: usize = 0;
    while p < keys.len() && str_lt(keys[p].as_str(), key.as_str())
        invariant
            strings(keys@) == s,
            strictly_sorted(s),
            p <= s.len(),
            forall|q: int| 0 <= q < p ==> lex_lt(#[trigger] s[q], key@),
        decreases s.len() - p,
    {
        p = p + 1;
    }
    if p < keys.len() && keys[p] == key {
        proof {
            assert(s[p as int] == key@);
            assert(s.to_set().insert(key@) =~= s.to_set());
        }
        return;
    }
    proof {
        if p < s.len() {
            lemma_lex_lt_total(s[p as int], key@);
            assert(lex_lt(key@, s[p as int]));
        }
        assert forall|q: int| p <= q < s.len() implies lex_lt(key@, #[trigger] s[q]) by {
            if q > p {
                lemma_lex_lt_transitive(key@, s[p as int], s[q]);
            }
        }
    }
    let ghost old_keys = keys@;
    keys.insert(p, key);
    proof {
        let r = strings(keys@);
        assert(r =~= s.insert(p as int, key@));
        assert forall|i: int, j: int| 0 <= i < j < r.len() implies lex_lt(#[trigger] r[i], #[trigger] r[j]) by {
            if j < p {
            } else if j == p {
            } else if i == p {
            } else if i < p {
                assert(r[j] == s[j - 1]);
                lemma_lex_lt_transitive(r[i], key@, s[j - 1]);
            } else {
            }
        }
        assert(r.to_set() =~= s.to_set().insert(key@)) by {
            assert forall|x: Seq<char>| r.to_set().contains(x) <==> s.to_set().insert(key@).contains(x) by {
                if r.contains(x) {
                    let i = choose|i: int| 0 <= i < r.len() && r[i] == x;
                    if i < p {
                        assert(s[i] == x);
                    } else if i > p {
                        assert(s[i - 1] == x);
                    }
                }
                if s.contains(x) {
                    let i = choose|i: int| 0 <= i < s.len() && s[i] == x;
                    if i < p {
                        assert(r[i] == x);
                    } else {
                        assert(r[i + 1] == x);
                    }
                }
                if x == key@ {
                    assert(r[p as int] == x);
                }
            }
        }
    }
}

impl Dashboard {
    /// Whether a dataset is loaded under `key`.
    pub fn has_dataset(&self, key: &String) -> (res: bool)
        ensures
            res == self.data_selection.loaded().contains(key@),
    {
        contains_string(&self.data_selection.sorted_dataset_keys, key)
    }

    /// Start loading commit `idx`'s benchmark file (`is_prefetch`: a
    /// background warm-up that does not change what is shown).
    ///
    /// Nothing starts while another load runs or when `idx` is out of
    /// range. A commit without a known bench file starts nothing and, for
    /// a foreground load, reports why.
    pub fn begin_commit_bench_load(&mut self, idx: usize, is_prefetch: bool) -> (res: Option<BenchLoad>)
        ensures
            final(self).data_selection == old(self).data_selection,
            final(self).comparison == old(self).comparison,
            final(self).plot_config == old(self).plot_config,
            final(self).view_mode == old(self).view_mode,
            final(self).git.commits == old(self).git.commits,
            final(self).git.selected_commit_idx == old(self).git.selected_commit_idx,
            final(self).git.last_prefetch_idx == old(self).git.last_prefetch_idx,
            final(self).git.last_error == old(self).git.last_error,
            final(self).git.repo_path == old(self).git.repo_path,
            final(self).loading.picked_file == old(self).loading.picked_file,
            final(self).export == old(self).export,
            final(self).timeseries == old(self).timeseries,
            final(self).stacked_bar == old(self).stacked_bar,
            commit_load_outcome(*old(self), *final(self), idx, is_prefetch, res),
    {
        if self.loading.is_loading || idx >= self.git.commits.len() {
            return None;
        }
        let commit = &self.git.commits[idx];
        match &commit.bench_file {
            None => {
                if !is_prefetch {
                    let mut msg = concat("No benchmark file registered for commit ", commit.sha.as_str());
                    msg.append(" (short ");
                    msg.append(commit.short_sha.as_str());
                    msg.append(").");
                    self.loading.last_error = Some(msg);
                }
                None
            },
            Some(path) => {
                let path = path.clone();
                let key = Self::commit_dataset_key(commit);
                let label = key.clone();
                self.loading.is_loading = true;
                self.loading.last_error = None;
                self.loading.progress = None;
                self.loading.current_label = Some(label);
                self.git.prefetch_in_flight = is_prefetch;
                Some(BenchLoad { path, key })
            },
        }
    }

    /// The user picked commit `idx`.
    ///
    /// Out-of-range indices are ignored. Otherwise the commit becomes the
    /// selection and side B of the comparison; an already-loaded dataset
    /// becomes the only one shown, else a foreground load of it starts.
    pub fn on_commit_selected(&mut self, idx: usize) -> (res: Option<BenchLoad>)
        requires
            old(self).wf(),
        ensures
            final(self).wf(),
            idx >= old(self).git.commits@.len() ==> res is None && *final(self) == *old(self),
            idx < old(self).git.commits@.len() ==> {
                let key = commit_key(old(self).git.commits@[idx as int]);
                &&& final(self).git.selected_commit_idx == Some(idx)
                &&& final(self).comparison.commit_b matches Some(b) && b@ == key
                &&& final(self).comparison.commit_a == old(self).comparison.commit_a
                &&& final(self).git.commits == old(self).git.commits
                &&& final(self).data_selection.sorted_dataset_keys == old(self).data_selection.sorted_dataset_keys
                &&& (old(self).data_selection.loaded().contains(key) ==> {
                    &&& res is None
                    &&& strings(final(self).data_selection.active_dataset@) == seq![key]
                    &&& final(self).loading == old(self).loading
                })
                &&& (!old(self).data_selection.loaded().contains(key) ==> {
                    &&& final(self).data_selection.active_dataset == old(self).data_selection.active_dataset
                    &&& commit_load_outcome(*old(self), *final(self), idx, false, res)
                })
                &&& final(self).view_mode == old(self).view_mode
                &&& final(self).plot_config == old(self).plot_config
                &&& final(self).timeseries == old(self).timeseries
                &&& final(self).stacked_bar == old(self).stacked_bar
                &&& final(self).export == old(self).export
                &&& final(self).comparison == (ComparisonState {
                    commit_b: final(self).comparison.commit_b,
                    ..old(self).comparison
                })
                &&& final(self).data_selection.mode == old(self).data_selection.mode
                &&& final(self).data_selection.active_formats == old(self).data_selection.active_formats
                &&& final(self).git.repo_path == old(self).git.repo_path
                &&& final(self).git.last_prefetch_idx == old(self).git.last_prefetch_idx
                &&& final(self).git.last_error == old(self).git.last_error
                &&& final(self).loading.picked_file == old(self).loading.picked_file
            },
    {
        if idx >= self.git.commits.len() {
            return None;
        }
        self.git.selected_commit_idx = Some(idx);
        let key = Self::commit_dataset_key(&self.git.commits[idx]);
        self.comparison.commit_b = Some(key.clone());
        if self.has_dataset(&key) {
            let mut active: Vec<String> = Vec::new();
            active.push(key);
            proof {
                assert(strings(active@) =~= seq![commit_key(self.git.commits@[idx as int])]);
            }
            self.data_selection.active_dataset = active;
            None
        } else {
            self.begin_commit_bench_load(idx, false)
        }
    }

    /// Start a background load of a neighbour of the selected commit (the
    /// older one first, then the newer) whose dataset is not loaded yet
    /// and whose bench file is known.
    ///
    /// Nothing happens without a selection, while a load runs, or when the
    /// selection has not moved since the last call; otherwise the call is
    /// remembered in `last_prefetch_idx`.
    pub fn prefetch_adjacent_commits(&mut self) -> (res: Option<BenchLoad>)
        requires
            old(self).wf(),
            prefetch_gate_open(*old(self)) ==> old(self).git.selected_commit_idx.unwrap()
                <= old(self).git.commits@.len(),
        ensures
            keeps_view_settings(*old(self), *final(self)),
            final(self).wf(),
            final(self).data_selection == old(self).data_selection,
            final(self).git.commits == old(self).git.commits,
            final(self).git.selected_commit_idx == old(self).git.selected_commit_idx,
            final(self).git.repo_path == old(self).git.repo_path,
            final(self).git.last_error == old(self).git.last_error,
            final(self).loading.picked_file == old(self).loading.picked_file,
            !prefetch_gate_open(*old(self)) ==> res is None && *final(self) == *old(self),
            prefetch_gate_open(*old(self)) ==> {
                let i = old(self).git.selected_commit_idx.unwrap();
                &&& final(self).git.last_prefetch_idx == Some(i)
                &&& match prefetch_target(*old(self), i as int) {
                    Some(c) => commit_load_outcome(*old(self), *final(self), c as usize, true, res),
                    None => {
                        &&& res is None
                        &&& final(self).loading == old(self).loading
                        &&& final(self).git.prefetch_in_flight == old(self).git.prefetch_in_flight
                    },
                }
            },
    {
        let idx = match self.git.selected_commit_idx {
            None => {
                return None;
            },
            Some(i) => i,
        };
        if self.loading.is_loading {
            return None;
        }
        if let Some(last) = self.git.last_prefetch_idx {
            if last == idx {
                return None;
            }
        }
        let n = self.git.commits.len();
        let older_loadable = idx < n && n - idx > 1 && !self.has_dataset(&Self::commit_dataset_key(&self.git.commits[idx + 1]))
            && self.git.commits[idx + 1].bench_file.is_some();
        let result = if older_loadable {
            self.begin_commit_bench_load(idx + 1, true)
        } else {
            let newer_loadable = idx > 0 && !self.has_dataset(&Self::commit_dataset_key(&self.git.commits[idx - 1]))
                && self.git.commits[idx - 1].bench_file.is_some();
            if newer_loadable {
                self.begin_commit_bench_load(idx - 1, true)
            } else {
                None
            }
        };
        self.git.last_prefetch_idx = Some(idx);
        result
    }

    /// Oldest-first dataset keys of the loaded commits (the order the
    /// outlier detector's rolling baseline walks); without commits, the
    /// loaded dataset keys in ascending order.
    pub fn outlier_ordered_keys(&self) -> (res: Vec<String>)
        ensures
            self.git.commits@.len() == 0 ==> res@ == self.data_selection.sorted_dataset_keys@,
            self.git.commits@.len() > 0 ==> strings(res@) == loaded_commit_keys(
                self.git.commits@,
                self.data_selection.loaded(),
            ),
    {
        if self.git.commits.len() == 0 {
            return clone_strings(&self.data_selection.sorted_dataset_keys);
        }
        let commits = &self.git.commits;
        let mut out: Vec<String> = Vec::new();
        let mut i: usize = commits.len();
        assert(commits@.skip(i as int) =~= Seq::<CommitInfo>::empty());
        while i > 0
            invariant
                commits@ == self.git.commits@,
                i <= commits@.len(),
                strings(out@) == loaded_commit_keys(commits@.skip(i as int), self.data_selection.loaded()),
            decreases i,
        {
            let key = Self::commit_dataset_key(&commits[i - 1]);
            proof {
                assert(commits@.skip(i - 1).drop_first() =~= commits@.skip(i as int));
                assert(commits@.skip(i - 1)[0] == commits@[i - 1]);
            }
            if self.has_dataset(&key) {
                out.push(key);
                proof {
                    assert(strings(out@) =~= strings(out@.drop_last()).push(out@.last()@));
                }
            }
            i = i - 1;
        }
        assert(commits@.skip(0) =~= commits@);
        out
    }
}


/// The dataset label of a picked file: the file's stem (`unknown_file`
/// when there is none), `#`, and the time of day.
pub open spec fn file_label(picked: Option<String>, time: Seq<char>) -> Seq<char> {
    let stem = match picked {
        Some(p) => match path_file_stem(p@) {
            Some(s) => s,
            None => "unknown_file"@,
        },
        None => "unknown_file"@,
    };
    stem + "#"@ + time
}

impl Dashboard {
    /// Label of the picked file's dataset: `<file stem>#<time>`, where
    /// `time` is the UTC wall-clock time as `HH-MM-SS` (read by the caller),
    /// so that loading one file twice gives two datasets.
    pub fn encode_file(&self, time: &str) -> (res: String)
        ensures
            res@ == file_label(self.loading.picked_file, time@),
            self.loading.picked_file matches Some(p) ==> (bare_file_name(p@) ==> res@ == name_stem(p@) + "#"@ + time@),
    {
        let stem: String = match &self.loading.picked_file {
            Some(p) => match file_stem(p.as_str()) {
                Some(s) => s,
                None => String::from_str("unknown_file"),
            },
            None => String::from_str("unknown_file"),
        };
        let mut out = concat(stem.as_str(), "#");
        out.append(time);
        out
    }

    /// Start loading the picked data file, labelled `label`: nothing starts
    /// while another load runs or when no file is picked. Returns the file
    /// to read (as benchmark or solver data, after `view_mode`).
    pub fn begin_file_load(&mut self, label: String) -> (res: Option<String>)
        ensures
            keeps_view_settings(*old(self), *final(self)),
            final(self).git == old(self).git,
            final(self).data_selection == old(self).data_selection,
            final(self).view_mode == old(self).view_mode,
            final(self).loading.picked_file == old(self).loading.picked_file,
            (old(self).loading.is_loading || old(self).loading.picked_file is None) ==> res is None
                && final(self).loading == old(self).loading,
            (!old(self).loading.is_loading && old(self).loading.picked_file is Some) ==> {
                &&& res == old(self).loading.picked_file
                &&& final(self).loading.is_loading
                &&& final(self).loading.last_error is None
                &&& final(self).loading.progress is None
                &&& final(self).loading.current_label == Some(label)
            },
    {
        if self.loading.is_loading {
            return None;
        }
        match &self.loading.picked_file {
            None => None,
            Some(path) => {
                let path = path.clone();
                self.loading.is_loading = true;
                self.loading.last_error = None;
                self.loading.progress = None;
                self.loading.current_label = Some(label);
                Some(path)
            },
        }
    }

    /// Start loading the commit history of the repository at `path`
    /// (labelled `label`); nothing starts while another load runs.
    /// Returns whether the load started; the previous commits and
    /// selection are cleared when it does.
    pub fn begin_git_load(&mut self, path: Option<String>, label: String) -> (res: bool)
        ensures
            keeps_view_settings(*old(self), *final(self)),
            final(self).data_selection == old(self).data_selection,
            final(self).view_mode == old(self).view_mode,
            res == !old(self).loading.is_loading,
            !res ==> *final(self) == *old(self),
            res ==> {
                &&& final(self).loading.is_loading
                &&& final(self).loading.last_error is None
                &&& final(self).loading.progress is None
                &&& final(self).loading.current_label == Some(label)
                &&& final(self).loading.picked_file == old(self).loading.picked_file
                &&& final(self).git.repo_path == path
                &&& final(self).git.last_error is None
                &&& final(self).git.commits@.len() == 0
                &&& final(self).git.selected_commit_idx is None
                &&& final(self).git.last_prefetch_idx is None
                &&& !final(self).git.prefetch_in_flight
            },
    {
        if self.loading.is_loading {
            return false;
        }
        self.loading.is_loading = true;
        self.loading.last_error = None;
        self.loading.progress = None;
        self.git.repo_path = path;
        self.git.last_error = None;
        self.git.commits = Vec::new();
        self.git.selected_commit_idx = None;
        self.git.last_prefetch_idx = None;
        self.git.prefetch_in_flight = false;
        self.loading.current_label = Some(label);
        true
    }

    /// A progress report of the running load.
    pub fn on_load_progress(&mut self, progress: LoadProgress)
        ensures
            final(self).loading.picked_file == old(self).loading.picked_file,
            keeps_view_settings(*old(self), *final(self)),
            final(self).loading.progress == Some(progress),
            final(self).loading.is_loading == old(self).loading.is_loading,
            final(self).loading.current_label == old(self).loading.current_label,
            final(self).loading.last_error == old(self).loading.last_error,
            final(self).git == old(self).git,
            final(self).data_selection == old(self).data_selection,
    {
        self.loading.progress = Some(progress);
    }

    fn finish_load(&mut self)
        ensures
            final(self).loading.picked_file == old(self).loading.picked_file,
            keeps_view_settings(*old(self), *final(self)),
            !final(self).loading.is_loading,
            final(self).loading.progress is None,
            final(self).loading.current_label == old(self).loading.current_label,
            final(self).loading.last_error == old(self).loading.last_error,
            final(self).loading.picked_file == old(self).loading.picked_file,
            final(self).git == old(self).git,
            final(self).data_selection == old(self).data_selection,
            final(self).view_mode == old(self).view_mode,
    {
        self.loading.is_loading = false;
        self.loading.progress = None;
    }

    /// A benchmark dataset finished loading. Returns the key it is stored
    /// under: the load's label (empty when there was none).
    ///
    /// The key joins the loaded datasets; a foreground load also shows it
    /// (once), while a prefetch only warms the cache and ends the prefetch.
    pub fn on_benchmark_loaded(&mut self) -> (res: String)
        requires
            old(self).wf(),
        ensures
            final(self).loading.picked_file == old(self).loading.picked_file,
            keeps_view_settings(*old(self), *final(self)),
            final(self).wf(),
            res@ == (match old(self).loading.current_label {
                Some(l) => l@,
                None => Seq::<char>::empty(),
            }),
            final(self).data_selection.loaded() == old(self).data_selection.loaded().insert(res@),
            old(self).git.prefetch_in_flight ==> {
                &&& final(self).data_selection.active_dataset == old(self).data_selection.active_dataset
                &&& !final(self).git.prefetch_in_flight
            },
            !old(self).git.prefetch_in_flight ==> {
                &&& strings(old(self).data_selection.active_dataset@).contains(res@)
                    ==> final(self).data_selection.active_dataset == old(self).data_selection.active_dataset
                &&& !strings(old(self).data_selection.active_dataset@).contains(res@) ==> strings(
                    final(self).data_selection.active_dataset@,
                ) == strings(old(self).data_selection.active_dataset@).push(res@)
                &&& !final(self).git.prefetch_in_flight
            },
            !final(self).loading.is_loading,
            final(self).loading.progress is None,
            final(self).loading.current_label is None,
            final(self).loading.last_error == old(self).loading.last_error,
            final(self).git.commits == old(self).git.commits,
            final(self).git.selected_commit_idx == old(self).git.selected_commit_idx,
            final(self).git.last_prefetch_idx == old(self).git.last_prefetch_idx,
            final(self).git.last_error == old(self).git.last_error,
            final(self).git.repo_path == old(self).git.repo_path,
            final(self).data_selection.mode == old(self).data_selection.mode,
            final(self).data_selection.active_formats == old(self).data_selection.active_formats,
    {
        let key = match self.loading.current_label.take() {
            Some(l) => l,
            None => String::new(),
        };
        let was_prefetch = self.git.prefetch_in_flight;
        if !was_prefetch && !contains_string(&self.data_selection.active_dataset, &key) {
            self.data_selection.active_dataset.push(key.clone());
            proof {
                let ghost before = strings(old(self).data_selection.active_dataset@);
                assert(strings(self.data_selection.active_dataset@) =~= before.push(key@));
            }
        }
        proof {
            assert(strictly_sorted(strings(self.data_selection.sorted_dataset_keys@)));
        }
        insert_sorted_key(&mut self.data_selection.sorted_dataset_keys, key.clone());
        if was_prefetch {
            self.git.prefetch_in_flight = false;
        }
        self.finish_load();
        key
    }

    /// A solver file finished loading (its data is kept beside the state).
    pub fn on_solver_loaded(&mut self)
        ensures
            final(self).loading.picked_file == old(self).loading.picked_file,
            keeps_view_settings(*old(self), *final(self)),
            !final(self).loading.is_loading,
            final(self).loading.progress is None,
            final(self).loading.current_label is None,
            final(self).loading.last_error == old(self).loading.last_error,
            final(self).git == old(self).git,
            final(self).data_selection == old(self).data_selection,
    {
        self.loading.current_label = None;
        self.finish_load();
    }

    /// The commit history finished loading: it replaces the commit list
    /// and clears the selection and prefetch state.
    pub fn on_git_loaded(&mut self, commits: Vec<CommitInfo>)
        ensures
            final(self).loading.picked_file == old(self).loading.picked_file,
            keeps_view_settings(*old(self), *final(self)),
            final(self).git.commits@ == commits@,
            final(self).git.selected_commit_idx is None,
            final(self).git.last_prefetch_idx is None,
            !final(self).git.prefetch_in_flight,
            final(self).git.repo_path == old(self).git.repo_path,
            final(self).git.last_error == old(self).git.last_error,
            !final(self).loading.is_loading,
            final(self).loading.progress is None,
            final(self).loading.current_label is None,
            final(self).loading.last_error == old(self).loading.last_error,
            final(self).data_selection == old(self).data_selection,
    {
        self.git.commits = commits;
        self.git.selected_commit_idx = None;
        self.git.last_prefetch_idx = None;
        self.git.prefetch_in_flight = false;
        self.loading.current_label = None;
        self.finish_load();
    }

    /// The running load failed with `message`.
    ///
    /// A failed prefetch is silent (it only ends the prefetch); a git
    /// failure is reported on the git panel; anything else on the data
    /// sources banner as "Error loading file: ...".
    pub fn on_load_failed(&mut self, kind: LoadErrorKind, message: String)
        ensures
            final(self).loading.picked_file == old(self).loading.picked_file,
            keeps_view_settings(*old(self), *final(self)),
            !final(self).loading.is_loading,
            final(self).loading.progress is None,
            final(self).loading.current_label is None,
            final(self).data_selection == old(self).data_selection,
            final(self).git.commits == old(self).git.commits,
            final(self).git.selected_commit_idx == old(self).git.selected_commit_idx,
            final(self).git.last_prefetch_idx == old(self).git.last_prefetch_idx,
            final(self).git.repo_path == old(self).git.repo_path,
            !final(self).git.prefetch_in_flight,
            old(self).git.prefetch_in_flight ==> final(self).git.last_error == old(self).git.last_error
                && final(self).loading.last_error == old(self).loading.last_error,
            !old(self).git.prefetch_in_flight && kind == LoadErrorKind::Git ==> final(self).git.last_error
                == Some(message) && final(self).loading.last_error == old(self).loading.last_error,
            !old(self).git.prefetch_in_flight && kind == LoadErrorKind::Other ==> final(self).git.last_error
                == old(self).git.last_error && (final(self).loading.last_error matches Some(m) && m@
                == "Error loading file: "@ + message@),
    {
        if self.git.prefetch_in_flight {
            self.git.prefetch_in_flight = false;
        } else {
            match kind {
                LoadErrorKind::Git => {
                    self.git.last_error = Some(message);
                },
                LoadErrorKind::Other => {
                    self.loading.last_error = Some(concat("Error loading file: ", message.as_str()));
                },
            }
        }
        self.loading.current_label = None;
        self.finish_load();
    }

    /// The running load ended without a result; the dashboard recovers
    /// silently.
    pub fn on_load_disconnected(&mut self)
        ensures
            final(self).loading.picked_file == old(self).loading.picked_file,
            keeps_view_settings(*old(self), *final(self)),
            !final(self).loading.is_loading,
            final(self).loading.progress is None,
            final(self).loading.current_label is None,
            final(self).loading.last_error == old(self).loading.last_error,
            final(self).git == old(self).git,
            final(self).data_selection == old(self).data_selection,
    {
        self.loading.current_label = None;
        self.finish_load();
    }
}

} // verus!
