//! Line-timeseries settings and the left-to-right order of its datasets.
use vstd::prelude::*;
use crate::data::git::{file_stem, path_file_stem, CommitInfo};
use crate::data::state::{clone_strings, contains_string, strings, Dashboard};
use crate::text::{contains_str, contains_sub, lex_lt, lowercase, str_lt, to_lowercase};
use crate::state_url::{data_format_name, data_format_to_str, metric_name, metric_to_str};
use crate::types::{DataFormat, MetricType};

verus! {

/// How one dataset's values are reduced to a single point.
#[derive(PartialEq, Eq, Structural, Hash, Clone, Copy, Debug)]
pub enum AggregationKind {
    Mean,
    Median,
    GeometricMean,
}

/// The short label of an aggregation, used in axis titles.
pub open spec fn aggregation_label(k: AggregationKind) -> Seq<char> {
    match k {
        AggregationKind::Mean => "mean"@,
        AggregationKind::Median => "median"@,
        AggregationKind::GeometricMean => "geomean"@,
    }
}

impl AggregationKind {
    pub fn as_label(&self) -> (res: &'static str)
        ensures
            res@ == aggregation_label(*self),
    {
        match self {
            AggregationKind::Mean => "mean",
            AggregationKind::Median => "median",
            AggregationKind::GeometricMean => "geomean",
        }
    }
}


/// The y-axis title of the line timeseries: `<aggregation> (<metric>, <format>)`.
pub open spec fn timeseries_y_title(k: AggregationKind, m: MetricType, f: DataFormat) -> Seq<char> {
    aggregation_label(k) + " ("@ + metric_name(m) + ", "@ + data_format_name(f) + ")"@
}

/// The y-axis title of the line timeseries for an aggregation of a metric
/// over one format.
pub fn timeseries_y_label(aggregation: AggregationKind, metric: MetricType, format: DataFormat) -> (res: String)
    ensures
        res@ == timeseries_y_title(aggregation, metric, format),
{
    let mut out = String::from_str(aggregation.as_label());
    out.append(" (");
    out.append(metric_to_str(metric));
    out.append(", ");
    out.append(data_format_to_str(format));
    out.append(")");
    out
}

/// The file stem of a commit's bench file, empty when there is none.
pub open spec fn bench_stem(c: CommitInfo) -> Seq<char> {
    match c.bench_file {
        Some(p) => match path_file_stem(p@) {
            Some(stem) => stem,
            None => Seq::empty(),
        },
        None => Seq::empty(),
    }
}

/// A dataset key (lowercased) refers to commit `c`: it contains the
/// commit's bench-file stem, short SHA or SHA, compared case-insensitively.
pub open spec fn key_names_commit(key_lower: Seq<char>, c: CommitInfo) -> bool {
    ||| (bench_stem(c).len() > 0 && contains_sub(key_lower, lowercase(bench_stem(c))))
    ||| contains_sub(key_lower, lowercase(c.short_sha@))
    ||| contains_sub(key_lower, lowercase(c.sha@))
}

/// Index of the first commit, from `i` on, that the key refers to.
pub open spec fn first_named_commit(commits: Seq<CommitInfo>, key_lower: Seq<char>, i: int) -> Option<int>
    decreases commits.len() - i,
{
    if i < 0 || i >= commits.len() {
        None
    } else if key_names_commit(key_lower, commits[i]) {
        Some(i)
    } else {
        first_named_commit(commits, key_lower, i + 1)
    }
}

/// Where a dataset key sits in the commit list: the index of the first
/// commit it refers to, `usize::MAX` when it refers to none.
pub open spec fn key_rank(commits: Seq<CommitInfo>, key: Seq<char>) -> int {
    match first_named_commit(commits, lowercase(key), 0) {
        Some(i) => i,
        None => usize::MAX as int,
    }
}

/// `(r1, k1)` comes before `(r2, k2)`: by rank, then by key.
pub open spec fn rank_key_lt(r1: int, k1: Seq<char>, r2: int, k2: Seq<char>) -> bool {
    r1 < r2 || (r1 == r2 && lex_lt(k1, k2))
}

/// `keys` run from the highest `(rank, key)` to the lowest.
pub open spec fn descending_by_rank(commits: Seq<CommitInfo>, keys: Seq<Seq<char>>) -> bool {
    forall|i: int, j: int|
        0 <= i < j < keys.len() ==> !rank_key_lt(
            key_rank(commits, #[trigger] keys[i]),
            keys[i],
            key_rank(commits, #[trigger] keys[j]),
            keys[j],
        )
}

/// The keys of `sorted` that are in `active`, in the order of `sorted`.
pub open spec fn active_in_order(sorted: Seq<Seq<char>>, active: Seq<Seq<char>>) -> Seq<Seq<char>> {
    sorted.filter(|k: Seq<char>| active.contains(k))
}

proof fn lemma_rank_key_order(r1: int, k1: Seq<char>, r2: int, k2: Seq<char>, r3: int, k3: Seq<char>)
    ensures
        !rank_key_lt(r1, k1, r1, k1),
        (r1 == r2 && k1 == k2) || rank_key_lt(r1, k1, r2, k2) || rank_key_lt(r2, k2, r1, k1),
        rank_key_lt(r1, k1, r2, k2) && rank_key_lt(r2, k2, r3, k3) ==> rank_key_lt(r1, k1, r3, k3),
        rank_key_lt(r1, k1, r2, k2) ==> !rank_key_lt(r2, k2, r1, k1),
{
    crate::text::lemma_lex_lt_irreflexive(k1);
    crate::text::lemma_lex_lt_total(k1, k2);
    crate::text::lemma_lex_lt_asymmetric(k1, k2);
    if lex_lt(k1, k2) && lex_lt(k2, k3) {
        crate::text::lemma_lex_lt_transitive(k1, k2, k3);
    }
}

/// The rank of a dataset key among the commits.
fn commit_rank(commits: &Vec<CommitInfo>, key: &str) -> (res: usize)
    ensures
        res == key_rank(commits@, key@),
{
    let key_lower = to_lowercase(key);
    let mut i: usize = 0;
    while i < commits.len()
        invariant
            i <= commits@.len(),
            key_lower@ == lowercase(key@),
            first_named_commit(commits@, lowercase(key@), 0) == first_named_commit(
                commits@,
                lowercase(key@),
                i as int,
            ),
        decreases commits@.len() - i,
    {
        let c = &commits[i];
        let stem: String = match &c.bench_file {
            Some(p) => match file_stem(p.as_str()) {
                Some(s) => s,
                None => String::new(),
            },
            None => String::new(),
        };
        assert(stem@ == bench_stem(commits@[i as int]));
        let by_stem = stem.unicode_len() > 0 && contains_str(key_lower.as_str(), to_lowercase(stem.as_str()).as_str());
        if by_stem || contains_str(key_lower.as_str(), to_lowercase(c.short_sha.as_str()).as_str())
            || contains_str(key_lower.as_str(), to_lowercase(c.sha.as_str()).as_str()) {
            return i;
        }
        i = i + 1;
    }
    usize::MAX
}

/// Insert `(rank, key)` into the descending lists `ranks`/`keys` after
/// every pair that is not below it.
fn insert_descending(
    commits: &Vec<CommitInfo>,
    ranks: &mut Vec<usize>,
    keys: &mut Vec<String>,
    rank: usize,
    key: String,
)
    requires
        old(ranks)@.len() == old(keys)@.len(),
        forall|i: int| 0 <= i < old(keys)@.len() ==> old(ranks)@[i] == key_rank(commits@, #[trigger] old(keys)@[i]@),
        descending_by_rank(commits@, strings(old(keys)@)),
        rank == key_rank(commits@, key@),
    ensures
        final(ranks)@.len() == final(keys)@.len(),
        forall|i: int| 0 <= i < final(keys)@.len() ==> final(ranks)@[i] == key_rank(commits@, #[trigger] final(keys)@[i]@),
        descending_by_rank(commits@, strings(final(keys)@)),
        exists|p: int| 0 <= p <= old(keys)@.len() && strings(final(keys)@) == strings(old(keys)@).insert(p, key@),
{
    let ghost old_keys = strings(keys@);
    let mut p: usize = 0;
    while p < keys.len() && !(ranks[p] < rank || (ranks[p] == rank && str_lt(keys[p].as_str(), key.as_str())))
        invariant
            ranks@.len() == keys@.len(),
            keys@ == old(keys)@,
            ranks@ == old(ranks)@,
            p <= keys@.len(),
            forall|i: int| 0 <= i < keys@.len() ==> ranks@[i] == key_rank(commits@, #[trigger] keys@[i]@),
            forall|q: int| 0 <= q < p ==> !rank_key_lt(ranks@[q] as int, #[trigger] keys@[q]@, rank as int, key@),
        decreases keys@.len() - p,
    {
        p = p + 1;
    }
    proof {
        let ks = strings(keys@);
        assert forall|j: int| p <= j < ks.len() implies !rank_key_lt(
            rank as int,
            key@,
            key_rank(commits@, #[trigger] ks[j]),
            ks[j],
        ) by {
            assert(ks[j] == keys@[j]@);
            assert(ks[p as int] == keys@[p as int]@);
            assert(rank_key_lt(ranks@[p as int] as int, keys@[p as int]@, rank as int, key@));
            lemma_rank_key_order(
                key_rank(commits@, ks[j]), ks[j],
                ranks@[p as int] as int, keys@[p as int]@,
                rank as int, key@,
            );
            lemma_rank_key_order(
                rank as int, key@,
                key_rank(commits@, ks[j]), ks[j],
                ranks@[p as int] as int, keys@[p as int]@,
            );
            if j > p {
                assert(!rank_key_lt(
                    key_rank(commits@, ks[p as int]), ks[p as int],
                    key_rank(commits@, ks[j]), ks[j],
                ));
            }
        }
    }
    let ghost kv = key@;
    ranks.insert(p, rank);
    keys.insert(p, key);
    proof {
        let ks = strings(keys@);
        assert(ks =~= old_keys.insert(p as int, kv));
        assert forall|i: int, j: int| 0 <= i < j < ks.len() implies !rank_key_lt(
            key_rank(commits@, #[trigger] ks[i]),
            ks[i],
            key_rank(commits@, #[trigger] ks[j]),
            ks[j],
        ) by {
            if j < p {
                assert(ks[i] == old_keys[i] && ks[j] == old_keys[j]);
            } else if j == p {
                assert(ks[i] == old(keys)@[i]@);
            } else if i == p {
                assert(ks[j] == old_keys[j - 1]);
            } else if i < p {
                assert(ks[i] == old_keys[i] && ks[j] == old_keys[j - 1]);
            } else {
                assert(ks[i] == old_keys[i - 1] && ks[j] == old_keys[j - 1]);
            }
        }
        assert forall|i: int| 0 <= i < keys@.len() implies ranks@[i] == key_rank(commits@, #[trigger] keys@[i]@) by {
            if i < p {
            } else if i == p {
            } else {
                assert(keys@[i] == old(keys)@[i - 1]);
            }
        }
    }
}

/// Left-to-right order of the active datasets in the line timeseries.
///
/// With commits loaded, each key is placed by the first commit it refers
/// to (bench-file stem, short SHA or SHA, case-insensitively): the walk is
/// newest-first, so keys of older commits come first, keys that refer to
/// no commit first of all, and keys of one commit in descending order.
/// Without commits, the active keys in the order of the sorted dataset
/// keys.
pub fn timeseries_ordered_keys(app: &Dashboard) -> (res: Vec<String>)
    ensures
        app.git.commits@.len() == 0 ==> strings(res@) == active_in_order(
            strings(app.data_selection.sorted_dataset_keys@),
            strings(app.data_selection.active_dataset@),
        ),
        app.git.commits@.len() > 0 ==> {
            &&& strings(res@).to_multiset() == strings(app.data_selection.active_dataset@).to_multiset()
            &&& descending_by_rank(app.git.commits@, strings(res@))
        },
{
    let active = &app.data_selection.active_dataset;
    if app.git.commits.len() == 0 {
        let sorted = &app.data_selection.sorted_dataset_keys;
        let mut out: Vec<String> = Vec::new();
        let mut i: usize = 0;
        proof {
            reveal(Seq::filter);
            assert(strings(sorted@.take(0)) =~= Seq::<Seq<char>>::empty());
            assert(strings(out@) =~= Seq::<Seq<char>>::empty());
        }
        while i < sorted.len()
            invariant
                i <= sorted@.len(),
                strings(out@) == active_in_order(strings(sorted@.take(i as int)), strings(active@)),
            decreases sorted@.len() - i,
        {
            proof {
                reveal(Seq::filter);
                assert(strings(sorted@.take(i + 1)).drop_last() =~= strings(sorted@.take(i as int)));
                assert(strings(sorted@.take(i + 1)).last() == sorted@[i as int]@);
            }
            if contains_string(active, &sorted[i]) {
                out.push(sorted[i].clone());
                proof {
                    assert(strings(out@) =~= strings(out@.drop_last()).push(out@.last()@));
                }
            }
            i = i + 1;
        }
        assert(sorted@.take(sorted@.len() as int) =~= sorted@);
        return out;
    }
    let commits = &app.git.commits;
    let mut ranks: Vec<usize> = Vec::new();
    let mut keys: Vec<String> = Vec::new();
    let mut i: usize = 0;
    assert(strings(keys@) =~= strings(active@.take(0)));
    while i < active.len()
        invariant
            i <= active@.len(),
            commits@ == app.git.commits@,
            ranks@.len() == keys@.len(),
            forall|k: int| 0 <= k < keys@.len() ==> ranks@[k] == key_rank(commits@, #[trigger] keys@[k]@),
            descending_by_rank(commits@, strings(keys@)),
            strings(keys@).to_multiset() == strings(active@.take(i as int)).to_multiset(),
        decreases active@.len() - i,
    {
        let key = active[i].clone();
        let rank = commit_rank(commits, key.as_str());
        let ghost before = strings(keys@);
        insert_descending(commits, &mut ranks, &mut keys, rank, key);
        proof {
            let p = choose|p: int| 0 <= p <= before.len() && strings(keys@) == before.insert(p, active@[i as int]@);
            vstd::seq_lib::to_multiset_insert(before, p, active@[i as int]@);
            assert(strings(active@.take(i + 1)) =~= strings(active@.take(i as int)).push(active@[i as int]@));
            vstd::seq_lib::to_multiset_build(strings(active@.take(i as int)), active@[i as int]@);
        }
        i = i + 1;
    }
    assert(active@.take(active@.len() as int) =~= active@);
    keys
}
} // verus!

verus! {

/// The axis-title label of each aggregation is its lower-case short name:
/// `mean`, `median`, and `geomean` for the geometric mean.
pub proof fn aggregation_labels_name_the_aggregation()
    ensures
        aggregation_label(AggregationKind::Mean) == "mean"@,
        aggregation_label(AggregationKind::Median) == "median"@,
        aggregation_label(AggregationKind::GeometricMean) == "geomean"@,
{
}

} // verus!
