//! Synthetic-data generator: everything that decides what is written,
//! apart from the random draws and the file output.
pub mod commit_series;
pub mod storage;

use vstd::prelude::*;
use crate::text::{lex_le, lex_lt, str_lt, lemma_lex_lt_irreflexive, lemma_lex_lt_total,
    lemma_lex_lt_asymmetric, lemma_lex_lt_transitive};
use self::commit_series::CommitMeta;
use crate::text::{concat, take_chars, usize_to_decimal, decimal};

verus! {

// ---------------------------------------------------------------------------
// Manifest upsert
// ---------------------------------------------------------------------------

/// The entries of `s` whose SHA is `k`, in their order in `s`.
pub open spec fn with_sha(s: Seq<CommitMeta>, k: Seq<char>) -> Seq<CommitMeta>
    decreases s.len(),
{
    if s.len() == 0 {
        Seq::empty()
    } else if s.last().sha@ == k {
        with_sha(s.drop_last(), k).push(s.last())
    } else {
        with_sha(s.drop_last(), k)
    }
}

/// Index of the first entry of `s` at or after `i` whose SHA is `k`.
pub open spec fn first_with_sha_from(s: Seq<CommitMeta>, k: Seq<char>, i: int) -> Option<int>
    decreases s.len() - i,
{
    if i < 0 || i >= s.len() {
        None
    } else if s[i].sha@ == k {
        Some(i)
    } else {
        first_with_sha_from(s, k, i + 1)
    }
}

/// `s` with `e` in place of the first entry that has `e`'s SHA, or with `e`
/// appended when there is none.
pub open spec fn upserted(s: Seq<CommitMeta>, e: CommitMeta) -> Seq<CommitMeta> {
    match first_with_sha_from(s, e.sha@, 0) {
        Some(i) => s.update(i, e),
        None => s.push(e),
    }
}

/// Entries ordered by SHA, ascending.
pub open spec fn sorted_by_sha(s: Seq<CommitMeta>) -> bool {
    forall|i: int, j: int| 0 <= i < j < s.len() ==> lex_le(#[trigger] s[i].sha@, #[trigger] s[j].sha@)
}

/// `r` is what writing `e` into the manifest `m` gives: `upserted(m, e)`
/// sorted stably by SHA (every SHA keeps its entries in their order).
pub open spec fn is_upsert_result(m: Seq<CommitMeta>, e: CommitMeta, r: Seq<CommitMeta>) -> bool {
    &&& sorted_by_sha(r)
    &&& forall|k: Seq<char>| #[trigger] with_sha(r, k) == with_sha(upserted(m, e), k)
}

/// No SHA occurs twice.
pub open spec fn unique_shas(s: Seq<CommitMeta>) -> bool {
    forall|k: Seq<char>| (#[trigger] with_sha(s, k)).len() <= 1
}

proof fn lemma_with_sha_add(a: Seq<CommitMeta>, b: Seq<CommitMeta>, k: Seq<char>)
    ensures
        with_sha(a + b, k) == with_sha(a, k) + with_sha(b, k),
    decreases b.len(),
{
    if b.len() == 0 {
        assert(a + b =~= a);
        assert(with_sha(a, k) + with_sha(b, k) =~= with_sha(a, k));
    } else {
        assert((a + b).drop_last() =~= a + b.drop_last());
        lemma_with_sha_add(a, b.drop_last(), k);
        if b.last().sha@ == k {
            assert(with_sha(a, k) + with_sha(b.drop_last(), k).push(b.last()) =~= (with_sha(a, k)
                + with_sha(b.drop_last(), k)).push(b.last()));
        }
    }
}

proof fn lemma_with_sha_single(x: CommitMeta, k: Seq<char>)
    ensures
        with_sha(seq![x], k) == (if x.sha@ == k { seq![x] } else { Seq::<CommitMeta>::empty() }),
{
    assert(seq![x].drop_last() =~= Seq::<CommitMeta>::empty());
    assert(with_sha(seq![x].drop_last(), k) == Seq::<CommitMeta>::empty());
    assert(seq![x].last() == x);
    if x.sha@ == k {
        assert(Seq::<CommitMeta>::empty().push(x) =~= seq![x]);
    }
}

proof fn lemma_with_sha_member(s: Seq<CommitMeta>, k: Seq<char>, j: int)
    requires
        0 <= j < with_sha(s, k).len(),
    ensures
        with_sha(s, k)[j].sha@ == k,
        s.contains(with_sha(s, k)[j]),
    decreases s.len(),
{
    if s.len() > 0 {
        let r = with_sha(s.drop_last(), k);
        if s.last().sha@ == k && j == r.len() {
            assert(s[s.len() - 1] == s.last());
        } else {
            lemma_with_sha_member(s.drop_last(), k, j);
            let w = with_sha(s, k)[j];
            let idx = choose|t: int| 0 <= t < s.drop_last().len() && s.drop_last()[t] == w;
            assert(s[idx] == w);
        }
    }
}

proof fn lemma_with_sha_absent(s: Seq<CommitMeta>, k: Seq<char>)
    requires
        forall|i: int| 0 <= i < s.len() ==> (#[trigger] s[i]).sha@ != k,
    ensures
        with_sha(s, k) == Seq::<CommitMeta>::empty(),
    decreases s.len(),
{
    if s.len() > 0 {
        assert(s.last() == s[s.len() - 1]);
        lemma_with_sha_absent(s.drop_last(), k);
    }
}

proof fn lemma_with_sha_present(s: Seq<CommitMeta>, i: int)
    requires
        0 <= i < s.len(),
    ensures
        with_sha(s, s[i].sha@).len() > 0,
{
    let k = s[i].sha@;
    assert(s =~= s.take(i) + (seq![s[i]] + s.skip(i + 1)));
    lemma_with_sha_add(s.take(i), seq![s[i]] + s.skip(i + 1), k);
    lemma_with_sha_add(seq![s[i]], s.skip(i + 1), k);
    lemma_with_sha_single(s[i], k);
}

proof fn lemma_first_with_sha(s: Seq<CommitMeta>, k: Seq<char>, i: int)
    requires
        0 <= i <= s.len(),
        forall|j: int| 0 <= j < i ==> (#[trigger] s[j]).sha@ != k,
    ensures
        first_with_sha_from(s, k, i) matches Some(p) ==> 0 <= p < s.len() && s[p].sha@ == k
            && forall|j: int| 0 <= j < p ==> (#[trigger] s[j]).sha@ != k,
        first_with_sha_from(s, k, i) is None ==> forall|j: int| 0 <= j < s.len() ==> (#[trigger] s[j]).sha@ != k,
    decreases s.len() - i,
{
    if i < s.len() && s[i].sha@ != k {
        lemma_first_with_sha(s, k, i + 1);
    }
}

/// How upserting changes the entries of one SHA: the first entry with
/// `e`'s SHA is replaced by `e` (or `e` appended); other SHAs are untouched.
proof fn lemma_with_sha_upserted(s: Seq<CommitMeta>, e: CommitMeta, k: Seq<char>)
    ensures
        with_sha(upserted(s, e), k) == (if k != e.sha@ {
            with_sha(s, k)
        } else if with_sha(s, k).len() > 0 {
            with_sha(s, k).update(0, e)
        } else {
            seq![e]
        }),
{
    lemma_first_with_sha(s, e.sha@, 0);
    match first_with_sha_from(s, e.sha@, 0) {
        Some(p) => {
            let pre = s.take(p);
            let post = s.skip(p + 1);
            assert(s =~= pre + (seq![s[p]] + post));
            assert(s.update(p, e) =~= pre + (seq![e] + post));
            lemma_with_sha_add(pre, seq![s[p]] + post, k);
            lemma_with_sha_add(seq![s[p]], post, k);
            lemma_with_sha_add(pre, seq![e] + post, k);
            lemma_with_sha_add(seq![e], post, k);
            lemma_with_sha_single(s[p], k);
            lemma_with_sha_single(e, k);
            if k == e.sha@ {
                assert forall|j: int| 0 <= j < pre.len() implies (#[trigger] pre[j]).sha@ != k by {
                    assert(pre[j] == s[j]);
                }
                lemma_with_sha_absent(pre, k);
                assert(seq![e] + with_sha(post, k) =~= (seq![s[p]] + with_sha(post, k)).update(0, e));
                assert(with_sha(pre, k) + (seq![s[p]] + with_sha(post, k)) =~= seq![s[p]] + with_sha(post, k));
                assert(with_sha(pre, k) + (seq![e] + with_sha(post, k)) =~= seq![e] + with_sha(post, k));
            } else {
                assert(with_sha(pre, k) + (Seq::<CommitMeta>::empty() + with_sha(post, k)) =~= with_sha(pre, k) + with_sha(post, k));
            }
        },
        None => {
            assert(s.push(e) =~= s + seq![e]);
            lemma_with_sha_add(s, seq![e], k);
            lemma_with_sha_single(e, k);
            if k == e.sha@ {
                lemma_with_sha_absent(s, k);
                assert(Seq::<CommitMeta>::empty() + seq![e] =~= seq![e]);
            } else {
                assert(with_sha(s, k) + Seq::<CommitMeta>::empty() =~= with_sha(s, k));
            }
        },
    }
}

/// Position of the first entry whose SHA is `sha`.
fn find_sha(entries: &Vec<CommitMeta>, sha: &String) -> (res: Option<usize>)
    ensures
        res matches Some(p) ==> first_with_sha_from(entries@, sha@, 0) == Some(p as int) && p
            < entries@.len(),
        res is None ==> first_with_sha_from(entries@, sha@, 0) is None,
{
    let mut i: usize = 0;
    while i < entries.len()
        invariant
            i <= entries@.len(),
            first_with_sha_from(entries@, sha@, 0) == first_with_sha_from(entries@, sha@, i as int),
        decreases entries@.len() - i,
    {
        if entries[i].sha == *sha {
            return Some(i);
        }
        i = i + 1;
    }
    None
}

/// Inserts `x` into the SHA-sorted `out` after every entry whose SHA is not
/// greater than `x`'s.
fn insert_sorted(out: &mut Vec<CommitMeta>, x: CommitMeta)
    requires
        sorted_by_sha(old(out)@),
    ensures
        sorted_by_sha(final(out)@),
        forall|k: Seq<char>| #[trigger] with_sha(final(out)@, k) == (if k == x.sha@ {
            with_sha(old(out)@, k).push(x)
        } else {
            with_sha(old(out)@, k)
        }),
{
    let ghost s = out@;
    let mut p: usize = 0;
    while p < out.len() && !str_lt(x.sha.as_str(), out[p].sha.as_str())
        invariant
            out@ == s,
            sorted_by_sha(s),
            p <= s.len(),
            forall|q: int| 0 <= q < p ==> lex_le((#[trigger] s[q]).sha@, x.sha@),
        decreases s.len() - p,
    {
        proof {
            lemma_lex_lt_total(x.sha@, s[p as int].sha@);
        }
        p = p + 1;
    }
    proof {
        // Every entry from `p` on sorts strictly after `x`.
        assert forall|q: int| p <= q < s.len() implies lex_lt(x.sha@, (#[trigger] s[q]).sha@) by {
            if q > p {
                assert(lex_le(s[p as int].sha@, s[q].sha@));
                if s[p as int].sha@ != s[q].sha@ {
                    lemma_lex_lt_transitive(x.sha@, s[p as int].sha@, s[q].sha@);
                }
            }
        }
    }
    out.insert(p, x);
    proof {
        let r = out@;
        let pre = s.take(p as int);
        let post = s.skip(p as int);
        assert(s =~= pre + post);
        assert(r =~= pre + (seq![x] + post));
        assert forall|i: int, j: int| 0 <= i < j < r.len() implies lex_le(
            #[trigger] r[i].sha@,
            #[trigger] r[j].sha@,
        ) by {
            if j < p {
                assert(r[i] == s[i] && r[j] == s[j]);
            } else if j == p {
                assert(r[i] == s[i]);
            } else if i == p {
                assert(r[j] == s[j - 1]);
                assert(lex_lt(x.sha@, s[j - 1].sha@));
            } else if i < p {
                assert(r[i] == s[i] && r[j] == s[j - 1]);
            } else {
                assert(r[i] == s[i - 1] && r[j] == s[j - 1]);
            }
        }
        assert forall|k: Seq<char>| #[trigger] with_sha(r, k) == (if k == x.sha@ {
            with_sha(s, k).push(x)
        } else {
            with_sha(s, k)
        }) by {
            lemma_with_sha_add(pre, post, k);
            lemma_with_sha_add(pre, seq![x] + post, k);
            lemma_with_sha_add(seq![x], post, k);
            lemma_with_sha_single(x, k);
            if k == x.sha@ {
                assert forall|q: int| 0 <= q < post.len() implies (#[trigger] post[q]).sha@ != k by {
                    assert(post[q] == s[p + q]);
                    assert(lex_lt(x.sha@, s[p + q].sha@));
                    lemma_lex_lt_irreflexive(x.sha@);
                }
                lemma_with_sha_absent(post, k);
                assert(with_sha(pre, k) + (seq![x] + Seq::<CommitMeta>::empty()) =~= (with_sha(pre, k)
                    + Seq::<CommitMeta>::empty()).push(x));
            } else {
                assert(with_sha(pre, k) + (Seq::<CommitMeta>::empty() + with_sha(post, k))
                    =~= with_sha(pre, k) + with_sha(post, k));
            }
        }
    }
}

/// Writes `new_entry` into a `commits.json` manifest: replaces the first
/// entry with the same SHA (or appends), then sorts by SHA ascending so the
/// file is byte-identical whatever order the commits were recorded in.
pub fn upsert_manifest(entries: Vec<CommitMeta>, new_entry: CommitMeta) -> (res: Vec<CommitMeta>)
    ensures
        is_upsert_result(entries@, new_entry, res@),
{
    let ghost e = new_entry;
    let mut entries = entries;
    let ghost m = entries@;
    match find_sha(&entries, &new_entry.sha) {
        Some(p) => {
            entries.set(p, new_entry);
        },
        None => {
            entries.push(new_entry);
        },
    }
    let ghost u = entries@;
    assert(u == upserted(m, e));
    let mut out: Vec<CommitMeta> = Vec::new();
    let ghost mut i: int = 0;
    assert(u.skip(0) =~= u);
    assert(with_sha(out@, e.sha@) == with_sha(u.take(0), e.sha@)) by {
        assert(u.take(0) =~= out@);
    }
    assert forall|k: Seq<char>| #[trigger] with_sha(out@, k) == with_sha(u.take(0), k) by {
        assert(u.take(0) =~= out@);
    }
    while entries.len() > 0
        invariant
            0 <= i <= u.len(),
            entries@ == u.skip(i),
            sorted_by_sha(out@),
            forall|k: Seq<char>| #[trigger] with_sha(out@, k) == with_sha(u.take(i), k),
        decreases entries@.len(),
    {
        let x = entries.remove(0);
        proof {
            assert(x == u[i]);
            assert(u.take(i + 1).drop_last() =~= u.take(i));
            assert(u.take(i + 1).last() == u[i]);
            assert(entries@ =~= u.skip(i + 1));
        }
        insert_sorted(&mut out, x);
        proof {
            i = i + 1;
        }
    }
    assert(u.take(u.len() as int) =~= u);
    out
}


proof fn lemma_with_sha_drop_last(s: Seq<CommitMeta>, k: Seq<char>)
    requires
        s.len() > 0,
    ensures
        with_sha(s.drop_last(), k) == (if k == s.last().sha@ {
            with_sha(s, k).drop_last()
        } else {
            with_sha(s, k)
        }),
{
    if k == s.last().sha@ {
        assert(with_sha(s.drop_last(), k).push(s.last()).drop_last() =~= with_sha(s.drop_last(), k));
    }
}

/// A SHA-sorted sequence is determined by its per-SHA subsequences.
proof fn lemma_sorted_determined(s1: Seq<CommitMeta>, s2: Seq<CommitMeta>)
    requires
        sorted_by_sha(s1),
        sorted_by_sha(s2),
        forall|k: Seq<char>| #[trigger] with_sha(s1, k) == with_sha(s2, k),
    ensures
        s1 == s2,
    decreases s1.len() + s2.len(),
{
    if s1.len() == 0 && s2.len() == 0 {
        assert(s1 =~= s2);
    } else if s1.len() == 0 {
        lemma_with_sha_present(s2, s2.len() - 1);
        assert(with_sha(s1, s2[s2.len() - 1].sha@) == Seq::<CommitMeta>::empty());
    } else if s2.len() == 0 {
        lemma_with_sha_present(s1, s1.len() - 1);
        assert(with_sha(s2, s1[s1.len() - 1].sha@) == Seq::<CommitMeta>::empty());
    } else {
        let k1 = s1.last().sha@;
        let k2 = s2.last().sha@;
        // The last SHA of each sequence occurs in the other, so both are maximal.
        assert(with_sha(s2, k2).last() == s2.last());
        lemma_with_sha_member(s1, k2, with_sha(s1, k2).len() - 1);
        let i2 = choose|t: int| 0 <= t < s1.len() && s1[t] == with_sha(s1, k2).last();
        assert(with_sha(s1, k1).last() == s1.last());
        lemma_with_sha_member(s2, k1, with_sha(s2, k1).len() - 1);
        let i1 = choose|t: int| 0 <= t < s2.len() && s2[t] == with_sha(s2, k1).last();
        if i2 < s1.len() - 1 {
            assert(lex_le(s1[i2].sha@, s1[s1.len() - 1].sha@));
        }
        if i1 < s2.len() - 1 {
            assert(lex_le(s2[i1].sha@, s2[s2.len() - 1].sha@));
        }
        if k1 != k2 {
            lemma_lex_lt_asymmetric(k1, k2);
        }
        assert(k1 == k2);
        assert(s1.last() == s2.last());
        assert forall|k: Seq<char>| #[trigger] with_sha(s1.drop_last(), k) == with_sha(s2.drop_last(), k) by {
            lemma_with_sha_drop_last(s1, k);
            lemma_with_sha_drop_last(s2, k);
        }
        lemma_sorted_determined(s1.drop_last(), s2.drop_last());
        assert(s1 =~= s1.drop_last().push(s1.last()));
        assert(s2 =~= s2.drop_last().push(s2.last()));
    }
}

/// Recording two commits with different SHAs gives the same manifest in
/// either order.
pub proof fn upsert_order_independent(
    m: Seq<CommitMeta>,
    a: CommitMeta,
    b: CommitMeta,
    ra: Seq<CommitMeta>,
    rab: Seq<CommitMeta>,
    rb: Seq<CommitMeta>,
    rba: Seq<CommitMeta>,
)
    requires
        a.sha@ != b.sha@,
        is_upsert_result(m, a, ra),
        is_upsert_result(ra, b, rab),
        is_upsert_result(m, b, rb),
        is_upsert_result(rb, a, rba),
    ensures
        rab == rba,
{
    assert forall|k: Seq<char>| #[trigger] with_sha(rab, k) == with_sha(rba, k) by {
        lemma_with_sha_upserted(m, a, k);
        lemma_with_sha_upserted(m, b, k);
        lemma_with_sha_upserted(ra, b, k);
        lemma_with_sha_upserted(rb, a, k);
        assert(with_sha(ra, k) == with_sha(upserted(m, a), k));
        assert(with_sha(rb, k) == with_sha(upserted(m, b), k));
    }
    lemma_sorted_determined(rab, rba);
}

/// Upserting into a manifest with distinct SHAs keeps them distinct, and
/// the written entry is the only one with its SHA.
pub proof fn upsert_keeps_one_entry_per_sha(m: Seq<CommitMeta>, e: CommitMeta, r: Seq<CommitMeta>)
    requires
        unique_shas(m),
        is_upsert_result(m, e, r),
    ensures
        unique_shas(r),
        with_sha(r, e.sha@) == seq![e],
{
    assert forall|k: Seq<char>| (#[trigger] with_sha(r, k)).len() <= 1 by {
        lemma_with_sha_upserted(m, e, k);
        assert(with_sha(m, k).len() <= 1);
    }
    lemma_with_sha_upserted(m, e, e.sha@);
    assert(with_sha(m, e.sha@).len() <= 1);
    if with_sha(m, e.sha@).len() > 0 {
        assert(with_sha(m, e.sha@).update(0, e) =~= seq![e]);
    }
}

/// Upserting keeps every entry whose SHA differs from the written one.
pub proof fn upsert_keeps_other_shas(m: Seq<CommitMeta>, e: CommitMeta, r: Seq<CommitMeta>, k: Seq<char>)
    requires
        is_upsert_result(m, e, r),
        k != e.sha@,
    ensures
        with_sha(r, k) == with_sha(m, k),
{
    lemma_with_sha_upserted(m, e, k);
}


// ---------------------------------------------------------------------------
// Single-commit mode
// ---------------------------------------------------------------------------

/// File name of a commit's benchmark file.
pub open spec fn bench_file_name_for(short_sha: Seq<char>) -> Seq<char> {
    "bench_"@ + short_sha + ".json"@
}

/// `bench_<short_sha>.json`.
pub fn bench_file_name(short_sha: &str) -> (res: String)
    ensures
        res@ == bench_file_name_for(short_sha@),
{
    let mut s = concat("bench_", short_sha);
    s.append(".json");
    s
}

/// The error for a `--sha` shorter than seven characters.
pub open spec fn short_sha_error(sha: Seq<char>) -> Seq<char> {
    "--sha must be at least 7 characters, got "@ + decimal(sha.len()) + " (\""@ + sha + "\")"@
}

/// The 7-character short SHA of `sha`, or the error when it is shorter.
pub fn short_sha_of(sha: &str) -> (res: Result<String, String>)
    ensures
        sha@.len() < 7 ==> (res matches Err(msg) && msg@ == short_sha_error(sha@)),
        sha@.len() >= 7 ==> (res matches Ok(s) && s@ == sha@.take(7)),
{
    let n = sha.unicode_len();
    if n < 7 {
        let mut msg = concat("--sha must be at least 7 characters, got ", usize_to_decimal(n).as_str());
        msg.append(" (\"");
        msg.append(sha);
        msg.append("\")");
        Err(msg)
    } else {
        Ok(take_chars(sha, 7))
    }
}

/// The manifest entry written in single-commit mode: the given SHA, author,
/// date and message (with their defaults) and the commit's bench file.
pub fn single_commit_entry(
    sha: &str,
    author: Option<String>,
    date: Option<String>,
    message: Option<String>,
) -> (res: Result<CommitMeta, String>)
    ensures
        sha@.len() < 7 ==> (res matches Err(msg) && msg@ == short_sha_error(sha@)),
        sha@.len() >= 7 ==> (res matches Ok(e) && {
            &&& e.sha@ == sha@
            &&& e.file@ == bench_file_name_for(sha@.take(7))
            &&& e.author@ == (match author {
                Some(a) => a@,
                None => "Unknown <unknown@example.com>"@,
            })
            &&& e.date@ == (match date {
                Some(d) => d@,
                None => "1970-01-01T00:00:00Z"@,
            })
            &&& e.message@ == (match message {
                Some(m) => m@,
                None => Seq::<char>::empty(),
            })
        }),
{
    let short = match short_sha_of(sha) {
        Ok(s) => s,
        Err(msg) => {
            return Err(msg);
        },
    };
    let file = bench_file_name(short.as_str());
    let author = match author {
        Some(a) => a,
        None => String::from_str("Unknown <unknown@example.com>"),
    };
    let date = match date {
        Some(d) => d,
        None => String::from_str("1970-01-01T00:00:00Z"),
    };
    let message = match message {
        Some(m) => m,
        None => String::new(),
    };
    Ok(CommitMeta { sha: String::from_str(sha), author, date, message, file })
}

} // verus!
