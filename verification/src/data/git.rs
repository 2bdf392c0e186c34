//! Commit bookkeeping for commit-aware benchmarking: the commit rows shown
//! in the git panel, the `commits.json` manifest, and how a commit's
//! benchmark file is located.
//!
//! Walking the repository and touching the file system happen around this
//! module; it decides what to look for and what the rows hold.
use vstd::prelude::*;
use crate::text::{concat, has_prefix, i64_to_decimal, signed_decimal, str_eq, starts_with, take_chars, trim, trimmed};
use vstd::utf8::{decode_utf8, valid_utf8};

verus! {

/// Report walk progress every this many commits (the walk is fast per
/// commit, so the cadence is coarser than that of streaming JSON loads).
pub const GIT_PROGRESS_BATCH_SIZE: usize = 32;

/// Metadata for one commit in the repository.
#[derive(Debug, Clone, PartialEq, Eq)]
pub struct CommitInfo {
    /// Full hex SHA.
    pub sha: String,
    /// 7-character prefix of `sha` (all of it when shorter).
    pub short_sha: String,
    /// Author in the form "Name <email>".
    pub author: String,
    /// Commit date as an RFC 3339 string (UTC).
    pub date: String,
    /// Subject line (first line of the commit message).
    pub message: String,
    /// Path of the benchmark JSON file for this commit, if discovered.
    pub bench_file: Option<String>,
}

/// Persistent git state held on the dashboard.
pub struct GitState {
    /// Repository root currently loaded, if any.
    pub repo_path: Option<String>,
    /// Commits loaded from the repo (newest first, as returned by the walk).
    pub commits: Vec<CommitInfo>,
    /// Index into `commits` of the user-selected row.
    pub selected_commit_idx: Option<usize>,
    /// Last error message surfaced to the UI, if any.
    pub last_error: Option<String>,
    /// Selected-commit index at which the last neighbour prefetch fired.
    pub last_prefetch_idx: Option<usize>,
    /// Whether a background neighbour load is in flight.
    pub prefetch_in_flight: bool,
}

impl GitState {
    /// No repository loaded.
    pub fn new() -> (res: GitState)
        ensures
            res.repo_path is None,
            res.commits@.len() == 0,
            res.selected_commit_idx is None,
            res.last_error is None,
            res.last_prefetch_idx is None,
            !res.prefetch_in_flight,
    {
        GitState {
            repo_path: None,
            commits: Vec::new(),
            selected_commit_idx: None,
            last_error: None,
            last_prefetch_idx: None,
            prefetch_in_flight: false,
        }
    }
}

/// One entry of the `commits.json` manifest produced by the generator.
#[derive(Debug, Clone)]
pub struct ManifestEntry {
    pub sha: String,
    pub author: String,
    pub date: String,
    pub message: String,
    /// File name relative to the `benchmarks/` directory.
    pub file: String,
}

/// The first `min(7, len)` characters of a SHA.
pub open spec fn short_sha_spec(sha: Seq<char>) -> Seq<char> {
    sha.take(if sha.len() >= 7 { 7 } else { sha.len() as int })
}

/// The commit row for a manifest entry.
pub open spec fn commit_of_entry(c: CommitInfo, e: ManifestEntry) -> bool {
    &&& c.sha@ == e.sha@
    &&& c.short_sha@ == short_sha_spec(e.sha@)
    &&& c.author@ == e.author@
    &&& c.date@ == e.date@
    &&& c.message@ == e.message@
    &&& c.bench_file matches Some(p) && p@ == "benchmarks/"@ + e.file@
}

/// Convert manifest entries into the commit rows shown in the git panel.
///
/// `bench_file` is `benchmarks/<entry.file>`: a path relative to the
/// repository root, or a relative URL on the web build.
pub fn manifest_to_commits(entries: Vec<ManifestEntry>) -> (res: Vec<CommitInfo>)
    ensures
        res@.len() == entries@.len(),
        forall|i: int| 0 <= i < entries@.len() ==> commit_of_entry(#[trigger] res@[i], entries@[i]),
{
    let mut out: Vec<CommitInfo> = Vec::new();
    let mut i: usize = 0;
    while i < entries.len()
        invariant
            i <= entries@.len(),
            out@.len() == i,
            forall|j: int| 0 <= j < i ==> commit_of_entry(#[trigger] out@[j], entries@[j]),
        decreases entries@.len() - i,
    {
        let entry = &entries[i];
        let short_sha = take_chars(entry.sha.as_str(), 7);
        let bench_file = Some(concat("benchmarks/", entry.file.as_str()));
        out.push(
            CommitInfo {
                sha: entry.sha.clone(),
                short_sha,
                author: entry.author.clone(),
                date: entry.date.clone(),
                message: entry.message.clone(),
                bench_file,
            },
        );
        i = i + 1;
    }
    out
}

// ---------------------------------------------------------------------------
// Paths
// ---------------------------------------------------------------------------

/// `dir.join(name)` for '/'-separated paths: an absolute `name` replaces
/// `dir`; otherwise one separator is put between them.
pub open spec fn join_path_spec(dir: Seq<char>, name: Seq<char>) -> Seq<char> {
    if name.len() > 0 && name[0] == '/' {
        name
    } else if dir.len() == 0 {
        name
    } else if dir.last() == '/' {
        dir + name
    } else {
        dir + "/"@ + name
    }
}

/// Joins a path component onto a directory path.
pub fn join_path(dir: &str, name: &str) -> (res: String)
    ensures
        res@ == join_path_spec(dir@, name@),
{
    let nlen = name.unicode_len();
    let dlen = dir.unicode_len();
    if nlen > 0 && name.get_char(0) == '/' {
        String::from_str(name)
    } else if dlen == 0 {
        String::from_str(name)
    } else if dir.get_char(dlen - 1) == '/' {
        concat(dir, name)
    } else {
        let mut s = concat(dir, "/");
        s.append(name);
        s
    }
}

// ---------------------------------------------------------------------------
// Manifest lookup
// ---------------------------------------------------------------------------

spec fn pairs_to_map(s: Seq<(String, String)>) -> Map<Seq<char>, Seq<char>>
    decreases s.len(),
{
    if s.len() == 0 {
        Map::empty()
    } else {
        pairs_to_map(s.drop_last()).insert(s.last().0@, s.last().1@)
    }
}

spec fn keys_unique(s: Seq<(String, String)>) -> bool {
    forall|i: int, j: int| 0 <= i < j < s.len() ==> (#[trigger] s[i]).0@ != (#[trigger] s[j]).0@
}

proof fn lemma_pairs_to_map_at(s: Seq<(String, String)>, i: int)
    requires
        keys_unique(s),
        0 <= i < s.len(),
    ensures
        pairs_to_map(s).contains_key(s[i].0@),
        pairs_to_map(s)[s[i].0@] == s[i].1@,
    decreases s.len(),
{
    if i < s.len() - 1 {
        assert(s.drop_last()[i] == s[i]);
        assert(keys_unique(s.drop_last()));
        lemma_pairs_to_map_at(s.drop_last(), i);
        assert(s[i].0@ != s[s.len() - 1].0@);
    }
}

proof fn lemma_pairs_to_map_dom(s: Seq<(String, String)>, k: Seq<char>)
    ensures
        pairs_to_map(s).contains_key(k) <==> exists|i: int| 0 <= i < s.len() && (#[trigger] s[i]).0@ == k,
    decreases s.len(),
{
    if s.len() > 0 {
        lemma_pairs_to_map_dom(s.drop_last(), k);
        if exists|i: int| 0 <= i < s.len() && (#[trigger] s[i]).0@ == k {
            let i = choose|i: int| 0 <= i < s.len() && (#[trigger] s[i]).0@ == k;
            if i < s.len() - 1 {
                assert(s.drop_last()[i] == s[i]);
            }
        }
        if exists|i: int| 0 <= i < s.drop_last().len() && (#[trigger] s.drop_last()[i]).0@ == k {
            let i = choose|i: int| 0 <= i < s.drop_last().len() && (#[trigger] s.drop_last()[i]).0@ == k;
            assert(s[i] == s.drop_last()[i]);
        }
    }
}

proof fn lemma_pairs_to_map_update(s: Seq<(String, String)>, i: int, p: (String, String))
    requires
        keys_unique(s),
        0 <= i < s.len(),
        p.0@ == s[i].0@,
    ensures
        keys_unique(s.update(i, p)),
        pairs_to_map(s.update(i, p)) == pairs_to_map(s).insert(p.0@, p.1@),
    decreases s.len(),
{
    let u = s.update(i, p);
    assert forall|a: int, b: int| 0 <= a < b < u.len() implies (#[trigger] u[a]).0@ != (#[trigger] u[b]).0@ by {
        assert(s[a].0@ != s[b].0@);
    }
    if i == s.len() - 1 {
        assert(u.drop_last() =~= s.drop_last());
        assert(pairs_to_map(u) =~= pairs_to_map(s).insert(p.0@, p.1@));
    } else {
        assert(u.drop_last() =~= s.drop_last().update(i, p));
        assert(keys_unique(s.drop_last()));
        lemma_pairs_to_map_update(s.drop_last(), i, p);
        assert(s[i].0@ != s.last().0@);
        assert(u.last() == s.last());
        assert(pairs_to_map(u) =~= pairs_to_map(s).insert(p.0@, p.1@));
    }
}

/// Manifest SHA (possibly abbreviated) → benchmark file path.
pub struct ManifestLookup {
    entries: Vec<(String, String)>,
}

impl View for ManifestLookup {
    type V = Map<Seq<char>, Seq<char>>;

    closed spec fn view(&self) -> Map<Seq<char>, Seq<char>> {
        pairs_to_map(self.entries@)
    }
}

impl ManifestLookup {
    #[verifier::type_invariant]
    spec fn inv(self) -> bool {
        keys_unique(self.entries@)
    }

    /// The empty lookup.
    pub fn new() -> (res: ManifestLookup)
        ensures
            res@ == Map::<Seq<char>, Seq<char>>::empty(),
    {
        ManifestLookup { entries: Vec::new() }
    }

    /// Number of keys.
    pub fn len(&self) -> (res: usize)
        ensures
            res == self@.len(),
    {
        proof {
            use_type_invariant(self);
            self.lemma_len();
        }
        self.entries.len()
    }

    proof fn lemma_len(&self)
        requires
            keys_unique(self.entries@),
        ensures
            self@.len() == self.entries@.len(),
            self@.dom().finite(),
        decreases self.entries@.len(),
    {
        lemma_len_pairs(self.entries@);
    }

    fn find(&self, key: &str) -> (res: Option<usize>)
        ensures
            res matches Some(i) ==> i < self.entries@.len() && self.entries@[i as int].0@ == key@,
            res is None ==> forall|i: int| 0 <= i < self.entries@.len() ==> (#[trigger] self.entries@[i]).0@ != key@,
    {
        let mut i: usize = 0;
        while i < self.entries.len()
            invariant
                i <= self.entries@.len(),
                forall|j: int| 0 <= j < i ==> (#[trigger] self.entries@[j]).0@ != key@,
            decreases self.entries@.len() - i,
        {
            if str_eq(self.entries[i].0.as_str(), key) {
                return Some(i);
            }
            i = i + 1;
        }
        None
    }

    /// Maps `key` to `path`, replacing an earlier path for the same key.
    pub fn insert(&mut self, key: String, path: String)
        ensures
            final(self)@ == old(self)@.insert(key@, path@),
    {
        proof {
            use_type_invariant(&*self);
        }
        let mut entries = Vec::new();
        std::mem::swap(&mut entries, &mut self.entries);
        let ghost s = entries@;
        match self.find_in(&entries, key.as_str()) {
            Some(i) => {
                proof {
                    lemma_pairs_to_map_update(s, i as int, (key, path));
                }
                entries.set(i, (key, path));
            },
            None => {
                proof {
                    assert(entries@.push((key, path)).drop_last() =~= s);
                    assert forall|a: int, b: int| 0 <= a < b < s.len() + 1 implies (#[trigger] s.push((key, path))[a]).0@
                        != (#[trigger] s.push((key, path))[b]).0@ by {
                        if b < s.len() {
                            assert(s[a].0@ != s[b].0@);
                        } else {
                            assert(s.push((key, path))[a] == s[a]);
                        }
                    }
                }
                entries.push((key, path));
            },
        }
        self.entries = entries;
    }

    fn find_in(&self, entries: &Vec<(String, String)>, key: &str) -> (res: Option<usize>)
        ensures
            res matches Some(i) ==> i < entries@.len() && entries@[i as int].0@ == key@,
            res is None ==> forall|i: int| 0 <= i < entries@.len() ==> (#[trigger] entries@[i]).0@ != key@,
    {
        let mut i: usize = 0;
        while i < entries.len()
            invariant
                i <= entries@.len(),
                forall|j: int| 0 <= j < i ==> (#[trigger] entries@[j]).0@ != key@,
            decreases entries@.len() - i,
        {
            if str_eq(entries[i].0.as_str(), key) {
                return Some(i);
            }
            i = i + 1;
        }
        None
    }

    /// The path stored for exactly `key`.
    pub fn get(&self, key: &str) -> (res: Option<String>)
        ensures
            res.deep_view() == (if self@.contains_key(key@) { Some(self@[key@]) } else { None }),
    {
        proof {
            use_type_invariant(self);
            lemma_pairs_to_map_dom(self.entries@, key@);
        }
        match self.find(key) {
            Some(i) => {
                proof {
                    lemma_pairs_to_map_at(self.entries@, i as int);
                }
                Some(self.entries[i].1.clone())
            },
            None => None,
        }
    }
}

proof fn lemma_len_pairs(s: Seq<(String, String)>)
    requires
        keys_unique(s),
    ensures
        pairs_to_map(s).len() == s.len(),
        pairs_to_map(s).dom().finite(),
    decreases s.len(),
{
    if s.len() > 0 {
        assert(keys_unique(s.drop_last()));
        lemma_len_pairs(s.drop_last());
        lemma_pairs_to_map_dom(s.drop_last(), s.last().0@);
        if pairs_to_map(s.drop_last()).contains_key(s.last().0@) {
            let i = choose|i: int| 0 <= i < s.drop_last().len() && (#[trigger] s.drop_last()[i]).0@ == s.last().0@;
            assert(s[i] == s.drop_last()[i]);
        }
    }
}

/// Key `k` of the manifest is a non-empty prefix of `sha`.
pub open spec fn key_is_sha_prefix(k: Seq<char>, sha: Seq<char>) -> bool {
    k.len() > 0 && has_prefix(sha, k)
}

/// Match a full git SHA to a manifest entry whose key is the SHA itself or
/// a (usually 7-char) prefix of it.
///
/// An exact key wins; otherwise any entry whose non-empty key is a prefix
/// of `git_sha` may be returned (the lookup has no preferred order).
pub fn match_manifest(git_sha: &str, manifest: &ManifestLookup) -> (res: Option<String>)
    ensures
        manifest@.contains_key(git_sha@) ==> res.deep_view() == Some(manifest@[git_sha@]),
        !manifest@.contains_key(git_sha@) ==> (res matches Some(p) ==> exists|k: Seq<char>|
            manifest@.contains_key(k) && key_is_sha_prefix(k, git_sha@) && manifest@[k] == p@),
        res is None <==> (!manifest@.contains_key(git_sha@) && forall|k: Seq<char>|
            manifest@.contains_key(k) ==> !key_is_sha_prefix(k, git_sha@)),
{
    if let Some(p) = manifest.get(git_sha) {
        return Some(p);
    }
    proof {
        use_type_invariant(manifest);
    }
    let entries = &manifest.entries;
    let mut i: usize = 0;
    while i < entries.len()
        invariant
            entries@ == manifest.entries@,
            keys_unique(entries@),
            !manifest@.contains_key(git_sha@),
            i <= entries@.len(),
            forall|j: int| 0 <= j < i ==> !key_is_sha_prefix((#[trigger] entries@[j]).0@, git_sha@),
        decreases entries@.len() - i,
    {
        let key = entries[i].0.as_str();
        if key.unicode_len() > 0 && starts_with(git_sha, key) {
            proof {
                lemma_pairs_to_map_at(entries@, i as int);
                assert(manifest@.contains_key(entries@[i as int].0@));
                assert(key_is_sha_prefix(entries@[i as int].0@, git_sha@));
            }
            return Some(entries[i].1.clone());
        }
        i = i + 1;
    }
    proof {
        assert forall|k: Seq<char>| manifest@.contains_key(k) implies !key_is_sha_prefix(k, git_sha@) by {
            lemma_pairs_to_map_dom(entries@, k);
            let j = choose|j: int| 0 <= j < entries@.len() && (#[trigger] entries@[j]).0@ == k;
        }
    }
    None
}

/// The lookup built from manifest entries: each SHA maps to its file under
/// `bench_dir`; a later entry for the same SHA wins.
pub open spec fn lookup_of_entries(bench_dir: Seq<char>, entries: Seq<ManifestEntry>) -> Map<Seq<char>, Seq<char>>
    decreases entries.len(),
{
    if entries.len() == 0 {
        Map::empty()
    } else {
        lookup_of_entries(bench_dir, entries.drop_last()).insert(
            entries.last().sha@,
            join_path_spec(bench_dir, entries.last().file@),
        )
    }
}

/// Build the SHA → bench-file lookup from a parsed manifest.
pub fn build_manifest_lookup(bench_dir: &str, entries: &Vec<ManifestEntry>) -> (res: ManifestLookup)
    ensures
        res@ == lookup_of_entries(bench_dir@, entries@),
{
    let mut lookup = ManifestLookup::new();
    let mut i: usize = 0;
    while i < entries.len()
        invariant
            i <= entries@.len(),
            lookup@ == lookup_of_entries(bench_dir@, entries@.take(i as int)),
        decreases entries@.len() - i,
    {
        proof {
            assert(entries@.take(i + 1).drop_last() =~= entries@.take(i as int));
            assert(entries@.take(i + 1).last() == entries@[i as int]);
        }
        let path = join_path(bench_dir, entries[i].file.as_str());
        lookup.insert(entries[i].sha.clone(), path);
        i = i + 1;
    }
    assert(entries@.take(entries@.len() as int) =~= entries@);
    lookup
}

/// The conventional bench file of a commit: `<bench_dir>/bench_<short_sha>.json`.
pub open spec fn convention_bench_path(bench_dir: Seq<char>, short_sha: Seq<char>) -> Seq<char> {
    join_path_spec(bench_dir, "bench_"@ + short_sha + ".json"@)
}

/// The files that may hold a commit's benchmark, most preferred first: the
/// manifest's file (when the manifest matches the SHA), then the
/// conventional `bench_<short_sha>.json`. The first that exists on disk is
/// the commit's bench file.
pub fn bench_file_candidates(
    sha: &str,
    short_sha: &str,
    bench_dir: &str,
    manifest: Option<&ManifestLookup>,
) -> (res: Vec<String>)
    ensures
        res@.len() >= 1,
        res@.last()@ == convention_bench_path(bench_dir@, short_sha@),
        manifest is None ==> res@.len() == 1,
        manifest matches Some(m) ==> {
            &&& (res@.len() == 1 <==> (!m@.contains_key(sha@) && forall|k: Seq<char>|
                m@.contains_key(k) ==> !key_is_sha_prefix(k, sha@)))
            &&& res@.len() <= 2
            &&& res@.len() == 2 && m@.contains_key(sha@) ==> res@[0]@ == m@[sha@]
            &&& res@.len() == 2 && !m@.contains_key(sha@) ==> exists|k: Seq<char>|
                m@.contains_key(k) && key_is_sha_prefix(k, sha@) && m@[k] == res@[0]@
        },
{
    let mut out: Vec<String> = Vec::new();
    if let Some(lookup) = manifest {
        if let Some(path) = match_manifest(sha, lookup) {
            out.push(path);
        }
    }
    let mut name = concat("bench_", short_sha);
    name.append(".json");
    out.push(join_path(bench_dir, name.as_str()));
    out
}

/// The commit's bench file: the first of `candidates` (as given by
/// [`bench_file_candidates`]) that `on_disk` marks as present, `None` when
/// none is.
pub fn resolve_bench_file(candidates: &Vec<String>, on_disk: &Vec<bool>) -> (res: Option<String>)
    requires
        candidates@.len() == on_disk@.len(),
    ensures
        res is None <==> forall|i: int| 0 <= i < on_disk@.len() ==> !on_disk@[i],
        res matches Some(p) ==> exists|i: int|
            0 <= i < candidates@.len() && on_disk@[i] && p@ == candidates@[i]@ && forall|j: int|
                0 <= j < i ==> !on_disk@[j],
{
    let mut i: usize = 0;
    while i < candidates.len()
        invariant
            candidates@.len() == on_disk@.len(),
            i <= candidates@.len(),
            forall|j: int| 0 <= j < i ==> !on_disk@[j],
        decreases candidates@.len() - i,
    {
        if on_disk[i] {
            return Some(candidates[i].clone());
        }
        i = i + 1;
    }
    None
}

/// What `Path::file_stem` gives for the path `p`: its file name without
/// the extension, `None` when the path has no file name.
pub uninterp spec fn path_file_stem(p: Seq<char>) -> Option<Seq<char>>;

/// A bare file name: not empty, not `.` or `..`, and without `/`, `\` or
/// `:`, so that on every platform it is one plain path component.
pub open spec fn bare_file_name(s: Seq<char>) -> bool {
    &&& s.len() > 0
    &&& s != "."@
    &&& s != ".."@
    &&& forall|i: int| 0 <= i < s.len() ==> s[i] != '/' && s[i] != '\\' && s[i] != ':'
}

/// Index of the last `.` in `s`, -1 when there is none.
pub open spec fn last_dot(s: Seq<char>) -> int
    decreases s.len(),
{
    if s.len() == 0 {
        -1
    } else if s.last() == '.' {
        s.len() - 1
    } else {
        last_dot(s.drop_last())
    }
}

/// The stem of a file name: the whole name when it has no `.` or its only
/// `.` is the first character, otherwise the part before the last `.`.
pub open spec fn name_stem(s: Seq<char>) -> Seq<char> {
    if last_dot(s) <= 0 {
        s
    } else {
        s.take(last_dot(s))
    }
}

/// `std::path::Path::file_stem` of a path held as a string. Its result is
/// named by [`path_file_stem`], a function of the path alone. Of a bare
/// file name it is the stem as std's documentation defines it; how a path
/// with separators or a prefix is split into components is not restated.
#[verifier::external_body]
pub(crate) fn file_stem(path: &str) -> (res: Option<String>)
    ensures
        res.deep_view() == path_file_stem(path@),
        bare_file_name(path@) ==> res.deep_view() == Some(name_stem(path@)),
{
    match std::path::Path::new(path).file_stem() {
        Some(stem) => Some(stem.to_string_lossy().into_owned()),
        None => None,
    }
}

/// What `String::from_utf8_lossy` gives for `bytes`: the text, each
/// invalid UTF-8 sequence replaced by U+FFFD.
pub uninterp spec fn utf8_lossy(bytes: Seq<u8>) -> Seq<char>;

/// `String::from_utf8_lossy`. Its result is named by [`utf8_lossy`]; of
/// the replacement of invalid sequences nothing is stated, valid UTF-8 is
/// decoded as it stands.
#[verifier::external_body]
pub(crate) fn decode_utf8_lossy(bytes: &[u8]) -> (res: String)
    ensures
        res@ == utf8_lossy(bytes@),
        valid_utf8(bytes@) ==> res@ == decode_utf8(bytes@),
{
    String::from_utf8_lossy(bytes).into_owned()
}

/// Index of the first newline byte in `bytes`, its length when there is none.
pub open spec fn first_line_end(bytes: Seq<u8>) -> int
    decreases bytes.len(),
{
    if bytes.len() == 0 {
        0
    } else if bytes[0] == 10u8 {
        0
    } else {
        1 + first_line_end(bytes.drop_first())
    }
}

proof fn lemma_first_line_end(bytes: Seq<u8>, i: int)
    requires
        0 <= i <= bytes.len(),
        forall|j: int| 0 <= j < i ==> bytes[j] != 10u8,
    ensures
        first_line_end(bytes) == i + first_line_end(bytes.skip(i)),
    decreases i,
{
    if i > 0 {
        lemma_first_line_end(bytes.drop_first(), i - 1);
        assert(bytes.drop_first().skip(i - 1) =~= bytes.skip(i));
    } else {
        assert(bytes.skip(0) =~= bytes);
    }
}

/// The subject of a raw commit message: its first line, decoded leniently
/// and trimmed.
pub open spec fn subject_of(raw: Seq<u8>) -> Seq<char> {
    trimmed(utf8_lossy(raw.take(first_line_end(raw))))
}

/// Extract the first line of a raw commit message.
pub fn subject_line(raw: &[u8]) -> (res: String)
    ensures
        res@ == subject_of(raw@),
{
    let mut end: usize = 0;
    while end < raw.len() && raw[end] != 10u8
        invariant
            end <= raw@.len(),
            forall|j: int| 0 <= j < end ==> raw@[j] != 10u8,
        decreases raw@.len() - end,
    {
        end = end + 1;
    }
    proof {
        lemma_first_line_end(raw@, end as int);
        if end < raw@.len() {
            assert(raw@.skip(end as int)[0] == 10u8);
        } else {
            assert(raw@.skip(end as int).len() == 0);
        }
    }
    let mut line: Vec<u8> = Vec::new();
    let mut i: usize = 0;
    while i < end
        invariant
            end <= raw@.len(),
            i <= end,
            line@ == raw@.take(i as int),
        decreases end - i,
    {
        line.push(raw[i]);
        i = i + 1;
        assert(line@ =~= raw@.take(i as int));
    }
    let text = decode_utf8_lossy(line.as_slice());
    trim(text.as_str())
}

/// What chrono gives for the UTC instant `secs` seconds after the Unix
/// epoch, written as RFC 3339 with whole seconds and a `Z` suffix; `None`
/// when the instant is out of chrono's range.
pub uninterp spec fn utc_rfc3339(secs: int) -> Option<Seq<char>>;

/// `chrono::DateTime::from_timestamp` followed by `to_rfc3339_opts` with
/// whole seconds and `Z`. Its result is named by [`utc_rfc3339`]; nothing
/// of the calendar is restated.
#[verifier::external_body]
fn rfc3339_of_timestamp(secs: i64) -> (res: Option<String>)
    ensures
        res.deep_view() == utc_rfc3339(secs as int),
{
    match chrono::DateTime::from_timestamp(secs, 0) {
        Some(dt) => Some(dt.to_rfc3339_opts(chrono::SecondsFormat::Secs, true)),
        None => None,
    }
}

/// The date text of a commit time: RFC 3339 in UTC, `unix:<secs>` when
/// chrono cannot represent the instant.
pub open spec fn git_time_text(secs: int) -> Seq<char> {
    match utc_rfc3339(secs) {
        Some(t) => t,
        None => "unix:"@ + signed_decimal(secs),
    }
}

/// Format a commit time (seconds since the Unix epoch) as RFC 3339 UTC,
/// independent of the commit's recorded time-zone offset.
pub fn format_git_time(secs: i64) -> (res: String)
    ensures
        res@ == git_time_text(secs as int),
{
    match rfc3339_of_timestamp(secs) {
        Some(t) => t,
        None => {
            let digits = i64_to_decimal(secs);
            concat("unix:", digits.as_str())
        },
    }
}

/// The row of a walked commit: full and 7-character SHA, author as
/// `Name <email>`, RFC 3339 date, subject line and bench file.
pub fn commit_info_from_walk(
    sha: String,
    author_name: &[u8],
    author_email: &[u8],
    secs: i64,
    message_raw: &[u8],
    bench_file: Option<String>,
) -> (res: CommitInfo)
    ensures
        res.sha@ == sha@,
        res.short_sha@ == short_sha_spec(sha@),
        res.author@ == utf8_lossy(author_name@) + " <"@ + utf8_lossy(author_email@) + ">"@,
        res.date@ == git_time_text(secs as int),
        res.message@ == subject_of(message_raw@),
        res.bench_file == bench_file,
{
    let name = decode_utf8_lossy(author_name);
    let email = decode_utf8_lossy(author_email);
    let mut author = concat(name.as_str(), " <");
    author.append(email.as_str());
    author.append(">");
    let short_sha = take_chars(sha.as_str(), 7);
    CommitInfo {
        sha,
        short_sha,
        author,
        date: format_git_time(secs),
        message: subject_line(message_raw),
        bench_file,
    }
}

} // verus!
