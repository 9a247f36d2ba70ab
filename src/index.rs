use vstd::prelude::*;
use nucleo_matcher::pattern::{AtomKind, CaseMatching, Normalization, Pattern};
use nucleo_matcher::{Config, Matcher, Utf32Str};
use crate::order::{lemma_lex_antisymmetric, lemma_lex_total, lemma_lex_transitive, lex_cmp, lex_le};
use crate::text::chars_of;

verus! {

/// A file of the index: its depot path and when it was last changed (seconds since the
/// epoch; 0 where not known).
#[derive(Debug, Clone)]
pub struct FileEntry {
    pub depot_path: String,
    pub mod_time: u64,
}

/// A file as a caller hands it in to be indexed.
#[derive(Debug, Clone)]
pub struct FileIndexEntry {
    pub depot_path: String,
    pub mod_time: u64,
}

/// An in-memory, append-only index of depot paths for searching.
pub struct FileIndex {
    files: Vec<FileEntry>,
}

/// How a query matches a path.
#[derive(Clone, Copy, Debug, PartialEq, Eq, Structural)]
pub enum SearchMode {
    Fuzzy,
    Exact,
}

impl SearchMode {
    /// The mode a caller names: `exact`, or fuzzy for any other name.
    pub fn from_name(name: &str) -> (r: SearchMode)
        ensures
            r == (if name@ == "exact"@ {
                SearchMode::Exact
            } else {
                SearchMode::Fuzzy
            }),
    {
        if crate::fields::same_text(name, "exact") {
            SearchMode::Exact
        } else {
            SearchMode::Fuzzy
        }
    }
}

impl FileIndexEntry {
    /// The index entry for this file.
    pub fn to_entry(self) -> (r: FileEntry)
        ensures
            r.depot_path == self.depot_path,
            r.mod_time == self.mod_time,
    {
        FileEntry { depot_path: self.depot_path, mod_time: self.mod_time }
    }
}

/// A path that matched a query, with its score.
#[derive(Debug, Clone)]
pub struct SearchResult {
    pub depot_path: String,
    pub score: u32,
    pub mod_time: u64,
}

/// What a [`SearchResult`] holds, as plain values.
pub struct SearchHit {
    pub path: Seq<char>,
    pub score: u32,
    pub mod_time: u64,
}

impl View for SearchResult {
    type V = SearchHit;

    open spec fn view(&self) -> SearchHit {
        SearchHit { path: self.depot_path@, score: self.score, mod_time: self.mod_time }
    }
}

pub open spec fn entries_view(v: Seq<FileEntry>) -> Seq<(Seq<char>, u64)> {
    v.map_values(|e: FileEntry| (e.depot_path@, e.mod_time))
}

pub open spec fn hits_view(v: Seq<SearchResult>) -> Seq<SearchHit> {
    v.map_values(|r: SearchResult| r@)
}

pub uninterp spec fn fuzzy_score(query: Seq<char>, path: Seq<char>) -> Option<u32>;

pub uninterp spec fn substring_score(query: Seq<char>, path: Seq<char>) -> Option<u32>;

/// Relies on nucleo-matcher's `Pattern::parse` (case ignored, smart normalization) and
/// `Pattern::score` with the default configuration: for each entry the score of its
/// path, or none where it does not match; a score depends on the query and path alone.
#[verifier::external_body]
fn fuzzy_scores(query: &str, entries: &Vec<FileEntry>) -> (r: Vec<Option<u32>>)
    ensures
        r@.len() == entries@.len(),
        forall|i: int| 0 <= i < r@.len() ==> r@[i] == fuzzy_score(query@, entries@[i].depot_path@),
{
    let mut matcher = Matcher::new(Config::DEFAULT);
    let pattern = Pattern::parse(query, CaseMatching::Ignore, Normalization::Smart);
    let mut buf = Vec::new();
    let mut out = Vec::with_capacity(entries.len());
    for e in entries.iter() {
        out.push(pattern.score(Utf32Str::new(&e.depot_path, &mut buf), &mut matcher));
    }
    out
}

/// Relies on nucleo-matcher's `Pattern::new` with `AtomKind::Substring` (case ignored,
/// smart normalization) and `Pattern::score` with the default configuration: for each
/// entry the score of its path, or none where the query is not a substring of it.
#[verifier::external_body]
fn substring_scores(query: &str, entries: &Vec<FileEntry>) -> (r: Vec<Option<u32>>)
    ensures
        r@.len() == entries@.len(),
        forall|i: int| 0 <= i < r@.len() ==> r@[i] == substring_score(query@, entries@[i].depot_path@),
{
    let mut matcher = Matcher::new(Config::DEFAULT);
    let pattern = Pattern::new(query, CaseMatching::Ignore, Normalization::Smart, AtomKind::Substring);
    let mut buf = Vec::new();
    let mut out = Vec::with_capacity(entries.len());
    for e in entries.iter() {
        out.push(pattern.score(Utf32Str::new(&e.depot_path, &mut buf), &mut matcher));
    }
    out
}

/// Relies on `SystemTime::now` measured from `UNIX_EPOCH`: whole seconds, 0 for a
/// clock set before the epoch.
#[verifier::external_body]
fn unix_now() -> u64 {
    std::time::SystemTime::now().duration_since(std::time::UNIX_EPOCH).map(|d| d.as_secs()).unwrap_or(0)
}

pub open spec fn mode_score(mode: SearchMode, query: Seq<char>, path: Seq<char>) -> Option<u32> {
    match mode {
        SearchMode::Fuzzy => fuzzy_score(query, path),
        SearchMode::Exact => substring_score(query, path),
    }
}

/// Seconds in a day.
pub const DAY_SECS: u64 = 86400;

/// Days within which a change counts as recent.
pub const RECENT_DAYS: u64 = 7;

/// A file changed (at a known time) at `now` or less than seven whole days before it is
/// recent.
pub open spec fn is_recent(mod_time: u64, now: u64) -> bool {
    mod_time > 0 && now >= mod_time && (now - mod_time) / (DAY_SECS as int) < RECENT_DAYS
}

/// A recent file's score is raised by half (rounded down, capped at `u32::MAX`).
pub open spec fn boosted(score: u32, mod_time: u64, now: u64) -> u32 {
    if is_recent(mod_time, now) {
        if score * 3 / 2 > u32::MAX {
            u32::MAX
        } else {
            (score * 3 / 2) as u32
        }
    } else {
        score
    }
}

/// The entries that match, in index order, each with its boosted score.
pub open spec fn matches_of(
    entries: Seq<(Seq<char>, u64)>,
    query: Seq<char>,
    mode: SearchMode,
    now: u64,
) -> Seq<SearchHit>
    decreases entries.len(),
{
    if entries.len() == 0 {
        Seq::empty()
    } else {
        let rest = matches_of(entries.drop_last(), query, mode, now);
        let (path, mod_time) = entries.last();
        match mode_score(mode, query, path) {
            Some(s) => rest.push(SearchHit { path, score: boosted(s, mod_time, now), mod_time }),
            None => rest,
        }
    }
}

/// `a` ranks no lower than `b`: a higher score, or the same score and an earlier path,
/// or the same score and path (the same file indexed twice) and a change no later.
pub open spec fn ranks_before(a: SearchHit, b: SearchHit) -> bool {
    a.score > b.score || (a.score == b.score && ((a.path != b.path && lex_le(a.path, b.path)) || (
    a.path == b.path && a.mod_time <= b.mod_time)))
}

pub open spec fn is_ranked(s: Seq<SearchHit>) -> bool {
    forall|i: int, j: int| 0 <= i < j < s.len() ==> ranks_before(#[trigger] s[i], #[trigger] s[j])
}

/// `r` is the first `max` of `all` once ranked.
pub open spec fn top_ranked(r: Seq<SearchHit>, all: Seq<SearchHit>, max: nat) -> bool {
    exists|s: Seq<SearchHit>|
        s.to_multiset() == all.to_multiset() && is_ranked(s) && r == s.take(
            if max < s.len() {
                max as int
            } else {
                s.len() as int
            },
        )
}

/// Ranking is a total order: any two hits compare, it is transitive, and two hits that
/// each rank no lower than the other are the same.
pub proof fn lemma_ranking_is_total(a: SearchHit, b: SearchHit, c: SearchHit)
    ensures
        ranks_before(a, b) || ranks_before(b, a),
        ranks_before(a, b) && ranks_before(b, c) ==> ranks_before(a, c),
        ranks_before(a, b) && ranks_before(b, a) ==> a == b,
{
    lemma_lex_total(a.path, b.path);
    if ranks_before(a, b) && ranks_before(b, c) && a.score == b.score && b.score == c.score {
        if a.path != b.path && b.path != c.path {
            lemma_lex_transitive(a.path, b.path, c.path);
            if a.path == c.path {
                lemma_lex_antisymmetric(a.path, b.path);
            }
        }
    }
    if ranks_before(a, b) && ranks_before(b, a) && a.path != b.path {
        lemma_lex_antisymmetric(a.path, b.path);
    }
}

/// Two ranked orders of the same hits are the same sequence.
pub proof fn lemma_ranked_unique(s1: Seq<SearchHit>, s2: Seq<SearchHit>)
    requires
        s1.to_multiset() == s2.to_multiset(),
        is_ranked(s1),
        is_ranked(s2),
    ensures
        s1 == s2,
    decreases s1.len(),
{
    s1.to_multiset_ensures();
    s2.to_multiset_ensures();
    assert(s1.len() == s2.len());
    if s1.len() == 0 {
        assert(s1 =~= s2);
    } else {
        let a = s1[0];
        let b = s2[0];
        assert(s1.contains(a));
        assert(s1.to_multiset().count(a) > 0);
        assert(s2.contains(a));
        assert(s2.contains(b));
        assert(s2.to_multiset().count(b) > 0);
        assert(s1.contains(b));
        let j = choose|j: int| 0 <= j < s2.len() && s2[j] == a;
        let i = choose|i: int| 0 <= i < s1.len() && s1[i] == b;
        assert(ranks_before(b, a)) by {
            if j > 0 {
                assert(ranks_before(s2[0], s2[j]));
            } else {
                lemma_ranking_is_total(a, a, a);
            }
        }
        assert(ranks_before(a, b)) by {
            if i > 0 {
                assert(ranks_before(s1[0], s1[i]));
            } else {
                lemma_ranking_is_total(b, b, b);
            }
        }
        lemma_ranking_is_total(a, b, a);
        let t1 = s1.drop_first();
        let t2 = s2.drop_first();
        assert(s1.remove(0) =~= t1);
        assert(s2.remove(0) =~= t2);
        t1.to_multiset_ensures();
        t2.to_multiset_ensures();
        assert(t1.to_multiset() =~= s1.to_multiset().remove(a));
        assert(t2.to_multiset() =~= s2.to_multiset().remove(b));
        assert forall|x: int, y: int| 0 <= x < y < t1.len() implies ranks_before(#[trigger] t1[x], #[trigger] t1[y]) by {
            assert(ranks_before(s1[x + 1], s1[y + 1]));
        }
        assert forall|x: int, y: int| 0 <= x < y < t2.len() implies ranks_before(#[trigger] t2[x], #[trigger] t2[y]) by {
            assert(ranks_before(s2[x + 1], s2[y + 1]));
        }
        lemma_ranked_unique(t1, t2);
        assert(s1 =~= seq![a] + t1);
        assert(s2 =~= seq![b] + t2);
    }
}

/// Raising the cap on results only adds results at the end: for the same hits, the
/// first `k1` ranked are the first of the first `k2` ranked, where `k1 <= k2`.
pub proof fn lemma_larger_cap_extends(r1: Seq<SearchHit>, r2: Seq<SearchHit>, all: Seq<SearchHit>, k1: nat, k2: nat)
    requires
        k1 <= k2,
        top_ranked(r1, all, k1),
        top_ranked(r2, all, k2),
    ensures
        r1.len() <= r2.len(),
        r1 == r2.take(r1.len() as int),
{
    let s1 = choose|s: Seq<SearchHit>|
        s.to_multiset() == all.to_multiset() && is_ranked(s) && r1 == s.take(
            if k1 < s.len() {
                k1 as int
            } else {
                s.len() as int
            },
        );
    let s2 = choose|s: Seq<SearchHit>|
        s.to_multiset() == all.to_multiset() && is_ranked(s) && r2 == s.take(
            if k2 < s.len() {
                k2 as int
            } else {
                s.len() as int
            },
        );
    lemma_ranked_unique(s1, s2);
    assert(r1 =~= r2.take(r1.len() as int));
}

/// Orders two results: the higher score first, then the path that comes first, then
/// the earlier change.
pub fn compare_results(a: &SearchResult, b: &SearchResult) -> (r: core::cmp::Ordering)
    ensures
        (r == core::cmp::Ordering::Less) == (ranks_before(a@, b@) && !ranks_before(b@, a@)),
        (r == core::cmp::Ordering::Equal) == (ranks_before(a@, b@) && ranks_before(b@, a@)),
        (r == core::cmp::Ordering::Greater) == !ranks_before(a@, b@),
{
    proof {
        lemma_ranking_is_total(a@, b@, b@);
    }
    if a.score > b.score {
        core::cmp::Ordering::Less
    } else if a.score < b.score {
        core::cmp::Ordering::Greater
    } else {
        let pa = chars_of(a.depot_path.as_str());
        let pb = chars_of(b.depot_path.as_str());
        match lex_cmp(&pa, &pb) {
            core::cmp::Ordering::Equal => if a.mod_time < b.mod_time {
                core::cmp::Ordering::Less
            } else if a.mod_time > b.mod_time {
                core::cmp::Ordering::Greater
            } else {
                core::cmp::Ordering::Equal
            },
            o => o,
        }
    }
}

/// Relies on `slice::sort_by`, a stable sort, with `compare_results`, a total preorder:
/// the results are left in an order that ranks them, and are the same results.
#[verifier::external_body]
fn sort_results(v: &mut Vec<SearchResult>)
    ensures
        hits_view(final(v)@).to_multiset() == hits_view(old(v)@).to_multiset(),
        is_ranked(hits_view(final(v)@)),
{
    v.sort_by(|a, b| compare_results(a, b))
}

impl FileIndex {
    pub closed spec fn view(&self) -> Seq<(Seq<char>, u64)> {
        entries_view(self.files@)
    }

    pub fn new() -> (r: Self)
        ensures
            r.view() == Seq::<(Seq<char>, u64)>::empty(),
    {
        let r = FileIndex { files: Vec::new() };
        assert(r.view() =~= Seq::<(Seq<char>, u64)>::empty());
        r
    }

    /// Appends `entries`, duplicates included.
    pub fn add_batch(&mut self, entries: Vec<FileEntry>)
        ensures
            final(self).view() == old(self).view() + entries_view(entries@),
    {
        let mut more = entries;
        self.files.append(&mut more);
        assert(self.view() =~= old(self).view() + entries_view(entries@));
    }

    /// Empties the index.
    pub fn clear(&mut self)
        ensures
            final(self).view() == Seq::<(Seq<char>, u64)>::empty(),
    {
        self.files.clear();
        assert(self.view() =~= Seq::<(Seq<char>, u64)>::empty());
    }

    pub fn len(&self) -> (r: usize)
        ensures
            r == self.view().len(),
    {
        self.files.len()
    }

    pub fn is_empty(&self) -> (r: bool)
        ensures
            r == (self.view().len() == 0),
    {
        self.files.len() == 0
    }

    /// The indexed files, in the order they were added.
    pub fn files(&self) -> (r: &[FileEntry])
        ensures
            entries_view(r@) == self.view(),
    {
        self.files.as_slice()
    }

    /// The matches of `query` at time `now`, best first, at most `max_results` of them;
    /// an empty query matches nothing.
    pub fn search_at(&self, query: &str, mode: SearchMode, max_results: usize, now: u64) -> (r: Vec<
        SearchResult,
    >)
        ensures
            query@.len() == 0 ==> r@.len() == 0,
            query@.len() > 0 ==> top_ranked(
                hits_view(r@),
                matches_of(self.view(), query@, mode, now),
                max_results as nat,
            ),
    {
        if query.is_empty() {
            return Vec::new();
        }
        let scores = match mode {
            SearchMode::Fuzzy => fuzzy_scores(query, &self.files),
            SearchMode::Exact => substring_scores(query, &self.files),
        };
        let ghost ev = self.view();
        let mut results: Vec<SearchResult> = Vec::new();
        let mut i: usize = 0;
        while i < self.files.len()
            invariant
                i <= self.files@.len(),
                ev == entries_view(self.files@),
                scores@.len() == self.files@.len(),
                forall|k: int|
                    0 <= k < scores@.len() ==> scores@[k] == mode_score(
                        mode,
                        query@,
                        self.files@[k].depot_path@,
                    ),
                hits_view(results@) == matches_of(ev.take(i as int), query@, mode, now),
            decreases self.files@.len() - i,
        {
            assert(ev.take(i + 1).drop_last() =~= ev.take(i as int));
            assert(ev.take(i + 1).last() == (self.files@[i as int].depot_path@, self.files@[i as int].mod_time));
            let entry = &self.files[i];
            match scores[i] {
                Some(s) => {
                    let recent = entry.mod_time > 0 && now >= entry.mod_time
                        && (now - entry.mod_time) / DAY_SECS < RECENT_DAYS;
                    let score: u32 = if recent {
                        let b: u64 = (s as u64) * 3 / 2;
                        if b > 0xffff_ffff {
                            0xffff_ffff
                        } else {
                            b as u32
                        }
                    } else {
                        s
                    };
                    let hit = SearchResult { depot_path: entry.depot_path.clone(), score, mod_time: entry.mod_time };
                    let ghost before = hits_view(results@);
                    results.push(hit);
                    assert(hits_view(results@) =~= before.push(hit@));
                },
                None => {},
            }
            i = i + 1;
        }
        assert(ev.take(self.files@.len() as int) =~= ev);
        let ghost all = hits_view(results@);
        sort_results(&mut results);
        let ghost sorted = hits_view(results@);
        if max_results < results.len() {
            results.truncate(max_results);
        }
        assert(hits_view(results@) =~= sorted.take(
            if (max_results as nat) < sorted.len() {
                max_results as int
            } else {
                sorted.len() as int
            },
        ));
        results
    }

    /// The matches of `query` now, best first, at most `max_results` of them; an empty
    /// query matches nothing.
    pub fn search(&self, query: &str, mode: SearchMode, max_results: usize) -> (r: Vec<SearchResult>)
        ensures
            query@.len() == 0 ==> r@.len() == 0,
            query@.len() > 0 ==> exists|now: u64|
                top_ranked(
                    hits_view(r@),
                    matches_of(self.view(), query@, mode, now),
                    max_results as nat,
                ),
    {
        let now = unix_now();
        self.search_at(query, mode, max_results, now)
    }
}

impl Default for FileIndex {
    fn default() -> (r: Self)
        ensures
            r.view() == Seq::<(Seq<char>, u64)>::empty(),
    {
        FileIndex::new()
    }
}

} // verus!
