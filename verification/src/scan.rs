//! The single-pass matching engine: deduplicate the declared patterns, seed
//! one `NoFileFound` slot per distinct pattern, fold every traversed file
//! through the update rule for every pattern, and render one line per slot.

use vstd::prelude::*;

use crate::pattern::EntryModel;
use crate::pattern::FileEntry;
use crate::pattern::PatternModel;
use crate::pattern::SearchPatternType;
use crate::pattern::clone_pattern;
use crate::pattern::entry_views;
use crate::pattern::matches_entry;
use crate::pattern::pattern_eq;
use crate::pattern::pattern_matches;
use crate::pattern::pattern_views;
use crate::pattern::Config;
use crate::report::render_model;
use crate::report::render_result;
use crate::search_result::clone_result;
use crate::search_result::no_file_message;
use crate::search_result::update_result;
use crate::search_result::updated;
use crate::search_result::NoFileFoundResult;
use crate::search_result::ResultModel;
use crate::search_result::SearchResult;

verus! {

/// The distinct patterns of `ps`, each kept at its first occurrence, in
/// order.
pub open spec fn dedup_models(ps: Seq<PatternModel>) -> Seq<PatternModel>
    decreases ps.len(),
{
    if ps.len() == 0 {
        Seq::empty()
    } else {
        let rest = dedup_models(ps.drop_last());
        if rest.contains(ps.last()) {
            rest
        } else {
            rest.push(ps.last())
        }
    }
}

/// Whether some pattern in `v` equals `p` structurally.
pub fn contains_pattern(v: &Vec<SearchPatternType>, p: &SearchPatternType) -> (r: bool)
    ensures
        r == pattern_views(v@).contains(p@),
{
    let mut i: usize = 0;
    while i < v.len()
        invariant
            i <= v@.len(),
            forall|j: int| 0 <= j < i ==> pattern_views(v@)[j] != p@,
        decreases v@.len() - i,
    {
        if pattern_eq(&v[i], p) {
            assert(pattern_views(v@)[i as int] == p@);
            return true;
        }
        i += 1;
    }
    false
}

/// One file folded into one slot: on a match the update rule runs, otherwise
/// the slot is unchanged.
pub open spec fn step_entry(p: PatternModel, cur: ResultModel, e: EntryModel) -> ResultModel {
    if pattern_matches(p, e) {
        updated(cur, e.path, e.size)
    } else {
        cur
    }
}

/// The slot pattern `p` ends in after the whole traversal `entries`, folded
/// in encounter order from the seeded `NoFileFound`.
pub open spec fn scan_result(p: PatternModel, entries: Seq<EntryModel>) -> ResultModel
    decreases entries.len(),
{
    if entries.len() == 0 {
        ResultModel::NoFileFound(no_file_message(p))
    } else {
        step_entry(p, scan_result(p, entries.drop_last()), entries.last())
    }
}

/// Deduplicates the configured patterns (first occurrence wins, order kept)
/// and seeds one `NoFileFound` slot per distinct pattern; hands back the
/// seeded slots, the distinct patterns, and the root folder.
pub fn create_initial_search_result(config: Config) -> (r: (
    Vec<SearchResult>,
    Vec<SearchPatternType>,
    String,
))
    ensures
        pattern_views(r.1@) == dedup_models(pattern_views(config.search_patterns@)),
        r.0@.len() == r.1@.len(),
        forall|i: int|
            0 <= i < r.0@.len() ==> r.0@[i]@ == ResultModel::NoFileFound(
                no_file_message(r.1@[i]@),
            ),
        r.2@ == config.root_folder@,
{
    let Config { search_patterns, root_folder } = config;
    let mut distinct: Vec<SearchPatternType> = Vec::new();
    let mut i: usize = 0;
    while i < search_patterns.len()
        invariant
            i <= search_patterns@.len(),
            pattern_views(distinct@) == dedup_models(
                pattern_views(search_patterns@).subrange(0, i as int),
            ),
        decreases search_patterns@.len() - i,
    {
        let p = &search_patterns[i];
        let seen = contains_pattern(&distinct, p);
        if !seen {
            distinct.push(clone_pattern(p));
        }
        proof {
            let views = pattern_views(search_patterns@);
            assert(views.subrange(0, i + 1).drop_last() =~= views.subrange(0, i as int));
            assert(views.subrange(0, i + 1).last() == p@);
            if seen {
                assert(pattern_views(distinct@) =~= dedup_models(views.subrange(0, i + 1)));
            } else {
                assert(pattern_views(distinct@) =~= dedup_models(views.subrange(0, i + 1)));
            }
        }
        i += 1;
    }
    proof {
        assert(pattern_views(search_patterns@).subrange(0, search_patterns@.len() as int)
            =~= pattern_views(search_patterns@));
    }
    let mut seeds: Vec<SearchResult> = Vec::new();
    let mut k: usize = 0;
    while k < distinct.len()
        invariant
            k <= distinct@.len(),
            seeds@.len() == k,
            forall|j: int|
                0 <= j < k ==> seeds@[j]@ == ResultModel::NoFileFound(
                    no_file_message(distinct@[j]@),
                ),
        decreases distinct@.len() - k,
    {
        seeds.push(SearchResult::NoFileFound(NoFileFoundResult::new(&distinct[k])));
        k += 1;
    }
    (seeds, distinct, root_folder)
}

/// Folds every traversed file through every slot, in encounter order.
pub fn run_scan(
    patterns: &Vec<SearchPatternType>,
    results: Vec<SearchResult>,
    entries: &Vec<FileEntry>,
) -> (r: Vec<SearchResult>)
    requires
        patterns@.len() == results@.len(),
        forall|i: int|
            0 <= i < patterns@.len() ==> results@[i]@ == ResultModel::NoFileFound(
                no_file_message(patterns@[i]@),
            ),
    ensures
        r@.len() == patterns@.len(),
        forall|i: int|
            0 <= i < r@.len() ==> r@[i]@ == scan_result(patterns@[i]@, entry_views(entries@)),
{
    let mut results = results;
    let n = patterns.len();
    let mut k: usize = 0;
    while k < entries.len()
        invariant
            n == patterns@.len(),
            results@.len() == n,
            k <= entries@.len(),
            forall|i: int|
                0 <= i < n ==> results@[i]@ == scan_result(
                    patterns@[i]@,
                    entry_views(entries@).subrange(0, k as int),
                ),
        decreases entries@.len() - k,
    {
        let e = &entries[k];
        let mut next: Vec<SearchResult> = Vec::new();
        let mut j: usize = 0;
        while j < n
            invariant
                n == patterns@.len(),
                results@.len() == n,
                k < entries@.len(),
                e@ == entries@[k as int]@,
                j <= n,
                next@.len() == j,
                forall|i: int|
                    0 <= i < n ==> results@[i]@ == scan_result(
                        patterns@[i]@,
                        entry_views(entries@).subrange(0, k as int),
                    ),
                forall|i: int|
                    0 <= i < j ==> next@[i]@ == step_entry(
                        patterns@[i]@,
                        results@[i]@,
                        entries@[k as int]@,
                    ),
            decreases n - j,
        {
            let slot = if matches_entry(&patterns[j], e) {
                update_result(&results[j], &e.path, e.size)
            } else {
                clone_result(&results[j])
            };
            next.push(slot);
            j += 1;
        }
        proof {
            let views = entry_views(entries@);
            assert(views.subrange(0, k + 1).drop_last() =~= views.subrange(0, k as int));
            assert(views.subrange(0, k + 1).last() == entries@[k as int]@);
        }
        results = next;
        k += 1;
    }
    proof {
        assert(entry_views(entries@).subrange(0, entries@.len() as int) =~= entry_views(entries@));
    }
    results
}

/// The whole scan: deduplicates the configured patterns, folds every
/// traversed file into each distinct pattern's slot, and renders one line per
/// slot. The lines stand in first-occurrence order of the distinct patterns;
/// their number is the number of distinct patterns, never the raw count.
pub fn search_for_biggest_files(config: Config, entries: &Vec<FileEntry>) -> (lines: Vec<String>)
    ensures
        lines@.len() == dedup_models(pattern_views(config.search_patterns@)).len(),
        forall|i: int|
            0 <= i < lines@.len() ==> lines@[i]@ == render_model(
                scan_result(
                    dedup_models(pattern_views(config.search_patterns@))[i],
                    entry_views(entries@),
                ),
            ),
{
    let (seeds, distinct, _root) = create_initial_search_result(config);
    let finished = run_scan(&distinct, seeds, entries);
    let mut lines: Vec<String> = Vec::new();
    let mut i: usize = 0;
    while i < finished.len()
        invariant
            i <= finished@.len(),
            finished@.len() == distinct@.len(),
            lines@.len() == i,
            forall|j: int|
                0 <= j < finished@.len() ==> finished@[j]@ == scan_result(
                    distinct@[j]@,
                    entry_views(entries@),
                ),
            forall|j: int| 0 <= j < i ==> lines@[j]@ == render_model(finished@[j]@),
        decreases finished@.len() - i,
    {
        lines.push(render_result(&finished[i]));
        i += 1;
    }
    lines
}

} // verus!
