//! The laws of the matching engine, proved once and for all: deduplication
//! yields each distinct pattern exactly once, a pattern with no match keeps
//! its seeded message, a pattern with matches ends at the largest matching
//! file with ties resolved to the first encounter, and the outcome of a scan
//! is a function of the patterns and the traversed entries alone.

use vstd::prelude::*;

use crate::pattern::EntryModel;
use crate::pattern::PatternModel;
use crate::pattern::pattern_matches;
use crate::scan::dedup_models;
use crate::scan::scan_result;
use crate::search_result::no_file_message;
use crate::search_result::ResultModel;

verus! {

/// Law: deduplication keeps each distinct pattern exactly once — the
/// deduplicated sequence has no repeats, and it holds exactly the patterns
/// the raw sequence holds. Its length is therefore the number of distinct
/// patterns, never the raw count.
pub proof fn lemma_dedup_distinct(ps: Seq<PatternModel>)
    ensures
        forall|i: int, j: int|
            0 <= i < j < dedup_models(ps).len() ==> dedup_models(ps)[i] != dedup_models(ps)[j],
        forall|x: PatternModel| dedup_models(ps).contains(x) <==> ps.contains(x),
    decreases ps.len(),
{
    if ps.len() == 0 {
    } else {
        let rest = ps.drop_last();
        let last = ps.last();
        lemma_dedup_distinct(rest);
        assert forall|x: PatternModel| ps.contains(x) implies rest.contains(x) || x == last by {
            let w = choose|w: int| 0 <= w < ps.len() && ps[w] == x;
            if w < ps.len() - 1 {
                assert(rest[w] == x);
            }
        }
        assert forall|x: PatternModel| rest.contains(x) implies ps.contains(x) by {
            let w = choose|w: int| 0 <= w < rest.len() && rest[w] == x;
            assert(ps[w] == x);
        }
        assert(ps.contains(last)) by {
            assert(ps[ps.len() - 1] == last);
        }
        let dd = dedup_models(rest);
        if !dd.contains(last) {
            assert forall|x: PatternModel| dd.push(last).contains(x) implies dd.contains(x) || x
                == last by {
                let w = choose|w: int| 0 <= w < dd.push(last).len() && dd.push(last)[w] == x;
                if w < dd.len() {
                    assert(dd[w] == x);
                }
            }
            assert forall|x: PatternModel| dd.contains(x) implies dd.push(last).contains(x) by {
                let w = choose|w: int| 0 <= w < dd.len() && dd[w] == x;
                assert(dd.push(last)[w] == x);
            }
            assert(dd.push(last).contains(last)) by {
                assert(dd.push(last)[dd.len() as int] == last);
            }
        }
    }
}

/// Law: a pattern that matches no traversed file ends exactly where it
/// started — `NoFileFound` with its pattern-specific message — however many
/// files the traversal saw.
pub proof fn lemma_scan_no_match(p: PatternModel, entries: Seq<EntryModel>)
    requires
        forall|i: int| 0 <= i < entries.len() ==> !pattern_matches(p, entries[i]),
    ensures
        scan_result(p, entries) == ResultModel::NoFileFound(no_file_message(p)),
    decreases entries.len(),
{
    if entries.len() > 0 {
        let rest = entries.drop_last();
        assert forall|i: int| 0 <= i < rest.len() implies !pattern_matches(p, rest[i]) by {
            assert(rest[i] == entries[i]);
        }
        lemma_scan_no_match(p, rest);
    }
}

/// Law: a pattern that matches at least one traversed file ends as
/// `FileFound`, holding the path and size of a matching file of maximal
/// size; on ties the file encountered first in traversal order wins. The
/// returned index is the winning entry's position.
pub proof fn lemma_scan_found(p: PatternModel, entries: Seq<EntryModel>) -> (w: int)
    requires
        exists|i: int| 0 <= i < entries.len() && pattern_matches(p, entries[i]),
    ensures
        0 <= w < entries.len(),
        pattern_matches(p, entries[w]),
        scan_result(p, entries) == ResultModel::FileFound(entries[w].path, entries[w].size),
        forall|j: int|
            0 <= j < entries.len() && pattern_matches(p, entries[j]) ==> entries[j].size
                <= entries[w].size,
        forall|j: int|
            0 <= j < w && pattern_matches(p, entries[j]) ==> entries[j].size < entries[w].size,
    decreases entries.len(),
{
    let rest = entries.drop_last();
    let e = entries.last();
    if exists|i: int| 0 <= i < rest.len() && pattern_matches(p, rest[i]) {
        let w0 = lemma_scan_found(p, rest);
        assert(rest[w0] == entries[w0]);
        assert forall|j: int|
            0 <= j < rest.len() && pattern_matches(p, entries[j]) implies entries[j].size
            <= entries[w0].size by {
            assert(rest[j] == entries[j]);
        }
        assert forall|j: int|
            0 <= j < w0 && pattern_matches(p, entries[j]) implies entries[j].size
            < entries[w0].size by {
            assert(rest[j] == entries[j]);
        }
        if pattern_matches(p, e) && entries[w0].size < e.size {
            entries.len() - 1
        } else {
            w0
        }
    } else {
        let i0 = choose|i: int| 0 <= i < entries.len() && pattern_matches(p, entries[i]);
        assert(i0 == entries.len() - 1) by {
            if i0 < entries.len() - 1 {
                assert(rest[i0] == entries[i0]);
            }
        }
        lemma_scan_no_match(p, rest);
        assert forall|j: int|
            0 <= j < entries.len() - 1 implies !pattern_matches(p, entries[j]) by {
            assert(rest[j] == entries[j]);
        }
        entries.len() - 1
    }
}

/// Law: a pattern matching exactly one traversed file ends as `FileFound`
/// with exactly that file's path and byte size.
pub proof fn lemma_scan_single_match(p: PatternModel, entries: Seq<EntryModel>, m: int)
    requires
        0 <= m < entries.len(),
        pattern_matches(p, entries[m]),
        forall|j: int| 0 <= j < entries.len() && j != m ==> !pattern_matches(p, entries[j]),
    ensures
        scan_result(p, entries) == ResultModel::FileFound(entries[m].path, entries[m].size),
{
    let w = lemma_scan_found(p, entries);
    assert(w == m);
}

/// Law: scanning the same patterns over the same entries twice yields
/// identical results — the outcome is a function of the pattern and the
/// traversal alone, so a re-run against an unchanged tree repeats it.
pub proof fn lemma_scan_idempotent(
    p: PatternModel,
    first: Seq<EntryModel>,
    second: Seq<EntryModel>,
)
    requires
        first == second,
    ensures
        scan_result(p, first) == scan_result(p, second),
{
}

} // verus!
