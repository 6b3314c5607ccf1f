//! The search driver: submits the query to an incremental fuzzy matcher,
//! tagging each new query as an extension of the last one or a
//! replacement, advances matching in bounded steps, and reads ranked
//! results out of the matcher's current snapshot.

use std::sync::Arc;

use nucleo::pattern::{CaseMatching, Normalization, Pattern};
use nucleo::{Injector, Nucleo};
use vstd::prelude::*;

use crate::text::chars_of;

verus! {

#[verifier::external_type_specification]
#[verifier::external_body]
#[verifier::reject_recursive_types(T)]
pub struct ExNucleo<T: Sync + Send + 'static>(Nucleo<T>);

#[verifier::external_type_specification]
#[verifier::external_body]
#[verifier::reject_recursive_types(T)]
pub struct ExInjector<T>(Injector<T>);

#[verifier::external_type_specification]
#[verifier::external_body]
pub struct ExPattern(Pattern);

/// The lines of a matcher's current snapshot that match its pattern, in
/// rank order.
pub uninterp spec fn matched_of(n: Nucleo<String>) -> Seq<Seq<char>>;

/// The number of match columns that a matcher was made with.
pub uninterp spec fn columns_of(n: Nucleo<String>) -> nat;

/// Whether the matcher's column-zero pattern is marked for a full rescore
/// at the next tick: every line is matched again instead of only those
/// that matched the previous pattern.
pub uninterp spec fn rescore_pending(n: Nucleo<String>) -> bool;

/// The pattern of the matcher's column zero, which the next tick matches
/// lines against.
pub uninterp spec fn column_pattern(n: Nucleo<String>) -> Pattern;

/// The pattern that `text` parses to with smart case matching and smart
/// normalization, as `nucleo::pattern::Pattern::parse` builds it; it
/// depends on the text alone.
pub uninterp spec fn pattern_parse(text: Seq<char>) -> Pattern;

/// Whether the last word of a pattern is negated (`!word`), after which
/// an appended query cannot keep earlier non-matches.
pub uninterp spec fn ends_negated(p: Pattern) -> bool;

/// Milliseconds that one step of matching may wait for the worker.
pub const TICK_TIMEOUT: u64 = 10;

/// Relies on `nucleo::Nucleo::new`: a matcher with one column and the
/// default configuration, which has taken no item yet, and calls `notify`
/// whenever new results are ready.
#[verifier::external_body]
fn new_matcher<F: Fn() + Sync + Send + 'static>(notify: F) -> (r: Nucleo<String>)
    ensures
        columns_of(r) == 1,
        matched_of(r).len() == 0,
{
    Nucleo::new(nucleo::Config::DEFAULT, Arc::new(notify), None, 1)
}

/// Relies on `nucleo::pattern::MultiPattern::reparse` on the matcher's
/// pattern: it changes the pattern of column zero only, with smart case
/// and normalization; the snapshot keeps its matches until the next tick.
/// The new pattern is parsed from the text alone, as `Pattern::reparse`
/// does. Without `append`, with a rescore already pending, or after a
/// negated last word, the column is marked for a full rescore; otherwise an
/// appended query keeps earlier non-matches and no rescore is marked.
#[verifier::external_body]
fn reparse(n: &mut Nucleo<String>, pattern: &str, append: bool)
    requires
        columns_of(*old(n)) >= 1,
    ensures
        columns_of(*final(n)) == columns_of(*old(n)),
        matched_of(*final(n)) == matched_of(*old(n)),
        column_pattern(*final(n)) == pattern_parse(pattern@),
        rescore_pending(*final(n)) == (!append || rescore_pending(*old(n)) || ends_negated(
            column_pattern(*old(n)),
        )),
{
    n.pattern.reparse(0, pattern, CaseMatching::Smart, Normalization::Smart, append)
}

/// Relies on `nucleo::Nucleo::tick`: waits up to `timeout` ms for the
/// worker, takes in its results, and tells whether matching is still
/// running. The column count and pattern do not change, and a pending
/// rescore is taken up: none is pending afterwards.
#[verifier::external_body]
fn tick_matcher(n: &mut Nucleo<String>, timeout: u64) -> (running: bool)
    ensures
        columns_of(*final(n)) == columns_of(*old(n)),
        column_pattern(*final(n)) == column_pattern(*old(n)),
        !rescore_pending(*final(n)),
{
    n.tick(timeout).running
}

/// Relies on `nucleo::Snapshot::matched_item_count` of the matcher's
/// snapshot: the number of matched lines.
#[verifier::external_body]
fn matched_count(n: &Nucleo<String>) -> (r: u32)
    ensures
        r as int == matched_of(*n).len(),
{
    n.snapshot().matched_item_count()
}

/// Relies on `nucleo::Snapshot::get_matched_item` of the matcher's
/// snapshot: the line of rank `i`, present for every rank below the
/// matched count.
#[verifier::external_body]
fn matched_item(n: &Nucleo<String>, i: u32) -> (r: Option<String>)
    ensures
        (i as int) < matched_of(*n).len() <==> r is Some,
        r matches Some(s) ==> s@ == matched_of(*n)[i as int],
{
    n.snapshot().get_matched_item(i).map(|item| item.data.clone())
}

/// Relies on `nucleo::Nucleo::injector`: a handle through which lines are
/// added to the matcher from another thread.
#[verifier::external_body]
fn matcher_injector(n: &Nucleo<String>) -> (r: Injector<String>) {
    n.injector()
}

/// How a new query relates to the one before it.
#[derive(Clone, Copy, Debug, PartialEq, Eq, Structural)]
pub enum QueryUpdate {
    /// The same text as the active query: nothing to do.
    Unchanged,
    /// The active query with more text appended: earlier non-matches stay
    /// non-matches.
    Extension,
    /// Anything else: every line is matched again.
    Replacement,
}

/// The tag of the query `new` after the active query `last`.
pub open spec fn query_update(last: Option<Seq<char>>, new: Seq<char>) -> QueryUpdate {
    match last {
        None => QueryUpdate::Replacement,
        Some(l) => if l == new {
            QueryUpdate::Unchanged
        } else if l.is_prefix_of(new) {
            QueryUpdate::Extension
        } else {
            QueryUpdate::Replacement
        },
    }
}

/// Whether `prefix` begins `s`.
fn starts_with(s: &str, prefix: &str) -> (r: bool)
    ensures
        r == prefix@.is_prefix_of(s@),
{
    let sv = chars_of(s);
    let pv = chars_of(prefix);
    if pv.len() > sv.len() {
        return false;
    }
    let mut i: usize = 0;
    while i < pv.len()
        invariant
            i <= pv@.len() <= sv@.len(),
            sv@ == s@,
            pv@ == prefix@,
            pv@.take(i as int) == sv@.take(i as int),
        decreases pv@.len() - i,
    {
        if pv[i] != sv[i] {
            assert(sv@.take(pv@.len() as int)[i as int] != pv@[i as int]);
            return false;
        }
        assert(pv@.take(i as int + 1) =~= pv@.take(i as int).push(pv@[i as int]));
        assert(sv@.take(i as int + 1) =~= sv@.take(i as int).push(sv@[i as int]));
        i += 1;
    }
    assert(pv@ =~= pv@.take(i as int));
    true
}

/// Tags the query `pattern` after the active query `last`.
pub fn classify_query(last: &Option<String>, pattern: &str) -> (r: QueryUpdate)
    ensures
        r == query_update(
            match last {
                Some(l) => Some(l@),
                None => None,
            },
            pattern@,
        ),
{
    match last {
        None => QueryUpdate::Replacement,
        Some(l) => {
            let p = pattern.to_owned();
            if *l == p {
                QueryUpdate::Unchanged
            } else if starts_with(pattern, l.as_str()) {
                QueryUpdate::Extension
            } else {
                QueryUpdate::Replacement
            }
        },
    }
}

/// The first and one-past-last rank shown in a window of `height` rows
/// from `offset`, among `count` matches.
pub open spec fn visible_range(offset: int, height: int, count: int) -> (int, int) {
    let start = if offset < count {
        offset
    } else {
        count
    };
    let end = if offset + height < count {
        offset + height
    } else {
        count
    };
    (start, end)
}

/// Drives an incremental fuzzy matcher over a growing set of lines.
pub struct Searcher {
    nucleo: Nucleo<String>,
    last_pattern: Option<String>,
}

impl Searcher {
    /// The active query, if one was submitted.
    pub closed spec fn last_pattern(&self) -> Option<Seq<char>> {
        match self.last_pattern {
            Some(l) => Some(l@),
            None => None,
        }
    }

    /// The matched lines of the current snapshot, in rank order.
    pub closed spec fn matches(&self) -> Seq<Seq<char>> {
        matched_of(self.nucleo)
    }

    /// The matcher has one column, whose pattern is the parse of the
    /// active query.
    pub closed spec fn wf(&self) -> bool {
        &&& columns_of(self.nucleo) == 1
        &&& self.last_pattern matches Some(l) ==> column_pattern(self.nucleo) == pattern_parse(
            l@,
        )
    }

    /// Whether the next tick matches every line again.
    pub closed spec fn rescan_pending(&self) -> bool {
        rescore_pending(self.nucleo)
    }

    /// The pattern that the matcher matches lines against.
    pub closed spec fn engine_pattern(&self) -> Pattern {
        column_pattern(self.nucleo)
    }

    /// Whether an extension of the query can keep earlier non-matches: no
    /// rescan is pending and the pattern does not end in a negated word.
    pub closed spec fn can_extend(&self) -> bool {
        !rescore_pending(self.nucleo) && !ends_negated(column_pattern(self.nucleo))
    }

    /// A searcher whose active query is empty, with no results yet;
    /// `notify` is called whenever matching makes progress.
    pub fn new<F: Fn() + Sync + Send + 'static>(notify: F) -> (r: Self)
        ensures
            r.wf(),
            r.last_pattern() == Some(Seq::<char>::empty()),
            r.matches().len() == 0,
            r.rescan_pending(),
            r.engine_pattern() == pattern_parse(Seq::<char>::empty()),
    {
        let mut searcher = Searcher { nucleo: new_matcher(notify), last_pattern: None };
        searcher.search("");
        proof {
            reveal_strlit("");
        }
        searcher
    }

    /// Submits `pattern` as the active query and tells how it relates to
    /// the previous one. An unchanged query is not submitted again. Results
    /// change at the next `tick`.
    pub fn search(&mut self, pattern: &str) -> (r: QueryUpdate)
        requires
            old(self).wf(),
        ensures
            final(self).wf(),
            r == query_update(old(self).last_pattern(), pattern@),
            final(self).last_pattern() == Some(pattern@),
            final(self).matches() == old(self).matches(),
            r == QueryUpdate::Unchanged ==> *final(self) == *old(self),
            final(self).engine_pattern() == pattern_parse(pattern@),
            r == QueryUpdate::Replacement ==> final(self).rescan_pending(),
            r == QueryUpdate::Extension ==> (final(self).rescan_pending() <==> !old(
                self,
            ).can_extend()),
            old(self).rescan_pending() ==> final(self).rescan_pending(),
    {
        let update = classify_query(&self.last_pattern, pattern);
        match update {
            QueryUpdate::Unchanged => {},
            QueryUpdate::Extension => {
                reparse(&mut self.nucleo, pattern, true);
                self.last_pattern = Some(pattern.to_owned());
            },
            QueryUpdate::Replacement => {
                reparse(&mut self.nucleo, pattern, false);
                self.last_pattern = Some(pattern.to_owned());
            },
        }
        update
    }

    /// Performs one bounded step of matching and tells whether work
    /// remains.
    pub fn tick(&mut self) -> (running: bool)
        requires
            old(self).wf(),
        ensures
            final(self).wf(),
            final(self).last_pattern() == old(self).last_pattern(),
            final(self).engine_pattern() == old(self).engine_pattern(),
            !final(self).rescan_pending(),
    {
        tick_matcher(&mut self.nucleo, TICK_TIMEOUT)
    }

    /// The number of matched lines in the current snapshot.
    pub fn result_count(&self) -> (r: usize)
        ensures
            r == self.matches().len(),
    {
        matched_count(&self.nucleo) as usize
    }

    /// The matched lines of ranks `offset` to `offset + height - 1` that
    /// exist, in rank order.
    pub fn results(&self, offset: usize, height: u16) -> (r: Vec<String>)
        ensures
            ({
                let (start, end) = visible_range(
                    offset as int,
                    height as int,
                    self.matches().len() as int,
                );
                &&& r@.len() == end - start
                &&& forall|j: int|
                    0 <= j < r@.len() ==> #[trigger] r@[j]@ == self.matches()[start + j]
            }),
    {
        let count = matched_count(&self.nucleo);
        let total = count as usize;
        let h = height as usize;
        let start = if offset < total {
            offset
        } else {
            total
        };
        let end = if total - start > h {
            start + h
        } else {
            total
        };
        let mut r: Vec<String> = Vec::new();
        let mut i: usize = start;
        while i < end
            invariant
                start <= i <= end <= total,
                total == self.matches().len(),
                total <= u32::MAX,
                r@.len() == i - start,
                forall|j: int| 0 <= j < r@.len() ==> #[trigger] r@[j]@ == self.matches()[start + j],
            decreases end - i,
        {
            match matched_item(&self.nucleo, i as u32) {
                Some(line) => r.push(line),
                None => {},
            }
            i += 1;
        }
        r
    }

    /// A handle through which lines are added to the searched set, from any
    /// thread; they appear in results after a later `tick`.
    pub fn injector(&self) -> Injector<String> {
        matcher_injector(&self.nucleo)
    }
}

} // verus!
