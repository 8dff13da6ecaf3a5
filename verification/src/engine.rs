//! The search engine: the pattern is compiled first, the target is scanned
//! directly if it is a file and walked if it is a directory, and per-file
//! failures are gathered as skipped paths instead of aborting the search.

use vstd::prelude::*;
use crate::lines::strip_terminator;
use crate::pattern::{Pattern, pattern_valid, line_matches};
use crate::record::{MatchRecord, SkippedPath, SearchError, SearchOutcome};
use crate::scan::{scan_file, scan_records_wf};
use crate::walk::{WalkPolicy, WalkEvent, walk_entries, path_under};

verus! {

/// What every record in a search outcome satisfies: a 1-based line number,
/// and text that is the stripped form of a line that satisfied the pattern.
pub open spec fn record_found(pat: Seq<char>, rec: MatchRecord) -> bool {
    &&& 1 <= rec.line_number
    &&& exists|l: Seq<char>| line_matches(pat, l) && rec.line@ == strip_terminator(l)
}

/// What one file contributed to a search: its records, or the reason it
/// could not be read.
pub enum FileOutcome {
    /// The file was scanned; its matching lines, in ascending line order.
    Matches { path: String, records: Vec<MatchRecord> },
    /// The path could not be read; it is skipped with this reason.
    Inaccessible { path: String, reason: String },
}

/// The records one outcome contributes: all of them on success, none on
/// failure.
pub open spec fn outcome_records(o: FileOutcome) -> Seq<MatchRecord> {
    match o {
        FileOutcome::Matches { records, .. } => records@,
        FileOutcome::Inaccessible { .. } => Seq::empty(),
    }
}

/// The skipped entries one outcome contributes: exactly one on failure.
pub open spec fn outcome_skips(o: FileOutcome) -> Seq<SkippedPath> {
    match o {
        FileOutcome::Matches { .. } => Seq::empty(),
        FileOutcome::Inaccessible { path, reason } => seq![SkippedPath { path, reason }],
    }
}

/// What one file's outcome must say of the path it was visited at: a
/// readable file contributes records well-formed for that path, an
/// unreadable one contributes an outcome naming that path.
pub open spec fn outcome_for_path(pat: Seq<char>, p: Seq<char>, o: FileOutcome) -> bool {
    match o {
        FileOutcome::Matches { path, records } => path@ == p && scan_records_wf(pat, p, records@),
        FileOutcome::Inaccessible { path, .. } => path@ == p,
    }
}

/// How a sequence of per-file outcomes corresponds to a sequence of walk
/// events: in order, each plain-file entry yields exactly one outcome for
/// its path, each failure event yields its skip outcome unchanged, and an
/// entry that is not a plain file — a directory or a special file — yields
/// nothing: it is traversed, never scanned.
pub open spec fn outcomes_match_events(
    pat: Seq<char>,
    events: Seq<WalkEvent>,
    outs: Seq<FileOutcome>,
) -> bool
    decreases events.len(),
{
    if events.len() == 0 {
        outs.len() == 0
    } else {
        let rest = events.subrange(1, events.len() as int);
        match events[0] {
            WalkEvent::Entry { path, is_file } => if is_file {
                &&& outs.len() > 0
                &&& outcome_for_path(pat, path@, outs[0])
                &&& outcomes_match_events(pat, rest, outs.subrange(1, outs.len() as int))
            } else {
                outcomes_match_events(pat, rest, outs)
            },
            WalkEvent::Failure { path, reason } => {
                &&& outs.len() > 0
                &&& outs[0] == (FileOutcome::Inaccessible { path, reason })
                &&& outcomes_match_events(pat, rest, outs.subrange(1, outs.len() as int))
            },
        }
    }
}

/// The records of a sequence of outcomes, concatenated in order.
pub open spec fn gathered_records(outs: Seq<FileOutcome>) -> Seq<MatchRecord>
    decreases outs.len(),
{
    if outs.len() == 0 {
        Seq::empty()
    } else {
        outcome_records(outs[0]) + gathered_records(outs.subrange(1, outs.len() as int))
    }
}

/// The skipped entries of a sequence of outcomes, in order.
pub open spec fn gathered_skips(outs: Seq<FileOutcome>) -> Seq<SkippedPath>
    decreases outs.len(),
{
    if outs.len() == 0 {
        Seq::empty()
    } else {
        outcome_skips(outs[0]) + gathered_skips(outs.subrange(1, outs.len() as int))
    }
}

/// Accumulates match records and skipped paths across file scans into one
/// search outcome, preserving the order in which they arrive.
pub struct ResultAggregator {
    records: Vec<MatchRecord>,
    skipped: Vec<SkippedPath>,
}

impl ResultAggregator {
    /// The records gathered so far, in arrival order.
    pub closed spec fn records_view(&self) -> Seq<MatchRecord> {
        self.records@
    }

    /// The skipped paths recorded so far, in arrival order.
    pub closed spec fn skipped_view(&self) -> Seq<SkippedPath> {
        self.skipped@
    }

    /// An empty aggregator.
    pub fn new() -> (r: ResultAggregator)
        ensures
            r.records_view() == Seq::<MatchRecord>::empty(),
            r.skipped_view() == Seq::<SkippedPath>::empty(),
    {
        ResultAggregator { records: Vec::new(), skipped: Vec::new() }
    }

    /// Adds everything one file contributed: its records after the ones
    /// already gathered on success, one skipped entry on failure.
    pub fn add_outcome(&mut self, outcome: FileOutcome)
        ensures
            final(self).records_view() == old(self).records_view() + outcome_records(outcome),
            final(self).skipped_view() == old(self).skipped_view() + outcome_skips(outcome),
    {
        match outcome {
            FileOutcome::Matches { path: _, records } => {
                let mut incoming = records;
                self.records.append(&mut incoming);
                proof {
                    assert(self.skipped_view() =~= old(self).skipped_view() + outcome_skips(
                        outcome,
                    ));
                }
            },
            FileOutcome::Inaccessible { path, reason } => {
                self.skipped.push(SkippedPath { path, reason });
                proof {
                    assert(self.records_view() =~= old(self).records_view() + outcome_records(
                        outcome,
                    ));
                    assert(self.skipped_view() =~= old(self).skipped_view() + outcome_skips(
                        outcome,
                    ));
                }
            },
        }
    }

    /// Consumes the aggregator, yielding the final outcome.
    pub fn finish(self) -> (r: SearchOutcome)
        ensures
            r.records@ == self.records_view(),
            r.skipped@ == self.skipped_view(),
    {
        SearchOutcome { records: self.records, skipped: self.skipped }
    }
}

/// Merges per-file outcomes, in order, into one search outcome: the records
/// of every readable file, concatenated, and one skipped entry for each path
/// that could not be read. This is the deterministic finalization step: a
/// failure contributes nothing but its skipped entry.
pub fn gather(outcomes: Vec<FileOutcome>) -> (r: SearchOutcome)
    ensures
        r.records@ == gathered_records(outcomes@),
        r.skipped@ == gathered_skips(outcomes@),
{
    let ghost all = outcomes@;
    let mut remaining = outcomes;
    let mut agg = ResultAggregator::new();
    proof {
        assert(agg.records_view() + gathered_records(remaining@) =~= gathered_records(all));
        assert(agg.skipped_view() + gathered_skips(remaining@) =~= gathered_skips(all));
    }
    while remaining.len() > 0
        invariant
            agg.records_view() + gathered_records(remaining@) == gathered_records(all),
            agg.skipped_view() + gathered_skips(remaining@) == gathered_skips(all),
        decreases remaining@.len(),
    {
        let ghost before = remaining@;
        let ghost recs_before = agg.records_view();
        let ghost skips_before = agg.skipped_view();
        let next = remaining.remove(0);
        proof {
            assert(remaining@ =~= before.subrange(1, before.len() as int));
        }
        agg.add_outcome(next);
        proof {
            assert(agg.records_view() + gathered_records(remaining@) =~= (recs_before + (
            outcome_records(next) + gathered_records(remaining@))));
            assert(outcome_records(next) + gathered_records(remaining@) =~= gathered_records(
                before,
            ));
            assert(agg.skipped_view() + gathered_skips(remaining@) =~= (skips_before + (
            outcome_skips(next) + gathered_skips(remaining@))));
            assert(outcome_skips(next) + gathered_skips(remaining@) =~= gathered_skips(before));
        }
    }
    proof {
        assert(agg.records_view() + gathered_records(remaining@) =~= agg.records_view());
        assert(agg.skipped_view() + gathered_skips(remaining@) =~= agg.skipped_view());
    }
    agg.finish()
}

/// Law: gathering isolates failures. Every record that a readable file
/// contributed appears in the gathered result, whatever the outcomes around
/// it were — so a file made unreadable never suppresses the matches found in
/// its sibling files.
pub proof fn lemma_failure_isolated(outs: Seq<FileOutcome>, i: int, j: int)
    requires
        0 <= i < outs.len(),
        0 <= j < outcome_records(outs[i]).len(),
    ensures
        gathered_records(outs).contains(outcome_records(outs[i])[j]),
    decreases i,
{
    let rec = outcome_records(outs[i])[j];
    let rest = outs.subrange(1, outs.len() as int);
    if i == 0 {
        assert(gathered_records(outs)[j] == rec);
        assert(gathered_records(outs).contains(rec));
    } else {
        assert(rest[i - 1] == outs[i]);
        lemma_failure_isolated(rest, i - 1, j);
        let k = choose|k: int|
            0 <= k < gathered_records(rest).len() && gathered_records(rest)[k] == rec;
        assert(gathered_records(outs)[outcome_records(outs[0]).len() + k] == rec);
        assert(gathered_records(outs).contains(rec));
    }
}

proof fn lemma_match_push(
    pat: Seq<char>,
    events: Seq<WalkEvent>,
    outs: Seq<FileOutcome>,
    ev: WalkEvent,
    added: Seq<FileOutcome>,
)
    requires
        outcomes_match_events(pat, events, outs),
        match ev {
            WalkEvent::Entry { path, is_file } => if is_file {
                added.len() == 1 && outcome_for_path(pat, path@, added[0])
            } else {
                added.len() == 0
            },
            WalkEvent::Failure { path, reason } => added.len() == 1 && added[0] == (
            FileOutcome::Inaccessible { path, reason }),
        },
    ensures
        outcomes_match_events(pat, events.push(ev), outs + added),
    decreases events.len(),
{
    reveal_with_fuel(outcomes_match_events, 2);
    let evs2 = events.push(ev);
    let all = outs + added;
    if events.len() == 0 {
        assert(outs.len() == 0);
        assert(all =~= added);
        if added.len() == 0 {
            assert(all =~= Seq::<FileOutcome>::empty());
        }
        assert(evs2[0] == ev);
        assert(evs2.subrange(1, evs2.len() as int) =~= Seq::<WalkEvent>::empty());
        assert(outcomes_match_events(pat, Seq::<WalkEvent>::empty(), Seq::<FileOutcome>::empty()));
        if added.len() == 1 {
            assert(all[0] == added[0]);
            assert(all.subrange(1, all.len() as int) =~= Seq::<FileOutcome>::empty());
        }
        match ev {
            WalkEvent::Entry { path, is_file } => {
                if is_file {
                    assert(outcome_for_path(pat, path@, all[0]));
                } else {
                    assert(all.len() == 0);
                }
            },
            WalkEvent::Failure { path, reason } => {
                assert(all[0] == (FileOutcome::Inaccessible { path, reason }));
            },
        }
        assert(outcomes_match_events(pat, evs2, all));
    } else {
        assert(evs2[0] == events[0]);
        let rest = events.subrange(1, events.len() as int);
        assert(evs2.subrange(1, evs2.len() as int) =~= rest.push(ev));
        match events[0] {
            WalkEvent::Entry { is_file, .. } => {
                if is_file {
                    let tail = outs.subrange(1, outs.len() as int);
                    lemma_match_push(pat, rest, tail, ev, added);
                    assert(all[0] == outs[0]);
                    assert(all.subrange(1, all.len() as int) =~= tail + added);
                } else {
                    lemma_match_push(pat, rest, outs, ev, added);
                }
            },
            WalkEvent::Failure { .. } => {
                let tail = outs.subrange(1, outs.len() as int);
                lemma_match_push(pat, rest, tail, ev, added);
                assert(all[0] == outs[0]);
                assert(all.subrange(1, all.len() as int) =~= tail + added);
            },
        }
    }
}

/// Scans the plain files among a walk's events, in order: each file entry
/// is scanned and yields one outcome for its path, each failure event
/// yields its skip outcome unchanged, and entries that are not plain files
/// are passed over without being scanned.
pub fn scan_events(pattern: &Pattern, events: Vec<WalkEvent>) -> (r: Vec<FileOutcome>)
    ensures
        outcomes_match_events(pattern.source_view(), events@, r@),
{
    let ghost all = events@;
    let ghost mut done: Seq<WalkEvent> = Seq::empty();
    let mut remaining = events;
    let mut outs: Vec<FileOutcome> = Vec::new();
    proof {
        assert(done + remaining@ =~= all);
    }
    while remaining.len() > 0
        invariant
            all == done + remaining@,
            outcomes_match_events(pattern.source_view(), done, outs@),
        decreases remaining@.len(),
    {
        let ghost before = remaining@;
        let ghost outs_before = outs@;
        let ev = remaining.remove(0);
        let ghost gev = ev;
        match ev {
            WalkEvent::Entry { path, is_file } => {
                if is_file {
                    let outcome = match scan_file(pattern, &path) {
                        Ok(records) => FileOutcome::Matches { path, records },
                        Err(reason) => FileOutcome::Inaccessible { path, reason },
                    };
                    let ghost go = outcome;
                    outs.push(outcome);
                    proof {
                        assert(outs@ =~= outs_before + seq![go]);
                        lemma_match_push(
                            pattern.source_view(),
                            done,
                            outs_before,
                            gev,
                            seq![go],
                        );
                    }
                } else {
                    proof {
                        assert(outs@ =~= outs_before + Seq::<FileOutcome>::empty());
                        lemma_match_push(
                            pattern.source_view(),
                            done,
                            outs_before,
                            gev,
                            Seq::<FileOutcome>::empty(),
                        );
                    }
                }
            },
            WalkEvent::Failure { path, reason } => {
                let outcome = FileOutcome::Inaccessible { path, reason };
                let ghost go = outcome;
                outs.push(outcome);
                proof {
                    assert(outs@ =~= outs_before + seq![go]);
                    lemma_match_push(pattern.source_view(), done, outs_before, gev, seq![go]);
                }
            },
        }
        proof {
            done = done.push(gev);
            assert(before =~= seq![gev] + remaining@);
            assert(done + remaining@ =~= all);
        }
    }
    proof {
        assert(done =~= all);
    }
    outs
}

/// What every outcome of a directory search satisfies: a readable file's
/// records are well-formed for the file they name, and that file lies under
/// the searched root.
pub open spec fn outcome_wf(pat: Seq<char>, root: Seq<char>, o: FileOutcome) -> bool {
    match o {
        FileOutcome::Matches { path, records } => path_under(root, path@) && scan_records_wf(
            pat,
            path@,
            records@,
        ),
        FileOutcome::Inaccessible { .. } => true,
    }
}

proof fn lemma_outcomes_wf(
    pat: Seq<char>,
    root: Seq<char>,
    events: Seq<WalkEvent>,
    outs: Seq<FileOutcome>,
)
    requires
        outcomes_match_events(pat, events, outs),
        forall|i: int| 0 <= i < events.len() ==> match #[trigger] events[i] {
            WalkEvent::Entry { path, .. } => path_under(root, path@),
            WalkEvent::Failure { .. } => true,
        },
    ensures
        forall|k: int| 0 <= k < outs.len() ==> outcome_wf(pat, root, #[trigger] outs[k]),
    decreases events.len(),
{
    if events.len() > 0 {
        let rest = events.subrange(1, events.len() as int);
        assert(forall|i: int| 0 <= i < rest.len() ==> #[trigger] rest[i] == events[i + 1]);
        match events[0] {
            WalkEvent::Entry { is_file, .. } => {
                if is_file {
                    let tail = outs.subrange(1, outs.len() as int);
                    lemma_outcomes_wf(pat, root, rest, tail);
                    assert(outcome_wf(pat, root, outs[0]));
                    assert(forall|k: int| 1 <= k < outs.len() ==> #[trigger] outs[k] == tail[k
                        - 1]);
                } else {
                    lemma_outcomes_wf(pat, root, rest, outs);
                }
            },
            WalkEvent::Failure { .. } => {
                let tail = outs.subrange(1, outs.len() as int);
                lemma_outcomes_wf(pat, root, rest, tail);
                assert(outcome_wf(pat, root, outs[0]));
                assert(forall|k: int| 1 <= k < outs.len() ==> #[trigger] outs[k] == tail[k - 1]);
            },
        }
    }
}

proof fn lemma_gathered_wf(pat: Seq<char>, root: Seq<char>, outs: Seq<FileOutcome>)
    requires
        forall|k: int| 0 <= k < outs.len() ==> outcome_wf(pat, root, #[trigger] outs[k]),
    ensures
        forall|i: int| 0 <= i < gathered_records(outs).len() ==> {
            &&& record_found(pat, #[trigger] gathered_records(outs)[i])
            &&& path_under(root, gathered_records(outs)[i].file@)
        },
    decreases outs.len(),
{
    if outs.len() > 0 {
        let rest = outs.subrange(1, outs.len() as int);
        assert(forall|k: int| 0 <= k < rest.len() ==> outcome_wf(pat, root, #[trigger] rest[k]));
        lemma_gathered_wf(pat, root, rest);
        let head = outcome_records(outs[0]);
        assert forall|i: int| 0 <= i < gathered_records(outs).len() implies {
            &&& record_found(pat, #[trigger] gathered_records(outs)[i])
            &&& path_under(root, gathered_records(outs)[i].file@)
        } by {
            if i < head.len() {
                assert(gathered_records(outs)[i] == head[i]);
                assert(outcome_wf(pat, root, outs[0]));
            } else {
                assert(gathered_records(outs)[i] == gathered_records(rest)[i - head.len()]);
            }
        }
    }
}

/// Whether a walk event is a failure naming the root itself.
pub open spec fn failure_at_root(root: Seq<char>, ev: WalkEvent) -> bool {
    match ev {
        WalkEvent::Entry { .. } => false,
        WalkEvent::Failure { path, .. } => path@ == root,
    }
}

/// Looks for a failure event naming the walk's own root: when the root
/// itself could not be read there is nothing to search, so the search fails
/// instead of degrading. Failures below the root only skip their subtree.
fn root_failure(events: &Vec<WalkEvent>, root: &String) -> (r: Option<String>)
    ensures
        r is Some ==> exists|i: int|
            0 <= i < events@.len() && failure_at_root(root@, #[trigger] events@[i]),
        r is None ==> forall|i: int|
            0 <= i < events@.len() ==> !failure_at_root(root@, #[trigger] events@[i]),
{
    let mut i: usize = 0;
    while i < events.len()
        invariant
            i <= events@.len(),
            forall|k: int| 0 <= k < i ==> !failure_at_root(root@, #[trigger] events@[k]),
        decreases events@.len() - i,
    {
        match &events[i] {
            WalkEvent::Failure { path, reason } => {
                if path.eq(root) {
                    return Some(reason.clone());
                }
            },
            WalkEvent::Entry { .. } => {},
        }
        i += 1;
    }
    None
}

/// Searches every non-excluded plain file under a directory root: the walk
/// applies the policy's ignore and hidden-entry rules, each yielded file is
/// scanned, and unreadable paths below the root are gathered as skipped
/// entries rather than aborting the search. Only a root that cannot itself
/// be read is an error: then there is nothing to search. A successful
/// outcome is gathered from well-formed per-file outcomes: records come
/// grouped per file, in strictly ascending line order within each file,
/// each naming a file under the root, and every skip stems from a failure.
pub fn search_directory(pattern: &Pattern, root: &String, policy: &WalkPolicy) -> (r: Result<
    SearchOutcome,
    SearchError,
>)
    ensures
        r matches Ok(out) ==> exists|outs: Seq<FileOutcome>| {
            &&& out.records@ == gathered_records(outs)
            &&& out.skipped@ == gathered_skips(outs)
            &&& forall|k: int|
                0 <= k < outs.len() ==> outcome_wf(pattern.source_view(), root@, #[trigger] outs[k])
        },
        r matches Ok(out) ==> forall|i: int| 0 <= i < out.records@.len() ==> {
            &&& record_found(pattern.source_view(), #[trigger] out.records@[i])
            &&& path_under(root@, out.records@[i].file@)
        },
        r matches Err(e) ==> e is TargetInaccessible,
{
    let events = walk_entries(root, policy);
    if let Some(reason) = root_failure(&events, root) {
        return Err(SearchError::TargetInaccessible { reason });
    }
    let ghost gevents = events@;
    let outcomes = scan_events(pattern, events);
    let ghost gouts = outcomes@;
    proof {
        lemma_outcomes_wf(pattern.source_view(), root@, gevents, gouts);
        lemma_gathered_wf(pattern.source_view(), root@, gouts);
    }
    let out = gather(outcomes);
    proof {
        assert(exists|outs: Seq<FileOutcome>| {
            &&& out.records@ == gathered_records(outs)
            &&& out.skipped@ == gathered_skips(outs)
            &&& forall|k: int|
                0 <= k < outs.len() ==> outcome_wf(pattern.source_view(), root@, #[trigger] outs[k])
        }) by {
            assert(out.records@ == gathered_records(gouts));
        }
    }
    Ok(out)
}

/// Searches a target path with an explicit walk policy. The pattern is
/// compiled before any filesystem access: an invalid pattern is the one
/// fatal error, reported as `InvalidPattern` with no traversal attempted. A
/// file target is scanned directly; a directory target is walked under the
/// policy. Per-file failures inside a directory are returned as skipped
/// entries, never as an error.
pub fn search_with_policy(pattern: &String, target: &String, policy: &WalkPolicy) -> (r: Result<
    SearchOutcome,
    SearchError,
>)
    ensures
        (r is Err && r->Err_0 is InvalidPattern) <==> !pattern_valid(pattern@),
        r matches Ok(out) ==> exists|outs: Seq<FileOutcome>| {
            &&& out.records@ == gathered_records(outs)
            &&& out.skipped@ == gathered_skips(outs)
            &&& forall|k: int|
                0 <= k < outs.len() ==> outcome_wf(pattern@, target@, #[trigger] outs[k])
        },
        r matches Ok(out) ==> forall|i: int| 0 <= i < out.records@.len() ==> {
            &&& record_found(pattern@, #[trigger] out.records@[i])
            &&& path_under(target@, out.records@[i].file@)
        },
{
    let compiled = match Pattern::compile(pattern) {
        Ok(p) => p,
        Err(e) => {
            return Err(e);
        },
    };
    if path_is_file(target) {
        match scan_file(&compiled, target) {
            Ok(records) => {
                let ghost witness = FileOutcome::Matches { path: *target, records };
                let out = SearchOutcome { records, skipped: Vec::new() };
                proof {
                    let single = seq![witness];
                    assert(target@.subrange(0, target@.len() as int) =~= target@);
                    assert(single.subrange(1, 1) =~= Seq::<FileOutcome>::empty());
                    assert(single[0] == witness);
                    assert(gathered_records(single.subrange(1, 1)) =~= Seq::<
                        MatchRecord,
                    >::empty());
                    assert(gathered_skips(single.subrange(1, 1)) =~= Seq::<SkippedPath>::empty());
                    assert(outcome_records(witness) == out.records@);
                    assert(gathered_records(single) =~= outcome_records(witness)
                        + gathered_records(single.subrange(1, 1)));
                    assert(gathered_records(single) =~= out.records@);
                    assert(gathered_skips(single) =~= outcome_skips(witness) + gathered_skips(
                        single.subrange(1, 1),
                    ));
                    assert(gathered_skips(single) =~= out.skipped@);
                    assert(outcome_wf(pattern@, target@, witness));
                    assert(exists|outs: Seq<FileOutcome>| {
                        &&& out.records@ == gathered_records(outs)
                        &&& out.skipped@ == gathered_skips(outs)
                        &&& forall|k: int|
                            0 <= k < outs.len() ==> outcome_wf(
                                pattern@,
                                target@,
                                #[trigger] outs[k],
                            )
                    }) by {
                        assert(out.records@ == gathered_records(single));
                        assert(forall|k: int|
                            0 <= k < single.len() ==> outcome_wf(
                                pattern@,
                                target@,
                                #[trigger] single[k],
                            ));
                    }
                }
                Ok(out)
            },
            Err(reason) => Err(SearchError::TargetInaccessible { reason }),
        }
    } else if path_is_dir(target) {
        search_directory(&compiled, target, policy)
    } else {
        Err(
            SearchError::TargetInaccessible {
                reason: "target is neither a readable file nor a directory".to_owned(),
            },
        )
    }
}

/// Searches a target path under the default policy: hidden entries skipped,
/// ignore files honoured, symlinks not followed.
pub fn search(pattern: &String, target: &String) -> (r: Result<SearchOutcome, SearchError>)
    ensures
        (r is Err && r->Err_0 is InvalidPattern) <==> !pattern_valid(pattern@),
        r matches Ok(out) ==> exists|outs: Seq<FileOutcome>| {
            &&& out.records@ == gathered_records(outs)
            &&& out.skipped@ == gathered_skips(outs)
            &&& forall|k: int|
                0 <= k < outs.len() ==> outcome_wf(pattern@, target@, #[trigger] outs[k])
        },
        r matches Ok(out) ==> forall|i: int| 0 <= i < out.records@.len() ==> {
            &&& record_found(pattern@, #[trigger] out.records@[i])
            &&& path_under(target@, out.records@[i].file@)
        },
{
    let policy = WalkPolicy::new();
    search_with_policy(pattern, target, &policy)
}

/// Relies on `std::path::Path::is_file`: whether the target currently names
/// a plain file. The answer depends on the filesystem, so nothing is assumed
/// of it.
#[verifier::external_body]
fn path_is_file(path: &String) -> bool {
    std::path::Path::new(path.as_str()).is_file()
}

/// Relies on `std::path::Path::is_dir`: whether the target currently names
/// a directory. The answer depends on the filesystem, so nothing is assumed
/// of it.
#[verifier::external_body]
fn path_is_dir(path: &String) -> bool {
    std::path::Path::new(path.as_str()).is_dir()
}

} // verus!
