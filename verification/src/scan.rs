//! The line scanner: one file is streamed in bounded chunks, each line is
//! tested against the matcher, and every matching line becomes one record,
//! numbered from 1 in file order, with its terminator stripped.

use vstd::prelude::*;
use crate::lines::{strip_terminator, strip_line_terminator};
use crate::pattern::{Pattern, line_matches};
use crate::record::MatchRecord;

verus! {

/// What a successful scan of one file guarantees of its records: every
/// record names that file, carries a 1-based line number, holds the stripped
/// text of a line that satisfied the pattern, and the records come in
/// strictly ascending line order.
pub open spec fn scan_records_wf(pat: Seq<char>, path: Seq<char>, recs: Seq<MatchRecord>) -> bool {
    &&& forall|i: int| 0 <= i < recs.len() ==> {
        &&& (#[trigger] recs[i]).file@ == path
        &&& 1 <= recs[i].line_number
        &&& exists|l: Seq<char>| line_matches(pat, l) && recs[i].line@ == strip_terminator(l)
    }
    &&& forall|i: int, j: int|
        0 <= i < j < recs.len() ==> (#[trigger] recs[i]).line_number < (#[trigger] recs[j]).line_number
}

/// Turns the scanner's raw hits for one file into match records: one record
/// per hit, in order, keeping the line number and stripping the terminator.
pub fn records_from_hits(path: &String, hits: &Vec<(u64, String)>) -> (r: Vec<MatchRecord>)
    ensures
        r@.len() == hits@.len(),
        forall|i: int| 0 <= i < r@.len() ==> {
            &&& (#[trigger] r@[i]).file@ == path@
            &&& r@[i].line_number == hits@[i].0
            &&& r@[i].line@ == strip_terminator(hits@[i].1@)
        },
{
    let mut out: Vec<MatchRecord> = Vec::new();
    let mut i: usize = 0;
    while i < hits.len()
        invariant
            i <= hits@.len(),
            out@.len() == i,
            forall|k: int| 0 <= k < i ==> {
                &&& (#[trigger] out@[k]).file@ == path@
                &&& out@[k].line_number == hits@[k].0
                &&& out@[k].line@ == strip_terminator(hits@[k].1@)
            },
        decreases hits@.len() - i,
    {
        let hit = &hits[i];
        out.push(MatchRecord {
            file: path.clone(),
            line_number: hit.0,
            line: strip_line_terminator(hit.1.as_str()),
        });
        i += 1;
    }
    out
}

/// Scans one file against a compiled pattern. On success the result holds
/// one record per matching line, in ascending line order. An unreadable
/// file yields the reason instead, and is the caller's to record: it never
/// aborts a wider search.
pub fn scan_file(pattern: &Pattern, path: &String) -> (r: Result<Vec<MatchRecord>, String>)
    ensures
        r matches Ok(recs) ==> scan_records_wf(pattern.source_view(), path@, recs@),
{
    match scan_path(pattern, path) {
        Ok(hits) => Ok(records_from_hits(path, &hits)),
        Err(reason) => Err(reason),
    }
}

/// Relies on `grep_searcher::Searcher::search_path` with a lossy sink: with
/// the default configuration it reports each matching line at most once,
/// with its 1-based line number, in file order, decoding invalid byte
/// sequences leniently rather than failing; which lines are reported is
/// recorded here against the line text alone through `line_matches`.
#[verifier::external_body]
fn scan_path(pattern: &Pattern, path: &String) -> (r: Result<Vec<(u64, String)>, String>)
    ensures
        r matches Ok(v) ==> forall|i: int| 0 <= i < v@.len() ==> {
            &&& 1 <= (#[trigger] v@[i]).0
            &&& line_matches(pattern.source_view(), v@[i].1@)
        },
        r matches Ok(v) ==> forall|i: int, j: int|
            0 <= i < j < v@.len() ==> (#[trigger] v@[i]).0 < (#[trigger] v@[j]).0,
{
    let mut hits: Vec<(u64, String)> = Vec::new();
    let sink = grep_searcher::sinks::Lossy(|n, l: &str| {
        hits.push((n, l.to_string()));
        Ok(true)
    });
    let target = std::path::Path::new(path.as_str());
    match grep_searcher::Searcher::new().search_path(&pattern.matcher, target, sink) {
        Ok(()) => Ok(hits),
        Err(e) => Err(format!("{}", e)),
    }
}

} // verus!
