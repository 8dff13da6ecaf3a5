//! The directory walker: entries under a root are enumerated with ignore
//! rules applied, hidden entries skipped by default, and symlink cycles
//! broken when following is enabled, so every walk is finite.

use vstd::prelude::*;

verus! {

/// The configuration governing which filesystem entries a walk visits.
pub struct WalkPolicy {
    /// Skip entries whose names begin with the hidden-marker convention.
    pub skip_hidden: bool,
    /// Follow symbolic links while walking; cycles are detected and broken.
    pub follow_symlinks: bool,
}

impl WalkPolicy {
    /// The default policy: hidden entries are skipped, symlinks not followed.
    pub fn new() -> (r: WalkPolicy)
        ensures
            r.skip_hidden,
            !r.follow_symlinks,
    {
        WalkPolicy { skip_hidden: true, follow_symlinks: false }
    }
}

impl Default for WalkPolicy {
    fn default() -> (r: WalkPolicy)
        ensures
            r.skip_hidden,
            !r.follow_symlinks,
    {
        WalkPolicy::new()
    }
}

/// Whether a path's text lies under a root's text: it begins with it. The
/// walker forms every entry's path by joining names under the root it was
/// given, so entry paths satisfy this.
pub open spec fn path_under(root: Seq<char>, path: Seq<char>) -> bool {
    root.len() <= path.len() && path.subrange(0, root.len() as int) == root
}

/// One step of a walk: either an entry the walk yielded, with whether it is
/// a plain file, or a path that could not be read.
pub enum WalkEvent {
    /// A visited entry. Only plain files are searchable; directories and
    /// special files are traversed but never scanned.
    Entry { path: String, is_file: bool },
    /// A path the walk could not read; the subtree under it was skipped.
    Failure { path: String, reason: String },
}

/// Relies on `ignore::WalkBuilder`: it enumerates the entries under a root
/// with each directory read in file-name order, so the walk is reproducible;
/// it applies ignore-file rules hierarchically, skips hidden entries when
/// asked, and, when following is enabled, detects a symlink that leads back
/// to a visited ancestor and reports it as an error instead of descending,
/// so the returned walk is finite. Every entry's path is the root or formed
/// by joining names under it, which the clause below records. An unreadable
/// path is reported as a failure event named after it (errors that carry no
/// path are attributed to the root).
#[verifier::external_body]
pub(crate) fn walk_entries(root: &String, policy: &WalkPolicy) -> (r: Vec<WalkEvent>)
    ensures
        forall|i: int| 0 <= i < r@.len() ==> match #[trigger] r@[i] {
            WalkEvent::Entry { path, .. } => path_under(root@, path@),
            WalkEvent::Failure { .. } => true,
        },
{
    let walk = ignore::WalkBuilder::new(root.as_str()).hidden(policy.skip_hidden).follow_links(policy.follow_symlinks).sort_by_file_name(|a, b| a.cmp(b)).build();
    let mut out: Vec<WalkEvent> = Vec::new();
    for entry in walk {
        out.push(match entry {
            Ok(e) => WalkEvent::Entry { path: e.path().to_string_lossy().to_string(), is_file: e.file_type().map_or(false, |t| t.is_file()) },
            Err(err) => failure_event(root, err),
        });
    }
    out
}

#[verifier::external_type_specification]
#[verifier::external_body]
pub struct ExIgnoreError(ignore::Error);

/// Relies on the shape of `ignore::Error`: an error wraps the path it
/// failed at, or the looping path of a broken symlink cycle, possibly under
/// a depth layer; one that names no path is attributed to the root.
#[verifier::external_body]
fn failure_event(root: &String, err: ignore::Error) -> (r: WalkEvent)
    ensures
        r is Failure,
{
    let reason = err.to_string();
    let inner = match err { ignore::Error::WithDepth { err, .. } => *err, other => other };
    let path = match inner { ignore::Error::WithPath { path, .. } => path, ignore::Error::Loop { child, .. } => child, _ => std::path::PathBuf::from(root.as_str()) };
    WalkEvent::Failure { path: path.to_string_lossy().to_string(), reason }
}

} // verus!
