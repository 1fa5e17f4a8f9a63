//! Points in time: which files changed since a snapshot, and which snapshots
//! are recent.
use vstd::prelude::*;
use crate::rustic::Snapshot;
use crate::zip_util::FileEntry;

verus! {

broadcast use vstd::string::group_string_axioms;

/// The instant that an RFC 3339 timestamp denotes, as whole seconds since
/// the Unix epoch and nanoseconds; `None` for a text that is no such timestamp.
pub uninterp spec fn spec_rfc3339_instant(text: Seq<char>) -> Option<(i64, u32)>;

/// `chrono::DateTime::parse_from_rfc3339`, taken as the instant it denotes
/// (`timestamp`, `timestamp_subsec_nanos`). The contract names the result:
/// the same text always gives the same instant.
#[verifier::external_body]
fn parse_rfc3339(text: &str) -> (r: Option<(i64, u32)>)
    ensures
        r == spec_rfc3339_instant(text@),
{
    match chrono::DateTime::parse_from_rfc3339(text) {
        Ok(dt) => Some((dt.timestamp(), dt.timestamp_subsec_nanos())),
        Err(_) => None,
    }
}

/// Whether instant `a` comes after instant `b`.
pub open spec fn is_later(a: (i64, u32), b: (i64, u32)) -> bool {
    a.0 > b.0 || (a.0 == b.0 && a.1 > b.1)
}

fn later(a: (i64, u32), b: (i64, u32)) -> (r: bool)
    ensures
        r == is_later(a, b),
{
    a.0 > b.0 || (a.0 == b.0 && a.1 > b.1)
}

/// A file found in a source directory and when it was last modified, when
/// that could be read.
pub struct StampedFile {
    pub entry: FileEntry,
    pub modified: Option<(i64, u32)>,
}

/// Whether a file counts as changed after the instant: modified later, or of
/// unknown modification time.
pub open spec fn changed_after(f: StampedFile, reference: (i64, u32)) -> bool {
    match f.modified {
        Some(m) => is_later(m, reference),
        None => true,
    }
}

/// The files changed after the instant, in order.
pub open spec fn changed_files(files: Seq<StampedFile>, reference: (i64, u32)) -> Seq<FileEntry>
    decreases files.len(),
{
    if files.len() == 0 {
        seq![]
    } else if changed_after(files.last(), reference) {
        changed_files(files.drop_last(), reference).push(files.last().entry)
    } else {
        changed_files(files.drop_last(), reference)
    }
}

/// The files changed after the instant.
pub fn changed_since_instant(files: Vec<StampedFile>, reference: (i64, u32)) -> (r: Vec<FileEntry>)
    ensures
        r@ == changed_files(files@, reference),
{
    let ghost all = files@;
    let mut kept: Vec<FileEntry> = Vec::new();
    for f in it: files
        invariant
            it.seq() == all,
            kept@ == changed_files(all.take(it.index() as int), reference),
    {
        let ghost idx = it.index() as int;
        assert(all.take(idx + 1).drop_last() =~= all.take(idx));
        assert(all.take(idx + 1).last() == f);
        let keep = match f.modified {
            Some(m) => later(m, reference),
            None => true,
        };
        if keep {
            kept.push(f.entry);
        }
    }
    assert(all.take(all.len() as int) =~= all);
    kept
}

/// The instant files are compared with: the time of the previous snapshot,
/// or `now` when that time cannot be read.
pub open spec fn snapshot_reference(snapshot_time: Seq<char>, now: (i64, u32)) -> (i64, u32) {
    match spec_rfc3339_instant(snapshot_time) {
        Some(t) => t,
        None => now,
    }
}

/// The files changed since the previous snapshot, taken at `snapshot_time`.
pub fn changed_since(files: Vec<StampedFile>, snapshot_time: &str, now: (i64, u32)) -> (r: Vec<FileEntry>)
    ensures
        r@ == changed_files(files@, snapshot_reference(snapshot_time@, now)),
{
    let reference = match parse_rfc3339(snapshot_time) {
        Some(t) => t,
        None => now,
    };
    changed_since_instant(files, reference)
}

/// The earliest instant, in seconds, from which a number of days can be
/// counted back: a day after the first instant that chrono represents
/// (the start of the year -262143), so that no time zone takes it out of range.
pub open spec fn earliest_cutoff() -> int {
    -8334601315200 + 86400
}

/// The earliest cutoff, for callers that check it before counting back.
pub fn earliest_cutoff_seconds() -> (r: i64)
    ensures
        r == earliest_cutoff(),
{
    -8334601315200 + 86400
}

/// `now` moved back by whole days.
pub open spec fn days_before(now: (i64, u32), days: u32) -> (i64, u32) {
    ((now.0 - days * 86400) as i64, now.1)
}

/// Whether a snapshot is kept by a listing of the last days: its time is
/// after the cutoff, or cannot be read.
pub open spec fn is_recent(s: Snapshot, cutoff: (i64, u32)) -> bool {
    match spec_rfc3339_instant(s.time@) {
        Some(t) => is_later(t, cutoff),
        None => true,
    }
}

/// The snapshots kept by a listing of the last days, in order.
pub open spec fn recent(snaps: Seq<Snapshot>, cutoff: (i64, u32)) -> Seq<Snapshot>
    decreases snaps.len(),
{
    if snaps.len() == 0 {
        seq![]
    } else if is_recent(snaps.last(), cutoff) {
        recent(snaps.drop_last(), cutoff).push(snaps.last())
    } else {
        recent(snaps.drop_last(), cutoff)
    }
}

/// The snapshots of the last `days` days before `now`.
pub fn recent_snapshots(snaps: Vec<Snapshot>, now: (i64, u32), days: u32) -> (r: Vec<Snapshot>)
    requires
        now.0 - days * 86400 >= earliest_cutoff(),
    ensures
        r@ == recent(snaps@, days_before(now, days)),
{
    let cutoff: (i64, u32) = (now.0 - (days as i64) * 86400, now.1);
    let ghost all = snaps@;
    let mut kept: Vec<Snapshot> = Vec::new();
    for s in it: snaps
        invariant
            it.seq() == all,
            cutoff == days_before(now, days),
            kept@ == recent(all.take(it.index() as int), cutoff),
    {
        let ghost idx = it.index() as int;
        assert(all.take(idx + 1).drop_last() =~= all.take(idx));
        assert(all.take(idx + 1).last() == s);
        let keep = match parse_rfc3339(s.time.as_str()) {
            Some(t) => later(t, cutoff),
            None => true,
        };
        if keep {
            kept.push(s);
        }
    }
    assert(all.take(all.len() as int) =~= all);
    kept
}

} // verus!
