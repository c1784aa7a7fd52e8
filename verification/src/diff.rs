//! The difference scan: which files a sync task would add, delete or modify,
//! found by comparing the listing of its source with that of its
//! destination.

use vstd::prelude::*;
use crate::filemap::FileMap;
use crate::models::{ChangeView, FileEntry, NewSyncChange, Task};
use crate::text::{remote_fs, remote_fs_string, text_eq};

verus! {

/// The direction in which a task keeps its local directory and its remote
/// path in step.
#[derive(Debug, Clone, Copy, PartialEq, Eq, Structural)]
pub enum Direction {
    /// The local directory is copied to the remote path.
    Upload,
    /// The remote path is copied to the local directory.
    Download,
    /// Both sides are reconciled with each other.
    Bisync,
}

/// The direction that a task's `direction` text names.
pub open spec fn direction_of(s: Seq<char>) -> Option<Direction> {
    if s == "upload"@ {
        Some(Direction::Upload)
    } else if s == "download"@ {
        Some(Direction::Download)
    } else if s == "bisync"@ {
        Some(Direction::Bisync)
    } else {
        None
    }
}

/// The direction that `s` names: `"upload"`, `"download"` or `"bisync"`.
pub fn parse_direction(s: &str) -> (r: Option<Direction>)
    ensures
        r == direction_of(s@),
{
    if text_eq(s, "upload") {
        Some(Direction::Upload)
    } else if text_eq(s, "download") {
        Some(Direction::Download)
    } else if text_eq(s, "bisync") {
        Some(Direction::Bisync)
    } else {
        None
    }
}

/// The file system that a scan of `task` lists first (its source).
pub open spec fn scan_source(d: Direction, task: Task) -> Seq<char> {
    match d {
        Direction::Download => remote_fs(task.remote_name@, task.remote_path@),
        _ => task.local_path@,
    }
}

/// The file system that a scan of `task` compares against (its destination).
pub open spec fn scan_destination(d: Direction, task: Task) -> Seq<char> {
    match d {
        Direction::Download => task.local_path@,
        _ => remote_fs(task.remote_name@, task.remote_path@),
    }
}

/// A scan of an upload or a bisync lists the local directory as its
/// source and `<remote>:<path>` as its destination; a scan of a download
/// the other way round.
pub proof fn law_scan_endpoint_sides(d: Direction, task: Task)
    ensures
        d != Direction::Download ==> scan_source(d, task) == task.local_path@ && scan_destination(
            d,
            task,
        ) == task.remote_name@ + seq![':'] + task.remote_path@,
        d == Direction::Download ==> scan_destination(d, task) == task.local_path@ && scan_source(
            d,
            task,
        ) == task.remote_name@ + seq![':'] + task.remote_path@,
{
}

/// A direction text names a direction exactly when it is `"upload"`,
/// `"download"` or `"bisync"`, each naming its own.
pub proof fn law_direction_names(s: Seq<char>)
    ensures
        direction_of(s) == Some(Direction::Upload) <==> s == "upload"@,
        direction_of(s) == Some(Direction::Download) <==> s == "download"@,
        direction_of(s) == Some(Direction::Bisync) <==> s == "bisync"@,
{
    reveal_strlit("upload");
    reveal_strlit("download");
    reveal_strlit("bisync");
    assert("upload"@ != "download"@ && "upload"@ != "bisync"@ && "download"@ != "bisync"@) by {
        assert("upload"@[0] == 'u' && "download"@[0] == 'd' && "bisync"@[0] == 'b');
    }
}

/// The direction of `task` and the two file systems that a scan compares:
/// the local directory and `"<remote>:<path>"`, source first. A task whose
/// direction names none of the three is refused with `"Invalid direction"`.
pub fn scan_endpoints(task: &Task) -> (r: Result<(Direction, String, String), String>)
    ensures
        match r {
            Ok((d, src, dst)) => {
                &&& direction_of(task.direction@) == Some(d)
                &&& src@ == scan_source(d, *task)
                &&& dst@ == scan_destination(d, *task)
            },
            Err(e) => direction_of(task.direction@).is_none() && e@ == "Invalid direction"@,
        },
{
    match parse_direction(task.direction.as_str()) {
        Some(Direction::Upload) => Ok(
            (
                Direction::Upload,
                task.local_path.clone(),
                remote_fs_string(task.remote_name.as_str(), task.remote_path.as_str()),
            ),
        ),
        Some(Direction::Download) => Ok(
            (
                Direction::Download,
                remote_fs_string(task.remote_name.as_str(), task.remote_path.as_str()),
                task.local_path.clone(),
            ),
        ),
        Some(Direction::Bisync) => Ok(
            (
                Direction::Bisync,
                task.local_path.clone(),
                remote_fs_string(task.remote_name.as_str(), task.remote_path.as_str()),
            ),
        ),
        None => Err("Invalid direction".to_owned()),
    }
}

/// The modification time of `e`, zero where it is unknown.
pub open spec fn mod_or_zero(e: FileEntry) -> i64 {
    match e.mod_time {
        Some(t) => t,
        None => 0,
    }
}

/// A file listed on both sides differs when its size or its modification
/// time differs.
pub open spec fn differs(s: FileEntry, d: FileEntry) -> bool {
    s.size != d.size || mod_or_zero(s) != mod_or_zero(d)
}

/// The change for a file that only the source lists.
pub open spec fn added_change(dir: Direction, log_id: i64, path: Seq<char>, e: FileEntry) -> ChangeView {
    match dir {
        Direction::Download => ChangeView {
            log_id,
            file_path: path,
            change_type: "added"@,
            side: Some("remote"@),
            local_size: None,
            remote_size: Some(e.size),
            local_modtime: None,
            remote_modtime: e.mod_time,
        },
        _ => ChangeView {
            log_id,
            file_path: path,
            change_type: "added"@,
            side: Some("local"@),
            local_size: Some(e.size),
            remote_size: None,
            local_modtime: e.mod_time,
            remote_modtime: None,
        },
    }
}

/// The change for a file that only the destination lists.
pub open spec fn deleted_change(dir: Direction, log_id: i64, path: Seq<char>, e: FileEntry) -> ChangeView {
    match dir {
        Direction::Download => ChangeView {
            log_id,
            file_path: path,
            change_type: "deleted"@,
            side: Some("local"@),
            local_size: Some(e.size),
            remote_size: None,
            local_modtime: e.mod_time,
            remote_modtime: None,
        },
        _ => ChangeView {
            log_id,
            file_path: path,
            change_type: "deleted"@,
            side: Some("remote"@),
            local_size: None,
            remote_size: Some(e.size),
            local_modtime: None,
            remote_modtime: e.mod_time,
        },
    }
}

/// Whether a file that differs is a conflict: only in a bisync, when both
/// its size and its modification time differ and both times are known and
/// not zero.
pub open spec fn is_conflict(dir: Direction, s: FileEntry, d: FileEntry) -> bool {
    dir == Direction::Bisync && s.size != d.size && mod_or_zero(s) != mod_or_zero(d)
        && mod_or_zero(s) != 0 && mod_or_zero(d) != 0
}

/// The side that changed a modified file: in a bisync the side with the
/// later modification time, else none.
pub open spec fn modified_side(dir: Direction, s: FileEntry, d: FileEntry) -> Option<Seq<char>> {
    if dir == Direction::Bisync && !is_conflict(dir, s, d) {
        if mod_or_zero(s) > mod_or_zero(d) {
            Some("local"@)
        } else if mod_or_zero(d) > mod_or_zero(s) {
            Some("remote"@)
        } else {
            None
        }
    } else {
        None
    }
}

/// The change for a file that both sides list and that differs.
pub open spec fn modified_change(
    dir: Direction,
    log_id: i64,
    path: Seq<char>,
    s: FileEntry,
    d: FileEntry,
) -> ChangeView {
    let change_type = if is_conflict(dir, s, d) { "conflict"@ } else { "modified"@ };
    let side = modified_side(dir, s, d);
    match dir {
        Direction::Download => ChangeView {
            log_id,
            file_path: path,
            change_type,
            side,
            local_size: Some(d.size),
            remote_size: Some(s.size),
            local_modtime: d.mod_time,
            remote_modtime: s.mod_time,
        },
        _ => ChangeView {
            log_id,
            file_path: path,
            change_type,
            side,
            local_size: Some(s.size),
            remote_size: Some(d.size),
            local_modtime: s.mod_time,
            remote_modtime: d.mod_time,
        },
    }
}

/// The added changes, in the order of the source listing.
pub open spec fn added_changes(
    dir: Direction,
    log_id: i64,
    src: Seq<(Seq<char>, FileEntry)>,
    dst: Map<Seq<char>, FileEntry>,
) -> Seq<ChangeView>
    decreases src.len(),
{
    if src.len() == 0 {
        Seq::empty()
    } else {
        let prev = added_changes(dir, log_id, src.drop_last(), dst);
        let (p, e) = src.last();
        if dst.contains_key(p) {
            prev
        } else {
            prev.push(added_change(dir, log_id, p, e))
        }
    }
}

/// The deleted changes, in the order of the destination listing.
pub open spec fn deleted_changes(
    dir: Direction,
    log_id: i64,
    dst: Seq<(Seq<char>, FileEntry)>,
    src: Map<Seq<char>, FileEntry>,
) -> Seq<ChangeView>
    decreases dst.len(),
{
    if dst.len() == 0 {
        Seq::empty()
    } else {
        let prev = deleted_changes(dir, log_id, dst.drop_last(), src);
        let (p, e) = dst.last();
        if src.contains_key(p) {
            prev
        } else {
            prev.push(deleted_change(dir, log_id, p, e))
        }
    }
}

/// The modified and conflicting changes, in the order of the source listing.
pub open spec fn modified_changes(
    dir: Direction,
    log_id: i64,
    src: Seq<(Seq<char>, FileEntry)>,
    dst: Map<Seq<char>, FileEntry>,
) -> Seq<ChangeView>
    decreases src.len(),
{
    if src.len() == 0 {
        Seq::empty()
    } else {
        let prev = modified_changes(dir, log_id, src.drop_last(), dst);
        let (p, e) = src.last();
        if dst.contains_key(p) && differs(e, dst[p]) {
            prev.push(modified_change(dir, log_id, p, e, dst[p]))
        } else {
            prev
        }
    }
}

/// All changes of a scan: added ones, then deleted ones, then modified ones.
pub open spec fn scan_changes(dir: Direction, log_id: i64, src: FileMap, dst: FileMap) -> Seq<ChangeView> {
    added_changes(dir, log_id, src.pairs(), dst@) + deleted_changes(dir, log_id, dst.pairs(), src@)
        + modified_changes(dir, log_id, src.pairs(), dst@)
}

/// The views of a sequence of changes.
pub open spec fn change_views(v: Seq<NewSyncChange>) -> Seq<ChangeView> {
    v.map_values(|c: NewSyncChange| c@)
}

fn text_of(s: &str) -> (r: String)
    ensures
        r@ == s@,
{
    s.to_owned()
}

fn make_added(dir: Direction, log_id: i64, path: &String, e: FileEntry) -> (c: NewSyncChange)
    ensures
        c@ == added_change(dir, log_id, path@, e),
{
    match dir {
        Direction::Download => NewSyncChange {
            log_id,
            file_path: path.clone(),
            change_type: text_of("added"),
            side: Some(text_of("remote")),
            local_size: None,
            remote_size: Some(e.size),
            local_modtime: None,
            remote_modtime: e.mod_time,
        },
        _ => NewSyncChange {
            log_id,
            file_path: path.clone(),
            change_type: text_of("added"),
            side: Some(text_of("local")),
            local_size: Some(e.size),
            remote_size: None,
            local_modtime: e.mod_time,
            remote_modtime: None,
        },
    }
}

fn make_deleted(dir: Direction, log_id: i64, path: &String, e: FileEntry) -> (c: NewSyncChange)
    ensures
        c@ == deleted_change(dir, log_id, path@, e),
{
    match dir {
        Direction::Download => NewSyncChange {
            log_id,
            file_path: path.clone(),
            change_type: text_of("deleted"),
            side: Some(text_of("local")),
            local_size: Some(e.size),
            remote_size: None,
            local_modtime: e.mod_time,
            remote_modtime: None,
        },
        _ => NewSyncChange {
            log_id,
            file_path: path.clone(),
            change_type: text_of("deleted"),
            side: Some(text_of("remote")),
            local_size: None,
            remote_size: Some(e.size),
            local_modtime: None,
            remote_modtime: e.mod_time,
        },
    }
}

fn make_modified(dir: Direction, log_id: i64, path: &String, s: FileEntry, d: FileEntry) -> (c:
    NewSyncChange)
    ensures
        c@ == modified_change(dir, log_id, path@, s, d),
{
    let src_mod = match s.mod_time {
        Some(t) => t,
        None => 0,
    };
    let dst_mod = match d.mod_time {
        Some(t) => t,
        None => 0,
    };
    let (change_type, side) = if dir == Direction::Bisync {
        if s.size != d.size && src_mod != dst_mod && src_mod != 0 && dst_mod != 0 {
            (text_of("conflict"), None)
        } else if src_mod > dst_mod {
            (text_of("modified"), Some(text_of("local")))
        } else if dst_mod > src_mod {
            (text_of("modified"), Some(text_of("remote")))
        } else {
            (text_of("modified"), None)
        }
    } else {
        (text_of("modified"), None)
    };
    match dir {
        Direction::Download => NewSyncChange {
            log_id,
            file_path: path.clone(),
            change_type,
            side,
            local_size: Some(d.size),
            remote_size: Some(s.size),
            local_modtime: d.mod_time,
            remote_modtime: s.mod_time,
        },
        _ => NewSyncChange {
            log_id,
            file_path: path.clone(),
            change_type,
            side,
            local_size: Some(s.size),
            remote_size: Some(d.size),
            local_modtime: s.mod_time,
            remote_modtime: d.mod_time,
        },
    }
}

/// The changes that a task in direction `dir` would make, found by comparing
/// the source listing `src` with the destination listing `dst`, each tagged
/// with the scan's `log_id`: a file only in the source is added, a file only
/// in the destination is deleted, and a file in both whose size or
/// modification time differs is modified (or, in a bisync, a conflict).
pub fn compute_changes(dir: Direction, log_id: i64, src: &FileMap, dst: &FileMap) -> (r: Vec<
    NewSyncChange,
>)
    requires
        src.wf(),
        dst.wf(),
    ensures
        change_views(r@) == scan_changes(dir, log_id, *src, *dst),
{
    let mut changes: Vec<NewSyncChange> = Vec::new();
    let n = src.len();
    let m = dst.len();
    let mut i: usize = 0;
    while i < n
        invariant
            n == src.pairs().len(),
            i <= n,
            src.wf(),
            dst.wf(),
            change_views(changes@) == added_changes(dir, log_id, src.pairs().take(i as int), dst@),
        decreases n - i,
    {
        let path = src.path_at(i);
        let e = src.entry_at(i);
        proof {
            assert(src.pairs().take(i + 1).drop_last() =~= src.pairs().take(i as int));
        }
        if !dst.contains(path.as_str()) {
            let c = make_added(dir, log_id, path, e);
            let ghost before = changes@;
            changes.push(c);
            proof {
                assert(change_views(changes@) =~= change_views(before).push(c@));
            }
        }
        i = i + 1;
    }
    proof {
        assert(src.pairs().take(n as int) =~= src.pairs());
    }
    let ghost added = change_views(changes@);
    let mut deleted: Vec<NewSyncChange> = Vec::new();
    let mut j: usize = 0;
    while j < m
        invariant
            m == dst.pairs().len(),
            j <= m,
            src.wf(),
            dst.wf(),
            change_views(deleted@) == deleted_changes(dir, log_id, dst.pairs().take(j as int), src@),
        decreases m - j,
    {
        let path = dst.path_at(j);
        let e = dst.entry_at(j);
        proof {
            assert(dst.pairs().take(j + 1).drop_last() =~= dst.pairs().take(j as int));
        }
        if !src.contains(path.as_str()) {
            let c = make_deleted(dir, log_id, path, e);
            let ghost before = deleted@;
            deleted.push(c);
            proof {
                assert(change_views(deleted@) =~= change_views(before).push(c@));
            }
        }
        j = j + 1;
    }
    proof {
        assert(dst.pairs().take(m as int) =~= dst.pairs());
    }
    let mut modified: Vec<NewSyncChange> = Vec::new();
    let mut k: usize = 0;
    while k < n
        invariant
            n == src.pairs().len(),
            k <= n,
            src.wf(),
            dst.wf(),
            change_views(modified@) == modified_changes(dir, log_id, src.pairs().take(k as int), dst@),
        decreases n - k,
    {
        let path = src.path_at(k);
        let s = src.entry_at(k);
        proof {
            assert(src.pairs().take(k + 1).drop_last() =~= src.pairs().take(k as int));
        }
        match dst.get(path.as_str()) {
            Some(d) => {
                let src_mod = match s.mod_time {
                    Some(t) => t,
                    None => 0,
                };
                let dst_mod = match d.mod_time {
                    Some(t) => t,
                    None => 0,
                };
                if s.size != d.size || src_mod != dst_mod {
                    let c = make_modified(dir, log_id, path, s, d);
                    let ghost before = modified@;
                    modified.push(c);
                    proof {
                        assert(change_views(modified@) =~= change_views(before).push(c@));
                    }
                }
            },
            None => {},
        }
        k = k + 1;
    }
    proof {
        assert(src.pairs().take(n as int) =~= src.pairs());
    }
    let ghost c0 = changes@;
    let ghost d0 = deleted@;
    changes.append(&mut deleted);
    let ghost c1 = changes@;
    let ghost m0 = modified@;
    changes.append(&mut modified);
    proof {
        assert(change_views(c1) =~= change_views(c0) + change_views(d0));
        assert(change_views(changes@) =~= change_views(c1) + change_views(m0));
    }
    changes
}

} // verus!
