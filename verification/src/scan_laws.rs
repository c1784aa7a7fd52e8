//! What the difference scan promises of every pair of listings: each listed
//! file yields at most one change, the kind of that change follows from
//! where the file is listed, and two equal listings yield no change.

use vstd::prelude::*;
use crate::diff::{added_change, added_changes, deleted_change, deleted_changes, differs, modified_change, modified_changes, scan_changes, Direction};
use crate::filemap::{FileMap, unique_paths};
use crate::models::{ChangeView, FileEntry};
use crate::task_run::{count_kind, scan_log};

verus! {

/// The changes made from the pairs of `s` that `keep` admits, in order.
spec fn collect(
    s: Seq<(Seq<char>, FileEntry)>,
    keep: spec_fn((Seq<char>, FileEntry)) -> bool,
    make: spec_fn((Seq<char>, FileEntry)) -> ChangeView,
) -> Seq<ChangeView>
    decreases s.len(),
{
    if s.len() == 0 {
        Seq::empty()
    } else {
        let prev = collect(s.drop_last(), keep, make);
        if keep(s.last()) {
            prev.push(make(s.last()))
        } else {
            prev
        }
    }
}

/// The position in `s` of the pair that made the `k`-th collected change.
spec fn origin(
    s: Seq<(Seq<char>, FileEntry)>,
    keep: spec_fn((Seq<char>, FileEntry)) -> bool,
    make: spec_fn((Seq<char>, FileEntry)) -> ChangeView,
    k: int,
) -> int
    decreases s.len(),
{
    if s.len() == 0 {
        0
    } else if k < collect(s.drop_last(), keep, make).len() {
        origin(s.drop_last(), keep, make, k)
    } else {
        s.len() - 1
    }
}

proof fn lemma_collect_at(
    s: Seq<(Seq<char>, FileEntry)>,
    keep: spec_fn((Seq<char>, FileEntry)) -> bool,
    make: spec_fn((Seq<char>, FileEntry)) -> ChangeView,
    k: int,
)
    requires
        0 <= k < collect(s, keep, make).len(),
    ensures
        0 <= origin(s, keep, make, k) < s.len(),
        keep(s[origin(s, keep, make, k)]),
        collect(s, keep, make)[k] == make(s[origin(s, keep, make, k)]),
    decreases s.len(),
{
    let p = s.drop_last();
    if k < collect(p, keep, make).len() {
        lemma_collect_at(p, keep, make, k);
        assert(s[origin(p, keep, make, k)] == p[origin(p, keep, make, k)]);
    }
}

proof fn lemma_collect(
    s: Seq<(Seq<char>, FileEntry)>,
    keep: spec_fn((Seq<char>, FileEntry)) -> bool,
    make: spec_fn((Seq<char>, FileEntry)) -> ChangeView,
)
    requires
        forall|pe: (Seq<char>, FileEntry)| #[trigger] make(pe).file_path == pe.0,
    ensures
        forall|i: int| 0 <= i < s.len() && keep(s[i]) ==> collect(s, keep, make).contains(
            #[trigger] make(s[i]),
        ),
        unique_paths(s) ==> forall|a: int, b: int|
            0 <= a < collect(s, keep, make).len() && 0 <= b < collect(s, keep, make).len() && a
                != b ==> #[trigger] collect(s, keep, make)[a].file_path
                != #[trigger] collect(s, keep, make)[b].file_path,
    decreases s.len(),
{
    if s.len() > 0 {
        let p = s.drop_last();
        lemma_collect(p, keep, make);
        let prev = collect(p, keep, make);
        assert forall|k: int| 0 <= k < prev.len() implies #[trigger] collect(s, keep, make)[k] == prev[k] by {}
        assert forall|i: int| 0 <= i < s.len() && keep(s[i]) implies collect(s, keep, make).contains(
            #[trigger] make(s[i]),
        ) by {
            if i < s.len() - 1 {
                assert(p[i] == s[i]);
                let k = choose|k: int| 0 <= k < prev.len() && prev[k] == make(p[i]);
                assert(collect(s, keep, make)[k] == prev[k]);
            } else {
                assert(collect(s, keep, make)[collect(s, keep, make).len() - 1] == make(s.last()));
            }
        }
        if unique_paths(s) {
            assert(unique_paths(p));
            assert forall|a: int, b: int|
                0 <= a < collect(s, keep, make).len() && 0 <= b < collect(s, keep, make).len() && a
                    != b implies #[trigger] collect(s, keep, make)[a].file_path
                    != #[trigger] collect(s, keep, make)[b].file_path by {
                let r = collect(s, keep, make);
                if a < prev.len() && b < prev.len() {
                    assert(r[a] == prev[a] && r[b] == prev[b]);
                } else if keep(s.last()) {
                    let (x, y) = if a < prev.len() { (a, b) } else { (b, a) };
                    assert(y == prev.len());
                    lemma_collect_at(p, keep, make, x);
                    let i = origin(p, keep, make, x);
                    assert(prev[x] == make(p[i]));
                    assert(r[x].file_path == p[i].0);
                    assert(r[y].file_path == s.last().0);
                    assert(s[i] == p[i]);
                    assert(s[i].0 != s[s.len() - 1].0);
                }
            }
        }
    }
}

proof fn lemma_added_is_collect(
    dir: Direction,
    log_id: i64,
    s: Seq<(Seq<char>, FileEntry)>,
    dst: Map<Seq<char>, FileEntry>,
)
    ensures
        added_changes(dir, log_id, s, dst) == collect(
            s,
            |pe: (Seq<char>, FileEntry)| !dst.contains_key(pe.0),
            |pe: (Seq<char>, FileEntry)| added_change(dir, log_id, pe.0, pe.1),
        ),
    decreases s.len(),
{
    if s.len() > 0 {
        lemma_added_is_collect(dir, log_id, s.drop_last(), dst);
    }
}

proof fn lemma_deleted_is_collect(
    dir: Direction,
    log_id: i64,
    s: Seq<(Seq<char>, FileEntry)>,
    src: Map<Seq<char>, FileEntry>,
)
    ensures
        deleted_changes(dir, log_id, s, src) == collect(
            s,
            |pe: (Seq<char>, FileEntry)| !src.contains_key(pe.0),
            |pe: (Seq<char>, FileEntry)| deleted_change(dir, log_id, pe.0, pe.1),
        ),
    decreases s.len(),
{
    if s.len() > 0 {
        lemma_deleted_is_collect(dir, log_id, s.drop_last(), src);
    }
}

proof fn lemma_modified_is_collect(
    dir: Direction,
    log_id: i64,
    s: Seq<(Seq<char>, FileEntry)>,
    dst: Map<Seq<char>, FileEntry>,
)
    ensures
        modified_changes(dir, log_id, s, dst) == collect(
            s,
            |pe: (Seq<char>, FileEntry)| dst.contains_key(pe.0) && differs(pe.1, dst[pe.0]),
            |pe: (Seq<char>, FileEntry)| modified_change(dir, log_id, pe.0, pe.1, dst[pe.0]),
        ),
    decreases s.len(),
{
    if s.len() > 0 {
        lemma_modified_is_collect(dir, log_id, s.drop_last(), dst);
    }
}

/// Where each change of a scan comes from: every change concerns a listed
/// file; an added change concerns a file that only the source lists, a
/// deleted change a file that only the destination lists, and any other
/// change a file that both list and that differs.
proof fn lemma_scan_members(dir: Direction, log_id: i64, src: FileMap, dst: FileMap)
    requires
        src.wf(),
        dst.wf(),
    ensures
        ({
            let a = added_changes(dir, log_id, src.pairs(), dst@);
            let d = deleted_changes(dir, log_id, dst.pairs(), src@);
            let m = modified_changes(dir, log_id, src.pairs(), dst@);
            &&& forall|k: int| 0 <= k < a.len() ==> src@.contains_key(#[trigger] a[k].file_path)
                && !dst@.contains_key(a[k].file_path) && a[k] == added_change(
                dir,
                log_id,
                a[k].file_path,
                src@[a[k].file_path],
            )
            &&& forall|k: int| 0 <= k < d.len() ==> dst@.contains_key(#[trigger] d[k].file_path)
                && !src@.contains_key(d[k].file_path) && d[k] == deleted_change(
                dir,
                log_id,
                d[k].file_path,
                dst@[d[k].file_path],
            )
            &&& forall|k: int| 0 <= k < m.len() ==> src@.contains_key(#[trigger] m[k].file_path)
                && dst@.contains_key(m[k].file_path) && differs(
                src@[m[k].file_path],
                dst@[m[k].file_path],
            ) && m[k] == modified_change(
                dir,
                log_id,
                m[k].file_path,
                src@[m[k].file_path],
                dst@[m[k].file_path],
            )
            &&& forall|a1: int, b1: int|
                0 <= a1 < a.len() && 0 <= b1 < a.len() && a1 != b1 ==> #[trigger] a[a1].file_path
                    != #[trigger] a[b1].file_path
            &&& forall|a1: int, b1: int|
                0 <= a1 < d.len() && 0 <= b1 < d.len() && a1 != b1 ==> #[trigger] d[a1].file_path
                    != #[trigger] d[b1].file_path
            &&& forall|a1: int, b1: int|
                0 <= a1 < m.len() && 0 <= b1 < m.len() && a1 != b1 ==> #[trigger] m[a1].file_path
                    != #[trigger] m[b1].file_path
            &&& forall|i: int|
                0 <= i < src.pairs().len() && !dst@.contains_key(src.pairs()[i].0) ==> a.contains(
                    added_change(dir, log_id, src.pairs()[i].0, #[trigger] src.pairs()[i].1),
                )
            &&& forall|i: int|
                0 <= i < dst.pairs().len() && !src@.contains_key(dst.pairs()[i].0) ==> d.contains(
                    deleted_change(dir, log_id, dst.pairs()[i].0, #[trigger] dst.pairs()[i].1),
                )
            &&& forall|i: int|
                0 <= i < src.pairs().len() && dst@.contains_key(src.pairs()[i].0) && differs(
                    src.pairs()[i].1,
                    dst@[src.pairs()[i].0],
                ) ==> m.contains(
                    modified_change(
                        dir,
                        log_id,
                        src.pairs()[i].0,
                        #[trigger] src.pairs()[i].1,
                        dst@[src.pairs()[i].0],
                    ),
                )
        }),
{
    src.lemma_wf();
    dst.lemma_wf();
    let dm = dst@;
    let sm = src@;
    let keep_a = |pe: (Seq<char>, FileEntry)| !dm.contains_key(pe.0);
    let make_a = |pe: (Seq<char>, FileEntry)| added_change(dir, log_id, pe.0, pe.1);
    let keep_d = |pe: (Seq<char>, FileEntry)| !sm.contains_key(pe.0);
    let make_d = |pe: (Seq<char>, FileEntry)| deleted_change(dir, log_id, pe.0, pe.1);
    let keep_m = |pe: (Seq<char>, FileEntry)| dm.contains_key(pe.0) && differs(pe.1, dm[pe.0]);
    let make_m = |pe: (Seq<char>, FileEntry)| modified_change(dir, log_id, pe.0, pe.1, dm[pe.0]);
    lemma_added_is_collect(dir, log_id, src.pairs(), dm);
    lemma_deleted_is_collect(dir, log_id, dst.pairs(), sm);
    lemma_modified_is_collect(dir, log_id, src.pairs(), dm);
    assert forall|pe: (Seq<char>, FileEntry)| #[trigger] make_a(pe).file_path == pe.0 by {}
    assert forall|pe: (Seq<char>, FileEntry)| #[trigger] make_d(pe).file_path == pe.0 by {}
    assert forall|pe: (Seq<char>, FileEntry)| #[trigger] make_m(pe).file_path == pe.0 by {}
    lemma_collect(src.pairs(), keep_a, make_a);
    lemma_collect(dst.pairs(), keep_d, make_d);
    lemma_collect(src.pairs(), keep_m, make_m);
    let a = added_changes(dir, log_id, src.pairs(), dm);
    let d = deleted_changes(dir, log_id, dst.pairs(), sm);
    let m = modified_changes(dir, log_id, src.pairs(), dm);
    assert forall|k: int| 0 <= k < a.len() implies src@.contains_key(#[trigger] a[k].file_path)
        && !dst@.contains_key(a[k].file_path) && a[k] == added_change(
        dir,
        log_id,
        a[k].file_path,
        src@[a[k].file_path],
    ) by {
        lemma_collect_at(src.pairs(), keep_a, make_a, k);
        let i = origin(src.pairs(), keep_a, make_a, k);
        assert(src@[src.pairs()[i].0] == src.pairs()[i].1);
    }
    assert forall|k: int| 0 <= k < d.len() implies dst@.contains_key(#[trigger] d[k].file_path)
        && !src@.contains_key(d[k].file_path) && d[k] == deleted_change(
        dir,
        log_id,
        d[k].file_path,
        dst@[d[k].file_path],
    ) by {
        lemma_collect_at(dst.pairs(), keep_d, make_d, k);
        let i = origin(dst.pairs(), keep_d, make_d, k);
        assert(dst@[dst.pairs()[i].0] == dst.pairs()[i].1);
    }
    assert forall|k: int| 0 <= k < m.len() implies src@.contains_key(#[trigger] m[k].file_path)
        && dst@.contains_key(m[k].file_path) && differs(
        src@[m[k].file_path],
        dst@[m[k].file_path],
    ) && m[k] == modified_change(
        dir,
        log_id,
        m[k].file_path,
        src@[m[k].file_path],
        dst@[m[k].file_path],
    ) by {
        lemma_collect_at(src.pairs(), keep_m, make_m, k);
        let i = origin(src.pairs(), keep_m, make_m, k);
        assert(src@[src.pairs()[i].0] == src.pairs()[i].1);
    }
    assert forall|i: int|
        0 <= i < src.pairs().len() && !dst@.contains_key(src.pairs()[i].0) implies a.contains(
        added_change(dir, log_id, src.pairs()[i].0, #[trigger] src.pairs()[i].1),
    ) by {
        assert(keep_a(src.pairs()[i]));
        assert(a.contains(make_a(src.pairs()[i])));
    }
    assert forall|i: int|
        0 <= i < dst.pairs().len() && !src@.contains_key(dst.pairs()[i].0) implies d.contains(
        deleted_change(dir, log_id, dst.pairs()[i].0, #[trigger] dst.pairs()[i].1),
    ) by {
        assert(keep_d(dst.pairs()[i]));
        assert(d.contains(make_d(dst.pairs()[i])));
    }
    assert forall|i: int|
        0 <= i < src.pairs().len() && dst@.contains_key(src.pairs()[i].0) && differs(
            src.pairs()[i].1,
            dst@[src.pairs()[i].0],
        ) implies m.contains(
        modified_change(
            dir,
            log_id,
            src.pairs()[i].0,
            #[trigger] src.pairs()[i].1,
            dst@[src.pairs()[i].0],
        ),
    ) by {
        assert(keep_m(src.pairs()[i]));
        assert(m.contains(make_m(src.pairs()[i])));
    }
}

} // verus!

verus! {

/// A scan yields at most one change per file: no two of its changes
/// concern the same path.
pub proof fn law_scan_one_change_per_file(dir: Direction, log_id: i64, src: FileMap, dst: FileMap)
    requires
        src.wf(),
        dst.wf(),
    ensures
        forall|a: int, b: int|
            0 <= a < scan_changes(dir, log_id, src, dst).len() && 0 <= b < scan_changes(
                dir,
                log_id,
                src,
                dst,
            ).len() && a != b ==> #[trigger] scan_changes(dir, log_id, src, dst)[a].file_path
                != #[trigger] scan_changes(dir, log_id, src, dst)[b].file_path,
{
    lemma_scan_members(dir, log_id, src, dst);
    let a = added_changes(dir, log_id, src.pairs(), dst@);
    let d = deleted_changes(dir, log_id, dst.pairs(), src@);
    let m = modified_changes(dir, log_id, src.pairs(), dst@);
    let all = scan_changes(dir, log_id, src, dst);
    assert(all == a + d + m);
    assert forall|x: int, y: int| 0 <= x < all.len() && 0 <= y < all.len() && x != y implies #[trigger] all[x].file_path
        != #[trigger] all[y].file_path by {
        let na = a.len() as int;
        let nd = d.len() as int;
        if x < na {
            assert(all[x] == a[x]);
        } else if x < na + nd {
            assert(all[x] == d[x - na]);
        } else {
            assert(all[x] == m[x - na - nd]);
        }
        if y < na {
            assert(all[y] == a[y]);
        } else if y < na + nd {
            assert(all[y] == d[y - na]);
        } else {
            assert(all[y] == m[y - na - nd]);
        }
    }
}

/// What a scan makes of one path `p`: a file only the source lists is
/// added, a file only the destination lists is deleted, a file both list
/// is modified (or a conflict) when its size or modification time differs,
/// and any other path has no change.
pub proof fn law_scan_classifies(
    dir: Direction,
    log_id: i64,
    src: FileMap,
    dst: FileMap,
    p: Seq<char>,
)
    requires
        src.wf(),
        dst.wf(),
    ensures
        src@.contains_key(p) && !dst@.contains_key(p) ==> scan_changes(
            dir,
            log_id,
            src,
            dst,
        ).contains(added_change(dir, log_id, p, src@[p])),
        !src@.contains_key(p) && dst@.contains_key(p) ==> scan_changes(
            dir,
            log_id,
            src,
            dst,
        ).contains(deleted_change(dir, log_id, p, dst@[p])),
        src@.contains_key(p) && dst@.contains_key(p) && differs(src@[p], dst@[p])
            ==> scan_changes(dir, log_id, src, dst).contains(
            modified_change(dir, log_id, p, src@[p], dst@[p]),
        ),
        (!src@.contains_key(p) && !dst@.contains_key(p)) || (src@.contains_key(p)
            && dst@.contains_key(p) && !differs(src@[p], dst@[p])) ==> forall|k: int|
            0 <= k < scan_changes(dir, log_id, src, dst).len() ==> #[trigger] scan_changes(
                dir,
                log_id,
                src,
                dst,
            )[k].file_path != p,
{
    lemma_scan_members(dir, log_id, src, dst);
    src.lemma_wf();
    dst.lemma_wf();
    let a = added_changes(dir, log_id, src.pairs(), dst@);
    let d = deleted_changes(dir, log_id, dst.pairs(), src@);
    let m = modified_changes(dir, log_id, src.pairs(), dst@);
    let all = scan_changes(dir, log_id, src, dst);
    assert(all == a + d + m);
    let na = a.len() as int;
    let nd = d.len() as int;
    if src@.contains_key(p) {
        let i = choose|i: int| 0 <= i < src.pairs().len() && src.pairs()[i].0 == p;
        assert(src@[src.pairs()[i].0] == src.pairs()[i].1);
        if !dst@.contains_key(p) {
            assert(a.contains(added_change(dir, log_id, p, src.pairs()[i].1)));
            let k = choose|k: int| 0 <= k < a.len() && a[k] == added_change(dir, log_id, p, src.pairs()[i].1);
            assert(all[k] == a[k]);
        } else if differs(src@[p], dst@[p]) {
            assert(m.contains(modified_change(dir, log_id, p, src.pairs()[i].1, dst@[p])));
            let k = choose|k: int| 0 <= k < m.len() && m[k] == modified_change(dir, log_id, p, src.pairs()[i].1, dst@[p]);
            assert(all[na + nd + k] == m[k]);
        }
    } else if dst@.contains_key(p) {
        let i = choose|i: int| 0 <= i < dst.pairs().len() && dst.pairs()[i].0 == p;
        assert(dst@[dst.pairs()[i].0] == dst.pairs()[i].1);
        assert(d.contains(deleted_change(dir, log_id, p, dst.pairs()[i].1)));
        let k = choose|k: int| 0 <= k < d.len() && d[k] == deleted_change(dir, log_id, p, dst.pairs()[i].1);
        assert(all[na + k] == d[k]);
    }
    if (!src@.contains_key(p) && !dst@.contains_key(p)) || (src@.contains_key(p)
        && dst@.contains_key(p) && !differs(src@[p], dst@[p])) {
        assert forall|k: int| 0 <= k < all.len() implies #[trigger] all[k].file_path != p by {
            if k < na {
                assert(all[k] == a[k]);
            } else if k < na + nd {
                assert(all[k] == d[k - na]);
            } else {
                assert(all[k] == m[k - na - nd]);
            }
        }
    }
}

/// Two listings with the same files, sizes and modification times yield no
/// change at all.
pub proof fn law_scan_equal_listings(dir: Direction, log_id: i64, src: FileMap, dst: FileMap)
    requires
        src.wf(),
        dst.wf(),
        src@ == dst@,
    ensures
        scan_changes(dir, log_id, src, dst).len() == 0,
{
    let all = scan_changes(dir, log_id, src, dst);
    if all.len() > 0 {
        let p = all[0].file_path;
        lemma_scan_members(dir, log_id, src, dst);
        let a = added_changes(dir, log_id, src.pairs(), dst@);
        let d = deleted_changes(dir, log_id, dst.pairs(), src@);
        let m = modified_changes(dir, log_id, src.pairs(), dst@);
        assert(all == a + d + m);
        if a.len() > 0 {
            assert(all[0] == a[0]);
        } else if d.len() > 0 {
            assert(all[0] == d[0]);
        } else {
            assert(all[0] == m[0]);
        }
    }
}

} // verus!

verus! {

/// The other side's name: `"local"` and `"remote"` swap.
pub open spec fn other_side(side: Option<Seq<char>>) -> Option<Seq<char>> {
    match side {
        Some(s) => if s == "local"@ {
            Some("remote"@)
        } else if s == "remote"@ {
            Some("local"@)
        } else {
            side
        },
        None => None,
    }
}

/// A change seen from the other side: local and remote sizes, times and
/// sides swapped.
pub open spec fn mirrored(c: ChangeView) -> ChangeView {
    ChangeView {
        log_id: c.log_id,
        file_path: c.file_path,
        change_type: c.change_type,
        side: other_side(c.side),
        local_size: c.remote_size,
        remote_size: c.local_size,
        local_modtime: c.remote_modtime,
        remote_modtime: c.local_modtime,
    }
}

proof fn lemma_side_names()
    ensures
        other_side(Some("local"@)) == Some("remote"@),
        other_side(Some("remote"@)) == Some("local"@),
{
    reveal_strlit("local");
    reveal_strlit("remote");
    assert("remote"@.len() != "local"@.len());
}

proof fn lemma_mirror_added(log_id: i64, s: Seq<(Seq<char>, FileEntry)>, dst: Map<Seq<char>, FileEntry>)
    ensures
        added_changes(Direction::Download, log_id, s, dst) == added_changes(
            Direction::Upload,
            log_id,
            s,
            dst,
        ).map_values(|c: ChangeView| mirrored(c)),
    decreases s.len(),
{
    lemma_side_names();
    if s.len() > 0 {
        lemma_mirror_added(log_id, s.drop_last(), dst);
        let up = added_changes(Direction::Upload, log_id, s.drop_last(), dst);
        let (p, e) = s.last();
        assert(up.push(added_change(Direction::Upload, log_id, p, e)).map_values(
            |c: ChangeView| mirrored(c),
        ) =~= up.map_values(|c: ChangeView| mirrored(c)).push(
            mirrored(added_change(Direction::Upload, log_id, p, e)),
        ));
    } else {
        assert(Seq::<ChangeView>::empty().map_values(|c: ChangeView| mirrored(c)) =~= Seq::<
            ChangeView,
        >::empty());
    }
}

proof fn lemma_mirror_deleted(log_id: i64, s: Seq<(Seq<char>, FileEntry)>, src: Map<Seq<char>, FileEntry>)
    ensures
        deleted_changes(Direction::Download, log_id, s, src) == deleted_changes(
            Direction::Upload,
            log_id,
            s,
            src,
        ).map_values(|c: ChangeView| mirrored(c)),
    decreases s.len(),
{
    lemma_side_names();
    if s.len() > 0 {
        lemma_mirror_deleted(log_id, s.drop_last(), src);
        let up = deleted_changes(Direction::Upload, log_id, s.drop_last(), src);
        let (p, e) = s.last();
        assert(up.push(deleted_change(Direction::Upload, log_id, p, e)).map_values(
            |c: ChangeView| mirrored(c),
        ) =~= up.map_values(|c: ChangeView| mirrored(c)).push(
            mirrored(deleted_change(Direction::Upload, log_id, p, e)),
        ));
    } else {
        assert(Seq::<ChangeView>::empty().map_values(|c: ChangeView| mirrored(c)) =~= Seq::<
            ChangeView,
        >::empty());
    }
}

proof fn lemma_mirror_modified(log_id: i64, s: Seq<(Seq<char>, FileEntry)>, dst: Map<Seq<char>, FileEntry>)
    ensures
        modified_changes(Direction::Download, log_id, s, dst) == modified_changes(
            Direction::Upload,
            log_id,
            s,
            dst,
        ).map_values(|c: ChangeView| mirrored(c)),
    decreases s.len(),
{
    if s.len() > 0 {
        lemma_mirror_modified(log_id, s.drop_last(), dst);
        let up = modified_changes(Direction::Upload, log_id, s.drop_last(), dst);
        let (p, e) = s.last();
        if dst.contains_key(p) {
            assert(up.push(modified_change(Direction::Upload, log_id, p, e, dst[p])).map_values(
                |c: ChangeView| mirrored(c),
            ) =~= up.map_values(|c: ChangeView| mirrored(c)).push(
                mirrored(modified_change(Direction::Upload, log_id, p, e, dst[p])),
            ));
        }
    } else {
        assert(Seq::<ChangeView>::empty().map_values(|c: ChangeView| mirrored(c)) =~= Seq::<
            ChangeView,
        >::empty());
    }
}

/// A download scan is the upload scan of the same two listings seen from
/// the other side: the same changes in the same order, with local and
/// remote sizes, times and sides swapped.
pub proof fn law_download_mirrors_upload(log_id: i64, src: FileMap, dst: FileMap)
    ensures
        scan_changes(Direction::Download, log_id, src, dst) == scan_changes(
            Direction::Upload,
            log_id,
            src,
            dst,
        ).map_values(|c: ChangeView| mirrored(c)),
{
    lemma_mirror_added(log_id, src.pairs(), dst@);
    lemma_mirror_deleted(log_id, dst.pairs(), src@);
    lemma_mirror_modified(log_id, src.pairs(), dst@);
    let a = added_changes(Direction::Upload, log_id, src.pairs(), dst@);
    let d = deleted_changes(Direction::Upload, log_id, dst.pairs(), src@);
    let m = modified_changes(Direction::Upload, log_id, src.pairs(), dst@);
    assert((a + d + m).map_values(|c: ChangeView| mirrored(c)) =~= a.map_values(
        |c: ChangeView| mirrored(c),
    ) + d.map_values(|c: ChangeView| mirrored(c)) + m.map_values(|c: ChangeView| mirrored(c)));
}


proof fn lemma_count_concat(x: Seq<ChangeView>, y: Seq<ChangeView>, k: Seq<char>)
    ensures
        count_kind(x + y, k) == count_kind(x, k) + count_kind(y, k),
    decreases y.len(),
{
    if y.len() == 0 {
        assert(x + y =~= x);
    } else {
        lemma_count_concat(x, y.drop_last(), k);
        assert((x + y).drop_last() =~= x + y.drop_last());
        assert((x + y).last() == y.last());
    }
}

proof fn lemma_count_uniform(v: Seq<ChangeView>, k: Seq<char>, j: Seq<char>)
    requires
        forall|i: int| 0 <= i < v.len() ==> #[trigger] v[i].change_type == k,
    ensures
        count_kind(v, k) == v.len(),
        k != j ==> count_kind(v, j) == 0,
    decreases v.len(),
{
    if v.len() > 0 {
        assert forall|i: int| 0 <= i < v.drop_last().len() implies #[trigger] v.drop_last()[i].change_type
            == k by {
            assert(v.drop_last()[i] == v[i]);
        }
        lemma_count_uniform(v.drop_last(), k, j);
        assert(v.last() == v[v.len() - 1]);
    }
}

proof fn lemma_count_two(v: Seq<ChangeView>, k1: Seq<char>, k2: Seq<char>, j: Seq<char>)
    requires
        k1 != k2,
        j != k1,
        j != k2,
        forall|i: int| 0 <= i < v.len() ==> #[trigger] v[i].change_type == k1 || v[i].change_type == k2,
    ensures
        count_kind(v, k1) + count_kind(v, k2) == v.len(),
        count_kind(v, j) == 0,
    decreases v.len(),
{
    if v.len() > 0 {
        assert forall|i: int| 0 <= i < v.drop_last().len() implies #[trigger] v.drop_last()[i].change_type
            == k1 || v.drop_last()[i].change_type == k2 by {
            assert(v.drop_last()[i] == v[i]);
        }
        lemma_count_two(v.drop_last(), k1, k2, j);
        assert(v.last() == v[v.len() - 1]);
    }
}

/// The log of a scan counts its changes exactly: the files that only the
/// source lists as added, those that only the destination lists as
/// deleted, and those both list that differ as modified (conflicts
/// included); together they are every change the scan found.
pub proof fn law_scan_log_counts(dir: Direction, log_id: i64, src: FileMap, dst: FileMap)
    requires
        src.wf(),
        dst.wf(),
        scan_changes(dir, log_id, src, dst).len() <= i64::MAX,
    ensures
        scan_log(scan_changes(dir, log_id, src, dst)).added_count == added_changes(
            dir,
            log_id,
            src.pairs(),
            dst@,
        ).len(),
        scan_log(scan_changes(dir, log_id, src, dst)).deleted_count == deleted_changes(
            dir,
            log_id,
            dst.pairs(),
            src@,
        ).len(),
        scan_log(scan_changes(dir, log_id, src, dst)).modified_count == modified_changes(
            dir,
            log_id,
            src.pairs(),
            dst@,
        ).len(),
        scan_log(scan_changes(dir, log_id, src, dst)).added_count + scan_log(
            scan_changes(dir, log_id, src, dst),
        ).modified_count + scan_log(scan_changes(dir, log_id, src, dst)).deleted_count == scan_log(
            scan_changes(dir, log_id, src, dst),
        ).total_files,
{
    lemma_scan_members(dir, log_id, src, dst);
    let a = added_changes(dir, log_id, src.pairs(), dst@);
    let d = deleted_changes(dir, log_id, dst.pairs(), src@);
    let m = modified_changes(dir, log_id, src.pairs(), dst@);
    let v = scan_changes(dir, log_id, src, dst);
    assert(v == a + d + m);
    let ka = "added"@;
    let kd = "deleted"@;
    let km = "modified"@;
    let kc = "conflict"@;
    reveal_strlit("added");
    reveal_strlit("deleted");
    reveal_strlit("modified");
    reveal_strlit("conflict");
    assert(ka[0] == 'a' && kd[0] == 'd' && km[0] == 'm' && kc[0] == 'c');
    assert(ka != kd && ka != km && ka != kc && kd != km && kd != kc && km != kc);
    assert forall|i: int| 0 <= i < a.len() implies #[trigger] a[i].change_type == ka by {
        assert(a[i] == added_change(dir, log_id, a[i].file_path, src@[a[i].file_path]));
    }
    assert forall|i: int| 0 <= i < d.len() implies #[trigger] d[i].change_type == kd by {
        assert(d[i] == deleted_change(dir, log_id, d[i].file_path, dst@[d[i].file_path]));
    }
    assert forall|i: int| 0 <= i < m.len() implies #[trigger] m[i].change_type == km
        || m[i].change_type == kc by {
        assert(m[i] == modified_change(
            dir,
            log_id,
            m[i].file_path,
            src@[m[i].file_path],
            dst@[m[i].file_path],
        ));
    }
    lemma_count_uniform(a, ka, kd);
    lemma_count_uniform(a, ka, km);
    lemma_count_uniform(a, ka, kc);
    lemma_count_uniform(d, kd, ka);
    lemma_count_uniform(d, kd, km);
    lemma_count_uniform(d, kd, kc);
    lemma_count_two(m, km, kc, ka);
    lemma_count_two(m, km, kc, kd);
    lemma_count_concat(a, d, ka);
    lemma_count_concat(a, d, kd);
    lemma_count_concat(a, d, km);
    lemma_count_concat(a, d, kc);
    lemma_count_concat(a + d, m, ka);
    lemma_count_concat(a + d, m, kd);
    lemma_count_concat(a + d, m, km);
    lemma_count_concat(a + d, m, kc);
}

/// The modification time of `e` as the scan compares it: 0 where unknown.
pub open spec fn time_or_zero(e: FileEntry) -> i64 {
    match e.mod_time {
        Some(t) => t,
        None => 0,
    }
}

/// What a scan records of each file, by where it is listed. The source of
/// an upload or a bisync is the local directory and its destination the
/// remote; a download is the other way round.
/// - A file only the source lists is added, on the source's side, with the
///   source's size and time on that side and nothing on the other.
/// - A file only the destination lists is deleted, on the destination's
///   side, with the destination's size and time on that side and nothing
///   on the other.
/// - A file both list whose size or time (0 where unknown) differs is
///   modified, with each side's size and time on its own side. In a bisync
///   it is a conflict where both its size and its time differ and both
///   times are known and not 0; otherwise a bisync's change is on the side
///   with the later time (none where the times are equal), and an upload's
///   or a download's change is on no side.
pub proof fn law_scan_change_fields(
    dir: Direction,
    log_id: i64,
    src: FileMap,
    dst: FileMap,
    p: Seq<char>,
)
    requires
        src.wf(),
        dst.wf(),
    ensures
        src@.contains_key(p) && !dst@.contains_key(p) && dir != Direction::Download ==> scan_changes(
            dir,
            log_id,
            src,
            dst,
        ).contains(
            ChangeView {
                log_id,
                file_path: p,
                change_type: "added"@,
                side: Some("local"@),
                local_size: Some(src@[p].size),
                remote_size: None,
                local_modtime: src@[p].mod_time,
                remote_modtime: None,
            },
        ),
        src@.contains_key(p) && !dst@.contains_key(p) && dir == Direction::Download ==> scan_changes(
            dir,
            log_id,
            src,
            dst,
        ).contains(
            ChangeView {
                log_id,
                file_path: p,
                change_type: "added"@,
                side: Some("remote"@),
                local_size: None,
                remote_size: Some(src@[p].size),
                local_modtime: None,
                remote_modtime: src@[p].mod_time,
            },
        ),
        !src@.contains_key(p) && dst@.contains_key(p) && dir != Direction::Download ==> scan_changes(
            dir,
            log_id,
            src,
            dst,
        ).contains(
            ChangeView {
                log_id,
                file_path: p,
                change_type: "deleted"@,
                side: Some("remote"@),
                local_size: None,
                remote_size: Some(dst@[p].size),
                local_modtime: None,
                remote_modtime: dst@[p].mod_time,
            },
        ),
        !src@.contains_key(p) && dst@.contains_key(p) && dir == Direction::Download ==> scan_changes(
            dir,
            log_id,
            src,
            dst,
        ).contains(
            ChangeView {
                log_id,
                file_path: p,
                change_type: "deleted"@,
                side: Some("local"@),
                local_size: Some(dst@[p].size),
                remote_size: None,
                local_modtime: dst@[p].mod_time,
                remote_modtime: None,
            },
        ),
        src@.contains_key(p) && dst@.contains_key(p) && (src@[p].size != dst@[p].size || time_or_zero(
            src@[p],
        ) != time_or_zero(dst@[p])) ==> ({
            let s = src@[p];
            let d = dst@[p];
            let conflict = dir == Direction::Bisync && s.size != d.size && time_or_zero(s)
                != time_or_zero(d) && time_or_zero(s) != 0 && time_or_zero(d) != 0;
            let side = if dir == Direction::Bisync && !conflict {
                if time_or_zero(s) > time_or_zero(d) {
                    Some("local"@)
                } else if time_or_zero(d) > time_or_zero(s) {
                    Some("remote"@)
                } else {
                    None
                }
            } else {
                None
            };
            let (local, remote) = if dir == Direction::Download { (d, s) } else { (s, d) };
            scan_changes(dir, log_id, src, dst).contains(
                ChangeView {
                    log_id,
                    file_path: p,
                    change_type: if conflict { "conflict"@ } else { "modified"@ },
                    side,
                    local_size: Some(local.size),
                    remote_size: Some(remote.size),
                    local_modtime: local.mod_time,
                    remote_modtime: remote.mod_time,
                },
            )
        }),
{
    law_scan_classifies(dir, log_id, src, dst, p);
}

} // verus!
