//! The recursive listing of a file system through the remote control API:
//! a walk over directories that, for each directory it is given the
//! listing of, records the files and queues the subdirectories.

use vstd::prelude::*;
use crate::filemap::FileMap;
use crate::models::FileEntry;
use crate::rc_reply::or_default;
use crate::rc_value::{RcValue, field, bool_of, int_of, text_of, items_of, field_items};
use crate::text::{joined_path, join_remote_path};

verus! {

/// The unix time (seconds) that chrono reads from `s` as an RFC 3339 date
/// and time, where it reads one.
pub uninterp spec fn rfc3339_seconds(s: Seq<char>) -> Option<i64>;

/// The unix time (seconds) that chrono reads from `s` as a date and time in
/// UTC written in the strftime format `fmt`, where it reads one.
pub uninterp spec fn utc_format_seconds(s: Seq<char>, fmt: Seq<char>) -> Option<i64>;

/// Calls `chrono::DateTime::parse_from_rfc3339` and takes the parsed time's
/// `timestamp()`. Claimed: the result is a function of `s` alone, named
/// `rfc3339_seconds`; nothing more is stated of it.
#[verifier::external_body]
fn parse_rfc3339_seconds(s: &str) -> (r: Option<i64>)
    ensures
        r == rfc3339_seconds(s@),
{
    match chrono::DateTime::parse_from_rfc3339(s) {
        Ok(dt) => Some(dt.timestamp()),
        Err(_) => None,
    }
}

/// Calls `chrono::NaiveDateTime::parse_from_str` and takes the parsed time's
/// `and_utc().timestamp()`. Claimed: the result is a function of `s` and
/// `fmt` alone, named `utc_format_seconds`; nothing more is stated of it.
#[verifier::external_body]
fn parse_utc_format_seconds(s: &str, fmt: &str) -> (r: Option<i64>)
    ensures
        r == utc_format_seconds(s@, fmt@),
{
    match chrono::NaiveDateTime::parse_from_str(s, fmt) {
        Ok(dt) => Some(dt.and_utc().timestamp()),
        Err(_) => None,
    }
}

/// The unix time of an ISO 8601 modification time as rclone lists it: read
/// as RFC 3339, else as `%Y-%m-%dT%H:%M:%S%.fZ`, else as `%Y-%m-%dT%H:%M:%SZ`.
pub open spec fn iso8601_seconds(s: Seq<char>) -> Option<i64> {
    if rfc3339_seconds(s) is Some {
        rfc3339_seconds(s)
    } else if utc_format_seconds(s, "%Y-%m-%dT%H:%M:%S%.fZ"@) is Some {
        utc_format_seconds(s, "%Y-%m-%dT%H:%M:%S%.fZ"@)
    } else {
        utc_format_seconds(s, "%Y-%m-%dT%H:%M:%SZ"@)
    }
}

/// The unix time (seconds) of an ISO 8601 date and time, where one of the
/// accepted forms reads it.
pub fn parse_iso8601_to_unix(s: &str) -> (r: Option<i64>)
    ensures
        r == iso8601_seconds(s@),
{
    let a = parse_rfc3339_seconds(s);
    if a.is_some() {
        return a;
    }
    let b = parse_utc_format_seconds(s, "%Y-%m-%dT%H:%M:%S%.fZ");
    if b.is_some() {
        return b;
    }
    parse_utc_format_seconds(s, "%Y-%m-%dT%H:%M:%SZ")
}

/// The items of a listing reply: its `list` array, none where it has none.
pub open spec fn listed_items(reply: RcValue) -> Seq<RcValue> {
    or_default(items_of(field(reply, "list"@)), Seq::empty())
}

/// Whether a listed item is a directory (`IsDir`, `false` where unreadable).
pub open spec fn item_is_dir(item: RcValue) -> bool {
    or_default(bool_of(field(item, "IsDir"@)), false)
}

/// The name of a listed item (`Name`, empty where unreadable).
pub open spec fn item_name(item: RcValue) -> Seq<char> {
    or_default(text_of(field(item, "Name"@)), Seq::empty())
}

/// The entry of a listed file: its `Size` (0 where unreadable) and the unix
/// time of its `ModTime`.
pub open spec fn item_entry(item: RcValue) -> FileEntry {
    FileEntry {
        size: or_default(int_of(field(item, "Size"@)), 0),
        mod_time: iso8601_seconds(or_default(text_of(field(item, "ModTime"@)), Seq::empty())),
    }
}

/// The entry of the listed file `item` whose `ModTime` reads as
/// `mod_time`: its `Size` (0 where unreadable) and that time.
pub fn item_entry_with(item: &RcValue, mod_time: Option<i64>) -> (r: FileEntry)
    ensures
        r == (FileEntry { size: or_default(int_of(field(*item, "Size"@)), 0), mod_time }),
{
    let size = match item.get("Size") {
        Some(v) => match v.as_i64() {
            Some(n) => n,
            None => 0,
        },
        None => 0,
    };
    FileEntry { size, mod_time }
}

/// The subdirectories of `dir` that `items` name, in order.
pub open spec fn listed_dirs(dir: Seq<char>, items: Seq<RcValue>) -> Seq<Seq<char>>
    decreases items.len(),
{
    if items.len() == 0 {
        Seq::empty()
    } else {
        let prev = listed_dirs(dir, items.drop_last());
        if item_is_dir(items.last()) {
            prev.push(joined_path(dir, item_name(items.last())))
        } else {
            prev
        }
    }
}

/// `files` with each file that `items` names under `dir` recorded in turn.
pub open spec fn listed_files(
    files: Map<Seq<char>, FileEntry>,
    dir: Seq<char>,
    items: Seq<RcValue>,
) -> Map<Seq<char>, FileEntry>
    decreases items.len(),
{
    if items.len() == 0 {
        files
    } else {
        let prev = listed_files(files, dir, items.drop_last());
        if item_is_dir(items.last()) {
            prev
        } else {
            prev.insert(joined_path(dir, item_name(items.last())), item_entry(items.last()))
        }
    }
}

/// The path under `dir` of the listed item `item`: its textual `Name`
/// (empty where it has none) joined to `dir`.
pub open spec fn item_path(dir: Seq<char>, item: RcValue) -> Seq<char> {
    joined_path(
        dir,
        match field(item, "Name"@) {
            Some(RcValue::Str(n)) => n@,
            _ => Seq::empty(),
        },
    )
}

/// What taking in a listing of `dir` does with its `items`: an item whose
/// `IsDir` is the boolean `true` is queued as a subdirectory under its path
/// and recorded as no file; any other item is recorded as a file under its
/// path. A directory's listing queues at most one directory per item, and
/// a listing of directories alone leaves the files as they were. The last
/// item, where it is a file, is recorded with its integer `Size` (0 where
/// it has none) and the time its textual `ModTime` reads as (read from the
/// empty text where it has none).
pub proof fn law_listing_reads_items(
    files: Map<Seq<char>, FileEntry>,
    dir: Seq<char>,
    items: Seq<RcValue>,
    k: int,
)
    requires
        0 <= k < items.len(),
    ensures
        field(items[k], "IsDir"@) == Some(RcValue::Bool(true)) ==> listed_dirs(dir, items).contains(
            item_path(dir, items[k]),
        ),
        field(items[k], "IsDir"@) != Some(RcValue::Bool(true)) ==> listed_files(
            files,
            dir,
            items,
        ).contains_key(item_path(dir, items[k])),
        listed_dirs(dir, items).len() <= items.len(),
        (forall|j: int| 0 <= j < items.len() ==> field(#[trigger] items[j], "IsDir"@) == Some(
            RcValue::Bool(true),
        )) ==> listed_files(files, dir, items) == files,
        k == items.len() - 1 && field(items[k], "IsDir"@) != Some(RcValue::Bool(true))
            ==> listed_files(files, dir, items)[item_path(dir, items[k])] == (FileEntry {
            size: match field(items[k], "Size"@) {
                Some(RcValue::Int(n)) => n,
                Some(RcValue::UInt(u)) => if u <= i64::MAX as u64 {
                    u as i64
                } else {
                    0
                },
                _ => 0,
            },
            mod_time: iso8601_seconds(
                match field(items[k], "ModTime"@) {
                    Some(RcValue::Str(t)) => t@,
                    _ => Seq::empty(),
                },
            ),
        }),
    decreases items.len(),
{
    let prev = items.drop_last();
    let last = items.last();
    assert(last == items[items.len() - 1]);
    if k < items.len() - 1 {
        assert(prev[k] == items[k]);
        law_listing_reads_items(files, dir, prev, k);
        if field(items[k], "IsDir"@) == Some(RcValue::Bool(true)) {
            let q = item_path(dir, items[k]);
            let j = choose|j: int| 0 <= j < listed_dirs(dir, prev).len() && listed_dirs(dir, prev)[j] == q;
            if item_is_dir(last) {
                assert(listed_dirs(dir, items)[j] == q);
            }
        }
    } else if prev.len() > 0 {
        law_listing_reads_items(files, dir, prev, prev.len() - 1);
    }
    if item_is_dir(last) {
        assert(listed_dirs(dir, items).last() == joined_path(dir, item_name(last)));
    }
    if forall|j: int| 0 <= j < items.len() ==> field(#[trigger] items[j], "IsDir"@) == Some(RcValue::Bool(true)) {
        if prev.len() > 0 {
            assert forall|j: int| 0 <= j < prev.len() implies field(#[trigger] prev[j], "IsDir"@) == Some(
                RcValue::Bool(true),
            ) by {
                assert(prev[j] == items[j]);
            }
        }
    }
}

/// The files that the listings `l` record, each listing taken in turn
/// (directory and reply) from an empty map.
pub open spec fn walk_files(l: Seq<(Seq<char>, RcValue)>) -> Map<Seq<char>, FileEntry>
    decreases l.len(),
{
    if l.len() == 0 {
        Map::empty()
    } else {
        listed_files(walk_files(l.drop_last()), l.last().0, listed_items(l.last().1))
    }
}

/// The directories that a walk has found once it took in the listings
/// `l`: the root, then the subdirectories each listing names, in order.
pub open spec fn found_dirs(l: Seq<(Seq<char>, RcValue)>) -> Seq<Seq<char>>
    decreases l.len(),
{
    if l.len() == 0 {
        seq![Seq::<char>::empty()]
    } else {
        found_dirs(l.drop_last()) + listed_dirs(l.last().0, listed_items(l.last().1))
    }
}

/// The directories of the listings `l`, in order.
pub open spec fn listed_names(l: Seq<(Seq<char>, RcValue)>) -> Seq<Seq<char>> {
    l.map_values(|x: (Seq<char>, RcValue)| x.0)
}

/// An optional directory as a sequence of none or one.
pub open spec fn opt_dir(d: Option<Seq<char>>) -> Seq<Seq<char>> {
    match d {
        Some(x) => seq![x],
        None => Seq::empty(),
    }
}

/// The state of a recursive listing: the directories still to list, the
/// one handed out to be listed now, the files found so far (keyed by their
/// path relative to the root), and the listings taken in so far.
pub struct ListingWalk {
    pending: Vec<String>,
    current: Option<String>,
    files: FileMap,
    listed: Ghost<Seq<(Seq<char>, RcValue)>>,
}

impl ListingWalk {
    /// The directories still to list; the last is listed next.
    pub closed spec fn pending(&self) -> Seq<Seq<char>> {
        self.pending@.map_values(|s: String| s@)
    }

    /// The directory handed out to be listed, whose listing is awaited.
    pub closed spec fn current(&self) -> Option<Seq<char>> {
        match self.current {
            Some(d) => Some(d@),
            None => None,
        }
    }

    /// The files found so far.
    pub closed spec fn files(&self) -> Map<Seq<char>, FileEntry> {
        self.files@
    }

    /// The listings taken in so far, each with its directory, in order.
    pub closed spec fn listed(&self) -> Seq<(Seq<char>, RcValue)> {
        self.listed@
    }

    /// The walk is well formed: its files are those its listings record,
    /// and each directory it found is either listed, pending or awaited, as
    /// many times as it was found.
    pub closed spec fn wf(&self) -> bool {
        &&& self.files.wf()
        &&& self.files@ == walk_files(self.listed@)
        &&& found_dirs(self.listed@).to_multiset() == (listed_names(self.listed@) + self.pending()
            + opt_dir(self.current())).to_multiset()
    }

    /// A walk that starts at the root (the empty path).
    pub fn new() -> (w: ListingWalk)
        ensures
            w.wf(),
            w.pending() == seq![Seq::<char>::empty()],
            w.current() is None,
            w.files() == Map::<Seq<char>, FileEntry>::empty(),
            w.listed() == Seq::<(Seq<char>, RcValue)>::empty(),
    {
        let mut pending: Vec<String> = Vec::new();
        pending.push(String::new());
        let w = ListingWalk {
            pending,
            current: None,
            files: FileMap::new(),
            listed: Ghost(Seq::empty()),
        };
        proof {
            assert(w.pending() =~= seq![Seq::<char>::empty()]);
            assert(listed_names(w.listed@) =~= Seq::<Seq<char>>::empty());
            assert(listed_names(w.listed@) + w.pending() + opt_dir(w.current()) =~= found_dirs(
                w.listed@,
            ));
        }
        w
    }

    /// The directory to list next: the one handed out before while its
    /// listing has not been taken in, else the last pending one, which is
    /// taken off the pending ones; none once every directory has been
    /// listed.
    pub fn next_directory(&mut self) -> (r: Option<String>)
        requires
            old(self).wf(),
        ensures
            final(self).wf(),
            final(self).files() == old(self).files(),
            final(self).listed() == old(self).listed(),
            match old(self).current() {
                Some(d) => r is Some && r->0@ == d && final(self).pending() == old(self).pending()
                    && final(self).current() == old(self).current(),
                None => match r {
                    Some(d) => old(self).pending().len() > 0 && d@ == old(self).pending().last()
                        && final(self).pending() == old(self).pending().drop_last()
                        && final(self).current() == Some(d@),
                    None => old(self).pending().len() == 0 && final(self).pending() == old(
                        self,
                    ).pending() && final(self).current() is None,
                },
            },
    {
        match &self.current {
            Some(d) => {
                return Some(d.clone());
            },
            None => {},
        }
        let ghost names = listed_names(self.listed@);
        let ghost p0 = self.pending();
        let r = self.pending.pop();
        match r {
            Some(d) => {
                let handed = d.clone();
                self.current = Some(d);
                proof {
                    assert(self.pending() =~= p0.drop_last());
                    assert(self.pending() + opt_dir(self.current()) =~= p0);
                    assert(names + self.pending() + opt_dir(self.current()) =~= names + p0
                        + opt_dir(None));
                }
                Some(handed)
            },
            None => None,
        }
    }

    /// Records the files and queues the subdirectories (in order) that the
    /// listing `reply` of `dir` names.
    fn record_listing(pending: &mut Vec<String>, files: &mut FileMap, dir: &str, reply: &RcValue)
        requires
            old(files).wf(),
        ensures
            final(files).wf(),
            final(pending)@.map_values(|s: String| s@) == old(pending)@.map_values(|s: String| s@)
                + listed_dirs(dir@, listed_items(*reply)),
            final(files)@ == listed_files(old(files)@, dir@, listed_items(*reply)),
    {
        let ghost p0 = pending@.map_values(|s: String| s@);
        let ghost f0 = files@;
        let empty: Vec<RcValue> = Vec::new();
        let items: &Vec<RcValue> = match field_items(reply, "list") {
            Some(a) => a,
            None => &empty,
        };
        assert(items@ == listed_items(*reply));
        let mut i: usize = 0;
        while i < items.len()
            invariant
                i <= items@.len(),
                files.wf(),
                pending@.map_values(|s: String| s@) == p0 + listed_dirs(dir@, items@.take(i as int)),
                files@ == listed_files(f0, dir@, items@.take(i as int)),
            decreases items@.len() - i,
        {
            proof {
                assert(items@.take(i + 1).drop_last() =~= items@.take(i as int));
                assert(items@.take(i + 1).last() == items@[i as int]);
            }
            let item = &items[i];
            let is_dir = match item.get("IsDir") {
                Some(v) => match v.as_bool() {
                    Some(b) => b,
                    None => false,
                },
                None => false,
            };
            let name: String = match item.get("Name") {
                Some(v) => match v.as_str() {
                    Some(t) => t.clone(),
                    None => String::new(),
                },
                None => String::new(),
            };
            assert(name@ == item_name(*item));
            let path = join_remote_path(dir, name.as_str());
            assert(is_dir == item_is_dir(*item));
            if is_dir {
                let ghost before = pending@.map_values(|s: String| s@);
                let ghost pv = path@;
                pending.push(path);
                proof {
                    assert(pending@.map_values(|s: String| s@) =~= before.push(pv));
                    assert(listed_dirs(dir@, items@.take(i + 1)) == listed_dirs(
                        dir@,
                        items@.take(i as int),
                    ).push(pv));
                    assert(pending@.map_values(|s: String| s@) =~= p0 + listed_dirs(
                        dir@,
                        items@.take(i + 1),
                    ));
                }
            } else {
                let mod_time = match item.get("ModTime") {
                    Some(v) => match v.as_str() {
                        Some(t) => parse_iso8601_to_unix(t.as_str()),
                        None => parse_iso8601_to_unix(""),
                    },
                    None => parse_iso8601_to_unix(""),
                };
                proof {
                    reveal_strlit("");
                    assert(""@ =~= Seq::<char>::empty());
                }
                let entry = item_entry_with(item, mod_time);
                files.insert(path, entry);
            }
            i = i + 1;
        }
        proof {
            assert(items@.take(items@.len() as int) =~= items@);
        }
    }

    /// Takes in `reply`, the listing of the directory handed out last: each
    /// file it lists is recorded under its path (a later entry for a path
    /// replaces an earlier one) and each subdirectory is queued, in order.
    /// With no directory handed out, nothing changes.
    pub fn absorb(&mut self, reply: &RcValue)
        requires
            old(self).wf(),
        ensures
            final(self).wf(),
            match old(self).current() {
                Some(d) => {
                    &&& final(self).pending() == old(self).pending() + listed_dirs(
                        d,
                        listed_items(*reply),
                    )
                    &&& final(self).files() == listed_files(old(self).files(), d, listed_items(*reply))
                    &&& final(self).listed() == old(self).listed().push((d, *reply))
                    &&& final(self).current() is None
                },
                None => *final(self) == *old(self),
            },
    {
        let dir: String = match &self.current {
            Some(d) => d.clone(),
            None => {
                return ;
            },
        };
        let ghost l0 = self.listed@;
        let ghost names = listed_names(l0);
        let ghost p0 = self.pending();
        let ghost dv = dir@;
        assert(opt_dir(self.current()) =~= seq![dv]);
        self.current = None;
        Self::record_listing(&mut self.pending, &mut self.files, dir.as_str(), reply);
        self.listed = Ghost(l0.push((dv, *reply)));
        proof {
            broadcast use vstd::seq_lib::group_to_multiset_ensures;
            broadcast use vstd::seq_lib::lemma_multiset_commutative;
            let nd = listed_dirs(dv, listed_items(*reply));
            let l1 = self.listed@;
            assert(l1.drop_last() =~= l0);
            assert(found_dirs(l1) == found_dirs(l0) + nd);
            assert(listed_names(l1) =~= names.push(dv));
            assert(self.pending() == p0 + nd);
            assert(opt_dir(self.current()) =~= Seq::<Seq<char>>::empty());
            assert(listed_names(l1) + self.pending() + opt_dir(self.current()) =~= names + seq![dv] + (p0 + nd));
            assert((names + p0 + seq![dv]).to_multiset() =~= names.to_multiset().add(p0.to_multiset()).add(seq![dv].to_multiset()));
            assert((names + seq![dv] + (p0 + nd)).to_multiset() =~= names.to_multiset().add(seq![dv].to_multiset()).add(p0.to_multiset().add(nd.to_multiset())));
            assert((found_dirs(l0) + nd).to_multiset() =~= found_dirs(l0).to_multiset().add(nd.to_multiset()));
            assert(found_dirs(l1).to_multiset() =~= (listed_names(l1) + self.pending() + opt_dir(
                self.current(),
            )).to_multiset());
        }
    }

    /// The files found, keyed by their path relative to the root. Once the
    /// walk is done (nothing pending, nothing awaited), they are those that
    /// every listing taken in records, and every directory the walk found
    /// was listed, as many times as it was found.
    pub fn into_files(self) -> (m: FileMap)
        requires
            self.wf(),
        ensures
            m.wf(),
            m@ == self.files(),
            m@ == walk_files(self.listed()),
            self.pending().len() == 0 && self.current() is None ==> found_dirs(self.listed()).to_multiset()
                == listed_names(self.listed()).to_multiset(),
    {
        proof {
            if self.pending().len() == 0 && self.current() is None {
                assert(listed_names(self.listed@) + self.pending() + opt_dir(self.current())
                    =~= listed_names(self.listed@));
            }
        }
        self.files
    }
}

/// A finished walk (nothing pending, nothing awaited) has listed every
/// directory it found, each as many times as it was found, and its files
/// are exactly those its listings record.
pub proof fn law_walk_lists_every_found_directory(w: ListingWalk)
    requires
        w.wf(),
        w.pending().len() == 0,
        w.current() is None,
    ensures
        found_dirs(w.listed()).to_multiset() == listed_names(w.listed()).to_multiset(),
        w.files() == walk_files(w.listed()),
{
    assert(listed_names(w.listed()) + w.pending() + opt_dir(w.current()) =~= listed_names(w.listed()));
}

} // verus!
