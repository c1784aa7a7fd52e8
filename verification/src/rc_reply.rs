//! What the client reads from the replies of rclone's remote control API.

use vstd::prelude::*;
use crate::models::{RemoteFile, RemoteFileView};
use crate::rc_value::{
    RcValue, field, bool_of, int_of, text_of, items_of, field_items, field_i64, field_text,
};

verus! {

/// `o`, or `d` where `o` is `None`.
pub open spec fn or_default<T>(o: Option<T>, d: T) -> T {
    match o {
        Some(x) => x,
        None => d,
    }
}

/// The texts among `items`, in order; other items are skipped.
pub open spec fn texts_in(items: Seq<RcValue>) -> Seq<Seq<char>>
    decreases items.len(),
{
    if items.len() == 0 {
        Seq::empty()
    } else {
        let prev = texts_in(items.drop_last());
        match items.last() {
            RcValue::Str(s) => prev.push(s@),
            _ => prev,
        }
    }
}

/// The remote names of a `config/listremotes` reply: the texts of its
/// `remotes` array, none where it has no such array.
pub open spec fn reply_remotes(resp: RcValue) -> Seq<Seq<char>> {
    match items_of(field(resp, "remotes"@)) {
        Some(items) => texts_in(items),
        None => Seq::empty(),
    }
}

/// Reading the remote names keeps every text item of the reply's array, in
/// order, and nothing else: there are never more names than items, and
/// where every item is a text the `k`-th name is the `k`-th item's text.
pub proof fn law_remote_names_keep_texts(items: Seq<RcValue>)
    ensures
        texts_in(items).len() <= items.len(),
        (forall|k: int| 0 <= k < items.len() ==> (#[trigger] items[k]) is Str) ==> {
            &&& texts_in(items).len() == items.len()
            &&& forall|k: int| 0 <= k < items.len() ==> Some(#[trigger] texts_in(items)[k]) == text_of(
                Some(items[k]),
            )
        },
        (forall|k: int| 0 <= k < items.len() ==> !((#[trigger] items[k]) is Str)) ==> texts_in(
            items,
        ).len() == 0,
    decreases items.len(),
{
    if items.len() > 0 {
        let prev = items.drop_last();
        law_remote_names_keep_texts(prev);
        assert(items.last() == items[items.len() - 1]);
        if forall|k: int| 0 <= k < items.len() ==> (#[trigger] items[k]) is Str {
            assert forall|k: int| 0 <= k < prev.len() implies (#[trigger] prev[k]) is Str by {
                assert(prev[k] == items[k]);
            }
            assert forall|k: int| 0 <= k < items.len() implies Some(#[trigger] texts_in(items)[k])
                == text_of(Some(items[k])) by {
                if k < prev.len() {
                    assert(prev[k] == items[k]);
                    assert(Some(texts_in(prev)[k]) == text_of(Some(prev[k])));
                }
            }
        }
        if forall|k: int| 0 <= k < items.len() ==> !((#[trigger] items[k]) is Str) {
            assert forall|k: int| 0 <= k < prev.len() implies !((#[trigger] prev[k]) is Str) by {
                assert(prev[k] == items[k]);
            }
        }
    }
}

/// The views of a sequence of texts.
pub open spec fn text_views(v: Seq<String>) -> Seq<Seq<char>> {
    v.map_values(|s: String| s@)
}

/// The remote names of a `config/listremotes` reply.
pub fn remotes_from_reply(resp: &RcValue) -> (r: Vec<String>)
    ensures
        text_views(r@) == reply_remotes(*resp),
{
    let mut out: Vec<String> = Vec::new();
    match field_items(resp, "remotes") {
        Some(items) => {
            let mut i: usize = 0;
            while i < items.len()
                invariant
                    i <= items@.len(),
                    text_views(out@) == texts_in(items@.take(i as int)),
                decreases items@.len() - i,
            {
                proof {
                    assert(items@.take(i + 1).drop_last() =~= items@.take(i as int));
                    assert(items@.take(i + 1).last() == items@[i as int]);
                }
                match items[i].as_str() {
                    Some(s) => {
                        let ghost before = out@;
                        out.push(s.clone());
                        proof {
                            assert(text_views(out@) =~= text_views(before).push(s@));
                        }
                    },
                    None => {},
                }
                i = i + 1;
            }
            proof {
                assert(items@.take(items@.len() as int) =~= items@);
            }
        },
        None => {
            assert(text_views(out@) =~= Seq::<Seq<char>>::empty());
        },
    }
    out
}

/// The directory entry that a listed item describes: it must have `Name`
/// and `Path` texts and `IsDir`, `Size` and `ModTime` members; a member of
/// another kind than expected reads as `false`, `0` or the empty text.
pub open spec fn remote_file_of(item: RcValue) -> Option<RemoteFileView> {
    let name = text_of(field(item, "Name"@));
    let path = text_of(field(item, "Path"@));
    let is_dir = field(item, "IsDir"@);
    let size = field(item, "Size"@);
    let mod_time = field(item, "ModTime"@);
    if name is Some && path is Some && is_dir is Some && size is Some && mod_time is Some {
        Some(
            RemoteFileView {
                name: name->0,
                path: path->0,
                is_dir: or_default(bool_of(is_dir), false),
                size: or_default(int_of(size), 0),
                mod_time: or_default(text_of(mod_time), Seq::empty()),
            },
        )
    } else {
        None
    }
}

/// A listed item describes an entry exactly when it has a textual `Name`
/// and `Path` and members `IsDir`, `Size` and `ModTime`; the entry then
/// has that name and path, is a directory exactly when `IsDir` is the
/// boolean `true`, has the integer `Size` (0 where it is none) and the
/// textual `ModTime` (empty where it is none).
pub proof fn law_remote_file_reads_item(item: RcValue)
    ensures
        remote_file_of(item) is Some <==> text_of(field(item, "Name"@)) is Some && text_of(
            field(item, "Path"@),
        ) is Some && field(item, "IsDir"@) is Some && field(item, "Size"@) is Some && field(
            item,
            "ModTime"@,
        ) is Some,
        remote_file_of(item) is Some ==> {
            let f = remote_file_of(item)->0;
            &&& Some(f.name) == text_of(field(item, "Name"@))
            &&& Some(f.path) == text_of(field(item, "Path"@))
            &&& f.is_dir <==> field(item, "IsDir"@) == Some(RcValue::Bool(true))
            &&& int_of(field(item, "Size"@)) is Some ==> Some(f.size) == int_of(field(item, "Size"@))
            &&& int_of(field(item, "Size"@)) is None ==> f.size == 0
            &&& text_of(field(item, "ModTime"@)) is Some ==> Some(f.mod_time) == text_of(
                field(item, "ModTime"@),
            )
            &&& text_of(field(item, "ModTime"@)) is None ==> f.mod_time == Seq::<char>::empty()
        },
{
}

/// The view of an optional entry.
pub open spec fn opt_file_view(o: Option<RemoteFile>) -> Option<RemoteFileView> {
    match o {
        Some(f) => Some(f@),
        None => None,
    }
}

/// The directory entry that one listed item describes.
pub fn remote_file_from_item(item: &RcValue) -> (r: Option<RemoteFile>)
    ensures
        opt_file_view(r) == remote_file_of(*item),
{
    let name = match field_text(item, "Name") {
        Some(n) => n,
        None => return None,
    };
    let path = match field_text(item, "Path") {
        Some(p) => p,
        None => return None,
    };
    let is_dir = match item.get("IsDir") {
        Some(v) => match v.as_bool() {
            Some(b) => b,
            None => false,
        },
        None => return None,
    };
    let size = match item.get("Size") {
        Some(v) => match v.as_i64() {
            Some(n) => n,
            None => 0,
        },
        None => return None,
    };
    let mod_time = match item.get("ModTime") {
        Some(v) => match v.as_str() {
            Some(t) => t.clone(),
            None => {
                proof {
                    reveal_strlit("");
                    assert(""@ =~= Seq::<char>::empty());
                }
                "".to_owned()
            },
        },
        None => return None,
    };
    Some(RemoteFile { name: name.clone(), path: path.clone(), is_dir, size, mod_time })
}

/// The entries that `items` describe, in order; items that describe none
/// are skipped.
pub open spec fn remote_files_in(items: Seq<RcValue>) -> Seq<RemoteFileView>
    decreases items.len(),
{
    if items.len() == 0 {
        Seq::empty()
    } else {
        let prev = remote_files_in(items.drop_last());
        match remote_file_of(items.last()) {
            Some(f) => prev.push(f),
            None => prev,
        }
    }
}

/// The entries of an `operations/list` reply: those that its `list` array
/// describes, none where it has no such array.
pub open spec fn reply_remote_files(resp: RcValue) -> Seq<RemoteFileView> {
    match items_of(field(resp, "list"@)) {
        Some(items) => remote_files_in(items),
        None => Seq::empty(),
    }
}

/// Reading a listing keeps the order of its items and drops only those
/// that describe no entry: there are never more entries than items, and
/// where every item describes an entry, the `k`-th entry is the one the
/// `k`-th item describes. A reply without a `list` array lists nothing.
pub proof fn law_listing_keeps_items(items: Seq<RcValue>)
    ensures
        remote_files_in(items).len() <= items.len(),
        (forall|k: int| 0 <= k < items.len() ==> (#[trigger] remote_file_of(items[k])) is Some) ==> {
            &&& remote_files_in(items).len() == items.len()
            &&& forall|k: int| 0 <= k < items.len() ==> #[trigger] remote_files_in(items)[k]
                == remote_file_of(items[k])->0
        },
    decreases items.len(),
{
    if items.len() > 0 {
        let prev = items.drop_last();
        law_listing_keeps_items(prev);
        if forall|k: int| 0 <= k < items.len() ==> (#[trigger] remote_file_of(items[k])) is Some {
            assert forall|k: int| 0 <= k < prev.len() implies (#[trigger] remote_file_of(prev[k])) is Some by {
                assert(prev[k] == items[k]);
                assert(remote_file_of(items[k]) is Some);
            }
            assert(remote_file_of(items[items.len() - 1]) is Some);
            assert(items.last() == items[items.len() - 1]);
            assert forall|k: int| 0 <= k < items.len() implies #[trigger] remote_files_in(items)[k]
                == remote_file_of(items[k])->0 by {
                if k < prev.len() {
                    assert(prev[k] == items[k]);
                    assert(remote_files_in(prev)[k] == remote_file_of(prev[k])->0);
                }
            }
        }
    }
}

/// A reply whose `list` is not an array lists no entry.
pub proof fn law_reply_without_list(resp: RcValue)
    requires
        items_of(field(resp, "list"@)) is None,
    ensures
        reply_remote_files(resp).len() == 0,
{
}

/// The views of a sequence of entries.
pub open spec fn file_views(v: Seq<RemoteFile>) -> Seq<RemoteFileView> {
    v.map_values(|f: RemoteFile| f@)
}

/// The directory entries of an `operations/list` reply.
pub fn remote_files_from_reply(resp: &RcValue) -> (r: Vec<RemoteFile>)
    ensures
        file_views(r@) == reply_remote_files(*resp),
{
    let mut out: Vec<RemoteFile> = Vec::new();
    match field_items(resp, "list") {
        Some(items) => {
            let mut i: usize = 0;
            while i < items.len()
                invariant
                    i <= items@.len(),
                    file_views(out@) == remote_files_in(items@.take(i as int)),
                decreases items@.len() - i,
            {
                proof {
                    assert(items@.take(i + 1).drop_last() =~= items@.take(i as int));
                    assert(items@.take(i + 1).last() == items@[i as int]);
                }
                match remote_file_from_item(&items[i]) {
                    Some(f) => {
                        let ghost before = out@;
                        out.push(f);
                        proof {
                            assert(file_views(out@) =~= file_views(before).push(f@));
                        }
                    },
                    None => {},
                }
                i = i + 1;
            }
            proof {
                assert(items@.take(items@.len() as int) =~= items@);
            }
        },
        None => {
            assert(file_views(out@) =~= Seq::<RemoteFileView>::empty());
        },
    }
    out
}

/// The job id of a reply to a call started in the background; a reply
/// without an integer `jobid` is refused with `"No jobid in response"`.
pub fn jobid_from_reply(resp: &RcValue) -> (r: Result<i64, String>)
    ensures
        match int_of(field(*resp, "jobid"@)) {
            Some(j) => r == Ok::<i64, String>(j),
            None => r is Err && r->Err_0@ == "No jobid in response"@,
        },
{
    match field_i64(resp, "jobid") {
        Some(j) => Ok(j),
        None => Err("No jobid in response".to_owned()),
    }
}

/// The version text of a `core/version` reply.
pub fn version_from_reply(resp: &RcValue) -> (r: Option<String>)
    ensures
        r is Some <==> text_of(field(*resp, "version"@)) is Some,
        r is Some ==> text_of(field(*resp, "version"@)) == Some(r->0@),
{
    match field_text(resp, "version") {
        Some(v) => Some(v.clone()),
        None => None,
    }
}

/// Whether the daemon runs, and its version: a daemon whose process runs
/// and that answers the version call runs, with the version it names;
/// otherwise it does not run and has no version.
pub fn daemon_status(process_running: bool, version_reply: Option<&RcValue>) -> (r: (
    bool,
    Option<String>,
))
    ensures
        r.0 == (process_running && version_reply is Some),
        r.0 ==> (r.1 is Some <==> text_of(field(*version_reply->0, "version"@)) is Some),
        r.0 && r.1 is Some ==> text_of(field(*version_reply->0, "version"@)) == Some(r.1->0@),
        !r.0 ==> r.1 is None,
{
    if !process_running {
        return (false, None);
    }
    match version_reply {
        Some(v) => (true, version_from_reply(v)),
        None => (false, None),
    }
}

/// The outcome of a connection test: a remote whose root could be listed is
/// reachable ("Connection successful"); otherwise the error of the listing
/// is the message.
pub fn connection_outcome(listing_error: Option<String>) -> (r: (bool, String))
    ensures
        match listing_error {
            None => r.0 && r.1@ == "Connection successful"@,
            Some(e) => !r.0 && r.1@ == e@,
        },
{
    match listing_error {
        None => (true, "Connection successful".to_owned()),
        Some(e) => (false, e),
    }
}

} // verus!
