//! The order in which the file browser shows a remote directory:
//! directories first, then by name without regard to case, entries that
//! compare equal keeping the order of the listing.

use vstd::prelude::*;
use crate::models::{RemoteFile, RemoteFileView};
use crate::rc_reply::file_views;

verus! {

/// The lower-case form of `s` as `str::to_lowercase` gives it.
pub uninterp spec fn lowercase(s: Seq<char>) -> Seq<char>;

/// Calls `str::to_lowercase`. Claimed: the result is a function of `s`
/// alone, named `lowercase`; nothing more is stated of it.
#[verifier::external_body]
fn to_lowercase_text(s: &str) -> (r: String)
    ensures
        r@ == lowercase(s@),
{
    s.to_lowercase()
}

/// `a` comes strictly before `b` in the order of strings: the first
/// character where they differ is smaller in `a`, or `a` is a proper prefix
/// of `b`. (UTF-8 keeps the order of characters, so this is the byte order
/// that `String`'s `Ord` uses.)
pub open spec fn lex_less(a: Seq<char>, b: Seq<char>) -> bool
    decreases a.len(),
{
    if a.len() == 0 {
        b.len() > 0
    } else if b.len() == 0 {
        false
    } else if a[0] != b[0] {
        (a[0] as u32) < (b[0] as u32)
    } else {
        lex_less(a.drop_first(), b.drop_first())
    }
}

/// Whether `a` comes strictly before `b` in the order of strings.
pub fn text_less(a: &str, b: &str) -> (r: bool)
    ensures
        r == lex_less(a@, b@),
{
    let n = a.unicode_len();
    let m = b.unicode_len();
    let mut i: usize = 0;
    assert(a@.skip(0) =~= a@ && b@.skip(0) =~= b@);
    while i < n && i < m
        invariant
            n == a@.len(),
            m == b@.len(),
            i <= n,
            i <= m,
            lex_less(a@, b@) == lex_less(a@.skip(i as int), b@.skip(i as int)),
        decreases n - i,
    {
        let x = a.get_char(i);
        let y = b.get_char(i);
        proof {
            assert(a@.skip(i as int)[0] == x);
            assert(b@.skip(i as int)[0] == y);
            assert(a@.skip(i as int).drop_first() =~= a@.skip(i + 1));
            assert(b@.skip(i as int).drop_first() =~= b@.skip(i + 1));
        }
        if x != y {
            return (x as u32) < (y as u32);
        }
        i = i + 1;
    }
    i == n && i < m
}

/// An entry of the browser together with the key it is ordered by.
pub type Keyed = (RemoteFileView, Seq<char>);

/// `x` is shown before `y`: a directory before a file, and among
/// directories or among files, the keys in string order.
pub open spec fn goes_before(x: Keyed, y: Keyed) -> bool {
    (x.0.is_dir && !y.0.is_dir) || (x.0.is_dir == y.0.is_dir && lex_less(x.1, y.1))
}

/// Where a stable insertion puts `x` into `t`: before the first entry that
/// `x` goes before, after every other.
pub open spec fn insert_position(t: Seq<Keyed>, x: Keyed) -> int
    decreases t.len(),
{
    if t.len() == 0 {
        0
    } else if goes_before(x, t[0]) {
        0
    } else {
        1 + insert_position(t.drop_first(), x)
    }
}

/// `s` in the browser's order; entries of which neither goes before the
/// other keep their order in `s`.
pub open spec fn keyed_order(s: Seq<Keyed>) -> Seq<Keyed>
    decreases s.len(),
{
    if s.len() == 0 {
        s
    } else {
        let t = keyed_order(s.drop_last());
        t.insert(insert_position(t, s.last()), s.last())
    }
}

/// Each entry of `files` with the key at the same place in `keys`.
pub open spec fn with_keys(files: Seq<RemoteFileView>, keys: Seq<Seq<char>>) -> Seq<Keyed> {
    Seq::new(files.len(), |i: int| (files[i], keys[i]))
}

/// The entries of keyed entries, in order.
pub open spec fn entries_of(s: Seq<Keyed>) -> Seq<RemoteFileView> {
    s.map_values(|x: Keyed| x.0)
}

/// The lower-case names of `files`, in order.
pub open spec fn lowercase_names(files: Seq<RemoteFileView>) -> Seq<Seq<char>> {
    files.map_values(|f: RemoteFileView| lowercase(f.name))
}

/// `s` in the browser's order: directories first, then by the lower-case
/// name; entries that compare equal keep their order.
pub open spec fn browse_order(s: Seq<RemoteFileView>) -> Seq<RemoteFileView> {
    entries_of(keyed_order(with_keys(s, lowercase_names(s))))
}

fn goes_before_exec(xd: bool, xl: &String, yd: bool, yl: &String) -> (r: bool)
    ensures
        r == ((xd && !yd) || (xd == yd && lex_less(xl@, yl@))),
{
    (xd && !yd) || (xd == yd && text_less(xl.as_str(), yl.as_str()))
}

/// The entries `files` in the browser's order, each ordered by the key at
/// its place in `keys`: directories first, then by key; entries that
/// compare equal keep their order.
pub fn sort_by_keys(files: Vec<RemoteFile>, keys: Vec<String>) -> (r: Vec<RemoteFile>)
    requires
        files@.len() == keys@.len(),
    ensures
        file_views(r@) == entries_of(
            keyed_order(with_keys(file_views(files@), keys@.map_values(|k: String| k@))),
        ),
{
    let ghost input = with_keys(file_views(files@), keys@.map_values(|k: String| k@));
    let mut out: Vec<RemoteFile> = Vec::new();
    let mut out_keys: Vec<String> = Vec::new();
    let n = files.len();
    let mut i: usize = 0;
    proof {
        assert(with_keys(file_views(out@), out_keys@.map_values(|k: String| k@)) =~= keyed_order(
            input.take(0),
        ));
    }
    while i < n
        invariant
            n == files@.len(),
            n == keys@.len(),
            input == with_keys(file_views(files@), keys@.map_values(|k: String| k@)),
            i <= n,
            out@.len() == out_keys@.len(),
            with_keys(file_views(out@), out_keys@.map_values(|k: String| k@)) == keyed_order(
                input.take(i as int),
            ),
        decreases n - i,
    {
        let f = files[i].clone_file();
        let key = keys[i].clone();
        let ghost t = with_keys(file_views(out@), out_keys@.map_values(|k: String| k@));
        let ghost x: Keyed = (f@, key@);
        proof {
            assert(input[i as int] == x);
            assert(input.take(i + 1).drop_last() =~= input.take(i as int));
            assert(input.take(i + 1).last() == x);
        }
        let mut pos: usize = 0;
        assert(t.skip(0) =~= t);
        while pos < out.len() && !goes_before_exec(f.is_dir, &key, out[pos].is_dir, &out_keys[pos])
            invariant
                out@.len() == out_keys@.len(),
                t == with_keys(file_views(out@), out_keys@.map_values(|k: String| k@)),
                x == (f@, key@),
                pos <= out@.len(),
                insert_position(t, x) == pos + insert_position(t.skip(pos as int), x),
            decreases out@.len() - pos,
        {
            proof {
                assert(t.skip(pos as int)[0] == t[pos as int]);
                assert(t.skip(pos as int).drop_first() =~= t.skip(pos + 1));
                assert(t[pos as int] == (out@[pos as int]@, out_keys@[pos as int]@));
            }
            pos = pos + 1;
        }
        proof {
            if pos < out@.len() {
                assert(t[pos as int] == (out@[pos as int]@, out_keys@[pos as int]@));
                assert(t.skip(pos as int)[0] == t[pos as int]);
                assert(goes_before(x, t.skip(pos as int)[0]));
            } else {
                assert(t.skip(pos as int).len() == 0);
            }
            assert(insert_position(t, x) == pos);
        }
        out.insert(pos, f);
        out_keys.insert(pos, key);
        proof {
            assert(with_keys(file_views(out@), out_keys@.map_values(|k: String| k@)) =~= t.insert(
                pos as int,
                x,
            ));
        }
        i = i + 1;
    }
    proof {
        assert(input.take(n as int) =~= input);
        let fin = keyed_order(input);
        assert(file_views(out@) =~= entries_of(fin));
    }
    out
}

/// The entries of a remote directory in the browser's order: directories
/// first, then by name without regard to case (each name lowered as
/// `str::to_lowercase` does); entries that compare equal keep their order.
pub fn sort_for_browsing(files: Vec<RemoteFile>) -> (r: Vec<RemoteFile>)
    ensures
        file_views(r@) == browse_order(file_views(files@)),
{
    let mut keys: Vec<String> = Vec::new();
    let n = files.len();
    let mut i: usize = 0;
    while i < n
        invariant
            n == files@.len(),
            i <= n,
            keys@.len() == i,
            forall|k: int| 0 <= k < i ==> #[trigger] keys@[k]@ == lowercase(files@[k].name@),
        decreases n - i,
    {
        let key = to_lowercase_text(files[i].name.as_str());
        keys.push(key);
        i = i + 1;
    }
    proof {
        let s = file_views(files@);
        assert(keys@.map_values(|k: String| k@) =~= lowercase_names(s));
    }
    sort_by_keys(files, keys)
}

impl RemoteFile {
    /// A copy of this entry.
    pub fn clone_file(&self) -> (r: RemoteFile)
        ensures
            r@ == self@,
    {
        RemoteFile {
            name: self.name.clone(),
            path: self.path.clone(),
            is_dir: self.is_dir,
            size: self.size,
            mod_time: self.mod_time.clone(),
        }
    }
}

} // verus!

verus! {

proof fn lemma_lex_irreflexive(a: Seq<char>)
    ensures
        !lex_less(a, a),
    decreases a.len(),
{
    if a.len() > 0 {
        lemma_lex_irreflexive(a.drop_first());
    }
}

proof fn lemma_lex_transitive(a: Seq<char>, b: Seq<char>, c: Seq<char>)
    requires
        lex_less(a, b),
        lex_less(b, c),
    ensures
        lex_less(a, c),
    decreases a.len(),
{
    if a.len() > 0 && b.len() > 0 && c.len() > 0 && a[0] == b[0] && b[0] == c[0] {
        lemma_lex_transitive(a.drop_first(), b.drop_first(), c.drop_first());
    }
}

proof fn lemma_goes_before_order(x: Keyed, y: Keyed, z: Keyed)
    ensures
        !goes_before(x, x),
        goes_before(x, y) && goes_before(y, z) ==> goes_before(x, z),
{
    lemma_lex_irreflexive(x.1);
    if goes_before(x, y) && goes_before(y, z) && x.0.is_dir == y.0.is_dir && y.0.is_dir == z.0.is_dir {
        lemma_lex_transitive(x.1, y.1, z.1);
    }
}

proof fn lemma_insert_position(t: Seq<Keyed>, x: Keyed)
    ensures
        0 <= insert_position(t, x) <= t.len(),
        forall|j: int| 0 <= j < insert_position(t, x) ==> !goes_before(x, #[trigger] t[j]),
        insert_position(t, x) < t.len() ==> goes_before(x, t[insert_position(t, x)]),
    decreases t.len(),
{
    if t.len() > 0 && !goes_before(x, t[0]) {
        let u = t.drop_first();
        lemma_insert_position(u, x);
        assert forall|j: int| 0 <= j < insert_position(t, x) implies !goes_before(x, #[trigger] t[j]) by {
            if j > 0 {
                assert(t[j] == u[j - 1]);
            }
        }
        if insert_position(t, x) < t.len() {
            assert(t[insert_position(t, x)] == u[insert_position(u, x)]);
        }
    }
}

/// No entry is shown before an entry that goes before it.
pub open spec fn in_browse_order(s: Seq<Keyed>) -> bool {
    forall|i: int, j: int| 0 <= i < j < s.len() ==> !goes_before(#[trigger] s[j], #[trigger] s[i])
}

/// The browser's order is sorted: no entry is shown after an entry that it
/// goes before.
pub proof fn law_browse_order_sorted(s: Seq<Keyed>)
    ensures
        in_browse_order(keyed_order(s)),
    decreases s.len(),
{
    if s.len() > 0 {
        let t = keyed_order(s.drop_last());
        let x = s.last();
        law_browse_order_sorted(s.drop_last());
        lemma_insert_position(t, x);
        let p = insert_position(t, x);
        let r = t.insert(p, x);
        assert(r == keyed_order(s));
        assert forall|i: int, j: int| 0 <= i < j < r.len() implies !goes_before(#[trigger] r[j], #[trigger] r[i]) by {
            if j < p {
                assert(r[i] == t[i] && r[j] == t[j]);
            } else if j == p {
                assert(r[i] == t[i] && r[j] == x);
            } else if i < p {
                assert(r[i] == t[i] && r[j] == t[j - 1]);
            } else if i == p {
                assert(r[i] == x && r[j] == t[j - 1]);
                lemma_goes_before_order(t[j - 1], x, t[p]);
                lemma_goes_before_order(t[p], x, t[p]);
                if goes_before(t[j - 1], x) {
                    assert(goes_before(t[j - 1], t[p]));
                    if j - 1 > p {
                        assert(!goes_before(t[j - 1], t[p]));
                    }
                }
            } else {
                assert(r[i] == t[i - 1] && r[j] == t[j - 1]);
            }
        }
    }
}

/// The browser's order shows every entry of the listing exactly as often
/// as the listing has it.
pub proof fn law_browse_order_permutes(s: Seq<Keyed>)
    ensures
        keyed_order(s).to_multiset() == s.to_multiset(),
    decreases s.len(),
{
    broadcast use vstd::seq_lib::to_multiset_build, vstd::seq_lib::to_multiset_insert;
    if s.len() > 0 {
        let t = keyed_order(s.drop_last());
        law_browse_order_permutes(s.drop_last());
        lemma_insert_position(t, s.last());
        assert(s.drop_last().push(s.last()) =~= s);
        assert(keyed_order(s).to_multiset() == t.to_multiset().insert(s.last()));
    } else {
        assert(keyed_order(s) == s);
    }
}

/// What the browser shows: every entry of the listing, and no file before
/// a directory; among directories, and among files, no entry whose
/// lower-case name comes before that of an entry shown earlier.
pub proof fn law_browse_order_meaning(s: Seq<RemoteFileView>)
    ensures
        browse_order(s).len() == s.len(),
        forall|i: int, j: int|
            0 <= i < j < s.len() ==> !(!(#[trigger] browse_order(s)[i]).is_dir && (#[trigger] browse_order(s)[j]).is_dir),
        forall|i: int, j: int|
            0 <= i < j < s.len() && (#[trigger] browse_order(s)[i]).is_dir == (#[trigger] browse_order(s)[j]).is_dir
                ==> !lex_less(lowercase(browse_order(s)[j].name), lowercase(browse_order(s)[i].name)),
{
    broadcast use vstd::seq_lib::group_to_multiset_ensures;
    let w = with_keys(s, lowercase_names(s));
    let k = keyed_order(w);
    law_browse_order_sorted(w);
    law_browse_order_permutes(w);
    assert(k.to_multiset().len() == w.to_multiset().len());
    assert(k.len() == w.len());
    let r = browse_order(s);
    assert(r == entries_of(k));
    assert forall|i: int| 0 <= i < k.len() implies #[trigger] k[i].1 == lowercase(k[i].0.name) by {
        assert(k.contains(k[i]));
        assert(k.to_multiset().count(k[i]) > 0);
        assert(w.to_multiset().count(k[i]) > 0);
        assert(w.contains(k[i]));
        let m = choose|m: int| 0 <= m < w.len() && w[m] == k[i];
        assert(w[m] == (s[m], lowercase(s[m].name)));
    }
    assert forall|i: int, j: int| 0 <= i < j < s.len() implies !(!(#[trigger] r[i]).is_dir && (#[trigger] r[j]).is_dir)
        && (r[i].is_dir == r[j].is_dir ==> !lex_less(lowercase(r[j].name), lowercase(r[i].name))) by {
        assert(!goes_before(k[j], k[i]));
        assert(k[i].1 == lowercase(k[i].0.name));
        assert(k[j].1 == lowercase(k[j].0.name));
        assert(r[i] == k[i].0 && r[j] == k[j].0);
    }
}

} // verus!
