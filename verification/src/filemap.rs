//! A map from relative file paths to listed entries, kept as a sequence of
//! pairs in which no path occurs twice.

use vstd::prelude::*;
use crate::models::FileEntry;

verus! {

/// The map that a sequence of `(path, entry)` pairs stands for.
pub open spec fn pairs_to_map(s: Seq<(Seq<char>, FileEntry)>) -> Map<Seq<char>, FileEntry>
    decreases s.len(),
{
    if s.len() == 0 {
        Map::empty()
    } else {
        pairs_to_map(s.drop_last()).insert(s.last().0, s.last().1)
    }
}

/// No path occurs twice in `s`.
pub open spec fn unique_paths(s: Seq<(Seq<char>, FileEntry)>) -> bool {
    forall|i: int, j: int| 0 <= i < s.len() && 0 <= j < s.len() && i != j ==> s[i].0 != s[j].0
}

/// Membership and values of `pairs_to_map`.
pub proof fn lemma_pairs_to_map(s: Seq<(Seq<char>, FileEntry)>)
    requires
        unique_paths(s),
    ensures
        forall|k: Seq<char>| #[trigger] pairs_to_map(s).contains_key(k)
            <==> exists|i: int| 0 <= i < s.len() && s[i].0 == k,
        forall|i: int| 0 <= i < s.len() ==> #[trigger] pairs_to_map(s)[s[i].0] == s[i].1,
        pairs_to_map(s).dom().finite(),
        pairs_to_map(s).len() == s.len(),
    decreases s.len(),
{
    if s.len() > 0 {
        let p = s.drop_last();
        assert(unique_paths(p));
        lemma_pairs_to_map(p);
        assert forall|k: Seq<char>| #[trigger] pairs_to_map(s).contains_key(k)
            <==> exists|i: int| 0 <= i < s.len() && s[i].0 == k by {
            if pairs_to_map(s).contains_key(k) && k != s.last().0 {
                assert(pairs_to_map(p).contains_key(k));
                let i = choose|i: int| 0 <= i < p.len() && p[i].0 == k;
                assert(s[i].0 == k);
            }
            if exists|i: int| 0 <= i < s.len() && s[i].0 == k {
                let i = choose|i: int| 0 <= i < s.len() && s[i].0 == k;
                if i < s.len() - 1 {
                    assert(p[i].0 == k);
                }
            }
        }
        assert forall|i: int| 0 <= i < s.len() implies #[trigger] pairs_to_map(s)[s[i].0] == s[i].1 by {
            if i < s.len() - 1 {
                assert(p[i] == s[i]);
                assert(s[i].0 != s.last().0);
            }
        }
        assert(!pairs_to_map(p).contains_key(s.last().0)) by {
            if pairs_to_map(p).contains_key(s.last().0) {
                let i = choose|i: int| 0 <= i < p.len() && p[i].0 == s.last().0;
                assert(s[i].0 == s[s.len() - 1].0);
            }
        }
    }
}

/// Replacing the pair of an existing path changes only that path's value.
proof fn lemma_pairs_to_map_update(s: Seq<(Seq<char>, FileEntry)>, i: int, e: FileEntry)
    requires
        unique_paths(s),
        0 <= i < s.len(),
    ensures
        pairs_to_map(s.update(i, (s[i].0, e))) == pairs_to_map(s).insert(s[i].0, e),
    decreases s.len(),
{
    let t = s.update(i, (s[i].0, e));
    if i == s.len() - 1 {
        assert(t.drop_last() =~= s.drop_last());
    } else {
        let p = s.drop_last();
        assert(unique_paths(p));
        lemma_pairs_to_map_update(p, i, e);
        assert(t.drop_last() =~= p.update(i, (p[i].0, e)));
        assert(s[i].0 != s.last().0);
        assert(pairs_to_map(t) =~= pairs_to_map(s).insert(s[i].0, e));
    }
}

/// Relative paths mapped to listed entries.
pub struct FileMap {
    entries: Vec<(String, FileEntry)>,
}

impl FileMap {
    /// The pairs in the order the paths were first inserted.
    pub closed spec fn pairs(&self) -> Seq<(Seq<char>, FileEntry)> {
        self.entries@.map_values(|e: (String, FileEntry)| (e.0@, e.1))
    }

    /// The map is well formed: no path occurs twice.
    pub closed spec fn wf(&self) -> bool {
        unique_paths(self.pairs())
    }

    /// The facts that callers need of a well formed map.
    pub proof fn lemma_wf(&self)
        requires
            self.wf(),
        ensures
            unique_paths(self.pairs()),
            self@ == pairs_to_map(self.pairs()),
            forall|k: Seq<char>| #[trigger] self@.contains_key(k)
                <==> exists|i: int| 0 <= i < self.pairs().len() && self.pairs()[i].0 == k,
            forall|i: int| 0 <= i < self.pairs().len() ==> #[trigger] self@[self.pairs()[i].0] == self.pairs()[i].1,
            self@.dom().finite(),
            self@.len() == self.pairs().len(),
    {
        lemma_pairs_to_map(self.pairs());
    }

    /// An empty map.
    pub fn new() -> (r: FileMap)
        ensures
            r.wf(),
            r.pairs() == Seq::<(Seq<char>, FileEntry)>::empty(),
            r@ == Map::<Seq<char>, FileEntry>::empty(),
    {
        let r = FileMap { entries: Vec::new() };
        assert(r.pairs() =~= Seq::<(Seq<char>, FileEntry)>::empty());
        r
    }

    /// The number of paths.
    pub fn len(&self) -> (n: usize)
        ensures
            n == self.pairs().len(),
    {
        self.entries.len()
    }

    /// The path at position `i`.
    pub fn path_at(&self, i: usize) -> (p: &String)
        requires
            i < self.pairs().len(),
        ensures
            p@ == self.pairs()[i as int].0,
    {
        &self.entries[i].0
    }

    /// The entry at position `i`.
    pub fn entry_at(&self, i: usize) -> (e: FileEntry)
        requires
            i < self.pairs().len(),
        ensures
            e == self.pairs()[i as int].1,
    {
        self.entries[i].1
    }

    /// The position of `path`, if it is present.
    fn position(&self, path: &str) -> (r: Option<usize>)
        requires
            self.wf(),
        ensures
            match r {
                Some(i) => i < self.pairs().len() && self.pairs()[i as int].0 == path@,
                None => !self@.contains_key(path@),
            },
    {
        proof {
            self.lemma_wf();
        }
        let mut i: usize = 0;
        while i < self.entries.len()
            invariant
                i <= self.entries@.len(),
                self.wf(),
                forall|j: int| 0 <= j < i ==> self.pairs()[j].0 != path@,
            decreases self.entries@.len() - i,
        {
            let p = &self.entries[i].0;
            assert(p@ == self.pairs()[i as int].0);
            if crate::text::text_eq(p.as_str(), path) {
                return Some(i);
            }
            i = i + 1;
        }
        None
    }

    /// The entry listed under `path`.
    pub fn get(&self, path: &str) -> (r: Option<FileEntry>)
        requires
            self.wf(),
        ensures
            r == (if self@.contains_key(path@) { Some(self@[path@]) } else { None::<FileEntry> }),
    {
        proof {
            self.lemma_wf();
        }
        match self.position(path) {
            Some(i) => Some(self.entries[i].1),
            None => None,
        }
    }

    /// Whether `path` is listed.
    pub fn contains(&self, path: &str) -> (r: bool)
        requires
            self.wf(),
        ensures
            r == self@.contains_key(path@),
    {
        proof {
            self.lemma_wf();
        }
        self.position(path).is_some()
    }

    /// Lists `entry` under `path`, replacing what was listed there before.
    pub fn insert(&mut self, path: String, entry: FileEntry)
        requires
            old(self).wf(),
        ensures
            final(self).wf(),
            final(self)@ == old(self)@.insert(path@, entry),
            old(self)@.contains_key(path@) ==> final(self).pairs().len() == old(self).pairs().len(),
            !old(self)@.contains_key(path@) ==> final(self).pairs() == old(self).pairs().push((path@, entry)),
    {
        proof {
            self.lemma_wf();
        }
        let ghost old_pairs = self.pairs();
        match self.position(path.as_str()) {
            Some(i) => {
                let ghost key = old_pairs[i as int].0;
                self.entries.set(i, (path, entry));
                proof {
                    assert(self.pairs() =~= old_pairs.update(i as int, (key, entry)));
                    lemma_pairs_to_map_update(old_pairs, i as int, entry);
                }
            },
            None => {
                let ghost pv = path@;
                self.entries.push((path, entry));
                proof {
                    assert(self.pairs() =~= old_pairs.push((pv, entry)));
                    assert(self.pairs().drop_last() =~= old_pairs);
                    assert forall|a: int, b: int|
                        0 <= a < self.pairs().len() && 0 <= b < self.pairs().len() && a != b
                        implies self.pairs()[a].0 != self.pairs()[b].0 by {
                        if a == old_pairs.len() as int && b < old_pairs.len() {
                            assert(old_pairs[b].0 != pv);
                        } else if b == old_pairs.len() as int && a < old_pairs.len() {
                            assert(old_pairs[a].0 != pv);
                        }
                    }
                }
            },
        }
    }
}

impl View for FileMap {
    type V = Map<Seq<char>, FileEntry>;

    closed spec fn view(&self) -> Map<Seq<char>, FileEntry> {
        pairs_to_map(self.pairs())
    }
}

} // verus!
