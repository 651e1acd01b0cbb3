//! The archive's path index: one map from normalized path to file entry,
//! and one from normalized path to the names of its immediate children.
//!
//! Directories are synthesized bottom-up from the paths of files and of
//! explicit directory entries, so listing works even when the archive never
//! stored a directory record.

use vstd::prelude::*;
use crate::bytes::{bytes_eq, copy_bytes};
use crate::entry::FileEntry;

verus! {

/// Whether the association list `s` has an element with key `k`.
pub open spec fn kv_contains<V>(s: Seq<(Vec<u8>, V)>, k: Seq<u8>) -> bool {
    exists|i: int| 0 <= i < s.len() && #[trigger] s[i].0@ == k
}

/// An index of the element with key `k`, meaningful when one exists.
pub open spec fn kv_index_of<V>(s: Seq<(Vec<u8>, V)>, k: Seq<u8>) -> int {
    choose|i: int| 0 <= i < s.len() && #[trigger] s[i].0@ == k
}

/// The value stored under key `k`, meaningful when one exists.
pub open spec fn kv_get<V>(s: Seq<(Vec<u8>, V)>, k: Seq<u8>) -> V {
    s[kv_index_of(s, k)].1
}

/// Whether the keys of the association list are pairwise distinct.
pub open spec fn kv_unique<V>(s: Seq<(Vec<u8>, V)>) -> bool {
    forall|i: int, j: int|
        0 <= i < j < s.len() ==> #[trigger] s[i].0@ != #[trigger] s[j].0@
}

/// Whether the byte vectors of `s` are pairwise distinct.
pub open spec fn names_unique(s: Seq<Vec<u8>>) -> bool {
    forall|i: int, j: int| 0 <= i < j < s.len() ==> #[trigger] s[i]@ != #[trigger] s[j]@
}

/// The byte sequences of a vector of names.
pub open spec fn names_seq(s: Seq<Vec<u8>>) -> Seq<Seq<u8>> {
    s.map_values(|c: Vec<u8>| c@)
}

/// After updating slot `i` with a pair of the same key, lookups keep their
/// keys, and only that key's value changes.
proof fn lemma_kv_update<V>(s: Seq<(Vec<u8>, V)>, i: int, pair: (Vec<u8>, V))
    requires
        kv_unique(s),
        0 <= i < s.len(),
        pair.0@ == s[i].0@,
    ensures
        kv_unique(s.update(i, pair)),
        forall|k: Seq<u8>| kv_contains(s.update(i, pair), k) == kv_contains(s, k),
        forall|k: Seq<u8>|
            kv_contains(s, k) ==> kv_get(s.update(i, pair), k) == (if k == s[i].0@ {
                pair.1
            } else {
                kv_get(s, k)
            }),
{
    let s2 = s.update(i, pair);
    assert forall|k: Seq<u8>| kv_contains(s2, k) == kv_contains(s, k) by {
        if kv_contains(s, k) {
            let w = kv_index_of(s, k);
            assert(s2[w].0@ == k);
        }
        if kv_contains(s2, k) {
            let w = kv_index_of(s2, k);
            assert(s[w].0@ == k);
        }
    }
    assert forall|k: Seq<u8>| kv_contains(s, k) implies kv_get(s2, k) == (if k == s[i].0@ {
        pair.1
    } else {
        kv_get(s, k)
    }) by {
        let w = kv_index_of(s, k);
        assert(s[w].0@ == k);
        let w2 = kv_index_of(s2, k);
        assert(s2[w2].0@ == k);
        if k == s[i].0@ {
            assert(w2 == i);
        } else {
            assert(w2 != i);
            assert(s[w2].0@ == k);
            assert(w2 == w);
        }
    }
}

/// After pushing a pair with a fresh key, old lookups are unchanged and the
/// new key maps to the pushed value.
proof fn lemma_kv_push<V>(s: Seq<(Vec<u8>, V)>, pair: (Vec<u8>, V))
    requires
        kv_unique(s),
        !kv_contains(s, pair.0@),
    ensures
        kv_unique(s.push(pair)),
        forall|k: Seq<u8>|
            kv_contains(s.push(pair), k) == (kv_contains(s, k) || k == pair.0@),
        forall|k: Seq<u8>|
            kv_contains(s, k) ==> kv_get(s.push(pair), k) == kv_get(s, k),
        kv_get(s.push(pair), pair.0@) == pair.1,
{
    let s2 = s.push(pair);
    assert(s2[s.len() as int].0@ == pair.0@);
    assert forall|k: Seq<u8>| kv_contains(s2, k) == (kv_contains(s, k) || k == pair.0@) by {
        if kv_contains(s, k) {
            let w = kv_index_of(s, k);
            assert(s2[w].0@ == k);
        }
        if kv_contains(s2, k) {
            let w = kv_index_of(s2, k);
            if w < s.len() {
                assert(s[w].0@ == k);
            }
        }
    }
    assert forall|k: Seq<u8>| kv_contains(s, k) implies kv_get(s2, k) == kv_get(s, k) by {
        let w = kv_index_of(s, k);
        assert(s[w].0@ == k);
        assert(k != pair.0@);
        let w2 = kv_index_of(s2, k);
        assert(s2[w2].0@ == k);
        assert(w2 < s.len());
        assert(w2 == w);
    }
    let w3 = kv_index_of(s2, pair.0@);
    assert(s2[w3].0@ == pair.0@);
    if w3 < s.len() {
        assert(s[w3].0@ == pair.0@);
        assert(false);
    }
}

/// Taking views commutes with appending a name.
proof fn lemma_names_seq_push(s: Seq<Vec<u8>>, c: Vec<u8>)
    ensures
        names_seq(s.push(c)) =~= names_seq(s).push(c@),
{
}

/// Appending to a sequence inserts into its set of elements.
pub proof fn lemma_names_push_to_set(s: Seq<Seq<u8>>, x: Seq<u8>)
    ensures
        s.push(x).to_set() =~= s.to_set().insert(x),
{
    assert forall|y: Seq<u8>| s.push(x).to_set().contains(y) == s.to_set().insert(x).contains(
        y,
    ) by {
        if s.push(x).contains(y) {
            let i = choose|i: int| 0 <= i < s.push(x).len() && s.push(x)[i] == y;
            if i < s.len() {
                assert(s[i] == y);
            }
        }
        if s.contains(y) {
            let i = choose|i: int| 0 <= i < s.len() && s[i] == y;
            assert(s.push(x)[i] == y);
        }
        assert(s.push(x)[s.len() as int] == x);
    }
}

/// The synthesized directory tree of one archive.
pub struct PathIndex {
    files: Vec<(Vec<u8>, FileEntry)>,
    dirs: Vec<(Vec<u8>, Vec<Vec<u8>>)>,
}

impl PathIndex {
    /// The representation invariant: keys are unique, and so are the names
    /// within each child list.
    pub closed spec fn rep_ok(&self) -> bool {
        &&& kv_unique(self.files@)
        &&& kv_unique(self.dirs@)
        &&& forall|i: int|
            0 <= i < self.dirs@.len() ==> names_unique(#[trigger] self.dirs@[i].1@)
    }

    /// The map from normalized path to file entry.
    pub closed spec fn files_map(&self) -> Map<Seq<u8>, FileEntry> {
        Map::new(
            |k: Seq<u8>| kv_contains(self.files@, k),
            |k: Seq<u8>| kv_get(self.files@, k),
        )
    }

    /// The names under a directory path, in insertion order; meaningful
    /// when the path is a directory of the index.
    pub closed spec fn children_seq(&self, k: Seq<u8>) -> Seq<Seq<u8>> {
        names_seq(kv_get(self.dirs@, k)@)
    }

    /// The map from normalized directory path to its set of child names.
    pub closed spec fn dirs_map(&self) -> Map<Seq<u8>, Set<Seq<u8>>> {
        Map::new(
            |k: Seq<u8>| kv_contains(self.dirs@, k),
            |k: Seq<u8>| self.children_seq(k).to_set(),
        )
    }

    /// The set a directory maps to is exactly its child list's elements.
    pub proof fn lemma_dir_value(&self, k: Seq<u8>)
        requires
            self.dirs_map().contains_key(k),
        ensures
            self.dirs_map()[k] == self.children_seq(k).to_set(),
    {
    }

    /// An index holding only an empty root directory.
    pub fn new() -> (r: PathIndex)
        ensures
            r.rep_ok(),
            r.files_map() == Map::<Seq<u8>, FileEntry>::empty(),
            r.dirs_map() == Map::<Seq<u8>, Set<Seq<u8>>>::empty().insert(
                Seq::empty(),
                Set::empty(),
            ),
    {
        let mut dirs: Vec<(Vec<u8>, Vec<Vec<u8>>)> = Vec::new();
        dirs.push((Vec::new(), Vec::new()));
        let r = PathIndex { files: Vec::new(), dirs };
        proof {
            assert(r.dirs@[0].0@ =~= Seq::<u8>::empty());
            assert(r.files_map() =~= Map::<Seq<u8>, FileEntry>::empty());
            assert(r.children_seq(Seq::empty()) =~= Seq::<Seq<u8>>::empty());
            assert(r.children_seq(Seq::empty()).to_set() =~= Set::<Seq<u8>>::empty());
            assert(r.dirs_map() =~= Map::<Seq<u8>, Set<Seq<u8>>>::empty().insert(
                Seq::empty(),
                Set::empty(),
            ));
        }
        r
    }

    /// Find the slot holding file key `p`, if any.
    fn find_file_idx(&self, p: &Vec<u8>) -> (r: Option<usize>)
        ensures
            match r {
                Some(i) => i < self.files@.len() && self.files@[i as int].0@ == p@,
                None => !kv_contains(self.files@, p@),
            },
    {
        let mut i: usize = 0;
        while i < self.files.len()
            invariant
                i <= self.files@.len(),
                forall|j: int| 0 <= j < i ==> #[trigger] self.files@[j].0@ != p@,
            decreases self.files@.len() - i,
        {
            if bytes_eq(&self.files[i].0, p) {
                return Some(i);
            }
            i = i + 1;
        }
        None
    }

    /// Find the slot holding directory key `p`, if any.
    fn find_dir_idx(&self, p: &Vec<u8>) -> (r: Option<usize>)
        ensures
            match r {
                Some(i) => i < self.dirs@.len() && self.dirs@[i as int].0@ == p@,
                None => !kv_contains(self.dirs@, p@),
            },
    {
        let mut i: usize = 0;
        while i < self.dirs.len()
            invariant
                i <= self.dirs@.len(),
                forall|j: int| 0 <= j < i ==> #[trigger] self.dirs@[j].0@ != p@,
            decreases self.dirs@.len() - i,
        {
            if bytes_eq(&self.dirs[i].0, p) {
                return Some(i);
            }
            i = i + 1;
        }
        None
    }

    /// Look up the file entry stored under `p`.
    pub fn file_entry(&self, p: &Vec<u8>) -> (r: Option<FileEntry>)
        requires
            self.rep_ok(),
        ensures
            match r {
                Some(fe) => self.files_map().contains_key(p@) && fe == self.files_map()[p@],
                None => !self.files_map().contains_key(p@),
            },
    {
        match self.find_file_idx(p) {
            Some(i) => {
                proof {
                    assert(kv_contains(self.files@, p@));
                    let w = kv_index_of(self.files@, p@);
                    assert(self.files@[w].0@ == p@);
                    assert(w == i);
                }
                Some(self.files[i].1)
            },
            None => None,
        }
    }

    /// Whether `p` is a directory of the index.
    pub fn has_dir(&self, p: &Vec<u8>) -> (r: bool)
        ensures
            r == self.dirs_map().contains_key(p@),
    {
        match self.find_dir_idx(p) {
            Some(_) => true,
            None => false,
        }
    }

    /// Whether `p` is a file of the index.
    pub fn has_file(&self, p: &Vec<u8>) -> (r: bool)
        ensures
            r == self.files_map().contains_key(p@),
    {
        match self.find_file_idx(p) {
            Some(_) => true,
            None => false,
        }
    }

    /// Return a copy of the child names under directory `p`, in insertion
    /// order.
    pub fn children_of(&self, p: &Vec<u8>) -> (r: Option<Vec<Vec<u8>>>)
        requires
            self.rep_ok(),
        ensures
            match r {
                Some(v) => self.dirs_map().contains_key(p@) && names_seq(v@)
                    == self.children_seq(p@) && names_unique(v@),
                None => !self.dirs_map().contains_key(p@),
            },
    {
        match self.find_dir_idx(p) {
            Some(i) => {
                proof {
                    let w = kv_index_of(self.dirs@, p@);
                    assert(self.dirs@[w].0@ == p@);
                    assert(w == i);
                }
                let stored = &self.dirs[i].1;
                let mut out: Vec<Vec<u8>> = Vec::new();
                let mut j: usize = 0;
                while j < stored.len()
                    invariant
                        j <= stored@.len(),
                        out@.len() == j,
                        forall|a: int| 0 <= a < j ==> #[trigger] out@[a]@ == stored@[a]@,
                    decreases stored@.len() - j,
                {
                    out.push(copy_bytes(&stored[j]));
                    j = j + 1;
                }
                proof {
                    assert(names_unique(stored@));
                    assert(names_seq(out@) =~= names_seq(stored@));
                }
                Some(out)
            },
            None => None,
        }
    }

    /// Record `p` as a file, which must be new to the index.
    pub fn insert_file(&mut self, p: Vec<u8>, fe: FileEntry)
        requires
            old(self).rep_ok(),
            !old(self).files_map().contains_key(p@),
        ensures
            final(self).rep_ok(),
            final(self).files_map() == old(self).files_map().insert(p@, fe),
            final(self).dirs_map() == old(self).dirs_map(),
            forall|k: Seq<u8>| final(self).children_seq(k) == old(self).children_seq(k),
    {
        let ghost s = self.files@;
        self.files.push((p, fe));
        proof {
            lemma_kv_push(s, self.files@.last());
            assert(final(self).files_map() =~= old(self).files_map().insert(
                self.files@.last().0@,
                fe,
            ));
        }
    }

    /// Ensure `p` exists as a directory, keeping any children it already
    /// has.
    pub fn ensure_dir(&mut self, p: Vec<u8>)
        requires
            old(self).rep_ok(),
        ensures
            final(self).rep_ok(),
            final(self).files_map() == old(self).files_map(),
            final(self).dirs_map() == (if old(self).dirs_map().contains_key(p@) {
                old(self).dirs_map()
            } else {
                old(self).dirs_map().insert(p@, Set::empty())
            }),
            forall|k: Seq<u8>|
                old(self).dirs_map().contains_key(k)
                    ==> final(self).children_seq(k) == old(self).children_seq(k),
            final(self).children_seq(p@) == (if old(self).dirs_map().contains_key(p@) {
                old(self).children_seq(p@)
            } else {
                Seq::<Seq<u8>>::empty()
            }),
    {
        match self.find_dir_idx(&p) {
            Some(_) => {
                proof {
                    assert(final(self).dirs_map() =~= old(self).dirs_map());
                }
            },
            None => {
                let ghost s = self.dirs@;
                self.dirs.push((p, Vec::new()));
                proof {
                    lemma_kv_push(s, self.dirs@.last());
                    assert(names_seq(self.dirs@.last().1@) =~= Seq::<Seq<u8>>::empty());
                    assert(final(self).children_seq(self.dirs@.last().0@).to_set()
                        =~= Set::<Seq<u8>>::empty());
                    assert(final(self).dirs_map() =~= old(self).dirs_map().insert(
                        self.dirs@.last().0@,
                        Set::empty(),
                    ));
                    assert(final(self).files_map() =~= old(self).files_map());
                }
            },
        }
    }

    /// Add `child` to the child set of directory `parent`, creating the
    /// directory slot when it is missing.  Reports whether the child was
    /// newly added.
    pub fn add_child(&mut self, parent: &Vec<u8>, child: Vec<u8>) -> (added: bool)
        requires
            old(self).rep_ok(),
        ensures
            final(self).rep_ok(),
            final(self).files_map() == old(self).files_map(),
            added == !(old(self).dirs_map().contains_key(parent@)
                && old(self).dirs_map()[parent@].contains(child@)),
            final(self).dirs_map() == old(self).dirs_map().insert(
                parent@,
                (if old(self).dirs_map().contains_key(parent@) {
                    old(self).dirs_map()[parent@]
                } else {
                    Set::empty()
                }).insert(child@),
            ),
            forall|k: Seq<u8>|
                k != parent@ && old(self).dirs_map().contains_key(k)
                    ==> final(self).children_seq(k) == old(self).children_seq(k),
            final(self).children_seq(parent@) == (if added {
                (if old(self).dirs_map().contains_key(parent@) {
                    old(self).children_seq(parent@)
                } else {
                    Seq::<Seq<u8>>::empty()
                }).push(child@)
            } else {
                old(self).children_seq(parent@)
            }),
    {
        match self.find_dir_idx(parent) {
            Some(i) => {
                proof {
                    let w = kv_index_of(self.dirs@, parent@);
                    assert(self.dirs@[w].0@ == parent@);
                    assert(w == i);
                }
                // Does the child list already hold this name?
                let slot_names = &self.dirs[i].1;
                let mut j: usize = 0;
                let mut present = false;
                while j < slot_names.len()
                    invariant
                        j <= slot_names@.len(),
                        present == exists|a: int|
                            0 <= a < j && #[trigger] slot_names@[a]@ == child@,
                    decreases slot_names@.len() - j,
                {
                    if bytes_eq(&slot_names[j], &child) {
                        present = true;
                        proof {
                            assert(slot_names@[j as int]@ == child@);
                        }
                    }
                    j = j + 1;
                }
                proof {
                    assert(present == self.children_seq(parent@).to_set().contains(child@)) by {
                        if present {
                            let a = choose|a: int|
                                0 <= a < slot_names@.len() && #[trigger] slot_names@[a]@
                                    == child@;
                            assert(self.children_seq(parent@)[a] == child@);
                        }
                        if self.children_seq(parent@).to_set().contains(child@) {
                            let a = choose|a: int|
                                0 <= a < self.children_seq(parent@).len()
                                    && #[trigger] self.children_seq(parent@)[a] == child@;
                            assert(slot_names@[a]@ == child@);
                        }
                    }
                }
                if present {
                    proof {
                        assert(old(self).dirs_map()[parent@].contains(child@));
                        assert(final(self).dirs_map() =~= old(self).dirs_map().insert(
                            parent@,
                            old(self).dirs_map()[parent@].insert(child@),
                        )) by {
                            assert(old(self).dirs_map()[parent@].insert(child@)
                                =~= old(self).dirs_map()[parent@]);
                        }
                    }
                    false
                } else {
                    let ghost s = self.dirs@;
                    let ghost childv = child@;
                    let ghost childvec = child;
                    let ghost oldnames = self.dirs@[i as int].1@;
                    let mut pair = self.dirs.remove(i);
                    pair.1.push(child);
                    self.dirs.insert(i, pair);
                    proof {
                        let pv = self.dirs@[i as int];
                        assert(self.dirs@ =~= s.update(i as int, pv));
                        assert(pv.0@ == s[i as int].0@);
                        assert(pv.1@ =~= oldnames.push(childvec));
                        lemma_names_seq_push(oldnames, childvec);
                        lemma_kv_update(s, i as int, pv);
                        // The updated slot keeps unique names.
                        assert(names_unique(pv.1@)) by {
                            assert(forall|a: int|
                                0 <= a < oldnames.len() ==> #[trigger] oldnames[a]@ != childv);
                        }
                        assert(final(self).rep_ok()) by {
                            assert(forall|j: int|
                                0 <= j < self.dirs@.len() && j != i ==> self.dirs@[j]
                                    == s[j]);
                        }
                        assert(final(self).files_map() =~= old(self).files_map());
                        // The child list under `parent` gains exactly `child`.
                        assert(final(self).children_seq(parent@) =~= old(self).children_seq(
                            parent@,
                        ).push(childv));
                        lemma_names_push_to_set(old(self).children_seq(parent@), childv);
                        assert(final(self).dirs_map() =~= old(self).dirs_map().insert(
                            parent@,
                            old(self).dirs_map()[parent@].insert(childv),
                        ));
                        assert(forall|k: Seq<u8>|
                            k != parent@ && old(self).dirs_map().contains_key(k)
                                ==> final(self).children_seq(k) == old(self).children_seq(k));
                    }
                    true
                }
            },
            None => {
                let ghost s = self.dirs@;
                let mut names: Vec<Vec<u8>> = Vec::new();
                names.push(child);
                self.dirs.push((copy_bytes(parent), names));
                proof {
                    lemma_kv_push(s, self.dirs@.last());
                    assert(final(self).children_seq(parent@) =~= Seq::<Seq<u8>>::empty().push(
                        self.dirs@.last().1@[0]@,
                    ));
                    lemma_names_push_to_set(Seq::<Seq<u8>>::empty(), self.dirs@.last().1@[0]@);
                    assert(Seq::<Seq<u8>>::empty().to_set() =~= Set::<Seq<u8>>::empty());
                    assert(final(self).children_seq(parent@).to_set() =~= Set::<Seq<
                        u8,
                    >>::empty().insert(self.dirs@.last().1@[0]@));
                    assert(final(self).dirs_map() =~= old(self).dirs_map().insert(
                        parent@,
                        Set::<Seq<u8>>::empty().insert(self.dirs@.last().1@[0]@),
                    ));
                    assert(final(self).files_map() =~= old(self).files_map());
                }
                true
            },
        }
    }
}

} // verus!
