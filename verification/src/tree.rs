//! The ghost model of the synthesized directory tree: splitting a path at
//! its last separator, the linkage of a path's ancestor chain, and the
//! bottom-up walk that registers a path with all its ancestors.

use vstd::prelude::*;
use crate::entry::FileEntry;
use crate::path_norm::{SLASH, contains_byte};

verus! {

/// Whether `i` is the position of the last separator of `p`.
pub open spec fn last_slash_at(p: Seq<u8>, i: int) -> bool {
    &&& 0 <= i < p.len()
    &&& p[i] == SLASH
    &&& forall|k: int| i < k < p.len() ==> p[k] != SLASH
}

/// Whether `p` holds a separator at all.
pub open spec fn has_slash(p: Seq<u8>) -> bool {
    contains_byte(p, SLASH)
}

/// The position of the last separator, meaningful when one exists.
pub open spec fn last_slash(p: Seq<u8>) -> int {
    choose|i: int| last_slash_at(p, i)
}

/// The path before the last separator; the root path for a top-level name.
pub open spec fn parent_of(p: Seq<u8>) -> Seq<u8> {
    if has_slash(p) {
        p.subrange(0, last_slash(p))
    } else {
        Seq::empty()
    }
}

/// The name after the last separator; `p` itself for a top-level name.
pub open spec fn leaf_of(p: Seq<u8>) -> Seq<u8> {
    if has_slash(p) {
        p.subrange(last_slash(p) + 1, p.len() as int)
    } else {
        p
    }
}

/// A path with a separator has a last one.
pub proof fn lemma_last_slash_exists(p: Seq<u8>)
    requires
        has_slash(p),
    ensures
        last_slash_at(p, last_slash(p)),
        0 <= last_slash(p) < p.len(),
    decreases p.len(),
{
    if p.len() > 0 && p.last() == SLASH {
        assert(last_slash_at(p, p.len() - 1));
    } else {
        let w = choose|i: int| 0 <= i < p.len() && p[i] == SLASH;
        assert(p.drop_last()[w] == SLASH);
        lemma_last_slash_exists(p.drop_last());
        let j = last_slash(p.drop_last());
        assert(p[j] == SLASH);
        assert forall|k: int| j < k < p.len() implies p[k] != SLASH by {
            if k < p.len() - 1 {
                assert(p.drop_last()[k] != SLASH);
            }
        }
        assert(last_slash_at(p, j));
    }
    let i = choose|i: int| last_slash_at(p, i);
    assert(last_slash_at(p, i));
}

/// The parent of a non-empty path is strictly shorter, and its leaf is
/// what the path adds to it.
pub proof fn lemma_parent_smaller(p: Seq<u8>)
    requires
        p.len() > 0,
    ensures
        parent_of(p).len() < p.len(),
        leaf_of(p).len() <= p.len(),
{
    if has_slash(p) {
        lemma_last_slash_exists(p);
    }
}

/// Whether every link of `p`'s ancestor chain is present in `dirs`: each
/// ancestor is a directory, and each level is listed as a child of its
/// parent.  The root path is always linked.
pub open spec fn linked(dirs: Map<Seq<u8>, Set<Seq<u8>>>, p: Seq<u8>) -> bool
    decreases p.len(),
{
    if p.len() == 0 {
        true
    } else {
        let par = parent_of(p);
        &&& dirs.contains_key(par)
        &&& dirs[par].contains(leaf_of(p))
        &&& (if par.len() < p.len() {
            linked(dirs, par)
        } else {
            true
        })
    }
}

/// Like `linked`, but the chain may stop at `stop`, whose own linkage is
/// not demanded.
pub open spec fn linked_upto(dirs: Map<Seq<u8>, Set<Seq<u8>>>, p: Seq<u8>, stop: Seq<u8>) -> bool
    decreases p.len(),
{
    if p == stop {
        true
    } else if p.len() == 0 {
        true
    } else {
        let par = parent_of(p);
        &&& dirs.contains_key(par)
        &&& dirs[par].contains(leaf_of(p))
        &&& (if par.len() < p.len() {
            linked_upto(dirs, par, stop)
        } else {
            true
        })
    }
}

/// Whether `d2` keeps every directory of `d1`, with at least its children.
pub open spec fn dirs_extends(d1: Map<Seq<u8>, Set<Seq<u8>>>, d2: Map<Seq<u8>, Set<Seq<u8>>>) -> bool {
    forall|k: Seq<u8>|
        #[trigger] d1.contains_key(k) ==> d2.contains_key(k) && d1[k].subset_of(d2[k])
}

/// Whether `k` is a proper ancestor of `p` along its separator chain.
pub open spec fn strict_ancestor(p: Seq<u8>, k: Seq<u8>) -> bool
    decreases p.len(),
{
    p.len() > 0 && {
        let par = parent_of(p);
        k == par || (if par.len() < p.len() {
            strict_ancestor(par, k)
        } else {
            false
        })
    }
}

/// Proper ancestors are strictly shorter.
pub proof fn lemma_strict_ancestor_smaller(p: Seq<u8>, k: Seq<u8>)
    requires
        strict_ancestor(p, k),
    ensures
        k.len() < p.len(),
    decreases p.len(),
{
    lemma_parent_smaller(p);
    if k != parent_of(p) {
        lemma_strict_ancestor_smaller(parent_of(p), k);
    }
}

/// Growing the directory map preserves linkage.
pub proof fn lemma_linked_mono(
    d1: Map<Seq<u8>, Set<Seq<u8>>>,
    d2: Map<Seq<u8>, Set<Seq<u8>>>,
    p: Seq<u8>,
)
    requires
        dirs_extends(d1, d2),
        linked(d1, p),
    ensures
        linked(d2, p),
    decreases p.len(),
{
    if p.len() > 0 {
        let par = parent_of(p);
        assert(d1[par].subset_of(d2[par]));
        if par.len() < p.len() {
            lemma_linked_mono(d1, d2, par);
        }
    }
}

/// A fully linked path is linked up to any stop.
pub proof fn lemma_linked_implies_upto(
    dirs: Map<Seq<u8>, Set<Seq<u8>>>,
    p: Seq<u8>,
    stop: Seq<u8>,
)
    requires
        linked(dirs, p),
    ensures
        linked_upto(dirs, p, stop),
    decreases p.len(),
{
    if p != stop && p.len() > 0 {
        let par = parent_of(p);
        if par.len() < p.len() {
            lemma_linked_implies_upto(dirs, par, stop);
        }
    }
}

/// Growing the directory map preserves linkage up to a stop.
pub proof fn lemma_upto_mono(
    d1: Map<Seq<u8>, Set<Seq<u8>>>,
    d2: Map<Seq<u8>, Set<Seq<u8>>>,
    p: Seq<u8>,
    stop: Seq<u8>,
)
    requires
        dirs_extends(d1, d2),
        linked_upto(d1, p, stop),
    ensures
        linked_upto(d2, p, stop),
    decreases p.len(),
{
    if p != stop && p.len() > 0 {
        let par = parent_of(p);
        assert(d1[par].subset_of(d2[par]));
        if par.len() < p.len() {
            lemma_upto_mono(d1, d2, par, stop);
        }
    }
}

/// Once the stop itself is linked, linkage up to it is full linkage.
pub proof fn lemma_upto_resolve(dirs: Map<Seq<u8>, Set<Seq<u8>>>, p: Seq<u8>, stop: Seq<u8>)
    requires
        linked_upto(dirs, p, stop),
        linked(dirs, stop),
    ensures
        linked(dirs, p),
    decreases p.len(),
{
    if p == stop {
    } else if p.len() > 0 {
        let par = parent_of(p);
        if par.len() < p.len() {
            lemma_upto_resolve(dirs, par, stop);
        }
    }
}

/// A chain of a path shorter than the stop never meets the stop, so its
/// conditional linkage is absolute.
pub proof fn lemma_upto_shorter(dirs: Map<Seq<u8>, Set<Seq<u8>>>, p: Seq<u8>, stop: Seq<u8>)
    requires
        linked_upto(dirs, p, stop),
        p.len() < stop.len(),
    ensures
        linked(dirs, p),
    decreases p.len(),
{
    assert(p != stop);
    if p.len() > 0 {
        let par = parent_of(p);
        lemma_parent_smaller(p);
        if par.len() < p.len() {
            lemma_upto_shorter(dirs, par, stop);
        }
    }
}

/// After registering `q` as a child of its parent, a chain conditional on
/// `q` becomes conditional on `q`'s parent.
pub proof fn lemma_upto_extend(
    d1: Map<Seq<u8>, Set<Seq<u8>>>,
    d2: Map<Seq<u8>, Set<Seq<u8>>>,
    p: Seq<u8>,
    q: Seq<u8>,
)
    requires
        q.len() > 0,
        dirs_extends(d1, d2),
        d2.contains_key(parent_of(q)),
        d2[parent_of(q)].contains(leaf_of(q)),
        linked_upto(d1, p, q),
    ensures
        linked_upto(d2, p, parent_of(q)),
    decreases p.len(),
{
    lemma_parent_smaller(q);
    if p == parent_of(q) {
    } else if p == q {
        assert(linked_upto(d2, parent_of(q), parent_of(q)));
    } else if p.len() > 0 {
        let par = parent_of(p);
        assert(d1[par].subset_of(d2[par]));
        if par.len() < p.len() {
            lemma_upto_extend(d1, d2, par, q);
        }
    }
}

/// Register `c` as a child of directory `k`, creating the directory with
/// no other children when it is missing.
pub open spec fn add_child_m(
    dirs: Map<Seq<u8>, Set<Seq<u8>>>,
    k: Seq<u8>,
    c: Seq<u8>,
) -> Map<Seq<u8>, Set<Seq<u8>>> {
    dirs.insert(
        k,
        (if dirs.contains_key(k) {
            dirs[k]
        } else {
            Set::empty()
        }).insert(c),
    )
}

/// Ensure `k` exists as a directory, keeping its children when present.
pub open spec fn ensure_dir_m(
    dirs: Map<Seq<u8>, Set<Seq<u8>>>,
    k: Seq<u8>,
) -> Map<Seq<u8>, Set<Seq<u8>>> {
    if dirs.contains_key(k) {
        dirs
    } else {
        dirs.insert(k, Set::empty())
    }
}

/// Walk `p`'s ancestor chain bottom-up, registering each level as a child
/// of its parent; stop early at the first level already registered, whose
/// own ancestors are then known to be linked.
pub open spec fn spec_walk(dirs: Map<Seq<u8>, Set<Seq<u8>>>, p: Seq<u8>) -> Map<
    Seq<u8>,
    Set<Seq<u8>>,
>
    decreases p.len(),
{
    if !has_slash(p) {
        add_child_m(dirs, Seq::empty(), p)
    } else {
        let par = parent_of(p);
        let lf = leaf_of(p);
        if dirs.contains_key(par) && dirs[par].contains(lf) {
            dirs
        } else if par.len() < p.len() {
            spec_walk(add_child_m(dirs, par, lf), par)
        } else {
            dirs
        }
    }
}

/// Adding a child only grows the map.
proof fn lemma_add_child_extends(dirs: Map<Seq<u8>, Set<Seq<u8>>>, k: Seq<u8>, c: Seq<u8>)
    ensures
        dirs_extends(dirs, add_child_m(dirs, k, c)),
{
    let d2 = add_child_m(dirs, k, c);
    assert forall|x: Seq<u8>| dirs.contains_key(x) implies d2.contains_key(x) && dirs[x]
        .subset_of(d2[x]) by {
        if x == k {
            assert(dirs[k].subset_of(dirs[k].insert(c)));
        }
    }
}

/// Map growth is transitive.
proof fn lemma_extends_trans(
    d1: Map<Seq<u8>, Set<Seq<u8>>>,
    d2: Map<Seq<u8>, Set<Seq<u8>>>,
    d3: Map<Seq<u8>, Set<Seq<u8>>>,
)
    requires
        dirs_extends(d1, d2),
        dirs_extends(d2, d3),
    ensures
        dirs_extends(d1, d3),
{
    assert forall|k: Seq<u8>| d1.contains_key(k) implies d3.contains_key(k) && d1[k].subset_of(
        d3[k],
    ) by {
        assert(d2.contains_key(k) && d1[k].subset_of(d2[k]));
        assert(d3.contains_key(k) && d2[k].subset_of(d3[k]));
    }
}

/// What the walk establishes: the map only grows, every new key is a
/// proper ancestor of `p`, every directory of the result is linked, and so
/// is `p` itself.
pub proof fn lemma_walk(dirs: Map<Seq<u8>, Set<Seq<u8>>>, p: Seq<u8>)
    requires
        dirs.contains_key(Seq::empty()),
        forall|d: Seq<u8>| dirs.contains_key(d) ==> linked_upto(dirs, d, p),
        p.len() > 0,
    ensures
        ({
            let d2 = spec_walk(dirs, p);
            &&& dirs_extends(dirs, d2)
            &&& d2.contains_key(Seq::empty())
            &&& forall|d: Seq<u8>| d2.contains_key(d) ==> linked(d2, d)
            &&& linked(d2, p)
            &&& forall|k: Seq<u8>|
                d2.contains_key(k) ==> dirs.contains_key(k) || strict_ancestor(p, k)
        }),
    decreases p.len(),
{
    lemma_parent_smaller(p);
    let par = parent_of(p);
    let lf = leaf_of(p);
    if !has_slash(p) {
        let d2 = add_child_m(dirs, Seq::empty(), p);
        lemma_add_child_extends(dirs, Seq::empty(), p);
        assert(parent_of(p) == Seq::<u8>::empty());
        assert(leaf_of(p) == p);
        assert(d2.contains_key(Seq::<u8>::empty()));
        assert(d2[Seq::<u8>::empty()].contains(p));
        assert(linked(d2, Seq::<u8>::empty()));
        assert(linked(d2, p));
        assert forall|d: Seq<u8>| d2.contains_key(d) implies linked(d2, d) by {
            assert(dirs.contains_key(d));
            lemma_upto_mono(dirs, d2, d, p);
            lemma_upto_resolve(d2, d, p);
        }
    } else if dirs.contains_key(par) && dirs[par].contains(lf) {
        assert(linked_upto(dirs, par, p));
        lemma_upto_shorter(dirs, par, p);
        assert(linked(dirs, p));
        assert forall|d: Seq<u8>| dirs.contains_key(d) implies linked(dirs, d) by {
            lemma_upto_resolve(dirs, d, p);
        }
    } else {
        let d1 = add_child_m(dirs, par, lf);
        lemma_add_child_extends(dirs, par, lf);
        if par.len() == 0 {
            // The parent is the root: one more registration ends the walk.
            assert(par =~= Seq::<u8>::empty());
            let d2 = spec_walk(d1, par);
            assert(d2 == add_child_m(d1, Seq::empty(), par));
            lemma_add_child_extends(d1, Seq::empty(), par);
            lemma_extends_trans(dirs, d1, d2);
            assert(linked(d2, p)) by {
                assert(d2.contains_key(par));
                assert(d2[par].contains(lf)) by {
                    assert(d1[par].contains(lf));
                    assert(d1.contains_key(par));
                    assert(d1[par].subset_of(d2[par]));
                }
                assert(linked(d2, Seq::<u8>::empty()));
                assert(linked(d2, par));
            }
            assert forall|d: Seq<u8>| d2.contains_key(d) implies linked(d2, d) by {
                if d == par {
                } else {
                    assert(dirs.contains_key(d));
                    lemma_upto_mono(dirs, d2, d, p);
                    lemma_upto_resolve(d2, d, p);
                }
            }
            assert forall|k: Seq<u8>|
                d2.contains_key(k) implies dirs.contains_key(k) || strict_ancestor(p, k) by {
                if k != par {
                    assert(dirs.contains_key(k) || k == Seq::<u8>::empty());
                }
            }
        } else {
            assert forall|d: Seq<u8>| d1.contains_key(d) implies linked_upto(d1, d, par) by {
                if d == par {
                } else {
                    assert(dirs.contains_key(d));
                    assert(linked_upto(dirs, d, p));
                    lemma_upto_extend(dirs, d1, d, p);
                }
            }
            lemma_walk(d1, par);
            let d2 = spec_walk(d1, par);
            lemma_extends_trans(dirs, d1, d2);
            assert(linked(d2, p)) by {
                assert(d1.contains_key(par));
                assert(d1[par].contains(lf));
                assert(dirs_extends(d1, d2));
                assert(d1[par].subset_of(d2[par]));
                assert(d2[par].contains(lf));
            }
            assert forall|k: Seq<u8>|
                d2.contains_key(k) implies dirs.contains_key(k) || strict_ancestor(p, k) by {
                if !d1.contains_key(k) {
                    assert(strict_ancestor(par, k));
                } else if !dirs.contains_key(k) {
                    assert(k == par);
                }
            }
        }
    }
}

/// Unconditionally, the walk only adds the root key and proper
/// ancestors of the walked path.
pub proof fn lemma_walk_keys(dirs: Map<Seq<u8>, Set<Seq<u8>>>, p: Seq<u8>)
    ensures
        forall|k: Seq<u8>|
            #[trigger] spec_walk(dirs, p).contains_key(k) ==> dirs.contains_key(k)
                || strict_ancestor(p, k) || k == Seq::<u8>::empty(),
    decreases p.len(),
{
    if !has_slash(p) {
    } else {
        let par = parent_of(p);
        let lf = leaf_of(p);
        if dirs.contains_key(par) && dirs[par].contains(lf) {
        } else if par.len() < p.len() {
            let d1 = add_child_m(dirs, par, lf);
            lemma_walk_keys(d1, par);
            assert forall|k: Seq<u8>|
                #[trigger] spec_walk(dirs, p).contains_key(k) implies dirs.contains_key(k)
                || strict_ancestor(p, k) || k == Seq::<u8>::empty() by {
                if !dirs.contains_key(k) && k != Seq::<u8>::empty() {
                    assert(spec_walk(d1, par).contains_key(k));
                    if d1.contains_key(k) {
                        assert(k == par);
                    } else {
                        assert(strict_ancestor(par, k));
                    }
                }
            }
        }
    }
}

/// The well-formedness of the two index maps: the root is a directory,
/// every file and directory path has its whole ancestor chain linked, and
/// no path is both a file and a directory.
pub open spec fn maps_wf(
    files: Map<Seq<u8>, FileEntry>,
    dirs: Map<Seq<u8>, Set<Seq<u8>>>,
) -> bool {
    &&& dirs.contains_key(Seq::empty())
    &&& forall|p: Seq<u8>|
        #[trigger] files.contains_key(p) ==> p.len() > 0 && linked(dirs, p)
    &&& forall|p: Seq<u8>| #[trigger] dirs.contains_key(p) ==> linked(dirs, p)
    &&& forall|p: Seq<u8>| !(#[trigger] files.contains_key(p) && dirs.contains_key(p))
}

/// Whether some proper ancestor of `p` is a file, which would make `p`
/// unregistrable without a conflict.
pub open spec fn anc_in_files(files: Map<Seq<u8>, FileEntry>, p: Seq<u8>) -> bool
    decreases p.len(),
{
    has_slash(p) && {
        let par = parent_of(p);
        files.contains_key(par) || (if par.len() < p.len() {
            anc_in_files(files, par)
        } else {
            false
        })
    }
}

/// Without an ancestor conflict, no proper ancestor of `p` is a file.
pub proof fn lemma_no_anc_conflict(files: Map<Seq<u8>, FileEntry>, p: Seq<u8>, k: Seq<u8>)
    requires
        !anc_in_files(files, p),
        strict_ancestor(p, k),
        forall|q: Seq<u8>| files.contains_key(q) ==> q.len() > 0,
    ensures
        !files.contains_key(k),
    decreases p.len(),
{
    lemma_parent_smaller(p);
    let par = parent_of(p);
    if !has_slash(p) {
        // The only ancestor is the root, which is never a file.
        assert(par == Seq::<u8>::empty());
        assert(!strict_ancestor(par, k));
        assert(k == par);
        assert(k.len() == 0);
    } else {
        if k == par {
        } else {
            lemma_no_anc_conflict(files, par, k);
        }
    }
}

/// Registering a fresh, conflict-free file path keeps the maps well
/// formed.
pub proof fn lemma_step_file(
    files: Map<Seq<u8>, FileEntry>,
    dirs: Map<Seq<u8>, Set<Seq<u8>>>,
    p: Seq<u8>,
    fe: FileEntry,
)
    requires
        maps_wf(files, dirs),
        p.len() > 0,
        !files.contains_key(p),
        !dirs.contains_key(p),
        !anc_in_files(files, p),
    ensures
        maps_wf(files.insert(p, fe), spec_walk(dirs, p)),
{
    assert forall|d: Seq<u8>| dirs.contains_key(d) implies linked_upto(dirs, d, p) by {
        lemma_linked_implies_upto(dirs, d, p);
    }
    lemma_walk(dirs, p);
    let d2 = spec_walk(dirs, p);
    let f2 = files.insert(p, fe);
    assert forall|q: Seq<u8>| f2.contains_key(q) implies q.len() > 0 && linked(d2, q) by {
        if q == p {
        } else {
            lemma_linked_mono(dirs, d2, q);
        }
    }
    assert forall|q: Seq<u8>| !(#[trigger] f2.contains_key(q) && d2.contains_key(q)) by {
        if f2.contains_key(q) && d2.contains_key(q) {
            if q == p {
                if !dirs.contains_key(q) {
                    lemma_strict_ancestor_smaller(p, q);
                }
            } else {
                if dirs.contains_key(q) {
                } else {
                    assert(strict_ancestor(p, q));
                    lemma_no_anc_conflict(files, p, q);
                }
            }
        }
    }
}

/// Registering a conflict-free directory path keeps the maps well formed.
pub proof fn lemma_step_dir(
    files: Map<Seq<u8>, FileEntry>,
    dirs: Map<Seq<u8>, Set<Seq<u8>>>,
    p: Seq<u8>,
)
    requires
        maps_wf(files, dirs),
        p.len() > 0,
        !files.contains_key(p),
        !anc_in_files(files, p),
    ensures
        maps_wf(files, spec_walk(ensure_dir_m(dirs, p), p)),
{
    let d1 = ensure_dir_m(dirs, p);
    assert(dirs_extends(dirs, d1)) by {
        assert forall|k: Seq<u8>| dirs.contains_key(k) implies d1.contains_key(k) && dirs[k]
            .subset_of(d1[k]) by {}
    }
    assert forall|d: Seq<u8>| d1.contains_key(d) implies linked_upto(d1, d, p) by {
        if d != p {
            lemma_linked_mono(dirs, d1, d);
            lemma_linked_implies_upto(d1, d, p);
        }
    }
    lemma_walk(d1, p);
    let d2 = spec_walk(d1, p);
    lemma_extends_trans(dirs, d1, d2);
    assert forall|q: Seq<u8>| files.contains_key(q) implies q.len() > 0 && linked(d2, q) by {
        lemma_linked_mono(dirs, d2, q);
    }
    assert forall|q: Seq<u8>| !(#[trigger] files.contains_key(q) && d2.contains_key(q)) by {
        if files.contains_key(q) && d2.contains_key(q) {
            if !d1.contains_key(q) {
                assert(strict_ancestor(p, q));
                lemma_no_anc_conflict(files, p, q);
            } else {
                assert(dirs.contains_key(q) || q == p);
            }
        }
    }
}

} // verus!
