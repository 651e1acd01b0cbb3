//! Building the path index from the archive's flat entry list: one pass in
//! archive order, validating each stored name, then registering the entry
//! and walking its ancestor chain bottom-up.

use vstd::prelude::*;
use crate::bytes::{copy_bytes, copy_range};
use crate::entry::{
    EntryView, FileEntry, RawEntry, entry_bounds_ok, file_entry_of, find_double_slash,
    has_double_slash, trim_trailing, trim_trailing_slashes,
};
use crate::error::{Error, ErrorView};
use crate::path_index::PathIndex;
use crate::path_norm::{BACKSLASH, SLASH, contains_byte, find_byte};
use crate::tree::{
    add_child_m, anc_in_files, ensure_dir_m, has_slash, last_slash_at, leaf_of,
    last_slash, lemma_last_slash_exists, lemma_parent_smaller, lemma_step_dir, lemma_step_file,
    lemma_walk_keys, maps_wf, parent_of, spec_walk, strict_ancestor,
};

verus! {

/// The error reported for an archive path holding a backslash.
pub open spec fn err_backslash() -> ErrorView {
    ErrorView::Unsupported { message: "zip archives with backslashes in paths"@ }
}

/// The error reported for an archive path with an empty interior segment.
pub open spec fn err_empty_segment() -> ErrorView {
    ErrorView::Unsupported { message: "zip archives with zero-length directory names"@ }
}

/// The error reported for an archive path that is empty once trimmed.
pub open spec fn err_empty_name() -> ErrorView {
    ErrorView::Unsupported { message: "zip archives with empty entry names"@ }
}

/// The error reported for an absolute archive path.
pub open spec fn err_absolute() -> ErrorView {
    ErrorView::Unsupported { message: "zip archives with absolute paths"@ }
}

/// The error reported when an entry's data would lie outside the source.
pub open spec fn err_bounds() -> ErrorView {
    ErrorView::Unsupported { message: "zip entry data lies outside the archive"@ }
}

/// How one enumerated entry changes the two maps: reject unsupported name
/// shapes and out-of-bounds offsets, silently drop entries that collide
/// with an earlier one (first wins), and otherwise register the entry and
/// link its whole ancestor chain.
pub open spec fn spec_entry_step(
    files: Map<Seq<u8>, FileEntry>,
    dirs: Map<Seq<u8>, Set<Seq<u8>>>,
    ev: EntryView,
    src_len: u64,
) -> Result<(Map<Seq<u8>, FileEntry>, Map<Seq<u8>, Set<Seq<u8>>>), ErrorView> {
    if contains_byte(ev.name, BACKSLASH) {
        Err(err_backslash())
    } else if has_double_slash(ev.name) {
        Err(err_empty_segment())
    } else {
        let t = trim_trailing_slashes(ev.name);
        if t.len() == 0 {
            Err(err_empty_name())
        } else if t[0] == SLASH {
            Err(err_absolute())
        } else if ev.is_file {
            if !entry_bounds_ok(ev, src_len) {
                Err(err_bounds())
            } else if files.contains_key(t) || dirs.contains_key(t) || anc_in_files(files, t) {
                Ok((files, dirs))
            } else {
                Ok((files.insert(t, file_entry_of(ev)), spec_walk(dirs, t)))
            }
        } else if ev.is_dir {
            if files.contains_key(t) || anc_in_files(files, t) {
                Ok((files, dirs))
            } else {
                Ok((files, spec_walk(ensure_dir_m(dirs, t), t)))
            }
        } else {
            Ok((files, dirs))
        }
    }
}

/// The ghost image of the enumerated entry list.
pub open spec fn items_view(s: Seq<Result<RawEntry, Error>>) -> Seq<
    Result<EntryView, ErrorView>,
> {
    s.map_values(
        |r: Result<RawEntry, Error>|
            match r {
                Ok(e) => Ok(e@),
                Err(er) => Err::<EntryView, ErrorView>(er@),
            },
    )
}

/// The maps that indexing the entries from position `i` on yields, or the
/// error that aborts a strict build: a per-entry failure is skipped under
/// the relaxed policy and fatal under the strict one.
pub open spec fn spec_build_from(
    files: Map<Seq<u8>, FileEntry>,
    dirs: Map<Seq<u8>, Set<Seq<u8>>>,
    items: Seq<Result<EntryView, ErrorView>>,
    i: int,
    relaxed: bool,
    src_len: u64,
) -> Result<(Map<Seq<u8>, FileEntry>, Map<Seq<u8>, Set<Seq<u8>>>), ErrorView>
    decreases items.len() - i,
{
    if i < 0 || i >= items.len() {
        Ok((files, dirs))
    } else {
        match items[i] {
            Err(e) => if relaxed {
                spec_build_from(files, dirs, items, i + 1, relaxed, src_len)
            } else {
                Err(e)
            },
            Ok(ev) => match spec_entry_step(files, dirs, ev, src_len) {
                Ok((f2, d2)) => spec_build_from(f2, d2, items, i + 1, relaxed, src_len),
                Err(e) => if relaxed {
                    spec_build_from(files, dirs, items, i + 1, relaxed, src_len)
                } else {
                    Err(e)
                },
            },
        }
    }
}

/// The maps that indexing the whole entry list yields, starting from an
/// index holding only the root.
pub open spec fn spec_build(
    items: Seq<Result<EntryView, ErrorView>>,
    relaxed: bool,
    src_len: u64,
) -> Result<(Map<Seq<u8>, FileEntry>, Map<Seq<u8>, Set<Seq<u8>>>), ErrorView> {
    spec_build_from(
        Map::empty(),
        Map::empty().insert(Seq::empty(), Set::empty()),
        items,
        0,
        relaxed,
        src_len,
    )
}

/// Whether every indexed file's data lies within a source of `src_len`
/// bytes.
pub open spec fn files_bounded(files: Map<Seq<u8>, FileEntry>, src_len: u64) -> bool {
    forall|p: Seq<u8>|
        #[trigger] files.contains_key(p) ==> files[p].header_offset + files[p].header_size
            + files[p].compressed <= src_len
}

/// The per-slot image of the enumerated entry list, keeping only whether
/// each slot parsed and what it holds: the maps a build yields depend on
/// nothing else.
pub open spec fn opts_of_items(items: Seq<Result<EntryView, ErrorView>>) -> Seq<
    Option<EntryView>,
> {
    items.map_values(
        |r: Result<EntryView, ErrorView>|
            match r {
                Ok(e) => Some(e),
                Err(_) => None::<EntryView>,
            },
    )
}

/// `spec_build_from`, with the entries reduced to their per-slot images:
/// `None` is the outcome of a strict abort.
pub open spec fn spec_build_opt(
    files: Map<Seq<u8>, FileEntry>,
    dirs: Map<Seq<u8>, Set<Seq<u8>>>,
    opts: Seq<Option<EntryView>>,
    i: int,
    relaxed: bool,
    src_len: u64,
) -> Option<(Map<Seq<u8>, FileEntry>, Map<Seq<u8>, Set<Seq<u8>>>)>
    decreases opts.len() - i,
{
    if i < 0 || i >= opts.len() {
        Some((files, dirs))
    } else {
        match opts[i] {
            None => if relaxed {
                spec_build_opt(files, dirs, opts, i + 1, relaxed, src_len)
            } else {
                None
            },
            Some(ev) => match spec_entry_step(files, dirs, ev, src_len) {
                Ok((f2, d2)) => spec_build_opt(f2, d2, opts, i + 1, relaxed, src_len),
                Err(_) => if relaxed {
                    spec_build_opt(files, dirs, opts, i + 1, relaxed, src_len)
                } else {
                    None
                },
            },
        }
    }
}

/// Whether a build succeeds, and with which maps, is determined by the
/// per-slot images alone: the error payloads never reach the maps.
pub proof fn lemma_build_ok_determined(
    files: Map<Seq<u8>, FileEntry>,
    dirs: Map<Seq<u8>, Set<Seq<u8>>>,
    items: Seq<Result<EntryView, ErrorView>>,
    i: int,
    relaxed: bool,
    src_len: u64,
)
    ensures
        forall|m: (Map<Seq<u8>, FileEntry>, Map<Seq<u8>, Set<Seq<u8>>>)|
            spec_build_from(files, dirs, items, i, relaxed, src_len) == Ok::<_, ErrorView>(m)
                ==> spec_build_opt(files, dirs, opts_of_items(items), i, relaxed, src_len)
                == Some(m),
        (spec_build_from(files, dirs, items, i, relaxed, src_len) is Ok) == (spec_build_opt(
            files,
            dirs,
            opts_of_items(items),
            i,
            relaxed,
            src_len,
        ) is Some),
    decreases items.len() - i,
{
    if 0 <= i < items.len() {
        match items[i] {
            Err(_) => {
                lemma_build_ok_determined(files, dirs, items, i + 1, relaxed, src_len);
            },
            Ok(ev) => {
                match spec_entry_step(files, dirs, ev, src_len) {
                    Ok((f2, d2)) => {
                        lemma_build_ok_determined(f2, d2, items, i + 1, relaxed, src_len);
                    },
                    Err(_) => {
                        lemma_build_ok_determined(files, dirs, items, i + 1, relaxed, src_len);
                    },
                }
            },
        }
    }
}

/// Whether a path is acceptable as an index key: no backslash, no empty
/// segment, and — except for the root, the empty path — neither leading
/// nor trailing separator.
pub open spec fn key_clean(p: Seq<u8>) -> bool {
    &&& !contains_byte(p, BACKSLASH)
    &&& !has_double_slash(p)
    &&& (p.len() > 0 ==> p[0] != SLASH && p.last() != SLASH)
}

/// Whether every key of the two maps is acceptable, and no file sits at
/// the root.
pub open spec fn keys_clean(
    files: Map<Seq<u8>, FileEntry>,
    dirs: Map<Seq<u8>, Set<Seq<u8>>>,
) -> bool {
    &&& forall|k: Seq<u8>| #[trigger] files.contains_key(k) ==> key_clean(k) && k.len() > 0
    &&& forall|k: Seq<u8>| #[trigger] dirs.contains_key(k) ==> key_clean(k)
}

/// Trimming trailing separators leaves none, and introduces no byte and
/// no adjacent pair that the name did not hold.
proof fn lemma_trim_clean(s: Seq<u8>)
    requires
        !contains_byte(s, BACKSLASH),
        !has_double_slash(s),
    ensures
        !contains_byte(trim_trailing_slashes(s), BACKSLASH),
        !has_double_slash(trim_trailing_slashes(s)),
        trim_trailing_slashes(s).len() > 0 ==> trim_trailing_slashes(s).last() != SLASH,
    decreases s.len(),
{
    if s.len() > 0 && s.last() == SLASH {
        assert(!contains_byte(s.drop_last(), BACKSLASH)) by {
            if contains_byte(s.drop_last(), BACKSLASH) {
                let i = choose|i: int|
                    0 <= i < s.drop_last().len() && s.drop_last()[i] == BACKSLASH;
                assert(s[i] == BACKSLASH);
            }
        }
        assert(!has_double_slash(s.drop_last())) by {
            if has_double_slash(s.drop_last()) {
                let i = choose|i: int|
                    0 <= i && i + 1 < s.drop_last().len() && #[trigger] s.drop_last()[i]
                        == SLASH && s.drop_last()[i + 1] == SLASH;
                assert(s[i] == SLASH && s[i + 1] == SLASH);
            }
        }
        lemma_trim_clean(s.drop_last());
    }
}

/// Every proper ancestor of an acceptable nonempty key is acceptable.
proof fn lemma_ancestor_clean(t: Seq<u8>, k: Seq<u8>)
    requires
        key_clean(t),
        t.len() > 0,
        strict_ancestor(t, k),
    ensures
        key_clean(k),
    decreases t.len(),
{
    let par = parent_of(t);
    lemma_parent_smaller(t);
    if has_slash(t) {
        lemma_last_slash_exists(t);
        let ls = last_slash(t);
        assert(!contains_byte(par, BACKSLASH)) by {
            if contains_byte(par, BACKSLASH) {
                let i = choose|i: int| 0 <= i < par.len() && par[i] == BACKSLASH;
                assert(t[i] == BACKSLASH);
            }
        }
        assert(!has_double_slash(par)) by {
            if has_double_slash(par) {
                let i = choose|i: int|
                    0 <= i && i + 1 < par.len() && #[trigger] par[i] == SLASH && par[i + 1]
                        == SLASH;
                assert(t[i] == SLASH && t[i + 1] == SLASH);
            }
        }
        if par.len() > 0 {
            assert(par[0] == t[0]);
            assert(par.last() == t[ls - 1]);
            if t[ls - 1] == SLASH {
                assert(t[ls] == SLASH);
                assert(has_double_slash(t));
            }
        }
    } else {
        assert(par =~= Seq::<u8>::empty());
    }
    assert(key_clean(par));
    if k != par {
        assert(strict_ancestor(par, k));
        assert(par.len() > 0);
        lemma_ancestor_clean(par, k);
    }
}

/// A conflict-free entry step keeps every key acceptable.
proof fn lemma_step_keys_clean(
    files: Map<Seq<u8>, FileEntry>,
    dirs: Map<Seq<u8>, Set<Seq<u8>>>,
    ev: EntryView,
    src_len: u64,
)
    requires
        keys_clean(files, dirs),
    ensures
        match spec_entry_step(files, dirs, ev, src_len) {
            Ok((f2, d2)) => keys_clean(f2, d2),
            Err(_) => true,
        },
{
    if !contains_byte(ev.name, BACKSLASH) && !has_double_slash(ev.name) {
        let t = trim_trailing_slashes(ev.name);
        lemma_trim_clean(ev.name);
        if t.len() > 0 && t[0] != SLASH {
            assert(key_clean(t));
            if ev.is_file && entry_bounds_ok(ev, src_len) && !files.contains_key(t)
                && !dirs.contains_key(t) && !anc_in_files(files, t) {
                let d2 = spec_walk(dirs, t);
                lemma_walk_keys(dirs, t);
                assert forall|k: Seq<u8>| #[trigger] d2.contains_key(k) implies key_clean(
                    k,
                ) by {
                    if !dirs.contains_key(k) && k != Seq::<u8>::empty() {
                        lemma_ancestor_clean(t, k);
                    }
                }
            } else if ev.is_dir && !files.contains_key(t) && !anc_in_files(files, t) {
                let d1 = ensure_dir_m(dirs, t);
                let d2 = spec_walk(d1, t);
                lemma_walk_keys(d1, t);
                assert forall|k: Seq<u8>| #[trigger] d2.contains_key(k) implies key_clean(
                    k,
                ) by {
                    if !d1.contains_key(k) && k != Seq::<u8>::empty() {
                        lemma_ancestor_clean(t, k);
                    }
                }
            }
        }
    }
}

/// A relaxed build never aborts: every offending or unreadable entry is
/// skipped, so indexing always yields maps.
pub proof fn lemma_relaxed_build_total(
    files: Map<Seq<u8>, FileEntry>,
    dirs: Map<Seq<u8>, Set<Seq<u8>>>,
    items: Seq<Result<EntryView, ErrorView>>,
    i: int,
    src_len: u64,
)
    ensures
        spec_build_from(files, dirs, items, i, true, src_len) is Ok,
    decreases items.len() - i,
{
    if 0 <= i < items.len() {
        match items[i] {
            Err(_) => {
                lemma_relaxed_build_total(files, dirs, items, i + 1, src_len);
            },
            Ok(ev) => {
                match spec_entry_step(files, dirs, ev, src_len) {
                    Ok((f2, d2)) => {
                        lemma_relaxed_build_total(f2, d2, items, i + 1, src_len);
                    },
                    Err(_) => {
                        lemma_relaxed_build_total(files, dirs, items, i + 1, src_len);
                    },
                }
            },
        }
    }
}

/// Directories are synthesized: indexing one file entry `d/f`, with no
/// directory entry anywhere, yields exactly the file under its path, the
/// root listing `d`, and `d` listing `f`.
pub proof fn lemma_index_single_file(ev: EntryView, k: int, relaxed: bool, src_len: u64)
    requires
        ev.is_file,
        entry_bounds_ok(ev, src_len),
        !contains_byte(ev.name, BACKSLASH),
        0 < k < ev.name.len() - 1,
        ev.name[k] == SLASH,
        forall|j: int| 0 <= j < ev.name.len() && j != k ==> ev.name[j] != SLASH,
    ensures
        ({
            let par = ev.name.subrange(0, k);
            let leaf = ev.name.subrange(k + 1, ev.name.len() as int);
            spec_build(seq![Ok::<EntryView, ErrorView>(ev)], relaxed, src_len) == Ok::<
                _,
                ErrorView,
            >(
                (
                    Map::<Seq<u8>, FileEntry>::empty().insert(ev.name, file_entry_of(ev)),
                    Map::<Seq<u8>, Set<Seq<u8>>>::empty().insert(
                        Seq::empty(),
                        Set::empty().insert(par),
                    ).insert(par, Set::empty().insert(leaf)),
                ),
            )
        }),
{
    let name = ev.name;
    let par = name.subrange(0, k);
    let leaf = name.subrange(k + 1, name.len() as int);
    let items = seq![Ok::<EntryView, ErrorView>(ev)];
    assert(items[0] == Ok::<EntryView, ErrorView>(ev));
    // The name passes every shape check unchanged.
    assert(name.last() != SLASH);
    assert(trim_trailing_slashes(name) == name);
    assert(!has_double_slash(name)) by {
        if has_double_slash(name) {
            let i = choose|i: int|
                0 <= i && i + 1 < name.len() && #[trigger] name[i] == SLASH && name[i + 1]
                    == SLASH;
            assert(i == k && i + 1 == k);
        }
    }
    assert(name[0] != SLASH);
    // The single separator is the last one, so parent and leaf split
    // exactly at `k`.
    assert(has_slash(name)) by {
        assert(name[k] == SLASH);
    }
    lemma_last_slash_exists(name);
    assert(last_slash(name) == k) by {
        assert(name[last_slash(name)] == SLASH);
    }
    assert(parent_of(name) == par);
    assert(leaf_of(name) == leaf);
    assert(!has_slash(par)) by {
        if has_slash(par) {
            let j = choose|j: int| 0 <= j < par.len() && par[j] == SLASH;
            assert(name[j] == SLASH);
        }
    }
    // The initial maps hold nothing this entry could collide with.
    let f0 = Map::<Seq<u8>, FileEntry>::empty();
    let d0 = Map::<Seq<u8>, Set<Seq<u8>>>::empty().insert(Seq::empty(), Set::empty());
    assert(!f0.contains_key(name));
    assert(!d0.contains_key(name)) by {
        assert(name.len() != 0);
    }
    assert(!anc_in_files(f0, name)) by {
        assert(!anc_in_files(f0, par));
    }
    // The walk links leaf under parent, then parent under the root.
    let d1 = add_child_m(d0, par, leaf);
    assert(!d0.contains_key(par)) by {
        assert(par.len() != 0);
    }
    let d2 = spec_walk(d0, name);
    assert(d2 == spec_walk(d1, par));
    assert(spec_walk(d1, par) == add_child_m(d1, Seq::empty(), par));
    let dirs_target = Map::<Seq<u8>, Set<Seq<u8>>>::empty().insert(
        Seq::empty(),
        Set::empty().insert(par),
    ).insert(par, Set::empty().insert(leaf));
    assert(d2 =~~= dirs_target);
    let f1 = f0.insert(name, file_entry_of(ev));
    assert(spec_entry_step(f0, d0, ev, src_len) == Ok::<_, ErrorView>((f1, d2)));
    assert(spec_build_from(f1, d2, items, 1, relaxed, src_len) == Ok::<_, ErrorView>((f1, d2)));
    assert(spec_build_from(f0, d0, items, 0, relaxed, src_len) == Ok::<_, ErrorView>((f1, d2)));
}

/// Whether an entry offends the indexing rules on its own, whatever the
/// maps hold so far: a bad name shape, or file data out of bounds.
pub open spec fn entry_offending(ev: EntryView, src_len: u64) -> bool {
    if contains_byte(ev.name, BACKSLASH) {
        true
    } else if has_double_slash(ev.name) {
        true
    } else {
        let t = trim_trailing_slashes(ev.name);
        if t.len() == 0 {
            true
        } else if t[0] == SLASH {
            true
        } else if ev.is_file {
            !entry_bounds_ok(ev, src_len)
        } else {
            false
        }
    }
}

/// An entry step fails exactly on offending entries, for every state.
proof fn lemma_step_err_iff_offending(
    files: Map<Seq<u8>, FileEntry>,
    dirs: Map<Seq<u8>, Set<Seq<u8>>>,
    ev: EntryView,
    src_len: u64,
)
    ensures
        (spec_entry_step(files, dirs, ev, src_len) is Err) == entry_offending(ev, src_len),
{
}

/// The well-formed slots of the entry list from position `i` on, with
/// every parse failure and every offending entry removed.
pub open spec fn admitted_from(
    items: Seq<Result<EntryView, ErrorView>>,
    i: int,
    src_len: u64,
) -> Seq<Result<EntryView, ErrorView>>
    decreases items.len() - i,
{
    if i < 0 || i >= items.len() {
        Seq::empty()
    } else {
        let rest = admitted_from(items, i + 1, src_len);
        match items[i] {
            Ok(ev) => if !entry_offending(ev, src_len) {
                seq![Ok(ev)] + rest
            } else {
                rest
            },
            Err(_) => rest,
        }
    }
}

/// Building from position `j + 1` of a list with one element prepended
/// is building from position `j` of the list itself.
proof fn lemma_build_shift(
    files: Map<Seq<u8>, FileEntry>,
    dirs: Map<Seq<u8>, Set<Seq<u8>>>,
    head: Result<EntryView, ErrorView>,
    rest: Seq<Result<EntryView, ErrorView>>,
    j: int,
    relaxed: bool,
    src_len: u64,
)
    requires
        0 <= j,
    ensures
        spec_build_from(files, dirs, seq![head] + rest, j + 1, relaxed, src_len)
            == spec_build_from(files, dirs, rest, j, relaxed, src_len),
    decreases rest.len() - j,
{
    let whole = seq![head] + rest;
    if j >= rest.len() {
    } else {
        assert(whole[j + 1] == rest[j]);
        match rest[j] {
            Err(_) => {
                lemma_build_shift(files, dirs, head, rest, j + 1, relaxed, src_len);
            },
            Ok(ev) => {
                match spec_entry_step(files, dirs, ev, src_len) {
                    Ok((f2, d2)) => {
                        lemma_build_shift(f2, d2, head, rest, j + 1, relaxed, src_len);
                    },
                    Err(_) => {
                        lemma_build_shift(files, dirs, head, rest, j + 1, relaxed, src_len);
                    },
                }
            },
        }
    }
}

/// A relaxed build from position `i` yields exactly what a strict build
/// of the admitted entries yields: skipping the offenders is the same as
/// never having seen them.
proof fn lemma_relaxed_is_strict_from(
    files: Map<Seq<u8>, FileEntry>,
    dirs: Map<Seq<u8>, Set<Seq<u8>>>,
    items: Seq<Result<EntryView, ErrorView>>,
    i: int,
    src_len: u64,
)
    ensures
        spec_build_from(files, dirs, items, i, true, src_len) == spec_build_from(
            files,
            dirs,
            admitted_from(items, i, src_len),
            0,
            false,
            src_len,
        ),
    decreases items.len() - i,
{
    if 0 <= i < items.len() {
        match items[i] {
            Err(_) => {
                lemma_relaxed_is_strict_from(files, dirs, items, i + 1, src_len);
            },
            Ok(ev) => {
                lemma_step_err_iff_offending(files, dirs, ev, src_len);
                if entry_offending(ev, src_len) {
                    lemma_relaxed_is_strict_from(files, dirs, items, i + 1, src_len);
                } else {
                    let rest = admitted_from(items, i + 1, src_len);
                    let whole = seq![Ok::<EntryView, ErrorView>(ev)] + rest;
                    assert(whole[0] == Ok::<EntryView, ErrorView>(ev));
                    match spec_entry_step(files, dirs, ev, src_len) {
                        Ok((f2, d2)) => {
                            lemma_build_shift(f2, d2, Ok(ev), rest, 0, false, src_len);
                            lemma_relaxed_is_strict_from(f2, d2, items, i + 1, src_len);
                        },
                        Err(_) => {},
                    }
                }
            },
        }
    }
}

/// The relaxed policy indexes an archive exactly as the strict policy
/// would index the same archive with the offending and unreadable
/// entries left out.
pub proof fn lemma_relaxed_equals_strict_on_admitted(
    items: Seq<Result<EntryView, ErrorView>>,
    src_len: u64,
)
    ensures
        spec_build(items, true, src_len) == spec_build(
            admitted_from(items, 0, src_len),
            false,
            src_len,
        ),
{
    lemma_relaxed_is_strict_from(
        Map::empty(),
        Map::empty().insert(Seq::empty(), Set::empty()),
        items,
        0,
        src_len,
    );
}

/// A conflict-free entry step keeps the maps well formed.
proof fn lemma_entry_step_wf(
    files: Map<Seq<u8>, FileEntry>,
    dirs: Map<Seq<u8>, Set<Seq<u8>>>,
    ev: EntryView,
    src_len: u64,
)
    requires
        maps_wf(files, dirs),
    ensures
        match spec_entry_step(files, dirs, ev, src_len) {
            Ok((f2, d2)) => maps_wf(f2, d2),
            Err(_) => true,
        },
{
    if !contains_byte(ev.name, BACKSLASH) && !has_double_slash(ev.name) {
        let t = trim_trailing_slashes(ev.name);
        if t.len() > 0 && t[0] != SLASH {
            if ev.is_file {
                if entry_bounds_ok(ev, src_len) && !files.contains_key(t)
                    && !dirs.contains_key(t) && !anc_in_files(files, t) {
                    lemma_step_file(files, dirs, t, file_entry_of(ev));
                }
            } else if ev.is_dir {
                if !files.contains_key(t) && !anc_in_files(files, t) {
                    lemma_step_dir(files, dirs, t);
                }
            }
        }
    }
}

/// Find the position of the last separator of `v`, if any.
pub fn rfind_slash(v: &Vec<u8>) -> (r: Option<usize>)
    ensures
        match r {
            Some(i) => last_slash_at(v@, i as int),
            None => !has_slash(v@),
        },
{
    let mut j: usize = v.len();
    while j > 0
        invariant
            j <= v@.len(),
            forall|k: int| j <= k < v@.len() ==> v@[k] != SLASH,
        decreases j,
    {
        if v[j - 1] == SLASH {
            return Some(j - 1);
        }
        j = j - 1;
    }
    None
}

/// Walk `p`'s ancestor chain bottom-up through the index, registering each
/// level as a child of its parent and stopping at the first level already
/// registered.
fn walk_ancestors(ix: &mut PathIndex, p: &Vec<u8>)
    requires
        old(ix).rep_ok(),
    ensures
        final(ix).rep_ok(),
        final(ix).files_map() == old(ix).files_map(),
        final(ix).dirs_map() == spec_walk(old(ix).dirs_map(), p@),
{
    let mut cur = copy_bytes(p);
    let root: Vec<u8> = Vec::new();
    loop
        invariant
            root@ == Seq::<u8>::empty(),
            ix.rep_ok(),
            ix.files_map() == old(ix).files_map(),
            spec_walk(ix.dirs_map(), cur@) == spec_walk(old(ix).dirs_map(), p@),
        decreases cur@.len(),
    {
        match rfind_slash(&cur) {
            None => {
                let ghost pre = ix.dirs_map();
                let ghost curv = cur@;
                let added = ix.add_child(&root, cur);
                proof {
                    assert(root@ =~= Seq::<u8>::empty());
                    if added {
                        assert(ix.dirs_map() == add_child_m(pre, Seq::empty(), curv));
                    } else {
                        assert(pre[Seq::empty()].insert(curv) =~= pre[Seq::empty()]);
                        assert(pre.insert(Seq::empty(), pre[Seq::empty()])
                            =~= pre);
                        assert(ix.dirs_map() == add_child_m(pre, Seq::empty(), curv));
                    }
                    assert(spec_walk(pre, curv) == add_child_m(pre, Seq::empty(), curv));
                }
                return;
            },
            Some(i) => {
                proof {
                    assert(cur@[i as int] == SLASH);
                    lemma_last_slash_exists(cur@);
                    assert(last_slash_at(cur@, i as int));
                    lemma_parent_smaller(cur@);
                }
                let n = cur.len();
                proof {
                    assert((i as int) < (n as int));
                }
                let par = copy_range(&cur, 0, i);
                let lf = copy_range(&cur, i + 1, n);
                proof {
                    assert(par@ == parent_of(cur@));
                    assert(lf@ == leaf_of(cur@));
                }
                let ghost pre = ix.dirs_map();
                let ghost curv = cur@;
                let ghost lfv = lf@;
                let added = ix.add_child(&par, lf);
                if !added {
                    proof {
                        assert(pre.contains_key(par@) && pre[par@].contains(lfv));
                        assert(spec_walk(pre, curv) == pre);
                        assert(pre[par@].insert(lfv) =~= pre[par@]);
                        assert(pre.insert(par@, pre[par@]) =~= pre);
                        assert(ix.dirs_map() == pre);
                    }
                    return;
                }
                proof {
                    assert(ix.dirs_map() == add_child_m(pre, par@, lfv));
                    assert(spec_walk(pre, curv) == spec_walk(ix.dirs_map(), par@));
                }
                cur = par;
            },
        }
    }
}

/// Build the path index from the enumerated entry list, in archive order.
/// The relaxed policy skips offending entries; the strict one aborts the
/// whole build on the first.
pub fn build_index(entries: &Vec<Result<RawEntry, Error>>, relaxed: bool, src_len: u64) -> (r:
    Result<PathIndex, Error>)
    ensures
        match r {
            Ok(ix) => {
                &&& ix.rep_ok()
                &&& maps_wf(ix.files_map(), ix.dirs_map())
                &&& files_bounded(ix.files_map(), src_len)
                &&& keys_clean(ix.files_map(), ix.dirs_map())
                &&& spec_build(items_view(entries@), relaxed, src_len) == Ok::<_, ErrorView>(
                    (ix.files_map(), ix.dirs_map()),
                )
            },
            Err(e) => spec_build(items_view(entries@), relaxed, src_len) == Err::<
                (Map<Seq<u8>, FileEntry>, Map<Seq<u8>, Set<Seq<u8>>>),
                ErrorView,
            >(e@),
        },
{
    let ghost items = items_view(entries@);
    let mut ix = PathIndex::new();
    proof {
        assert(maps_wf(ix.files_map(), ix.dirs_map()));
    }
    let mut idx: usize = 0;
    while idx < entries.len()
        invariant
            idx <= entries@.len(),
            items == items_view(entries@),
            ix.rep_ok(),
            maps_wf(ix.files_map(), ix.dirs_map()),
            files_bounded(ix.files_map(), src_len),
            keys_clean(ix.files_map(), ix.dirs_map()),
            spec_build_from(ix.files_map(), ix.dirs_map(), items, idx as int, relaxed, src_len)
                == spec_build(items, relaxed, src_len),
        decreases entries@.len() - idx,
    {
        let ghost f0 = ix.files_map();
        let ghost d0 = ix.dirs_map();
        match &entries[idx] {
            Err(e) => {
                proof {
                    assert(items[idx as int] == Err::<EntryView, ErrorView>(e@));
                }
                if !relaxed {
                    return Err(e.duplicate());
                }
            },
            Ok(entry) => {
                let ghost ev = entry@;
                proof {
                    assert(items[idx as int] == Ok::<EntryView, ErrorView>(ev));
                }
                if find_byte(&entry.name, BACKSLASH) {
                    if !relaxed {
                        return Err(Error::unsupported("zip archives with backslashes in paths"));
                    }
                } else if find_double_slash(&entry.name) {
                    if !relaxed {
                        return Err(
                            Error::unsupported("zip archives with zero-length directory names"),
                        );
                    }
                } else {
                    let t = trim_trailing(&entry.name);
                    if t.len() == 0 {
                        if !relaxed {
                            return Err(Error::unsupported("zip archives with empty entry names"));
                        }
                    } else if t[0] == SLASH {
                        if !relaxed {
                            return Err(Error::unsupported("zip archives with absolute paths"));
                        }
                    } else if entry.is_file {
                        let bounds_ok = entry.header_offset <= entry.data_start && entry.data_start
                            <= src_len && entry.compressed <= src_len - entry.data_start;
                        proof {
                            assert(bounds_ok == entry_bounds_ok(ev, src_len));
                        }
                        if !bounds_ok {
                            if !relaxed {
                                return Err(
                                    Error::unsupported("zip entry data lies outside the archive"),
                                );
                            }
                        } else if ix.has_file(&t) || ix.has_dir(&t) || ancestor_is_file(&ix, &t) {
                            // An earlier entry claimed this path or an
                            // ancestor of it: first wins, drop this one.
                        } else {
                            let fe = FileEntry {
                                header_offset: entry.header_offset,
                                header_size: entry.data_start - entry.header_offset,
                                compressed: entry.compressed,
                                uncompressed: entry.uncompressed,
                                method: entry.method,
                            };
                            proof {
                                assert(fe == file_entry_of(ev));
                            }
                            ix.insert_file(copy_bytes(&t), fe);
                            walk_ancestors(&mut ix, &t);
                            proof {
                                lemma_entry_step_wf(f0, d0, ev, src_len);
                                lemma_step_keys_clean(f0, d0, ev, src_len);
                                assert(spec_entry_step(f0, d0, ev, src_len) == Ok::<_, ErrorView>(
                                    (ix.files_map(), ix.dirs_map()),
                                ));
                            }
                        }
                    } else if entry.is_dir {
                        if ix.has_file(&t) || ancestor_is_file(&ix, &t) {
                            // First wins: the path or an ancestor of it is
                            // already a file.
                        } else {
                            ix.ensure_dir(copy_bytes(&t));
                            walk_ancestors(&mut ix, &t);
                            proof {
                                lemma_entry_step_wf(f0, d0, ev, src_len);
                                lemma_step_keys_clean(f0, d0, ev, src_len);
                                assert(spec_entry_step(f0, d0, ev, src_len) == Ok::<_, ErrorView>(
                                    (ix.files_map(), ix.dirs_map()),
                                ));
                            }
                        }
                    } else {
                        // Neither a file nor a directory: ignore the entry.
                    }
                }
            },
        }
        idx = idx + 1;
    }
    Ok(ix)
}

/// Decide whether some proper ancestor of `p` is registered as a file.
fn ancestor_is_file(ix: &PathIndex, p: &Vec<u8>) -> (r: bool)
    ensures
        r == anc_in_files(ix.files_map(), p@),
{
    let mut cur = copy_bytes(p);
    loop
        invariant
            anc_in_files(ix.files_map(), cur@) == anc_in_files(ix.files_map(), p@),
        decreases cur@.len(),
    {
        match rfind_slash(&cur) {
            None => {
                return false;
            },
            Some(i) => {
                proof {
                    assert(cur@[i as int] == SLASH);
                    lemma_last_slash_exists(cur@);
                    lemma_parent_smaller(cur@);
                }
                let par = copy_range(&cur, 0, i);
                proof {
                    assert(par@ == parent_of(cur@));
                }
                if ix.has_file(&par) {
                    return true;
                }
                cur = par;
            },
        }
    }
}

} // verus!
