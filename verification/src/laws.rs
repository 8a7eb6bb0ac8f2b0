//! The invariants the reader guarantees, each stated as a proof function over
//! the model a well-formed reader carries.

use vstd::prelude::*;

use crate::hash40::hash40_spec;
use crate::model::Arc;
use crate::model::entry_in_bounds;
use crate::query::spec_contents;
use crate::types::ArcFileInfo;
use crate::types::LookupError;

verus! {

/// Hash consistency: every name the reader resolves is filed under the
/// hash-40 of its own path, whether it came from the label table or was
/// recorded while building the tree.
pub proof fn lemma_hash_consistency(a: &Arc, h: u64)
    requires
        a.wf(),
    ensures
        a.names@.contains_key(h) ==> hash40_spec(a.names@[h]@) == h,
        a.stream_paths@.contains_key(h) ==> hash40_spec(a.stream_paths@[h]@) == h,
{
}

/// Tree closure, first half: every child a directory lists is present in the
/// file model.
pub proof fn lemma_tree_child_present(a: &Arc, d: u64, i: int)
    requires
        a.wf(),
        a.dir_children@.contains_key(d),
        0 <= i < a.dir_children@[d]@.len(),
    ensures
        a.files@.contains_key(a.dir_children@[d]@[i]),
{
}

/// Tree closure, second half: every non-root entry is the child of at least
/// one directory.
pub proof fn lemma_tree_has_parent(a: &Arc, c: u64)
    requires
        a.wf(),
        a.files@.contains_key(c),
        c != 0,
    ensures
        exists|d: u64| #[trigger]
            a.dir_children@.contains_key(d) && a.dir_children@[d]@.contains(c),
{
    let d = a.parent_link@[c];
    assert(a.dir_children@.contains_key(d) && a.dir_children@[d]@.contains(c));
}

/// Tree closure, second half: the directory an entry is a child of is unique.
pub proof fn lemma_tree_unique_parent(a: &Arc, c: u64, d1: u64, d2: u64)
    requires
        a.wf(),
        a.dir_children@.contains_key(d1),
        a.dir_children@.contains_key(d2),
        a.dir_children@[d1]@.contains(c),
        a.dir_children@[d2]@.contains(c),
    ensures
        d1 == d2,
{
    let i1 = choose|i: int| 0 <= i < a.dir_children@[d1]@.len() && a.dir_children@[d1]@[i] == c;
    let i2 = choose|i: int| 0 <= i < a.dir_children@[d2]@.len() && a.dir_children@[d2]@[i] == c;
    assert(a.parent_link@[a.dir_children@[d1]@[i1]] == d1);
    assert(a.parent_link@[a.dir_children@[d2]@[i2]] == d2);
}

/// An entry appears in a directory's listing at most once.
pub proof fn lemma_tree_no_duplicate_child(a: &Arc, d: u64, i: int, j: int)
    requires
        a.wf(),
        a.dir_children@.contains_key(d),
        0 <= i < a.dir_children@[d]@.len(),
        0 <= j < a.dir_children@[d]@.len(),
        a.dir_children@[d]@[i] == a.dir_children@[d]@[j],
    ensures
        i == j,
{
}

/// Range validity: the byte range of every stored entry, raw or compressed,
/// lies inside the mapped archive, and a compressed entry never stores more
/// bytes than it decompresses to.
pub proof fn lemma_range_validity(a: &Arc, h: u64)
    requires
        a.wf(),
        a.files@.contains_key(h),
    ensures
        entry_in_bounds(a.files@[h], a.data@.len()),
{
}

/// Round-trip of zero-copy reads: the contents served for a raw entry are
/// exactly the archive bytes at the entry's recorded offset and size.
pub proof fn lemma_raw_round_trip(
    archive: Seq<u8>,
    files: Map<u64, ArcFileInfo>,
    h: u64,
    off: int,
    size: int,
)
    requires
        files.contains_key(h),
        files[h] matches ArcFileInfo::Uncompressed { data, .. } && data.base == off && data.count
            == size,
    ensures
        spec_contents(archive, files, h) == Ok::<Seq<u8>, LookupError>(
            archive.subrange(off, off + size),
        ),
{
}

/// Decompression size: when the contents of a compressed entry are served,
/// they hold exactly the entry's recorded decompressed size.
pub proof fn lemma_decompression_size(
    archive: Seq<u8>,
    files: Map<u64, ArcFileInfo>,
    h: u64,
    b: Seq<u8>,
)
    requires
        files.contains_key(h),
        files[h] is Compressed,
        entry_in_bounds(files[h], archive.len()),
        spec_contents(archive, files, h) == Ok::<Seq<u8>, LookupError>(b),
    ensures
        b.len() == files[h]->Compressed_decomp_size,
{
}

/// Query idempotence: the bytes served for a hash are a function of the
/// frozen model, so two successful queries of the same reader return
/// byte-equal results.
pub proof fn lemma_query_idempotent(
    archive: Seq<u8>,
    files: Map<u64, ArcFileInfo>,
    h: u64,
    b1: Seq<u8>,
    b2: Seq<u8>,
)
    requires
        spec_contents(archive, files, h) == Ok::<Seq<u8>, LookupError>(b1),
        spec_contents(archive, files, h) == Ok::<Seq<u8>, LookupError>(b2),
    ensures
        b1 == b2,
{
}

} // verus!
