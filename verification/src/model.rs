//! The in-memory filesystem model and its construction.
//!
//! The model maps 40-bit path hashes to names, directory listings, file
//! entries and stems.  It is built once while opening an archive and is
//! immutable afterwards; only the decompression cache changes at query time.

use vstd::prelude::*;

use std::collections::HashMap;

use crate::cache::LruStore;
use crate::cache::cache_contents;
use crate::cache::cache_new;
use crate::hash40::hash40;
use crate::hash40::hash40_spec;
use crate::labels::parse_labels;
use crate::labels::parsed_labels;
use crate::mem_file::FileSlice;
use crate::mem_file::Record;
use crate::mem_file::le32;
use crate::parser::ArcInternal;
use crate::parser::MAGIC;
use crate::parser::decompress_table;
use crate::parser::open_ok;
use crate::parser::project_tables;
use crate::parser::spec_internal;
use crate::parser::spec_window;
use crate::parser::spec_open_index;
use crate::structs::ArcHeader;
use crate::structs::DirectoryOffsets;
use crate::structs::FileInfo2;
use crate::structs::FileInfoSubIndex;
use crate::structs::FileInformationIndex;
use crate::structs::FileInformationPath;
use crate::structs::StreamEntry;
use crate::structs::StreamOffsetEntry;
use crate::structs::SubFileInfo;
use crate::types::ArcFileInfo;
use crate::types::CorruptKind;
use crate::types::LookupError;
use crate::zstd_codec::zstd_inflate;
use vstd::string::StrSliceExecFns;

verus! {

broadcast use vstd::std_specs::hash::group_hash_axioms;

/// Every name map entry is keyed by the hash-40 of its own path.
pub open spec fn names_consistent(m: Map<u64, String>) -> bool {
    forall|h: u64| #[trigger] m.contains_key(h) ==> hash40_spec(m[h]@) == h
}

/// The byte range of a stored entry lies inside an archive of `len` bytes,
/// and a compressed entry never decompresses to fewer bytes than it stores.
pub open spec fn entry_in_bounds(e: ArcFileInfo, len: nat) -> bool {
    match e {
        ArcFileInfo::Uncompressed { data, .. } => data.base + data.count <= len,
        ArcFileInfo::Compressed { data, decomp_size } => data.base + data.count <= len
            && data.count <= decomp_size,
        ArcFileInfo::Directory => true,
    }
}

/// The archive reader: the archive bytes, the filesystem model built from its
/// index, and the bounded decompression cache.
pub struct Arc {
    /// The raw archive bytes.
    pub data: Vec<u8>,
    /// Path resolutions from the external label table.
    pub names: HashMap<u64, String>,
    /// Path resolutions recorded while building the tree.
    pub stream_paths: HashMap<u64, String>,
    /// Immediate children of every directory.
    pub dir_children: HashMap<u64, Vec<u64>>,
    /// Every entry of the virtual filesystem.
    pub files: HashMap<u64, ArcFileInfo>,
    /// Last path component of every entry.
    pub stems: HashMap<u64, String>,
    /// Bounded cache of decompressed file contents.
    pub cache: LruStore,
    /// The one directory each non-root entry hangs off.
    pub parent_link: Ghost<Map<u64, u64>>,
}

impl Arc {
    /// The directory tree is closed and every non-root entry hangs off
    /// exactly one directory, witnessed by `parent_link`.
    pub open spec fn tree_ok(self) -> bool {
        let files = self.files@;
        let dc = self.dir_children@;
        let pl = self.parent_link@;
        &&& files.contains_key(0)
        &&& files[0] is Directory
        &&& forall|h: u64| #[trigger]
            files.contains_key(h) ==> (files[h] is Directory <==> dc.contains_key(h))
        &&& forall|h: u64| #[trigger] dc.contains_key(h) ==> files.contains_key(h)
        &&& forall|h: u64| #[trigger] files.contains_key(h) ==> self.stems@.contains_key(h)
        &&& forall|h: u64| #[trigger] self.stems@.contains_key(h) ==> files.contains_key(h)
        &&& forall|h: u64| #[trigger] pl.contains_key(h) ==> files.contains_key(h) && h != 0
        &&& forall|h: u64| #[trigger] files.contains_key(h) && h != 0 ==> pl.contains_key(h)
        &&& forall|h: u64| #[trigger]
            pl.contains_key(h) ==> dc.contains_key(pl[h]) && dc[pl[h]]@.contains(h)
        &&& forall|d: u64, i: int|
            dc.contains_key(d) && 0 <= i < dc[d]@.len() ==> pl.contains_key(#[trigger] dc[d]@[i])
                && pl[dc[d]@[i]] == d
        &&& forall|d: u64, i: int, j: int|
            dc.contains_key(d) && 0 <= i < dc[d]@.len() && 0 <= j < dc[d]@.len() && #[trigger]
            dc[d]@[i] == #[trigger] dc[d]@[j] ==> i == j
    }

    /// Every stored byte range lies inside the archive.
    pub open spec fn slices_ok(self) -> bool {
        forall|h: u64| #[trigger]
            self.files@.contains_key(h) ==> entry_in_bounds(self.files@[h], self.data@.len())
    }

    /// Everything the decompression cache holds is the correct decompression
    /// of a compressed entry of the model.
    pub open spec fn cache_ok(self) -> bool {
        forall|h: u64| #[trigger]
            cache_contents(self.cache).dom().contains(h) ==> self.files@.contains_key(h)
                && match self.files@[h] {
                ArcFileInfo::Compressed { data, decomp_size } => zstd_inflate(
                    self.data@.subrange(data.base as int, data.base + data.count),
                ) == Some(cache_contents(self.cache)[h]) && cache_contents(self.cache)[h].len()
                    == decomp_size,
                _ => false,
            }
    }

    /// Well-formedness of the whole reader.
    pub open spec fn wf(self) -> bool {
        &&& names_consistent(self.names@)
        &&& names_consistent(self.stream_paths@)
        &&& self.tree_ok()
        &&& self.slices_ok()
        &&& self.cache_ok()
    }

    /// The filesystem model proper: everything a query may depend on except
    /// the cache.
    pub open spec fn model(self) -> (
        Seq<u8>,
        Map<u64, String>,
        Map<u64, String>,
        Map<u64, Vec<u64>>,
        Map<u64, ArcFileInfo>,
        Map<u64, String>,
    ) {
        (self.data@, self.names@, self.stream_paths@, self.dir_children@, self.files@, self.stems@)
    }
}

/// Index just past the last `/` of `s`, or 0 when `s` has none: where the
/// last path component starts.
pub open spec fn stem_start(s: Seq<char>) -> int
    decreases s.len(),
{
    if s.len() == 0 {
        0
    } else if s[s.len() - 1] == '/' {
        s.len() as int
    } else {
        stem_start(s.drop_last())
    }
}

/// The last path component of `s`.
pub open spec fn stem_of(s: Seq<char>) -> Seq<char> {
    s.subrange(stem_start(s), s.len() as int)
}

proof fn lemma_stem_start_bounds(s: Seq<char>)
    ensures
        0 <= stem_start(s) <= s.len(),
    decreases s.len(),
{
    if s.len() > 0 && s[s.len() - 1] != '/' {
        lemma_stem_start_bounds(s.drop_last());
    }
}

/// Finds where the last path component of `s` starts.
pub fn find_stem_start(s: &str) -> (r: usize)
    ensures
        r == stem_start(s@),
        0 <= r <= s@.len(),
{
    let n = s.unicode_len();
    let mut i = n;
    proof {
        assert(s@.take(n as int) =~= s@);
    }
    loop
        invariant
            0 <= i <= n == s@.len(),
            stem_start(s@) == stem_start(s@.take(i as int)),
        decreases i,
    {
        if i == 0 {
            proof {
                assert(s@.take(0) =~= Seq::<char>::empty());
            }
            return 0;
        }
        let c = s.get_char(i - 1);
        if c == '/' {
            proof {
                let t = s@.take(i as int);
                assert(t[t.len() - 1] == '/');
            }
            return i;
        }
        proof {
            let t = s@.take(i as int);
            assert(t[t.len() - 1] != '/');
            assert(t.drop_last() =~= s@.take(i - 1));
        }
        i = i - 1;
    }
}

/// The decompression cache holds nothing.
pub open spec fn cache_empty(c: LruStore) -> bool {
    forall|k: u64| !cache_contents(c).dom().contains(k)
}

impl Arc {
    /// Registers directory `dir` as a child of `parent` if its hash is still
    /// free, and returns the directory's hash.  An existing entry under the
    /// same hash keeps its place (the first writer wins), except that a file
    /// standing where a directory is needed is replaced by the directory
    /// marker; links are never added twice.
    fn add_dir(&mut self, parent: &str, dir: &str) -> (r: u64)
        requires
            old(self).wf(),
            cache_empty(old(self).cache),
            parent@.len() == 0 || (old(self).files@.contains_key(hash40_spec(parent@))
                && old(self).files@[hash40_spec(parent@)] is Directory),
        ensures
            r == hash40_spec(dir@),
            final(self).wf(),
            final(self).cache == old(self).cache,
            final(self).data@ == old(self).data@,
            final(self).names@ == old(self).names@,
            final(self).files@.contains_key(r),
            final(self).files@[r] is Directory,
            final(self).dir_children@.contains_key(r),
            forall|h: u64| #[trigger]
                old(self).files@.contains_key(h) ==> final(self).files@.contains_key(h),
            forall|h: u64|
                old(self).files@.contains_key(h) && old(self).files@[h] is Directory
                    ==> final(self).files@[h] is Directory && #[trigger] final(
                    self).dir_children@.contains_key(h),
            // Insert-only: the hash is the only key that can appear, no other
            // entry, stem, path or children list changes.
            forall|h: u64| #[trigger]
                final(self).files@.contains_key(h) ==> old(self).files@.contains_key(h) || h == r,
            forall|h: u64| #[trigger]
                old(self).files@.contains_key(h) && h != r ==> final(self).files@[h] == old(
                    self).files@[h],
            forall|h: u64| #[trigger]
                old(self).stems@.contains_key(h) ==> final(self).stems@.contains_key(h) && final(
                    self).stems@[h] == old(self).stems@[h],
            forall|h: u64| #[trigger]
                old(self).stream_paths@.contains_key(h) ==> final(self).stream_paths@.contains_key(
                    h,
                ),
            forall|d: u64| #[trigger]
                old(self).dir_children@.contains_key(d) ==> final(self).dir_children@.contains_key(
                    d,
                ) && (d != r && d != hash40_spec(parent@) ==> final(self).dir_children@[d]@ == old(
                    self).dir_children@[d]@),
            // A standing directory leaves everything untouched; a fresh hash
            // records the stem, the path, and the link under the parent.
            old(self).files@.contains_key(r) && old(self).files@[r] is Directory ==> final(
                self).files@ == old(self).files@ && final(self).stems@ == old(self).stems@
                && final(self).dir_children@ == old(self).dir_children@ && final(
                self).stream_paths@ == old(self).stream_paths@,
            !old(self).files@.contains_key(r) ==> final(self).stems@[r]@ == stem_of(dir@) && final(
                self).stream_paths@.contains_key(r) && final(self).stream_paths@[r]@ == dir@
                && final(self).dir_children@[hash40_spec(parent@)]@ == old(
                self).dir_children@[hash40_spec(parent@)]@.push(r),
    {
        let parent_hash40 = hash40(parent);
        let dir_hash40 = hash40(dir);
        proof {
            if parent@.len() == 0 {
                assert(parent@ =~= Seq::<char>::empty());
            }
        }
        if self.files.contains_key(&dir_hash40) {
            let standing_is_dir = match self.files.get(&dir_hash40) {
                Some(e) => matches!(e, ArcFileInfo::Directory),
                None => false,
            };
            if !standing_is_dir {
                // A file stands where a directory is needed: the directory
                // marker wins and the file is dropped.  The entry keeps the
                // link and stem it already has.
                self.files.insert(dir_hash40, ArcFileInfo::Directory);
                self.dir_children.insert(dir_hash40, Vec::new());
                proof {
                    assert(final(self).tree_ok()) by {
                        let dc0 = old(self).dir_children@;
                        let dc1 = final(self).dir_children@;
                        assert forall|d: u64, i: int|
                            dc1.contains_key(d) && 0 <= i < dc1[d]@.len() implies final(
                            self).parent_link@.contains_key(#[trigger] dc1[d]@[i]) && final(
                            self).parent_link@[dc1[d]@[i]] == d by {
                            if d != dir_hash40 {
                                assert(dc0.contains_key(d) && dc0[d]@[i] == dc1[d]@[i]);
                            }
                        }
                        assert forall|d: u64, i: int, j: int|
                            dc1.contains_key(d) && 0 <= i < dc1[d]@.len() && 0 <= j
                                < dc1[d]@.len() && #[trigger] dc1[d]@[i] == #[trigger]
                            dc1[d]@[j] implies i == j by {
                            if d != dir_hash40 {
                                assert(dc0.contains_key(d));
                            }
                        }
                    }
                }
            }
            return dir_hash40;
        }
        // The hash is free: the branch above always takes the root, so this
        // directory is a proper child and gets linked exactly once.
        assert(dir_hash40 != 0);
        let n = dir.unicode_len();
        let start = find_stem_start(dir);
        let stem = dir.substring_char(start, n).to_owned();
        self.files.insert(dir_hash40, ArcFileInfo::Directory);
        self.dir_children.insert(dir_hash40, Vec::new());
        self.stems.insert(dir_hash40, stem);
        self.stream_paths.insert(dir_hash40, dir.to_owned());
        let kids_opt = self.dir_children.remove(&parent_hash40);
        let mut kids = kids_opt.unwrap();
        let ghost kids0 = kids@;
        kids.push(dir_hash40);
        self.dir_children.insert(parent_hash40, kids);
        self.parent_link = Ghost(self.parent_link@.insert(dir_hash40, parent_hash40));
        proof {
            let pl0 = old(self).parent_link@;
            let pl1 = final(self).parent_link@;
            let dc0 = old(self).dir_children@;
            let dc1 = final(self).dir_children@;
            let files1 = final(self).files@;
            assert(final(self).tree_ok()) by {
                assert forall|h: u64| #[trigger]
                    pl1.contains_key(h) implies dc1.contains_key(pl1[h]) && dc1[pl1[h]]@.contains(
                    h,
                ) by {
                    if h == dir_hash40 {
                        assert(dc1[parent_hash40]@ == kids0.push(dir_hash40));
                        assert(dc1[parent_hash40]@[kids0.len() as int] == dir_hash40);
                    } else {
                        assert(pl0.contains_key(h) && pl0[h] == pl1[h]);
                        assert(dc0.contains_key(pl0[h]) && dc0[pl0[h]]@.contains(h));
                        let i = choose|i: int| 0 <= i < dc0[pl0[h]]@.len() && dc0[pl0[h]]@[i] == h;
                        if pl0[h] == parent_hash40 {
                            assert(dc1[parent_hash40]@[i] == h);
                        } else {
                            assert(pl0[h] != dir_hash40);
                            assert(dc1[pl0[h]]@ == dc0[pl0[h]]@);
                        }
                    }
                }
                assert forall|d: u64, i: int|
                    dc1.contains_key(d) && 0 <= i < dc1[d]@.len() implies pl1.contains_key(
                    #[trigger] dc1[d]@[i],
                ) && pl1[dc1[d]@[i]] == d by {
                    if d == dir_hash40 {
                    } else if d == parent_hash40 {
                        if i < kids0.len() {
                            assert(dc0.contains_key(parent_hash40) && dc0[parent_hash40]@[i]
                                == dc1[d]@[i]);
                            assert(pl0.contains_key(dc1[d]@[i]));
                        } else {
                            assert(dc1[d]@[i] == dir_hash40);
                        }
                    } else {
                        assert(dc0.contains_key(d) && dc0[d]@[i] == dc1[d]@[i]);
                        assert(pl0.contains_key(dc1[d]@[i]));
                        assert(dc1[d]@[i] != dir_hash40);
                    }
                }
                assert forall|d: u64, i: int, j: int|
                    dc1.contains_key(d) && 0 <= i < dc1[d]@.len() && 0 <= j < dc1[d]@.len()
                        && #[trigger] dc1[d]@[i] == #[trigger] dc1[d]@[j] implies i == j by {
                    if d == parent_hash40 {
                        if i != j {
                            if i < kids0.len() && j < kids0.len() {
                                assert(dc0.contains_key(parent_hash40));
                                assert(dc0[parent_hash40]@[i] == dc1[d]@[i]);
                                assert(dc0[parent_hash40]@[j] == dc1[d]@[j]);
                            } else if i < kids0.len() {
                                assert(dc1[d]@[j] == dir_hash40);
                                assert(pl0.contains_key(dc0[parent_hash40]@[i]));
                            } else if j < kids0.len() {
                                assert(dc1[d]@[i] == dir_hash40);
                                assert(pl0.contains_key(dc0[parent_hash40]@[j]));
                            }
                        }
                    } else if d != dir_hash40 {
                        assert(dc0.contains_key(d));
                        assert(dc0[d]@[i] == dc1[d]@[i] && dc0[d]@[j] == dc1[d]@[j]);
                    }
                }
            }
        }
        dir_hash40
    }

    /// Registers every proper prefix directory of `path` (each path component
    /// but the last) and returns the hash of the deepest one, or 0 (the root)
    /// when the path has no directory part.
    fn add_dirs(&mut self, path: &str) -> (r: u64)
        requires
            old(self).wf(),
            cache_empty(old(self).cache),
        ensures
            final(self).wf(),
            final(self).cache == old(self).cache,
            final(self).data@ == old(self).data@,
            final(self).names@ == old(self).names@,
            r == if stem_start(path@) == 0 {
                0u64
            } else {
                hash40_spec(path@.subrange(0, stem_start(path@) - 1))
            },
            final(self).files@.contains_key(r),
            final(self).files@[r] is Directory,
            final(self).dir_children@.contains_key(r),
            forall|h: u64| #[trigger]
                old(self).files@.contains_key(h) ==> final(self).files@.contains_key(h),
            forall|h: u64|
                old(self).files@.contains_key(h) && old(self).files@[h] is Directory
                    ==> final(self).files@[h] is Directory && #[trigger] final(
                    self).dir_children@.contains_key(h),
            // Only directories appear, and no standing entry changes except a
            // file giving way to the directory marker.
            forall|h: u64| #[trigger]
                final(self).files@.contains_key(h) ==> old(self).files@.contains_key(h) || final(
                    self).files@[h] is Directory,
            forall|h: u64| #[trigger]
                old(self).files@.contains_key(h) ==> final(self).files@[h] == old(self).files@[h]
                    || final(self).files@[h] is Directory,
            forall|h: u64| #[trigger]
                old(self).stems@.contains_key(h) ==> final(self).stems@.contains_key(h) && final(
                    self).stems@[h] == old(self).stems@[h],
            forall|h: u64| #[trigger]
                old(self).stream_paths@.contains_key(h) ==> final(self).stream_paths@.contains_key(
                    h,
                ),
            // Every proper prefix of the path (one per separator) is a
            // registered directory afterwards.
            forall|k: int|
                #![trigger path@.take(k)]
                0 <= k < path@.len() && path@[k] == '/' ==> final(self).files@.contains_key(
                    hash40_spec(path@.take(k)),
                ) && final(self).files@[hash40_spec(path@.take(k))] is Directory && final(
                    self).dir_children@.contains_key(hash40_spec(path@.take(k))),
    {
        let n = path.unicode_len();
        let mut i: usize = 0;
        let mut prev: usize = 0;
        let mut last_hash: u64 = 0;
        proof {
            assert(path@.take(0) =~= Seq::<char>::empty());
        }
        while i < n
            invariant
                self.wf(),
                cache_empty(self.cache),
                self.cache == old(self).cache,
                self.data@ == old(self).data@,
                self.names@ == old(self).names@,
                0 <= i <= n == path@.len(),
                0 <= prev <= i,
                prev == if stem_start(path@.take(i as int)) == 0 {
                    0int
                } else {
                    stem_start(path@.take(i as int)) - 1
                },
                last_hash == if stem_start(path@.take(i as int)) == 0 {
                    0u64
                } else {
                    hash40_spec(path@.subrange(0, stem_start(path@.take(i as int)) - 1))
                },
                path@.take(prev as int).len() == 0 || (self.files@.contains_key(
                    hash40_spec(path@.take(prev as int)),
                ) && self.files@[hash40_spec(path@.take(prev as int))] is Directory),
                stem_start(path@.take(i as int)) != 0 ==> self.files@.contains_key(last_hash)
                    && self.files@[last_hash] is Directory && self.dir_children@.contains_key(
                    last_hash,
                ),
                forall|h: u64| #[trigger]
                    old(self).files@.contains_key(h) ==> self.files@.contains_key(h),
                forall|h: u64|
                    old(self).files@.contains_key(h) && old(self).files@[h] is Directory
                        ==> self.files@[h] is Directory && #[trigger] self.dir_children@.contains_key(
                        h,
                    ),
                forall|h: u64| #[trigger]
                    self.files@.contains_key(h) ==> old(self).files@.contains_key(h)
                        || self.files@[h] is Directory,
                forall|h: u64| #[trigger]
                    old(self).files@.contains_key(h) ==> self.files@[h] == old(self).files@[h]
                        || self.files@[h] is Directory,
                forall|h: u64| #[trigger]
                    old(self).stems@.contains_key(h) ==> self.stems@.contains_key(h)
                        && self.stems@[h] == old(self).stems@[h],
                forall|h: u64| #[trigger]
                    old(self).stream_paths@.contains_key(h) ==> self.stream_paths@.contains_key(h),
                forall|k: int|
                    #![trigger path@.take(k)]
                    0 <= k < i && path@[k] == '/' ==> self.files@.contains_key(
                        hash40_spec(path@.take(k)),
                    ) && self.files@[hash40_spec(path@.take(k))] is Directory
                        && self.dir_children@.contains_key(hash40_spec(path@.take(k))),
            decreases n - i,
        {
            let ghost t0 = path@.take(i as int);
            let c = path.get_char(i);
            if c == '/' {
                let parent = path.substring_char(0, prev);
                let current = path.substring_char(0, i);
                proof {
                    if stem_start(t0) != 0 {
                        assert(parent@ =~= path@.take(prev as int));
                    }
                    lemma_stem_start_bounds(t0);
                    assert(current@ =~= path@.take(i as int));
                }
                let dh = self.add_dir(parent, current);
                proof {
                    let t1 = path@.take(i + 1);
                    assert(t1[t1.len() - 1] == '/');
                    assert(stem_start(t1) == i + 1);
                    assert(path@.subrange(0, i as int) =~= current@);
                }
                prev = i;
                last_hash = dh;
            } else {
                proof {
                    let t1 = path@.take(i + 1);
                    assert(t1[t1.len() - 1] != '/');
                    assert(t1.drop_last() =~= t0);
                }
            }
            i = i + 1;
        }
        proof {
            assert(path@.take(n as int) =~= path@);
        }
        last_hash
    }

    /// The path a hash resolves to, if any: label entries first, then paths
    /// recorded while building the tree.
    fn lookup_path(&self, h: u64) -> (r: Option<String>)
        ensures
            match r {
                Some(p) => (self.names@.contains_key(h) && p@ == self.names@[h]@) || (
                !self.names@.contains_key(h) && self.stream_paths@.contains_key(h) && p@
                    == self.stream_paths@[h]@),
                None => !self.names@.contains_key(h) && !self.stream_paths@.contains_key(h),
            },
    {
        match self.names.get(&h) {
            Some(p) => Some(p.clone()),
            None => match self.stream_paths.get(&h) {
                Some(p) => Some(p.clone()),
                None => None,
            },
        }
    }

    /// Inserts file entry `entry` under hash `h` and links it below the
    /// directory `parent`, unless the hash is already taken: the first writer
    /// wins, and a directory standing there wins over the file.
    fn link_file(&mut self, h: u64, entry: ArcFileInfo, parent: u64, stem: String)
        requires
            old(self).wf(),
            cache_empty(old(self).cache),
            old(self).files@.contains_key(parent),
            old(self).files@[parent] is Directory,
            entry_in_bounds(entry, old(self).data@.len()),
            !(entry is Directory),
        ensures
            final(self).wf(),
            final(self).cache == old(self).cache,
            final(self).data@ == old(self).data@,
            final(self).names@ == old(self).names@,
            final(self).files@.contains_key(h),
            !old(self).files@.contains_key(h) ==> final(self).files@ == old(self).files@.insert(
                h,
                entry,
            ),
            forall|g: u64| #[trigger]
                old(self).files@.contains_key(g) ==> final(self).files@.contains_key(g),
            forall|g: u64|
                old(self).files@.contains_key(g) && old(self).files@[g] is Directory
                    ==> final(self).files@[g] is Directory && #[trigger] final(
                    self).dir_children@.contains_key(g),
            // A taken hash leaves everything untouched (the first writer
            // wins; a standing directory wins over the file).
            old(self).files@.contains_key(h) ==> final(self).files@ == old(self).files@ && final(
                self).stems@ == old(self).stems@ && final(self).dir_children@ == old(
                self).dir_children@,
            final(self).stream_paths@ == old(self).stream_paths@,
            forall|g: u64| #[trigger]
                old(self).stems@.contains_key(g) ==> final(self).stems@.contains_key(g) && final(
                    self).stems@[g] == old(self).stems@[g],
            forall|d: u64| #[trigger]
                old(self).dir_children@.contains_key(d) ==> final(self).dir_children@.contains_key(
                    d,
                ) && (d != parent ==> final(self).dir_children@[d]@ == old(self).dir_children@[d]@),
            // A fresh hash records the stem and hangs off the parent.
            !old(self).files@.contains_key(h) ==> final(self).stems@[h] == stem && final(
                self).dir_children@[parent]@ == old(self).dir_children@[parent]@.push(h),
    {
        if self.files.contains_key(&h) {
            return ;
        }
        assert(h != 0);
        self.files.insert(h, entry);
        self.stems.insert(h, stem);
        let kids_opt = self.dir_children.remove(&parent);
        let mut kids = kids_opt.unwrap();
        let ghost kids0 = kids@;
        kids.push(h);
        self.dir_children.insert(parent, kids);
        self.parent_link = Ghost(self.parent_link@.insert(h, parent));
        proof {
            let pl0 = old(self).parent_link@;
            let pl1 = final(self).parent_link@;
            let dc0 = old(self).dir_children@;
            let dc1 = final(self).dir_children@;
            assert(final(self).tree_ok()) by {
                assert forall|g: u64| #[trigger]
                    pl1.contains_key(g) implies dc1.contains_key(pl1[g]) && dc1[pl1[g]]@.contains(
                    g,
                ) by {
                    if g == h {
                        assert(dc1[parent]@ == kids0.push(h));
                        assert(dc1[parent]@[kids0.len() as int] == h);
                    } else {
                        assert(pl0.contains_key(g) && pl0[g] == pl1[g]);
                        assert(dc0.contains_key(pl0[g]) && dc0[pl0[g]]@.contains(g));
                        let i = choose|i: int| 0 <= i < dc0[pl0[g]]@.len() && dc0[pl0[g]]@[i] == g;
                        if pl0[g] == parent {
                            assert(dc1[parent]@[i] == g);
                        } else {
                            assert(dc1[pl0[g]]@ == dc0[pl0[g]]@);
                        }
                    }
                }
                assert forall|d: u64, i: int|
                    dc1.contains_key(d) && 0 <= i < dc1[d]@.len() implies pl1.contains_key(
                    #[trigger] dc1[d]@[i],
                ) && pl1[dc1[d]@[i]] == d by {
                    if d == parent {
                        if i < kids0.len() {
                            assert(dc0.contains_key(parent) && dc0[parent]@[i] == dc1[d]@[i]);
                            assert(pl0.contains_key(dc1[d]@[i]));
                        } else {
                            assert(dc1[d]@[i] == h);
                        }
                    } else {
                        assert(dc0.contains_key(d) && dc0[d]@[i] == dc1[d]@[i]);
                        assert(pl0.contains_key(dc1[d]@[i]));
                        assert(dc1[d]@[i] != h);
                    }
                }
                assert forall|d: u64, i: int, j: int|
                    dc1.contains_key(d) && 0 <= i < dc1[d]@.len() && 0 <= j < dc1[d]@.len()
                        && #[trigger] dc1[d]@[i] == #[trigger] dc1[d]@[j] implies i == j by {
                    if d == parent {
                        if i != j {
                            if i < kids0.len() && j < kids0.len() {
                                assert(dc0.contains_key(parent));
                                assert(dc0[parent]@[i] == dc1[d]@[i]);
                                assert(dc0[parent]@[j] == dc1[d]@[j]);
                            } else if i < kids0.len() {
                                assert(dc1[d]@[j] == h);
                                assert(pl0.contains_key(dc0[parent]@[i]));
                            } else if j < kids0.len() {
                                assert(dc1[d]@[i] == h);
                                assert(pl0.contains_key(dc0[parent]@[j]));
                            }
                        }
                    } else {
                        assert(dc0.contains_key(d));
                        assert(dc0[d]@[i] == dc1[d]@[i] && dc0[d]@[j] == dc1[d]@[j]);
                    }
                }
            }
        }
    }

    /// Seeds the model with the reserved root entry (hash 0, the empty path).
    fn init_root(&mut self)
        requires
            old(self).names@ == Map::<u64, String>::empty(),
            old(self).stream_paths@ == Map::<u64, String>::empty(),
            old(self).dir_children@ == Map::<u64, Vec<u64>>::empty(),
            old(self).files@ == Map::<u64, ArcFileInfo>::empty(),
            old(self).stems@ == Map::<u64, String>::empty(),
            old(self).parent_link@ == Map::<u64, u64>::empty(),
            cache_empty(old(self).cache),
        ensures
            final(self).wf(),
            cache_empty(final(self).cache),
            final(self).cache == old(self).cache,
            final(self).data@ == old(self).data@,
            forall|h: u64| #[trigger]
                final(self).files@.contains_key(h) ==> final(self).files@[h] is Directory,
            final(self).names@.contains_key(0),
            final(self).names@[0]@ == Seq::<char>::empty(),
            final(self).stems@.contains_key(0),
            final(self).stems@[0]@ == Seq::<char>::empty(),
    {
        let empty_name = "";
        let root_hash = hash40(empty_name);
        proof {
            reveal_strlit("");
        }
        self.names.insert(root_hash, empty_name.to_owned());
        self.stems.insert(root_hash, empty_name.to_owned());
        self.dir_children.insert(root_hash, Vec::new());
        self.files.insert(root_hash, ArcFileInfo::Directory);
    }
}

/// The raw-file entry the stream tables dictate for stream entry `e`: the
/// offset and size its chain resolves to, with the entry's flags.
pub open spec fn stream_dictated(internal: ArcInternal, index: Seq<u8>, e: StreamEntry) -> ArcFileInfo {
    let sfi = le32(index, internal.stream_file_indices.entry_off(e.index as int));
    let soe = StreamOffsetEntry::decode_spec(
        index,
        internal.stream_offset_entries.entry_off(sfi as int),
    );
    ArcFileInfo::Uncompressed {
        data: spec_window(soe.offset as int, soe.size as int),
        flags: e.flags,
    }
}

/// The compressed-file entry the tables dictate for `fi`: the resolved byte
/// range and the recorded decompressed size.
pub open spec fn compressed_dictated(internal: ArcInternal, index: Seq<u8>, fi: FileInfo2) -> ArcFileInfo {
    let t = compressed_resolution(internal, index, fi)->Some_0;
    ArcFileInfo::Compressed { data: spec_window(t.0, t.1), decomp_size: t.2 as u64 }
}

/// Every raw entry of the model carries a known path and is exactly what some
/// resolvable stream entry dictates for its hash: nothing fabricated is ever
/// stored.
pub open spec fn stream_provenance(
    files: Map<u64, ArcFileInfo>,
    names: Map<u64, String>,
    stream_paths: Map<u64, String>,
    internal: ArcInternal,
    index: Seq<u8>,
    archive_len: nat,
) -> bool {
    forall|h: u64| #[trigger]
        files.contains_key(h) && files[h] is Uncompressed ==> (names.contains_key(h)
            || stream_paths.contains_key(h)) && exists|i: int|
            0 <= i < internal.stream_entries.count && stream_entry_hash(
                #[trigger] stream_entry_at(internal, index, i),
            ) == h && stream_ok(internal, index, archive_len, stream_entry_at(internal, index, i))
                && files[h] == stream_dictated(internal, index, stream_entry_at(internal, index, i))
}

/// Every compressed entry of the model carries a known label and is exactly
/// what some resolvable compressed-file entry dictates for its hash.
pub open spec fn compressed_provenance(
    files: Map<u64, ArcFileInfo>,
    names: Map<u64, String>,
    internal: ArcInternal,
    index: Seq<u8>,
    archive_len: nat,
) -> bool {
    forall|h: u64| #[trigger]
        files.contains_key(h) && files[h] is Compressed ==> exists|i: int|
            0 <= i < internal.file_infos_v2.count && compressed_ok(
                internal,
                index,
                archive_len,
                names,
                #[trigger] file_info_at(internal, index, i),
            ) && compressed_entry_hash(internal, index, file_info_at(internal, index, i)) == h
                && files[h] == compressed_dictated(internal, index, file_info_at(internal, index, i))
}

impl Arc {
    /// Walks every stream entry, creating its ancestor directories and its
    /// raw-file entry.  Entries without a known label, with a broken offset
    /// chain, or whose byte range falls outside the archive are skipped;
    /// every labelled, resolvable entry's hash is present afterwards.
    /// Processes one stream entry: creates its ancestor directories and files
    /// its raw entry, or skips it when unlabelled, with a broken offset
    /// chain, or out of range.
    #[verifier::rlimit(50)]
    fn load_stream_entry(&mut self, internal: &ArcInternal, index: &[u8], i: usize)
        requires
            old(self).wf(),
            cache_empty(old(self).cache),
            internal.wf(index@.len()),
            i < internal.stream_entries.count,
            stream_provenance(
                old(self).files@,
                old(self).names@,
                old(self).stream_paths@,
                *internal,
                index@,
                old(self).data@.len(),
            ),
            compressed_provenance(
                old(self).files@,
                old(self).names@,
                *internal,
                index@,
                old(self).data@.len(),
            ),
        ensures
            final(self).wf(),
            cache_empty(final(self).cache),
            final(self).cache == old(self).cache,
            final(self).data@ == old(self).data@,
            final(self).names@ == old(self).names@,
            stream_provenance(
                final(self).files@,
                final(self).names@,
                final(self).stream_paths@,
                *internal,
                index@,
                final(self).data@.len(),
            ),
            compressed_provenance(
                final(self).files@,
                final(self).names@,
                *internal,
                index@,
                final(self).data@.len(),
            ),
            forall|g: u64| #[trigger]
                old(self).stems@.contains_key(g) ==> final(self).stems@.contains_key(g) && final(
                    self).stems@[g] == old(self).stems@[g],
            forall|g: u64| #[trigger]
                old(self).files@.contains_key(g) ==> final(self).files@.contains_key(g),
            (final(self).names@.contains_key(
                stream_entry_hash(stream_entry_at(*internal, index@, i as int)),
            ) && stream_ok(
                *internal,
                index@,
                final(self).data@.len(),
                stream_entry_at(*internal, index@, i as int),
            )) ==> final(self).files@.contains_key(
                stream_entry_hash(stream_entry_at(*internal, index@, i as int)),
            ),
    {
        let data_len = self.data.len();
        let ghost files_pre = self.files@;
        let e = internal.stream_entries.get(index, i);
        let ext: u64 = e.name_length as u64;
        proof {
            assert(stream_entry_at(*internal, index@, i as int) == e);
            assert(ext <= 0xFF);
            assert(ext <= 0xFF ==> (ext << 32) <= 0xFF00000000u64) by (bit_vector);
        }
        let h: u64 = e.hash as u64 + (ext << 32);
        if let Some(path) = self.lookup_path(h) {
            let last = self.add_dirs(path.as_str());
            if (e.index as usize) < internal.stream_file_indices.len() {
                let sfi = internal.stream_file_indices.get(index, e.index as usize);
                if (sfi as usize) < internal.stream_offset_entries.len() {
                    let soe = internal.stream_offset_entries.get(index, sfi as usize);
                    if soe.offset <= data_len as u64 && soe.size <= data_len as u64 - soe.offset {
                        let entry = ArcFileInfo::Uncompressed {
                            data: FileSlice::new(soe.offset as usize, soe.size as usize),
                            flags: e.flags,
                        };
                        let n = path.as_str().unicode_len();
                        let start = find_stem_start(path.as_str());
                        let stem = path.as_str().substring_char(start, n).to_owned();
                        self.link_file(h, entry, last, stem);
                    }
                }
            }
        }
        proof {
            assert forall|g: u64| #[trigger]
                self.files@.contains_key(g) && self.files@[g] is Uncompressed implies (
            self.names@.contains_key(g) || self.stream_paths@.contains_key(g)) && exists|j: int|
                0 <= j < internal.stream_entries.count && stream_entry_hash(
                    #[trigger] stream_entry_at(*internal, index@, j),
                ) == g && stream_ok(
                    *internal,
                    index@,
                    self.data@.len(),
                    stream_entry_at(*internal, index@, j),
                ) && self.files@[g] == stream_dictated(
                    *internal,
                    index@,
                    stream_entry_at(*internal, index@, j),
                ) by {
                if files_pre.contains_key(g) && self.files@[g] == files_pre[g] {
                    assert(files_pre[g] is Uncompressed);
                } else {
                    assert(stream_entry_at(*internal, index@, i as int) == e);
                }
            }
            assert forall|g: u64| #[trigger]
                self.files@.contains_key(g) && self.files@[g] is Compressed implies exists|j: int|
                0 <= j < internal.file_infos_v2.count && compressed_ok(
                    *internal,
                    index@,
                    self.data@.len(),
                    self.names@,
                    #[trigger] file_info_at(*internal, index@, j),
                ) && compressed_entry_hash(*internal, index@, file_info_at(*internal, index@, j))
                    == g && self.files@[g] == compressed_dictated(
                    *internal,
                    index@,
                    file_info_at(*internal, index@, j),
                ) by {
                assert(files_pre.contains_key(g) && self.files@[g] == files_pre[g]);
            }
        }
    }

    #[verifier::rlimit(50)]
    fn load_stream_files(&mut self, internal: &ArcInternal, index: &[u8])
        requires
            old(self).wf(),
            cache_empty(old(self).cache),
            internal.wf(index@.len()),
            stream_provenance(
                old(self).files@,
                old(self).names@,
                old(self).stream_paths@,
                *internal,
                index@,
                old(self).data@.len(),
            ),
            compressed_provenance(
                old(self).files@,
                old(self).names@,
                *internal,
                index@,
                old(self).data@.len(),
            ),
        ensures
            final(self).wf(),
            cache_empty(final(self).cache),
            final(self).cache == old(self).cache,
            final(self).data@ == old(self).data@,
            final(self).names@ == old(self).names@,
            stream_provenance(
                final(self).files@,
                final(self).names@,
                final(self).stream_paths@,
                *internal,
                index@,
                final(self).data@.len(),
            ),
            compressed_provenance(
                final(self).files@,
                final(self).names@,
                *internal,
                index@,
                final(self).data@.len(),
            ),
            forall|g: u64| #[trigger]
                old(self).stems@.contains_key(g) ==> final(self).stems@.contains_key(g) && final(
                    self).stems@[g] == old(self).stems@[g],
            forall|g: u64| #[trigger]
                old(self).files@.contains_key(g) ==> final(self).files@.contains_key(g),
            forall|i: int|
                #![trigger stream_entry_at(*internal, index@, i)]
                0 <= i < internal.stream_entries.count ==> ((final(self).names@.contains_key(
                    stream_entry_hash(stream_entry_at(*internal, index@, i)),
                ) && stream_ok(
                    *internal,
                    index@,
                    final(self).data@.len(),
                    stream_entry_at(*internal, index@, i),
                )) ==> final(self).files@.contains_key(
                    stream_entry_hash(stream_entry_at(*internal, index@, i)),
                )),
    {
        let count = internal.stream_entries.len();
        let data_len = self.data.len();
        let mut i: usize = 0;
        while i < count
            invariant
                self.wf(),
                cache_empty(self.cache),
                self.cache == old(self).cache,
                self.data@ == old(self).data@,
                self.names@ == old(self).names@,
                internal.wf(index@.len()),
                count == internal.stream_entries.count,
                data_len == self.data@.len(),
                0 <= i <= count,
                stream_provenance(
                    self.files@,
                    self.names@,
                    self.stream_paths@,
                    *internal,
                    index@,
                    self.data@.len(),
                ),
                compressed_provenance(
                    self.files@,
                    self.names@,
                    *internal,
                    index@,
                    self.data@.len(),
                ),
                forall|g: u64| #[trigger]
                    old(self).stems@.contains_key(g) ==> self.stems@.contains_key(g)
                        && self.stems@[g] == old(self).stems@[g],
                forall|g: u64| #[trigger]
                    old(self).files@.contains_key(g) ==> self.files@.contains_key(g),
                forall|j: int|
                    #![trigger stream_entry_at(*internal, index@, j)]
                    0 <= j < i ==> ((self.names@.contains_key(
                        stream_entry_hash(stream_entry_at(*internal, index@, j)),
                    ) && stream_ok(
                        *internal,
                        index@,
                        self.data@.len(),
                        stream_entry_at(*internal, index@, j),
                    )) ==> self.files@.contains_key(
                        stream_entry_hash(stream_entry_at(*internal, index@, j)),
                    )),
            decreases count - i,
        {
            let ghost files_pre = self.files@;
            self.load_stream_entry(internal, index, i);
            proof {
                assert forall|j: int|
                    #![trigger stream_entry_at(*internal, index@, j)]
                    0 <= j < i + 1 implies ((self.names@.contains_key(
                    stream_entry_hash(stream_entry_at(*internal, index@, j)),
                ) && stream_ok(
                    *internal,
                    index@,
                    self.data@.len(),
                    stream_entry_at(*internal, index@, j),
                )) ==> self.files@.contains_key(
                    stream_entry_hash(stream_entry_at(*internal, index@, j)),
                )) by {
                    let e2 = stream_entry_at(*internal, index@, j);
                    if j < i {
                        if files_pre.contains_key(stream_entry_hash(e2)) {
                            assert(self.files@.contains_key(stream_entry_hash(e2)));
                        }
                    }
                }
            }
            i = i + 1;
        }
    }
}

/// The `i`-th stream entry of the table.
pub open spec fn stream_entry_at(internal: ArcInternal, index: Seq<u8>, i: int) -> StreamEntry {
    StreamEntry::decode_spec(index, internal.stream_entries.entry_off(i))
}

impl Arc {
    /// Files every path of the label text under the hash-40 of the path
    /// itself; entries already present keep their value (the first writer
    /// wins), so label ingestion never breaks name consistency.
    fn load_hashes(&mut self, labels: &str)
        requires
            old(self).wf(),
            cache_empty(old(self).cache),
        ensures
            final(self).wf(),
            cache_empty(final(self).cache),
            final(self).cache == old(self).cache,
            final(self).data@ == old(self).data@,
            final(self).files@ == old(self).files@,
            final(self).dir_children@ == old(self).dir_children@,
            final(self).stems@ == old(self).stems@,
            final(self).stream_paths@ == old(self).stream_paths@,
            final(self).parent_link@ == old(self).parent_link@,
            forall|h: u64| #[trigger]
                old(self).names@.contains_key(h) ==> final(self).names@.contains_key(h) && final(
                    self).names@[h] == old(self).names@[h],
            forall|i: int|
                0 <= i < parsed_labels(labels@).len() ==> final(self).names@.contains_key(
                    hash40_spec(#[trigger] parsed_labels(labels@)[i]),
                ),
    {
        let paths = parse_labels(labels);
        let count = paths.len();
        let mut i: usize = 0;
        while i < count
            invariant
                self.wf(),
                cache_empty(self.cache),
                self.cache == old(self).cache,
                self.data@ == old(self).data@,
                self.files@ == old(self).files@,
                self.dir_children@ == old(self).dir_children@,
                self.stems@ == old(self).stems@,
                self.stream_paths@ == old(self).stream_paths@,
                self.parent_link@ == old(self).parent_link@,
                0 <= i <= count == paths@.len(),
                paths@.map_values(|p: String| p@) == parsed_labels(labels@),
                forall|h: u64| #[trigger]
                    old(self).names@.contains_key(h) ==> self.names@.contains_key(h)
                        && self.names@[h] == old(self).names@[h],
                forall|j: int|
                    0 <= j < i ==> self.names@.contains_key(
                        hash40_spec(#[trigger] parsed_labels(labels@)[j]),
                    ),
            decreases count - i,
        {
            let p = &paths[i];
            let h = hash40(p.as_str());
            proof {
                assert(parsed_labels(labels@)[i as int] == paths@.map_values(|q: String| q@)[
                    i as int]);
            }
            if !self.names.contains_key(&h) {
                self.names.insert(h, p.clone());
            }
            i = i + 1;
        }
    }

    /// Opens an archive: checks the header and magic, decompresses the index
    /// blob, carves the tables, ingests the labels, and builds the filesystem
    /// model from the streamed and compressed entries.  Succeeds exactly when
    /// header, magic, index blob and table layout are all sound; nothing of
    /// the archive itself is copied.  Colliding entries resolve
    /// deterministically: the first writer of a hash wins, and a directory
    /// standing where a file arrives (or needed where a file stands) wins
    /// over the file.
    pub fn open(data: Vec<u8>, labels: &str) -> (r: Result<Arc, LookupError>)
        ensures
            r is Ok <==> open_ok(data@),
            r matches Ok(arc) ==> {
                let idx = spec_open_index(data@)->Some_0;
                let internal = spec_internal(idx, crate::structs::ArcHeader::decode_spec(data@, 0));
                &&& arc.wf()
                &&& arc.data@ == data@
                &&& arc.names@.contains_key(0)
                &&& arc.names@[0]@ == Seq::<char>::empty()
                &&& arc.stems@.contains_key(0)
                &&& arc.stems@[0]@ == Seq::<char>::empty()
                &&& stream_provenance(
                    arc.files@,
                    arc.names@,
                    arc.stream_paths@,
                    internal,
                    idx,
                    data@.len(),
                )
                &&& compressed_provenance(arc.files@, arc.names@, internal, idx, data@.len())
                &&& forall|i: int|
                    0 <= i < parsed_labels(labels@).len() ==> arc.names@.contains_key(
                        hash40_spec(#[trigger] parsed_labels(labels@)[i]),
                    )
                &&& forall|i: int|
                    #![trigger stream_entry_at(internal, idx, i)]
                    0 <= i < internal.stream_entries.count ==> ((arc.names@.contains_key(
                        stream_entry_hash(stream_entry_at(internal, idx, i)),
                    ) && stream_ok(
                        internal,
                        idx,
                        data@.len(),
                        stream_entry_at(internal, idx, i),
                    )) ==> arc.files@.contains_key(
                        stream_entry_hash(stream_entry_at(internal, idx, i)),
                    ))
                &&& forall|i: int|
                    #![trigger file_info_at(internal, idx, i)]
                    0 <= i < internal.file_infos_v2.count ==> (compressed_ok(
                        internal,
                        idx,
                        data@.len(),
                        arc.names@,
                        file_info_at(internal, idx, i),
                    ) ==> arc.files@.contains_key(
                        compressed_entry_hash(internal, idx, file_info_at(internal, idx, i)),
                    ))
            },
            r matches Err(e) ==> e matches LookupError::Corrupt(_),
            data@.len() >= ArcHeader::size_spec() && ArcHeader::decode_spec(data@, 0).magic
                != MAGIC ==> r == Err::<Arc, LookupError>(
                LookupError::Corrupt(CorruptKind::BadMagic),
            ),
    {
        let data_len = data.len();
        if data_len < 48 {
            return Err(LookupError::Corrupt(CorruptKind::TableOverflow { offset: 48 }));
        }
        let arc_header = crate::mem_file::get_header::<ArcHeader>().read(data.as_slice());
        if arc_header.magic != MAGIC {
            return Err(LookupError::Corrupt(CorruptKind::BadMagic));
        }
        let index = decompress_table(data.as_slice(), arc_header)?;
        let internal = project_tables(index.as_slice(), arc_header)?;
        let mut arc = Arc {
            data,
            names: HashMap::new(),
            stream_paths: HashMap::new(),
            dir_children: HashMap::new(),
            files: HashMap::new(),
            stems: HashMap::new(),
            cache: cache_new(50),
            parent_link: Ghost(Map::empty()),
        };
        arc.init_root();
        arc.load_hashes(labels);
        arc.load_stream_files(&internal, index.as_slice());
        arc.load_compressed_files(&internal, index.as_slice());
        Ok(arc)
    }
}

/// The 40-bit hash a stream entry addresses: its 32 hash bits extended by the
/// path-length byte.
pub open spec fn stream_entry_hash(e: StreamEntry) -> u64 {
    (e.hash as u64 + ((e.name_length as u64) << 32)) as u64
}

/// The redirect flag of a `FileInfo2`.
pub open spec fn redirect_flag() -> u32 {
    0x10
}

/// The `i`-th compressed-file entry of the table.
pub open spec fn file_info_at(internal: ArcInternal, index: Seq<u8>, i: int) -> FileInfo2 {
    FileInfo2::decode_spec(index, internal.file_infos_v2.entry_off(i))
}

/// Where a compressed-file entry's bytes live: the archive-absolute offset,
/// stored size and decompressed size the index tables resolve it to, or
/// `None` when an index of the chain falls outside its table.
pub open spec fn compressed_resolution(internal: ArcInternal, index: Seq<u8>, fi: FileInfo2) -> Option<
    (int, int, int),
> {
    let target = if fi.flags & redirect_flag() != 0 {
        if (fi.hash_index_2 as int) < internal.file_info_indices.count {
            let fii = FileInformationIndex::decode_spec(
                index,
                internal.file_info_indices.entry_off(fi.hash_index_2 as int),
            );
            if (fii.file_info_index as int) < internal.file_infos_v2.count {
                Some(file_info_at(internal, index, fii.file_info_index as int))
            } else {
                None
            }
        } else {
            None
        }
    } else {
        Some(fi)
    };
    match target {
        None => None,
        Some(fi2) => {
            if (fi2.sub_file_index as int) < internal.file_info_sub_index.count {
                let si = FileInfoSubIndex::decode_spec(
                    index,
                    internal.file_info_sub_index.entry_off(fi2.sub_file_index as int),
                );
                if (si.sub_file_index as int) < internal.sub_files.count && (
                si.folder_offset_index as int) < internal.folder_offsets.count {
                    let sub = SubFileInfo::decode_spec(
                        index,
                        internal.sub_files.entry_off(si.sub_file_index as int),
                    );
                    let dof = DirectoryOffsets::decode_spec(
                        index,
                        internal.folder_offsets.entry_off(si.folder_offset_index as int),
                    );
                    Some(
                        (
                            internal.arc_header.file_section_offset + dof.offset + sub.offset * 4,
                            sub.comp_size as int,
                            sub.decomp_size as int,
                        ),
                    )
                } else {
                    None
                }
            } else {
                None
            }
        },
    }
}

/// A compressed-file entry names a known path, resolves inside the tables,
/// fits inside the archive, and stores no more bytes than it decompresses to.
pub open spec fn compressed_ok(
    internal: ArcInternal,
    index: Seq<u8>,
    archive_len: nat,
    names: Map<u64, String>,
    fi: FileInfo2,
) -> bool {
    &&& (fi.hash_index as int) < internal.file_info_paths.count
    &&& names.contains_key(compressed_entry_hash(internal, index, fi))
    &&& match compressed_resolution(internal, index, fi) {
        Some(t) => t.0 + t.1 <= archive_len && t.1 <= t.2,
        None => false,
    }
}

/// The 40-bit path hash a compressed-file entry is filed under.
pub open spec fn compressed_entry_hash(internal: ArcInternal, index: Seq<u8>, fi: FileInfo2) -> u64 {
    FileInformationPath::decode_spec(
        index,
        internal.file_info_paths.entry_off(fi.hash_index as int),
    ).path.hash40_spec()
}

impl Arc {
    /// Follows a compressed entry's resolution chain (redirect, sub-index,
    /// sub-file, directory base) to the byte range holding its data, bounded
    /// by the archive; `None` when an index falls outside its table or the
    /// range outside the archive.
    fn get_file_compressed(
        internal: &ArcInternal,
        index: &[u8],
        fi: FileInfo2,
        archive_len: usize,
    ) -> (r: Option<(FileSlice<u8>, u64)>)
        requires
            internal.wf(index@.len()),
        ensures
            match compressed_resolution(*internal, index@, fi) {
                Some(t) => {
                    if t.0 + t.1 <= archive_len {
                        match r {
                            Some(p) => p.0.base == t.0 && p.0.count == t.1 && p.1 == t.2,
                            None => false,
                        }
                    } else {
                        r is None
                    }
                },
                None => r is None,
            },
    {
        let fi2: FileInfo2 = if fi.flags & 0x10 != 0 {
            if (fi.hash_index_2 as usize) < internal.file_info_indices.len() {
                let fii = internal.file_info_indices.get(index, fi.hash_index_2 as usize);
                if (fii.file_info_index as usize) < internal.file_infos_v2.len() {
                    internal.file_infos_v2.get(index, fii.file_info_index as usize)
                } else {
                    return None;
                }
            } else {
                return None;
            }
        } else {
            fi
        };
        if (fi2.sub_file_index as usize) >= internal.file_info_sub_index.len() {
            return None;
        }
        let si = internal.file_info_sub_index.get(index, fi2.sub_file_index as usize);
        if (si.sub_file_index as usize) >= internal.sub_files.len() {
            return None;
        }
        if (si.folder_offset_index as usize) >= internal.folder_offsets.len() {
            return None;
        }
        let sub = internal.sub_files.get(index, si.sub_file_index as usize);
        let dof = internal.folder_offsets.get(index, si.folder_offset_index as usize);
        let off: u128 = internal.arc_header.file_section_offset as u128 + dof.offset as u128 + (
        sub.offset as u128) * 4;
        if off + sub.comp_size as u128 > archive_len as u128 {
            return None;
        }
        Some((FileSlice::new(off as usize, sub.comp_size as usize), sub.decomp_size as u64))
    }

    /// Walks every compressed-file entry, creating its ancestor directories
    /// and its compressed-file entry.  Entries without a known label, with a
    /// broken resolution chain, or whose byte range falls outside the archive
    /// are skipped; every labelled, resolvable entry's hash is present
    /// afterwards.
    /// Processes one compressed-file entry: creates its ancestor directories
    /// and files its entry, or skips it when unlabelled, unresolvable, out of
    /// range or oversized.
    #[verifier::rlimit(50)]
    fn load_compressed_entry(&mut self, internal: &ArcInternal, index: &[u8], i: usize)
        requires
            old(self).wf(),
            cache_empty(old(self).cache),
            internal.wf(index@.len()),
            i < internal.file_infos_v2.count,
            stream_provenance(
                old(self).files@,
                old(self).names@,
                old(self).stream_paths@,
                *internal,
                index@,
                old(self).data@.len(),
            ),
            compressed_provenance(
                old(self).files@,
                old(self).names@,
                *internal,
                index@,
                old(self).data@.len(),
            ),
        ensures
            final(self).wf(),
            cache_empty(final(self).cache),
            final(self).cache == old(self).cache,
            final(self).data@ == old(self).data@,
            final(self).names@ == old(self).names@,
            stream_provenance(
                final(self).files@,
                final(self).names@,
                final(self).stream_paths@,
                *internal,
                index@,
                final(self).data@.len(),
            ),
            compressed_provenance(
                final(self).files@,
                final(self).names@,
                *internal,
                index@,
                final(self).data@.len(),
            ),
            forall|g: u64| #[trigger]
                old(self).stems@.contains_key(g) ==> final(self).stems@.contains_key(g) && final(
                    self).stems@[g] == old(self).stems@[g],
            forall|g: u64| #[trigger]
                old(self).files@.contains_key(g) ==> final(self).files@.contains_key(g),
            compressed_ok(
                *internal,
                index@,
                final(self).data@.len(),
                final(self).names@,
                file_info_at(*internal, index@, i as int),
            ) ==> final(self).files@.contains_key(
                compressed_entry_hash(*internal, index@, file_info_at(*internal, index@, i as int)),
            ),
    {
        let data_len = self.data.len();
        let ghost files_pre = self.files@;
        let fi = internal.file_infos_v2.get(index, i);
        proof {
            assert(file_info_at(*internal, index@, i as int) == fi);
        }
        if (fi.hash_index as usize) < internal.file_info_paths.len() {
            let fip = internal.file_info_paths.get(index, fi.hash_index as usize);
            let h = fip.path.hash40();
            if let Some(path) = self.lookup_path(h) {
                if self.names.contains_key(&h) {
                    match Self::get_file_compressed(internal, index, fi, data_len) {
                        Some((slice, decomp_size)) => {
                            if slice.len() as u64 <= decomp_size {
                                let last = self.add_dirs(path.as_str());
                                let entry = ArcFileInfo::Compressed {
                                    data: slice,
                                    decomp_size,
                                };
                                let n = path.as_str().unicode_len();
                                let start = find_stem_start(path.as_str());
                                let stem = path.as_str().substring_char(start, n).to_owned();
                                self.link_file(h, entry, last, stem);
                            }
                        },
                        None => {},
                    }
                }
            }
        }
        proof {
            assert forall|h: u64| #[trigger]
                self.files@.contains_key(h) && self.files@[h] is Uncompressed implies (
            self.names@.contains_key(h) || self.stream_paths@.contains_key(h)) && exists|j: int|
                0 <= j < internal.stream_entries.count && stream_entry_hash(
                    #[trigger] stream_entry_at(*internal, index@, j),
                ) == h && stream_ok(
                    *internal,
                    index@,
                    self.data@.len(),
                    stream_entry_at(*internal, index@, j),
                ) && self.files@[h] == stream_dictated(
                    *internal,
                    index@,
                    stream_entry_at(*internal, index@, j),
                ) by {
                assert(files_pre.contains_key(h) && self.files@[h] == files_pre[h]);
                assert(files_pre[h] is Uncompressed);
            }
            assert forall|h: u64| #[trigger]
                self.files@.contains_key(h) && self.files@[h] is Compressed implies exists|j: int|
                0 <= j < internal.file_infos_v2.count && compressed_ok(
                    *internal,
                    index@,
                    self.data@.len(),
                    self.names@,
                    #[trigger] file_info_at(*internal, index@, j),
                ) && compressed_entry_hash(*internal, index@, file_info_at(*internal, index@, j))
                    == h && self.files@[h] == compressed_dictated(
                    *internal,
                    index@,
                    file_info_at(*internal, index@, j),
                ) by {
                if files_pre.contains_key(h) && self.files@[h] == files_pre[h] {
                    assert(files_pre[h] is Compressed);
                } else {
                    assert(file_info_at(*internal, index@, i as int) == fi);
                }
            }
        }
    }

    #[verifier::rlimit(50)]
    fn load_compressed_files(&mut self, internal: &ArcInternal, index: &[u8])
        requires
            old(self).wf(),
            cache_empty(old(self).cache),
            internal.wf(index@.len()),
            stream_provenance(
                old(self).files@,
                old(self).names@,
                old(self).stream_paths@,
                *internal,
                index@,
                old(self).data@.len(),
            ),
            compressed_provenance(
                old(self).files@,
                old(self).names@,
                *internal,
                index@,
                old(self).data@.len(),
            ),
        ensures
            final(self).wf(),
            cache_empty(final(self).cache),
            final(self).cache == old(self).cache,
            final(self).data@ == old(self).data@,
            final(self).names@ == old(self).names@,
            stream_provenance(
                final(self).files@,
                final(self).names@,
                final(self).stream_paths@,
                *internal,
                index@,
                final(self).data@.len(),
            ),
            compressed_provenance(
                final(self).files@,
                final(self).names@,
                *internal,
                index@,
                final(self).data@.len(),
            ),
            forall|g: u64| #[trigger]
                old(self).stems@.contains_key(g) ==> final(self).stems@.contains_key(g) && final(
                    self).stems@[g] == old(self).stems@[g],
            forall|g: u64| #[trigger]
                old(self).files@.contains_key(g) ==> final(self).files@.contains_key(g),
            forall|i: int|
                #![trigger file_info_at(*internal, index@, i)]
                0 <= i < internal.file_infos_v2.count ==> (compressed_ok(
                    *internal,
                    index@,
                    final(self).data@.len(),
                    final(self).names@,
                    file_info_at(*internal, index@, i),
                ) ==> final(self).files@.contains_key(
                    compressed_entry_hash(*internal, index@, file_info_at(*internal, index@, i)),
                )),
    {
        let count = internal.file_infos_v2.len();
        let data_len = self.data.len();
        let mut i: usize = 0;
        while i < count
            invariant
                self.wf(),
                cache_empty(self.cache),
                self.cache == old(self).cache,
                self.data@ == old(self).data@,
                self.names@ == old(self).names@,
                internal.wf(index@.len()),
                count == internal.file_infos_v2.count,
                data_len == self.data@.len(),
                0 <= i <= count,
                stream_provenance(
                    self.files@,
                    self.names@,
                    self.stream_paths@,
                    *internal,
                    index@,
                    self.data@.len(),
                ),
                compressed_provenance(
                    self.files@,
                    self.names@,
                    *internal,
                    index@,
                    self.data@.len(),
                ),
                forall|g: u64| #[trigger]
                    old(self).stems@.contains_key(g) ==> self.stems@.contains_key(g)
                        && self.stems@[g] == old(self).stems@[g],
                forall|g: u64| #[trigger]
                    old(self).files@.contains_key(g) ==> self.files@.contains_key(g),
                forall|j: int|
                    #![trigger file_info_at(*internal, index@, j)]
                    0 <= j < i ==> (compressed_ok(
                        *internal,
                        index@,
                        self.data@.len(),
                        self.names@,
                        file_info_at(*internal, index@, j),
                    ) ==> self.files@.contains_key(
                        compressed_entry_hash(
                            *internal,
                            index@,
                            file_info_at(*internal, index@, j),
                        ),
                    )),
            decreases count - i,
        {
            let ghost files_pre = self.files@;
            self.load_compressed_entry(internal, index, i);
            proof {
                assert forall|j: int|
                    #![trigger file_info_at(*internal, index@, j)]
                    0 <= j < i + 1 implies (compressed_ok(
                    *internal,
                    index@,
                    self.data@.len(),
                    self.names@,
                    file_info_at(*internal, index@, j),
                ) ==> self.files@.contains_key(
                    compressed_entry_hash(*internal, index@, file_info_at(*internal, index@, j)),
                )) by {
                    let fi2 = file_info_at(*internal, index@, j);
                    if j < i {
                        if files_pre.contains_key(compressed_entry_hash(*internal, index@, fi2)) {
                            assert(self.files@.contains_key(
                                compressed_entry_hash(*internal, index@, fi2),
                            ));
                        }
                    }
                }
            }
            i = i + 1;
        }
    }
}

/// A stream entry's offset chain resolves inside the tables and its byte
/// range lies inside an archive of `archive_len` bytes.
pub open spec fn stream_ok(
    internal: ArcInternal,
    index: Seq<u8>,
    archive_len: nat,
    e: StreamEntry,
) -> bool {
    &&& (e.index as int) < internal.stream_file_indices.count
    &&& {
        let sfi = le32(index, internal.stream_file_indices.entry_off(e.index as int));
        &&& (sfi as int) < internal.stream_offset_entries.count
        &&& {
            let soe = StreamOffsetEntry::decode_spec(
                index,
                internal.stream_offset_entries.entry_off(sfi as int),
            );
            soe.offset + soe.size <= archive_len
        }
    }
}

} // verus!
