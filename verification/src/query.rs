//! The read-only query surface served to the filesystem driver.
//!
//! All queries leave the filesystem model untouched; fetching a compressed
//! file may populate the bounded decompression cache, which is the only state
//! a query can change.

use vstd::prelude::*;

use crate::cache::cache_get;
use crate::cache::cache_set;
use crate::model::Arc;
use crate::model::entry_in_bounds;
use crate::types::ArcFileInfo;
use crate::types::CorruptKind;
use crate::types::DirEntry;
use crate::types::FileKind;
use crate::types::FileMetadata;
use crate::types::FileSliceOrVec;
use crate::types::LookupError;
use crate::zstd_codec::zstd_decode;
use crate::zstd_codec::zstd_inflate;
use vstd::slice::slice_subrange;
use vstd::slice::slice_to_vec;

verus! {

broadcast use vstd::std_specs::hash::group_hash_axioms;

/// The decompressed bytes a stored entry stands for: the archive window
/// itself for a raw entry or a compressed entry stored at its final size, the
/// decoded frame for any other compressed entry, `None` for a directory or
/// when decoding fails or disagrees with the recorded size.
pub open spec fn entry_bytes(archive: Seq<u8>, e: ArcFileInfo) -> Option<Seq<u8>> {
    match e {
        ArcFileInfo::Uncompressed { data, .. } => Some(
            archive.subrange(data.base as int, data.base + data.count),
        ),
        ArcFileInfo::Compressed { data, decomp_size } => {
            let raw = archive.subrange(data.base as int, data.base + data.count);
            if data.count == decomp_size {
                Some(raw)
            } else {
                match zstd_inflate(raw) {
                    Some(v) => if v.len() == decomp_size {
                        Some(v)
                    } else {
                        None
                    },
                    None => None,
                }
            }
        },
        ArcFileInfo::Directory => None,
    }
}

/// The bytes `get_file_contents` serves for hash `h`, or the error it
/// reports: a pure function of the frozen model, which is what makes repeated
/// queries return byte-equal results.
pub open spec fn spec_contents(
    archive: Seq<u8>,
    files: Map<u64, ArcFileInfo>,
    h: u64,
) -> Result<Seq<u8>, LookupError> {
    if !files.contains_key(h) {
        Err(LookupError::Missing)
    } else if files[h] is Directory {
        Err(LookupError::NotAFile)
    } else {
        match entry_bytes(archive, files[h]) {
            Some(v) => Ok(v),
            None => Err(LookupError::Corrupt(CorruptKind::ZstdDecode)),
        }
    }
}

impl Arc {
    /// Resolves a hash to its human path, if one is known.
    pub fn get_name(&self, hash40: u64) -> (r: Option<&str>)
        ensures
            match r {
                Some(s) => (self.names@.contains_key(hash40) && s@ == self.names@[hash40]@) || (
                !self.names@.contains_key(hash40) && self.stream_paths@.contains_key(hash40) && s@
                    == self.stream_paths@[hash40]@),
                None => !self.names@.contains_key(hash40) && !self.stream_paths@.contains_key(
                    hash40,
                ),
            },
    {
        match self.names.get(&hash40) {
            Some(s) => Some(s.as_str()),
            None => match self.stream_paths.get(&hash40) {
                Some(s) => Some(s.as_str()),
                None => None,
            },
        }
    }

    /// Serves the size and kind of an entry; fails `Missing` exactly when the
    /// hash names nothing.
    pub fn get_file_metadata(&self, hash40: u64) -> (r: Result<FileMetadata, LookupError>)
        ensures
            r is Ok <==> self.files@.contains_key(hash40),
            r matches Ok(m) ==> match self.files@[hash40] {
                ArcFileInfo::Uncompressed { data, .. } => m.decomp_size == data.count && m.kind
                    == FileKind::File,
                ArcFileInfo::Compressed { decomp_size, .. } => m.decomp_size == decomp_size
                    && m.kind == FileKind::File,
                ArcFileInfo::Directory => m.decomp_size == 0 && m.kind == FileKind::Directory,
            },
            r matches Err(e) ==> e == LookupError::Missing,
    {
        match self.files.get(&hash40) {
            None => Err(LookupError::Missing),
            Some(ArcFileInfo::Uncompressed { data, .. }) => Ok(
                FileMetadata { decomp_size: data.len() as u64, kind: FileKind::File },
            ),
            Some(ArcFileInfo::Compressed { decomp_size, .. }) => Ok(
                FileMetadata { decomp_size: *decomp_size, kind: FileKind::File },
            ),
            Some(ArcFileInfo::Directory) => Ok(
                FileMetadata { decomp_size: 0, kind: FileKind::Directory },
            ),
        }
    }

    /// Lists the immediate children of a directory, with each child's hash,
    /// kind and stem; `None` exactly when the hash is no directory of the
    /// model.
    pub fn get_dir_listing(&self, hash40: u64) -> (r: Option<Vec<DirEntry>>)
        requires
            self.wf(),
        ensures
            r is Some <==> (self.files@.contains_key(hash40) && self.files@[hash40] is Directory),
            r matches Some(v) ==> {
                &&& v@.len() == self.dir_children@[hash40]@.len()
                &&& forall|i: int|
                    0 <= i < v@.len() ==> {
                        let c = self.dir_children@[hash40]@[i];
                        &&& (#[trigger] v@[i]).hash == c
                        &&& v@[i].stem@ == self.stems@[c]@
                        &&& (v@[i].kind == FileKind::Directory <==> self.files@[c] is Directory)
                        &&& (v@[i].kind == FileKind::File <==> !(self.files@[c] is Directory))
                    }
            },
    {
        let is_dir = match self.files.get(&hash40) {
            Some(ArcFileInfo::Directory) => true,
            _ => false,
        };
        if !is_dir {
            return None;
        }
        let kids = self.dir_children.get(&hash40).unwrap();
        let n = kids.len();
        let mut out: Vec<DirEntry> = Vec::new();
        let mut i: usize = 0;
        while i < n
            invariant
                self.wf(),
                self.files@.contains_key(hash40),
                self.files@[hash40] is Directory,
                self.dir_children@.contains_key(hash40),
                kids@ == self.dir_children@[hash40]@,
                n == kids@.len(),
                0 <= i <= n,
                out@.len() == i,
                forall|j: int|
                    0 <= j < i ==> {
                        let c = self.dir_children@[hash40]@[j];
                        &&& (#[trigger] out@[j]).hash == c
                        &&& out@[j].stem@ == self.stems@[c]@
                        &&& (out@[j].kind == FileKind::Directory <==> self.files@[c] is Directory)
                        &&& (out@[j].kind == FileKind::File <==> !(self.files@[c]
                            is Directory))
                    },
            decreases n - i,
        {
            let c = kids[i];
            proof {
                assert(self.dir_children@[hash40]@.contains(c));
            }
            let kind = match self.files.get(&c) {
                Some(ArcFileInfo::Directory) => FileKind::Directory,
                _ => FileKind::File,
            };
            let stem = match self.stems.get(&c) {
                Some(s) => s.clone(),
                None => String::new(),
            };
            out.push(DirEntry { hash: c, kind, stem });
            i = i + 1;
        }
        Some(out)
    }

    /// Serves the decompressed bytes of a file: a copy of the archive window
    /// for a raw entry, the cached or freshly decoded buffer for a compressed
    /// one.  Fails `NotAFile` for directories, `Missing` for unknown hashes,
    /// and `Corrupt` when a compressed entry does not decode to its recorded
    /// size.  The model itself never changes, and only a compressed entry
    /// stored below its final size touches the cache at all.
    pub fn get_file_contents(&mut self, hash40: u64) -> (r: Result<Vec<u8>, LookupError>)
        requires
            old(self).wf(),
        ensures
            final(self).wf(),
            final(self).model() == old(self).model(),
            !old(self).files@.contains_key(hash40) ==> final(self).cache == old(self).cache,
            old(self).files@.contains_key(hash40) && !(old(self).files@[hash40] is Compressed)
                ==> final(self).cache == old(self).cache,
            old(self).files@.contains_key(hash40) ==> (old(self).files@[hash40]
                matches ArcFileInfo::Compressed { data, decomp_size } ==> (data.count
                == decomp_size ==> final(self).cache == old(self).cache)),
            match r {
                Ok(v) => spec_contents(old(self).data@, old(self).files@, hash40) == Ok::<
                    Seq<u8>,
                    LookupError,
                >(v@),
                Err(e) => spec_contents(old(self).data@, old(self).files@, hash40) == Err::<
                    Seq<u8>,
                    LookupError,
                >(e),
            },
    {
        let data_len = self.data.len();
        let entry = match self.files.get(&hash40) {
            None => {
                return Err(LookupError::Missing);
            },
            Some(e) => *e,
        };
        proof {
            assert(entry_in_bounds(entry, self.data@.len()));
        }
        match entry {
            ArcFileInfo::Directory => Err(LookupError::NotAFile),
            ArcFileInfo::Uncompressed { data, .. } => {
                let s = slice_subrange(
                    self.data.as_slice(),
                    data.inner_ptr(),
                    data.inner_ptr() + data.len(),
                );
                Ok(slice_to_vec(s))
            },
            ArcFileInfo::Compressed { data, decomp_size } => {
                if data.len() as u64 == decomp_size {
                    let s = slice_subrange(
                        self.data.as_slice(),
                        data.inner_ptr(),
                        data.inner_ptr() + data.len(),
                    );
                    Ok(slice_to_vec(s))
                } else {
                    match cache_get(&mut self.cache, hash40) {
                        Some(v) => Ok(v),
                        None => {
                            let s = slice_subrange(
                                self.data.as_slice(),
                                data.inner_ptr(),
                                data.inner_ptr() + data.len(),
                            );
                            match zstd_decode(s) {
                                None => Err(LookupError::Corrupt(CorruptKind::ZstdDecode)),
                                Some(v) => {
                                    if v.len() as u64 != decomp_size {
                                        Err(LookupError::Corrupt(CorruptKind::ZstdDecode))
                                    } else {
                                        let copy = slice_to_vec(v.as_slice());
                                        let ghost vv = copy@;
                                        let ghost pre = crate::cache::cache_contents(self.cache);
                                        cache_set(&mut self.cache, hash40, copy);
                                        proof {
                                            let post = crate::cache::cache_contents(self.cache);
                                            assert(post.contains_pair(hash40, vv));
                                            assert(post.submap_of(pre.insert(hash40, vv)));
                                            assert forall|k: u64| #[trigger]
                                                post.dom().contains(k) implies self.files@.contains_key(
                                                k,
                                            ) && match self.files@[k] {
                                                ArcFileInfo::Compressed {
                                                    data: d2,
                                                    decomp_size: ds2,
                                                } => zstd_inflate(
                                                    self.data@.subrange(
                                                        d2.base as int,
                                                        d2.base + d2.count,
                                                    ),
                                                ) == Some(post[k]) && post[k].len() == ds2,
                                                _ => false,
                                            } by {
                                                assert(vv == v@);
                                                if k != hash40 {
                                                    let ins = pre.insert(hash40, vv);
                                                    assert(ins.dom().contains(k) == (k == hash40
                                                        || pre.dom().contains(k)));
                                                    assert(post[k] == ins[k]);
                                                    assert(pre.dom().contains(k) && post[k]
                                                        == pre[k]);
                                                }
                                            }
                                        }
                                        Ok(v)
                                    }
                                },
                            }
                        },
                    }
                }
            },
        }
    }

    /// Serves the bytes of a file either as a zero-copy window (raw entries,
    /// and compressed entries stored at their final size, with no decode
    /// attempted and the cache untouched) or as an owned decompressed buffer;
    /// `None` for directories, unknown hashes and undecodable entries.
    pub fn get_file_data(&mut self, hash40: u64) -> (r: Option<FileSliceOrVec>)
        requires
            old(self).wf(),
        ensures
            final(self).wf(),
            final(self).model() == old(self).model(),
            r is Some <==> spec_contents(old(self).data@, old(self).files@, hash40) is Ok,
            old(self).files@.contains_key(hash40) ==> (old(self).files@[hash40]
                matches ArcFileInfo::Uncompressed { data, .. } ==> r == Some(
                FileSliceOrVec::FileSlice(data),
            ) && final(self).cache == old(self).cache),
            old(self).files@.contains_key(hash40) ==> (old(self).files@[hash40]
                matches ArcFileInfo::Compressed { data, decomp_size } ==> (data.count
                == decomp_size ==> r == Some(FileSliceOrVec::FileSlice(data)) && final(self).cache
                == old(self).cache)),
            !old(self).files@.contains_key(hash40) || old(self).files@[hash40] is Directory
                ==> final(self).cache == old(self).cache,
            r matches Some(fsv) ==> {
                &&& spec_contents(old(self).data@, old(self).files@, hash40) == Ok::<
                    Seq<u8>,
                    LookupError,
                >(fsv.bytes_spec(old(self).data@))
                &&& (fsv matches FileSliceOrVec::FileSlice(fs) ==> fs.base + fs.count <= old(
                    self,
                ).data@.len())
            },
    {
        let entry = match self.files.get(&hash40) {
            None => {
                return None;
            },
            Some(e) => *e,
        };
        proof {
            assert(entry_in_bounds(entry, self.data@.len()));
        }
        match entry {
            ArcFileInfo::Directory => None,
            ArcFileInfo::Uncompressed { data, .. } => Some(FileSliceOrVec::FileSlice(data)),
            ArcFileInfo::Compressed { data, decomp_size } => {
                if data.len() as u64 == decomp_size {
                    Some(FileSliceOrVec::FileSlice(data))
                } else {
                    match self.get_file_contents(hash40) {
                        Ok(v) => Some(FileSliceOrVec::Owned(v)),
                        Err(_) => None,
                    }
                }
            },
        }
    }

    /// Serves a clamped byte range of a file: at most `size` bytes starting
    /// at `offset`, exactly `min(size, len - offset)` bytes, and empty when
    /// `offset` is at or past the end.  Overrun is no error.
    pub fn read(&mut self, hash40: u64, offset: usize, size: usize) -> (r: Result<
        Vec<u8>,
        LookupError,
    >)
        requires
            old(self).wf(),
        ensures
            final(self).wf(),
            final(self).model() == old(self).model(),
            match r {
                Ok(v) => {
                    &&& spec_contents(old(self).data@, old(self).files@, hash40) is Ok
                    &&& {
                        let full = spec_contents(old(self).data@, old(self).files@, hash40)->Ok_0;
                        if offset <= full.len() {
                            let clamped = vstd::math::min(size as int, full.len() - offset);
                            v@.len() == clamped && v@ == full.subrange(
                                offset as int,
                                offset + clamped,
                            )
                        } else {
                            v@.len() == 0
                        }
                    }
                },
                Err(e) => spec_contents(old(self).data@, old(self).files@, hash40) == Err::<
                    Seq<u8>,
                    LookupError,
                >(e),
            },
    {
        let full = self.get_file_contents(hash40)?;
        let len = full.len();
        if offset >= len {
            proof {
                if offset <= full@.len() {
                    assert(Seq::<u8>::empty() =~= full@.subrange(offset as int, offset as int));
                }
            }
            return Ok(Vec::new());
        }
        let avail = len - offset;
        let take = if size < avail {
            size
        } else {
            avail
        };
        let s = slice_subrange(full.as_slice(), offset, offset + take);
        Ok(slice_to_vec(s))
    }
}

} // verus!
