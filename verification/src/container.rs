//! The top-level container: a 16-byte header, a table of subfile offsets,
//! and the subfiles themselves, kept partitioned by kind with the arrival
//! order recorded so re-encoding preserves it.

use crate::alignment::align4;
use crate::alignment::get_4_byte_alignment;
use crate::error::AppError;
use crate::lebytes::read_u16;
use crate::lebytes::read_u32;
use crate::lebytes::read_u8;
use crate::lebytes::write_u16;
use crate::lebytes::write_u32;
use crate::lebytes::write_u8;
use crate::mdl::Mdl;
use crate::subfiles::Jnt;
use crate::subfiles::Pat;
use crate::subfiles::Srt;
use crate::tex::Tex;
use crate::subfiles::Type;
use vstd::bytes::spec_u16_from_le_bytes;
use vstd::bytes::spec_u16_to_le_bytes;
use vstd::bytes::spec_u32_from_le_bytes;
use vstd::prelude::*;
use vstd::slice::slice_subrange;

verus! {

/// The 16-byte container header.
#[derive(Clone, Copy, Debug, PartialEq, Eq)]
pub struct Header {
    pub stamp: [u8; 4],
    pub bom: u16,
    pub version: u16,
    pub filesize: u32,
    pub header_size: u16,
    pub num_subfiles: u16,
}

impl Header {
    pub fn from_bytes(bytes: &[u8]) -> (r: Result<Header, AppError>)
        ensures
            r is Ok <==> bytes@.len() >= 16,
            r is Ok ==> {
                let h = r->Ok_0;
                &&& h.stamp@ == bytes@.subrange(0, 4)
                &&& h.bom == spec_u16_from_le_bytes(bytes@.subrange(4, 6))
                &&& h.version == spec_u16_from_le_bytes(bytes@.subrange(6, 8))
                &&& h.filesize == spec_u32_from_le_bytes(bytes@.subrange(8, 12))
                &&& h.header_size == spec_u16_from_le_bytes(bytes@.subrange(12, 14))
                &&& h.num_subfiles == spec_u16_from_le_bytes(bytes@.subrange(14, 16))
            },
    {
        if bytes.len() < 16 {
            return Err(AppError::new("Header needs at least 16 bytes"));
        }
        let stamp: [u8; 4] = [
            read_u8(bytes, 0),
            read_u8(bytes, 1),
            read_u8(bytes, 2),
            read_u8(bytes, 3),
        ];
        proof {
            assert(stamp@ =~= bytes@.subrange(0, 4));
        }
        Ok(Header {
            stamp,
            bom: read_u16(bytes, 4),
            version: read_u16(bytes, 6),
            filesize: read_u32(bytes, 8),
            header_size: read_u16(bytes, 12),
            num_subfiles: read_u16(bytes, 14),
        })
    }

    /// Writes the 16 header bytes at `buffer[pos..]`.
    pub fn write_bytes(&self, buffer: &mut Vec<u8>, pos: usize)
        requires
            pos + 16 <= old(buffer)@.len(),
        ensures
            final(buffer)@.len() == old(buffer)@.len(),
            forall|i: int|
                0 <= i < final(buffer)@.len() && !(pos <= i < pos + 16) ==> final(buffer)@[i]
                    == old(buffer)@[i],
            final(buffer)@.subrange(pos as int, pos + 4) == self.stamp@,
            final(buffer)@.subrange(pos + 4, pos + 6) == spec_u16_to_le_bytes(self.bom),
            final(buffer)@.subrange(pos + 6, pos + 8) == spec_u16_to_le_bytes(self.version),
            final(buffer)@.subrange(pos + 8, pos + 12) == vstd::bytes::spec_u32_to_le_bytes(
                self.filesize,
            ),
            final(buffer)@.subrange(pos + 12, pos + 14) == spec_u16_to_le_bytes(
                self.header_size,
            ),
            final(buffer)@.subrange(pos + 14, pos + 16) == spec_u16_to_le_bytes(
                self.num_subfiles,
            ),
    {
        let n = buffer.len();
        write_u8(buffer, pos, self.stamp[0]);
        write_u8(buffer, pos + 1, self.stamp[1]);
        write_u8(buffer, pos + 2, self.stamp[2]);
        write_u8(buffer, pos + 3, self.stamp[3]);
        write_u16(buffer, pos + 4, self.bom);
        write_u16(buffer, pos + 6, self.version);
        write_u32(buffer, pos + 8, self.filesize);
        write_u16(buffer, pos + 12, self.header_size);
        write_u16(buffer, pos + 14, self.num_subfiles);
        assert(buffer@.subrange(pos as int, pos + 4) =~= self.stamp@);
    }
}

/// A 4-byte sequence that is one of the five known type stamps.
pub open spec fn valid_stamp(s: Seq<u8>) -> bool {
    ||| s == crate::subfiles::stamp_of(Type::MDL)
    ||| s == crate::subfiles::stamp_of(Type::TEX)
    ||| s == crate::subfiles::stamp_of(Type::JNT)
    ||| s == crate::subfiles::stamp_of(Type::PAT)
    ||| s == crate::subfiles::stamp_of(Type::SRT)
}

/// Some failure of a container decode, over the raw bytes: a truncated
/// header or offset table, an offset that leaves no room for a stamp, an
/// unknown stamp, or a subfile body that does not decode at its offset.
pub open spec fn container_decode_err(bytes: Seq<u8>) -> bool {
    let n = bytes.len() as int;
    let count = spec_u16_from_le_bytes(bytes.subrange(14, 16)) as int;
    ||| n < 16
    ||| n < 16 + 4 * count
    ||| exists|i: int|
        #![trigger bytes.subrange(16 + 4 * i, 20 + 4 * i)]
        0 <= i < count && {
            let off = spec_u32_from_le_bytes(bytes.subrange(16 + 4 * i, 20 + 4 * i)) as int;
            ||| off + 4 > n
            ||| !valid_stamp(bytes.subrange(off, off + 4))
            ||| (bytes.subrange(off, off + 4) == crate::subfiles::stamp_of(Type::MDL)
                && crate::mdl::mdl_decode_err(bytes.subrange(off, n)))
            ||| (bytes.subrange(off, off + 4) == crate::subfiles::stamp_of(Type::TEX)
                && crate::tex::tex_decode_err(bytes.subrange(off, n)))
        }
}

/// How many of the first `i` arrival entries name the kind `t`.
pub open spec fn count_kind(s: Seq<(Type, usize)>, t: Type, i: int) -> int
    decreases i,
{
    if i <= 0 {
        0
    } else {
        count_kind(s, t, i - 1) + if s[i - 1].0 == t {
            1int
        } else {
            0int
        }
    }
}

/// The decoded subfiles, partitioned by kind, with the arrival order kept
/// as pairs of kind and index into that kind's partition.
#[derive(Clone, Debug)]
pub struct Files {
    pub mdl: Vec<Mdl>,
    pub tex: Vec<Tex>,
    pub jnt: Vec<Jnt>,
    pub pat: Vec<Pat>,
    pub srt: Vec<Srt>,
    pub sorted_indices: Vec<(Type, usize)>,
}

/// One whole container.
#[derive(Clone, Debug)]
pub struct Container {
    pub header: Header,
    pub subfile_offsets: Vec<u32>,
    pub files: Files,
}

impl Container {
    /// Every arrival-order entry points into its partition, and the
    /// offset table has one entry per subfile.
    pub open spec fn wf(self) -> bool {
        &&& self.subfile_offsets@.len() == self.header.num_subfiles as int
        &&& self.files.sorted_indices@.len() == self.header.num_subfiles as int
        &&& forall|i: int|
            0 <= i < self.files.sorted_indices@.len() ==> {
                let (t, k) = #[trigger] self.files.sorted_indices@[i];
                match t {
                    Type::MDL => k < self.files.mdl@.len(),
                    Type::TEX => k < self.files.tex@.len(),
                    Type::JNT => k < self.files.jnt@.len(),
                    Type::PAT => k < self.files.pat@.len(),
                    Type::SRT => k < self.files.srt@.len(),
                }
            }
    }

    /// No placeholder subfile kinds are present, so the container can be
    /// re-encoded and rebased.
    pub open spec fn supported(self) -> bool {
        forall|i: int|
            0 <= i < self.files.sorted_indices@.len() ==> {
                let t = (#[trigger] self.files.sorted_indices@[i]).0;
                t == Type::MDL || t == Type::TEX
            }
    }

    /// Decodes the header, the offset table, and every subfile in arrival
    /// order. A header count whose offset table would run past the buffer
    /// is a truncation error, never an out-of-bounds read.
    #[verifier::rlimit(100)]
    pub fn from_bytes(bytes: &[u8]) -> (r: Result<Container, AppError>)
        ensures
            r is Err <==> container_decode_err(bytes@),
            r is Ok ==> {
                let c = r->Ok_0;
                &&& c.wf()
                &&& c.header.stamp@ == bytes@.subrange(0, 4)
                &&& c.header.num_subfiles == spec_u16_from_le_bytes(bytes@.subrange(14, 16))
                &&& forall|i: int|
                    0 <= i < c.subfile_offsets@.len() ==> #[trigger] c.subfile_offsets@[i]
                        == spec_u32_from_le_bytes(bytes@.subrange(16 + 4 * i, 20 + 4 * i))
                &&& forall|i: int|
                    0 <= i < c.files.sorted_indices@.len() ==> {
                        let (t, k) = #[trigger] c.files.sorted_indices@[i];
                        let off = c.subfile_offsets@[i] as int;
                        &&& bytes@.subrange(off, off + 4) == crate::subfiles::stamp_of(t)
                        &&& k as int == count_kind(c.files.sorted_indices@, t, i)
                    }
            },
    {
        let n = bytes.len();
        let header = match Header::from_bytes(bytes) {
            Ok(h) => h,
            Err(e) => return Err(e),
        };
        let count = header.num_subfiles as usize;
        if n < 16 + 4 * count {
            return Err(AppError::new("Container offset table runs past the buffer"));
        }
        let mut subfile_offsets: Vec<u32> = Vec::new();
        let mut i: usize = 0;
        while i < count
            invariant
                i <= count,
                n == bytes@.len(),
                n >= 16 + 4 * count,
                subfile_offsets@.len() == i,
                forall|k: int|
                    0 <= k < i ==> #[trigger] subfile_offsets@[k] == spec_u32_from_le_bytes(
                        bytes@.subrange(16 + 4 * k, 20 + 4 * k),
                    ),
            decreases count - i,
        {
            subfile_offsets.push(read_u32(bytes, 16 + 4 * i));
            i = i + 1;
        }
        let mut mdl: Vec<Mdl> = Vec::new();
        let mut tex: Vec<Tex> = Vec::new();
        let mut jnt: Vec<Jnt> = Vec::new();
        let mut pat: Vec<Pat> = Vec::new();
        let mut srt: Vec<Srt> = Vec::new();
        let mut sorted_indices: Vec<(Type, usize)> = Vec::new();
        let mut i: usize = 0;
        while i < count
            invariant
                i <= count,
                n == bytes@.len(),
                count == subfile_offsets@.len(),
                count as int == spec_u16_from_le_bytes(bytes@.subrange(14, 16)) as int,
                n >= 16 + 4 * count,
                forall|k: int|
                    0 <= k < count ==> #[trigger] subfile_offsets@[k] == spec_u32_from_le_bytes(
                        bytes@.subrange(16 + 4 * k, 20 + 4 * k),
                    ),
                sorted_indices@.len() == i,
                mdl@.len() == count_kind(sorted_indices@, Type::MDL, i as int),
                tex@.len() == count_kind(sorted_indices@, Type::TEX, i as int),
                jnt@.len() == count_kind(sorted_indices@, Type::JNT, i as int),
                pat@.len() == count_kind(sorted_indices@, Type::PAT, i as int),
                srt@.len() == count_kind(sorted_indices@, Type::SRT, i as int),
                forall|k: int|
                    0 <= k < sorted_indices@.len() ==> {
                        let (t, idx) = #[trigger] sorted_indices@[k];
                        match t {
                            Type::MDL => idx < mdl@.len(),
                            Type::TEX => idx < tex@.len(),
                            Type::JNT => idx < jnt@.len(),
                            Type::PAT => idx < pat@.len(),
                            Type::SRT => idx < srt@.len(),
                        }
                    },
                forall|k: int|
                    0 <= k < sorted_indices@.len() ==> {
                        let (t, idx) = #[trigger] sorted_indices@[k];
                        let off = subfile_offsets@[k] as int;
                        bytes@.subrange(off, off + 4) == crate::subfiles::stamp_of(t)
                            && idx as int == count_kind(sorted_indices@, t, k)
                    },
                forall|k: int|
                    0 <= k < i ==> {
                        let off = (#[trigger] subfile_offsets@[k]) as int;
                        &&& off + 4 <= n
                        &&& valid_stamp(bytes@.subrange(off, off + 4))
                        &&& (bytes@.subrange(off, off + 4) == crate::subfiles::stamp_of(Type::MDL)
                            ==> !crate::mdl::mdl_decode_err(bytes@.subrange(off, n as int)))
                        &&& (bytes@.subrange(off, off + 4) == crate::subfiles::stamp_of(Type::TEX)
                            ==> !crate::tex::tex_decode_err(bytes@.subrange(off, n as int)))
                    },
            decreases count - i,
        {
            let offset = match subfile_offsets.get(i) {
                Some(o) => *o,
                None => {
                    proof {
                        assert(false);
                    }
                    0
                },
            } as usize;
            if offset > n || n - offset < 4 {
                return Err(AppError::new("Subfile offset is out of bounds"));
            }
            let subfile_type = match Type::from_stamp(slice_subrange(bytes, offset, offset + 4)) {
                Ok(t) => t,
                Err(e) => return Err(e),
            };
            let ghost pre = sorted_indices@;
            match subfile_type {
                Type::MDL => {
                    let file = match Mdl::from_bytes(slice_subrange(bytes, offset, n)) {
                        Ok(f) => f,
                        Err(e) => return Err(e),
                    };
                    sorted_indices.push((Type::MDL, mdl.len()));
                    mdl.push(file);
                },
                Type::TEX => {
                    let file = match Tex::from_bytes(slice_subrange(bytes, offset, n)) {
                        Ok(f) => f,
                        Err(e) => return Err(e),
                    };
                    sorted_indices.push((Type::TEX, tex.len()));
                    tex.push(file);
                },
                Type::JNT => {
                    let file = match Jnt::from_bytes(slice_subrange(bytes, offset, n)) {
                        Ok(f) => f,
                        Err(e) => return Err(e),
                    };
                    sorted_indices.push((Type::JNT, jnt.len()));
                    jnt.push(file);
                },
                Type::PAT => {
                    let file = match Pat::from_bytes(slice_subrange(bytes, offset, n)) {
                        Ok(f) => f,
                        Err(e) => return Err(e),
                    };
                    sorted_indices.push((Type::PAT, pat.len()));
                    pat.push(file);
                },
                Type::SRT => {
                    let file = match Srt::from_bytes(slice_subrange(bytes, offset, n)) {
                        Ok(f) => f,
                        Err(e) => return Err(e),
                    };
                    sorted_indices.push((Type::SRT, srt.len()));
                    srt.push(file);
                },
            }
            proof {
                lemma_stamps_distinct();
                assert(sorted_indices@ == pre.push(sorted_indices@[i as int]));
                assert forall|t2: Type, k: int| 0 <= k <= pre.len() implies #[trigger] count_kind(
                    sorted_indices@,
                    t2,
                    k,
                ) == count_kind(pre, t2, k) by {
                    lemma_count_kind_push(pre, sorted_indices@[i as int], t2, k);
                };
                let entry = sorted_indices@[i as int];
                assert(count_kind(sorted_indices@, Type::MDL, i + 1) == count_kind(
                    sorted_indices@,
                    Type::MDL,
                    i as int,
                ) + if entry.0 == Type::MDL {
                    1int
                } else {
                    0int
                });
                assert(count_kind(sorted_indices@, Type::TEX, i + 1) == count_kind(
                    sorted_indices@,
                    Type::TEX,
                    i as int,
                ) + if entry.0 == Type::TEX {
                    1int
                } else {
                    0int
                });
                assert(count_kind(sorted_indices@, Type::JNT, i + 1) == count_kind(
                    sorted_indices@,
                    Type::JNT,
                    i as int,
                ) + if entry.0 == Type::JNT {
                    1int
                } else {
                    0int
                });
                assert(count_kind(sorted_indices@, Type::PAT, i + 1) == count_kind(
                    sorted_indices@,
                    Type::PAT,
                    i as int,
                ) + if entry.0 == Type::PAT {
                    1int
                } else {
                    0int
                });
                assert(count_kind(sorted_indices@, Type::SRT, i + 1) == count_kind(
                    sorted_indices@,
                    Type::SRT,
                    i as int,
                ) + if entry.0 == Type::SRT {
                    1int
                } else {
                    0int
                });
            }
            i = i + 1;
        }
        proof {
            assert forall|i2: int| 0 <= i2 < count implies !{
                let off = spec_u32_from_le_bytes(
                    #[trigger] bytes@.subrange(16 + 4 * i2, 20 + 4 * i2),
                ) as int;
                ||| off + 4 > n as int
                ||| !valid_stamp(bytes@.subrange(off, off + 4))
                ||| (bytes@.subrange(off, off + 4) == crate::subfiles::stamp_of(Type::MDL)
                    && crate::mdl::mdl_decode_err(bytes@.subrange(off, n as int)))
                ||| (bytes@.subrange(off, off + 4) == crate::subfiles::stamp_of(Type::TEX)
                    && crate::tex::tex_decode_err(bytes@.subrange(off, n as int)))
            } by {
                assert(subfile_offsets@[i2] as int == spec_u32_from_le_bytes(
                    bytes@.subrange(16 + 4 * i2, 20 + 4 * i2),
                ) as int);
            };
            assert(!container_decode_err(bytes@));
        }
        Ok(
            Container {
                header,
                subfile_offsets,
                files: Files { mdl, tex, jnt, pat, srt, sorted_indices },
            },
        )
    }

    /// Every subfile's write lies after the offset table, the subfiles
    /// follow one another in arrival order without overlap, and every
    /// write stays inside the recorded file size.
    pub open spec fn layout_ok(self) -> bool {
        &&& self.supported()
        &&& 16 + 4 * self.subfile_offsets@.len() <= self.header.filesize as int
        &&& forall|i: int|
            0 <= i < self.subfile_offsets@.len() ==> 16 + 4 * self.subfile_offsets@.len() <= (
            #[trigger] self.subfile_offsets@[i]) as int
        &&& forall|i: int|
            0 <= i < self.subfile_offsets@.len() - 1 ==> (#[trigger] self.subfile_offsets@[i])
                as int + entry_size(self.files, i) <= self.subfile_offsets@[i + 1] as int
        &&& forall|i: int|
            0 <= i < self.files.sorted_indices@.len() ==> {
                let (t, k) = #[trigger] self.files.sorted_indices@[i];
                match t {
                    Type::MDL => {
                        let f = self.files.mdl@[k as int];
                        f.wf() && f.layout_ok() && self.subfile_offsets@[i] as int
                            + f.filesize as int <= self.header.filesize as int
                    },
                    Type::TEX => {
                        let f = self.files.tex@[k as int];
                        f.wf() && f.layout_ok() && self.subfile_offsets@[i] as int
                            + f.chunk_size as int <= self.header.filesize as int
                    },
                    _ => false,
                }
            }
    }

    /// Encodes the whole container into a fresh zeroed buffer of its
    /// recorded file size: the header, the offset table, and each subfile
    /// at its recorded offset.
    pub fn to_bytes(&self) -> (r: Result<Vec<u8>, AppError>)
        requires
            self.wf(),
            self.layout_ok(),
        ensures
            r is Ok,
            r is Ok ==> {
                let v = r->Ok_0@;
                &&& v.len() == self.header.filesize as int
                &&& v.subrange(0, 4) == self.header.stamp@
                &&& v.subrange(4, 6) == spec_u16_to_le_bytes(self.header.bom)
                &&& v.subrange(6, 8) == spec_u16_to_le_bytes(self.header.version)
                &&& v.subrange(8, 12) == vstd::bytes::spec_u32_to_le_bytes(self.header.filesize)
                &&& v.subrange(12, 14) == spec_u16_to_le_bytes(self.header.header_size)
                &&& v.subrange(14, 16) == spec_u16_to_le_bytes(self.header.num_subfiles)
                &&& forall|i: int|
                    0 <= i < self.subfile_offsets@.len() ==> v.subrange(16 + 4 * i, 20 + 4 * i)
                        == vstd::bytes::spec_u32_to_le_bytes(#[trigger] self.subfile_offsets@[i])
                &&& forall|i: int|
                    0 <= i < self.files.sorted_indices@.len() ==> {
                        let (t, k) = #[trigger] self.files.sorted_indices@[i];
                        let off = self.subfile_offsets@[i] as int;
                        &&& (t == Type::MDL ==> crate::mdl::mdl_written(
                            self.files.mdl@[k as int],
                            v,
                            off,
                        ))
                        &&& (t == Type::TEX ==> crate::tex::tex_written(
                            self.files.tex@[k as int],
                            v,
                            off,
                        ))
                    }
            },
    {
        let total = self.header.filesize as usize;
        let mut bytes: Vec<u8> = Vec::new();
        let mut i: usize = 0;
        while i < total
            invariant
                bytes@.len() == i,
                i <= total,
            decreases total - i,
        {
            bytes.push(0);
            i = i + 1;
        }
        self.header.write_bytes(&mut bytes, 0);
        let ghost after_header = bytes@;
        let count = self.subfile_offsets.len();
        let mut i: usize = 0;
        while i < count
            invariant
                i <= count,
                count == self.subfile_offsets@.len(),
                self.wf(),
                self.layout_ok(),
                bytes@.len() == self.header.filesize as int,
                16 + 4 * count <= bytes@.len(),
                bytes@.len() == after_header.len(),
                forall|k: int|
                    0 <= k < bytes@.len() && !(16 <= k < 16 + 4 * i) ==> bytes@[k]
                        == after_header[k],
                forall|k: int|
                    0 <= k < i ==> bytes@.subrange(16 + 4 * k, 20 + 4 * k)
                        == vstd::bytes::spec_u32_to_le_bytes(#[trigger] self.subfile_offsets@[k]),
            decreases count - i,
        {
            let ghost before = bytes@;
            let off = self.subfile_offsets[i];
            write_u32(&mut bytes, 16 + 4 * i, off);
            proof {
                assert forall|k: int|
                    0 <= k < i implies bytes@.subrange(16 + 4 * k, 20 + 4 * k)
                    == vstd::bytes::spec_u32_to_le_bytes(#[trigger] self.subfile_offsets@[k]) by {
                    assert(bytes@.subrange(16 + 4 * k, 20 + 4 * k) =~= before.subrange(
                        16 + 4 * k,
                        20 + 4 * k,
                    ));
                };
            }
            i = i + 1;
        }
        let ghost after_table = bytes@;
        let entries = self.files.sorted_indices.len();
        let mut i: usize = 0;
        while i < entries
            invariant
                i <= entries,
                entries == self.files.sorted_indices@.len(),
                self.wf(),
                self.layout_ok(),
                entries == self.subfile_offsets@.len(),
                bytes@.len() == self.header.filesize as int,
                bytes@.len() == after_table.len(),
                forall|k: int|
                    0 <= k < bytes@.len() && k < 16 + 4 * entries ==> bytes@[k] == after_table[k],
                forall|k: int|
                    0 <= k < i ==> {
                        let (t, idx) = #[trigger] self.files.sorted_indices@[k];
                        let off = self.subfile_offsets@[k] as int;
                        &&& (t == Type::MDL ==> crate::mdl::mdl_written(
                            self.files.mdl@[idx as int],
                            bytes@,
                            off,
                        ))
                        &&& (t == Type::TEX ==> crate::tex::tex_written(
                            self.files.tex@[idx as int],
                            bytes@,
                            off,
                        ))
                    },
            decreases entries - i,
        {
            let ghost before_sub = bytes@;
            let (file_type, local_index) = self.files.sorted_indices[i];
            let file_offset = self.subfile_offsets[i] as usize;
            match file_type {
                Type::MDL => {
                    let f = &self.files.mdl[local_index];
                    f.write_bytes(&mut bytes, file_offset);
                },
                Type::TEX => {
                    let f = &self.files.tex[local_index];
                    f.write_bytes(&mut bytes, file_offset);
                },
                Type::JNT => {
                    return Err(AppError::new("JNT subfiles cannot be re-encoded yet"));
                },
                Type::PAT => {
                    return Err(AppError::new("PAT subfiles cannot be re-encoded yet"));
                },
                Type::SRT => {
                    return Err(AppError::new("SRT subfiles cannot be re-encoded yet"));
                },
            }
            proof {
                assert forall|k: int| 0 <= k < i implies {
                    let (t, idx) = #[trigger] self.files.sorted_indices@[k];
                    let off = self.subfile_offsets@[k] as int;
                    &&& (t == Type::MDL ==> crate::mdl::mdl_written(
                        self.files.mdl@[idx as int],
                        bytes@,
                        off,
                    ))
                    &&& (t == Type::TEX ==> crate::tex::tex_written(
                        self.files.tex@[idx as int],
                        bytes@,
                        off,
                    ))
                } by {
                    lemma_subfile_offsets_chain(*self, k, i as int);
                    let (t, idx) = self.files.sorted_indices@[k];
                    let off = self.subfile_offsets@[k] as int;
                    if t == Type::MDL {
                        crate::mdl::lemma_mdl_written_frame(
                            self.files.mdl@[idx as int],
                            before_sub,
                            bytes@,
                            off,
                        );
                    }
                    if t == Type::TEX {
                        crate::tex::lemma_tex_written_frame(
                            self.files.tex@[idx as int],
                            before_sub,
                            bytes@,
                            off,
                        );
                    }
                };
            }
            i = i + 1;
        }
        proof {
            assert(bytes@.subrange(0, 4) =~= after_table.subrange(0, 4));
            assert(bytes@.subrange(4, 6) =~= after_table.subrange(4, 6));
            assert(bytes@.subrange(6, 8) =~= after_table.subrange(6, 8));
            assert(bytes@.subrange(8, 12) =~= after_table.subrange(8, 12));
            assert(bytes@.subrange(12, 14) =~= after_table.subrange(12, 14));
            assert(bytes@.subrange(14, 16) =~= after_table.subrange(14, 16));
            assert(after_table.subrange(0, 4) =~= after_header.subrange(0, 4));
            assert(after_table.subrange(4, 6) =~= after_header.subrange(4, 6));
            assert(after_table.subrange(6, 8) =~= after_header.subrange(6, 8));
            assert(after_table.subrange(8, 12) =~= after_header.subrange(8, 12));
            assert(after_table.subrange(12, 14) =~= after_header.subrange(12, 14));
            assert(after_table.subrange(14, 16) =~= after_header.subrange(14, 16));
            assert forall|k: int|
                0 <= k < self.subfile_offsets@.len() implies bytes@.subrange(16 + 4 * k, 20 + 4 * k)
                == vstd::bytes::spec_u32_to_le_bytes(#[trigger] self.subfile_offsets@[k]) by {
                assert(bytes@.subrange(16 + 4 * k, 20 + 4 * k) =~= after_table.subrange(
                    16 + 4 * k,
                    20 + 4 * k,
                ));
            };
        }
        Ok(bytes)
    }

    /// Lays the subfiles out in arrival order, each at the next 4-byte
    /// boundary, after rebasing every model subfile, and refreshes the
    /// total file size. Texture subfiles keep their recorded layout. A
    /// container holding a placeholder subfile kind is refused unchanged:
    /// those kinds have no recomputable layout yet.
    pub fn rebase(&mut self) -> (r: Result<(), AppError>)
        requires
            old(self).wf(),
            forall|i: int|
                0 <= i < old(self).files.mdl@.len() ==> mdl_rebase_ok(
                    #[trigger] old(self).files.mdl@[i],
                ),
            16 + 8 * old(self).subfile_offsets@.len() + sum_entry_bounds(
                old(self).files,
                old(self).files.sorted_indices@.len() as int,
            ) <= 0xFFFF_FFFF,
        ensures
            r is Ok <==> old(self).supported(),
            r is Err ==> *final(self) == *old(self),
            final(self).subfile_offsets@.len() == old(self).subfile_offsets@.len(),
            final(self).files.sorted_indices@ == old(self).files.sorted_indices@,
            final(self).files.tex@ == old(self).files.tex@,
            final(self).files.mdl@.len() == old(self).files.mdl@.len(),
            r is Ok ==> forall|i: int|
                0 <= i < final(self).subfile_offsets@.len() ==> (
                #[trigger] final(self).subfile_offsets@[i]) as int % 4 == 0,
            r is Ok ==> forall|k: int|
                0 <= k < final(self).files.mdl@.len() ==> (
                #[trigger] final(self).files.mdl@[k]).filesize as int == 8 + old(
                    self,
                ).files.mdl@[k].models.computed_size() + crate::mdl::sum_model_sizes(
                    final(self).files.mdl@[k].models_data@,
                ),
            r is Ok && final(self).subfile_offsets@.len() > 0 ==> final(self).subfile_offsets@[0]
                as int == align4(16 + 4 * final(self).subfile_offsets@.len() as int),
            r is Ok ==> forall|i: int|
                1 <= i < final(self).subfile_offsets@.len() ==> (
                #[trigger] final(self).subfile_offsets@[i]) as int == align4(
                    final(self).subfile_offsets@[i - 1] as int + entry_size(
                        final(self).files,
                        i - 1,
                    ),
                ),
            r is Ok && final(self).subfile_offsets@.len() > 0 ==> final(self).header.filesize
                as int == final(self).subfile_offsets@[final(self).subfile_offsets@.len()
                - 1] as int + entry_size(
                final(self).files,
                final(self).subfile_offsets@.len() - 1,
            ),
            r is Ok && final(self).subfile_offsets@.len() == 0 ==> final(self).header.filesize
                as int == 16,
    {
        if !self.all_supported() {
            return Err(
                AppError::new("Placeholder subfile kinds cannot be rebased; edit only MDL0/TEX0"),
            );
        }
        let ghost old_files = self.files;
        let mut src: Vec<Mdl> = Vec::new();
        core::mem::swap(&mut src, &mut self.files.mdl);
        let ghost orig_mdl = src@;
        let mdl_count = src.len();
        let mut rebuilt: Vec<Mdl> = Vec::new();
        let mut k: usize = 0;
        while k < mdl_count
            invariant
                k <= mdl_count,
                mdl_count == orig_mdl.len(),
                src@ == orig_mdl.skip(k as int),
                rebuilt@.len() == k,
                forall|m: int| 0 <= m < orig_mdl.len() ==> mdl_rebase_ok(#[trigger] orig_mdl[m]),
                forall|m: int|
                    0 <= m < k ==> (#[trigger] rebuilt@[m]).filesize as int == 8
                        + orig_mdl[m].models.computed_size() + crate::mdl::sum_model_sizes(
                        rebuilt@[m].models_data@,
                    ) && rebuilt@[m].filesize as int <= mdl_bound(orig_mdl[m]),
            decreases mdl_count - k,
        {
            let mut f = src.remove(0);
            proof {
                assert(orig_mdl.skip(k as int)[0] == orig_mdl[k as int]);
                assert(orig_mdl.skip(k as int).skip(1) =~= orig_mdl.skip(k + 1));
                assert(src@ =~= orig_mdl.skip(k + 1));
            }
            f.rebase();
            rebuilt.push(f);
            k = k + 1;
        }
        let ghost new_mdl = rebuilt@;
        core::mem::swap(&mut rebuilt, &mut self.files.mdl);
        proof {
            assert(self.files.mdl@ =~= new_mdl);
        }
        let count = self.subfile_offsets.len();
        let mut prev_offset: u64 = (16 + 4 * count) as u64;
        let mut prev_size: u64 = 0;
        let mut i: usize = 0;
        proof {
            assert(files_entry_facts(old_files));
            lemma_entry_bounds_nonneg(old_files, 0);
        }
        while i < count
            invariant
                i <= count,
                count == self.subfile_offsets@.len(),
                self.files.sorted_indices@ == old_files.sorted_indices@,
                self.files.tex@ == old_files.tex@,
                self.files.mdl@ == new_mdl,
                new_mdl.len() == orig_mdl.len(),
                self.header == old(self).header,
                count == self.files.sorted_indices@.len(),
                forall|m: int|
                    0 <= m < self.files.sorted_indices@.len() ==> {
                        let (t, idx) = #[trigger] self.files.sorted_indices@[m];
                        (t == Type::MDL || t == Type::TEX) && (match t {
                            Type::MDL => idx < new_mdl.len(),
                            Type::TEX => idx < self.files.tex@.len(),
                            _ => false,
                        })
                    },
                forall|m: int|
                    0 <= m < new_mdl.len() ==> (#[trigger] new_mdl[m]).filesize as int
                        <= mdl_bound(orig_mdl[m]),
                orig_mdl == old_files.mdl@,
                files_entry_facts(old_files),
                count == old_files.sorted_indices@.len(),
                16 + 8 * count + sum_entry_bounds(old_files, count as int) <= 0xFFFF_FFFF,
                prev_offset + prev_size <= 16 + 4 * count + 4 * (i as int) + sum_entry_bounds(
                    old_files,
                    i as int,
                ),
                forall|m: int|
                    0 <= m < i ==> (#[trigger] self.subfile_offsets@[m]) as int % 4 == 0,
                i == 0 ==> prev_offset == 16 + 4 * count && prev_size == 0,
                i > 0 ==> self.subfile_offsets@[0] as int == align4(16 + 4 * count),
                i > 0 ==> prev_offset == self.subfile_offsets@[i - 1] as int && prev_size
                    == entry_size(self.files, i - 1),
                forall|m: int|
                    1 <= m < i ==> (#[trigger] self.subfile_offsets@[m]) as int == align4(
                        self.subfile_offsets@[m - 1] as int + entry_size(self.files, m - 1),
                    ),
            decreases count - i,
        {
            proof {
                lemma_entry_bounds_split(old_files, i as int, count as int);
                lemma_entry_bounds_nonneg(old_files, i as int);
                lemma_entry_tail_nonneg(old_files, i as int, count as int);
                lemma_entry_bounds_split(old_files, i + 1, count as int);
                lemma_entry_bounds_nonneg(old_files, i + 1);
                lemma_entry_tail_nonneg(old_files, i + 1, count as int);
            }
            let step = prev_offset + prev_size;
            let offset = {
                let r = (step % 4) as u64;
                if r == 0 {
                    step
                } else {
                    step + (4 - r)
                }
            };
            proof {
                lemma_pad_to_4(step as int, offset as int);
            }
            self.subfile_offsets.set(i, offset as u32);
            let (file_type, local_index) = self.files.sorted_indices[i];
            let new_size: u64 = match file_type {
                Type::MDL => {
                    let f = &self.files.mdl[local_index];
                    f.size() as u64
                },
                Type::TEX => {
                    let f = &self.files.tex[local_index];
                    f.size() as u64
                },
                Type::JNT => {
                    proof {
                        assert(false);
                    }
                    0
                },
                Type::PAT => {
                    proof {
                        assert(false);
                    }
                    0
                },
                Type::SRT => {
                    proof {
                        assert(false);
                    }
                    0
                },
            };
            proof {
                assert(new_size as int == entry_size(self.files, i as int));
            }
            prev_offset = offset;
            prev_size = new_size;
            i = i + 1;
        }
        self.header.filesize = (prev_offset + prev_size) as u32;
        Ok(())
    }

    /// Whether every subfile is of a kind that can be re-encoded, so a
    /// caller can refuse the placeholder kinds loudly before a rebase or
    /// an encode.
    pub fn all_supported(&self) -> (r: bool)
        ensures
            r == self.supported(),
    {
        let n = self.files.sorted_indices.len();
        let mut i: usize = 0;
        while i < n
            invariant
                i <= n,
                n == self.files.sorted_indices@.len(),
                forall|m: int|
                    0 <= m < i ==> {
                        let t = (#[trigger] self.files.sorted_indices@[m]).0;
                        t == Type::MDL || t == Type::TEX
                    },
            decreases n - i,
        {
            let (t, _) = self.files.sorted_indices[i];
            match t {
                Type::MDL => {},
                Type::TEX => {},
                Type::JNT => {
                    return false;
                },
                Type::PAT => {
                    return false;
                },
                Type::SRT => {
                    return false;
                },
            }
            i = i + 1;
        }
        true
    }

    /// The model subfile at `index`, if any.
    pub fn get_mdl(&self, index: usize) -> (r: Option<&Mdl>)
        ensures
            index < self.files.mdl@.len() ==> r is Some && *r->Some_0
                == self.files.mdl@[index as int],
            index >= self.files.mdl@.len() ==> r is None,
    {
        if index < self.files.mdl.len() {
            Some(&self.files.mdl[index])
        } else {
            None
        }
    }

    /// The texture subfile at `index`, if any.
    pub fn get_tex(&self, index: usize) -> (r: Option<&Tex>)
        ensures
            index < self.files.tex@.len() ==> r is Some && *r->Some_0
                == self.files.tex@[index as int],
            index >= self.files.tex@.len() ==> r is None,
    {
        if index < self.files.tex.len() {
            Some(&self.files.tex[index])
        } else {
            None
        }
    }
}

/// The five type stamps differ pairwise where a decode distinguishes
/// them.
proof fn lemma_stamps_distinct()
    ensures
        crate::subfiles::stamp_of(Type::MDL) != crate::subfiles::stamp_of(Type::TEX),
        crate::subfiles::stamp_of(Type::MDL) != crate::subfiles::stamp_of(Type::JNT),
        crate::subfiles::stamp_of(Type::MDL) != crate::subfiles::stamp_of(Type::PAT),
        crate::subfiles::stamp_of(Type::MDL) != crate::subfiles::stamp_of(Type::SRT),
        crate::subfiles::stamp_of(Type::TEX) != crate::subfiles::stamp_of(Type::JNT),
        crate::subfiles::stamp_of(Type::TEX) != crate::subfiles::stamp_of(Type::PAT),
        crate::subfiles::stamp_of(Type::TEX) != crate::subfiles::stamp_of(Type::SRT),
{
    assert(crate::subfiles::stamp_of(Type::MDL)[0] != crate::subfiles::stamp_of(Type::TEX)[0]);
    assert(crate::subfiles::stamp_of(Type::MDL)[0] != crate::subfiles::stamp_of(Type::JNT)[0]);
    assert(crate::subfiles::stamp_of(Type::MDL)[0] != crate::subfiles::stamp_of(Type::PAT)[0]);
    assert(crate::subfiles::stamp_of(Type::MDL)[0] != crate::subfiles::stamp_of(Type::SRT)[0]);
    assert(crate::subfiles::stamp_of(Type::TEX)[0] != crate::subfiles::stamp_of(Type::JNT)[0]);
    assert(crate::subfiles::stamp_of(Type::TEX)[0] != crate::subfiles::stamp_of(Type::PAT)[0]);
    assert(crate::subfiles::stamp_of(Type::TEX)[0] != crate::subfiles::stamp_of(Type::SRT)[0]);
}

/// Earlier subfiles end before later subfiles begin.
proof fn lemma_subfile_offsets_chain(c: Container, a: int, b: int)
    requires
        c.wf(),
        c.layout_ok(),
        0 <= a < b < c.subfile_offsets@.len(),
    ensures
        c.subfile_offsets@[a] as int + entry_size(c.files, a) <= c.subfile_offsets@[b] as int,
    decreases b - a,
{
    if a + 1 < b {
        lemma_subfile_offsets_chain(c, a, b - 1);
    }
}

/// Appending an arrival entry leaves every prefix count as it was.
proof fn lemma_count_kind_push(s: Seq<(Type, usize)>, x: (Type, usize), t: Type, i: int)
    requires
        0 <= i <= s.len(),
    ensures
        count_kind(s.push(x), t, i) == count_kind(s, t, i),
    decreases i,
{
    if i > 0 {
        lemma_count_kind_push(s, x, t, i - 1);
        assert(s.push(x)[i - 1] == s[i - 1]);
    }
}

/// Every arrival entry names a live subfile of its kind, and every model
/// subfile can be rebased.
pub open spec fn files_entry_facts(files: Files) -> bool {
    forall|m: int|
        0 <= m < files.sorted_indices@.len() ==> {
            let (t, k) = #[trigger] files.sorted_indices@[m];
            match t {
                Type::MDL => k < files.mdl@.len() && mdl_rebase_ok(files.mdl@[k as int]),
                Type::TEX => k < files.tex@.len(),
                _ => true,
            }
        }
}

/// Everything a model subfile's rebase needs.
pub open spec fn mdl_rebase_ok(f: Mdl) -> bool {
    &&& f.wf()
    &&& f.models.computed_size() <= 0xFFFF
    &&& forall|k: int| 0 <= k < f.models_data@.len() ==> (#[trigger] f.models_data@[k]).rebase_ok()
    &&& 8 + f.models.computed_size() + crate::mdl::sum_model_bounds(f.models_data@)
        <= 0xFFFF_FFFF
}

/// A bound on a model subfile's size after a rebase.
pub open spec fn mdl_bound(f: Mdl) -> int {
    8 + f.models.computed_size() + crate::mdl::sum_model_bounds(f.models_data@)
}

/// The byte length of the subfile that entry `i` of the arrival order
/// names, as `size` reports it.
pub open spec fn entry_size(files: Files, i: int) -> int {
    let (t, k) = files.sorted_indices@[i];
    match t {
        Type::MDL => files.mdl@[k as int].filesize as int,
        Type::TEX => files.tex@[k as int].chunk_size as int,
        _ => 0,
    }
}

/// The bound of the subfile that entry `i` of the arrival order names.
pub open spec fn entry_bound(files: Files, i: int) -> int {
    let (t, k) = files.sorted_indices@[i];
    match t {
        Type::MDL => mdl_bound(files.mdl@[k as int]),
        Type::TEX => files.tex@[k as int].chunk_size as int,
        _ => 0,
    }
}

/// The bounds of the first `i` entries together.
pub open spec fn sum_entry_bounds(files: Files, i: int) -> int
    decreases i,
{
    if i <= 0 {
        0
    } else {
        sum_entry_bounds(files, i - 1) + entry_bound(files, i - 1)
    }
}

proof fn lemma_entry_bounds_nonneg(files: Files, i: int)
    requires
        0 <= i <= files.sorted_indices@.len(),
        files_entry_facts(files),
    ensures
        sum_entry_bounds(files, i) >= 0,
    decreases i,
{
    if i > 0 {
        lemma_entry_bounds_nonneg(files, i - 1);
        let (t, k) = files.sorted_indices@[i - 1];
        if t == Type::MDL {
            let f = files.mdl@[k as int];
            vstd::arithmetic::mul::lemma_mul_nonnegative(
                f.models.data@.len() as int,
                f.models.element_size as int,
            );
            lemma_sum_model_bounds_ge0(f.models_data@);
        }
    }
}

proof fn lemma_sum_model_bounds_ge0(s: Seq<crate::model::Model>)
    ensures
        crate::mdl::sum_model_bounds(s) >= 0,
    decreases s.len(),
{
    if s.len() > 0 {
        crate::mdl::lemma_model_bound_nonneg(s[0]);
        lemma_sum_model_bounds_ge0(s.skip(1));
    }
}

proof fn lemma_entry_bounds_split(files: Files, i: int, n: int)
    requires
        0 <= i <= n,
    ensures
        sum_entry_bounds(files, n) == sum_entry_bounds(files, i) + sum_entry_tail(files, i, n),
    decreases n - i,
{
    if i < n {
        lemma_entry_bounds_split(files, i + 1, n);
    }
}

/// The bounds of entries `i` to `n` together.
pub open spec fn sum_entry_tail(files: Files, i: int, n: int) -> int
    decreases n - i,
{
    if i >= n {
        0
    } else {
        entry_bound(files, i) + sum_entry_tail(files, i + 1, n)
    }
}

proof fn lemma_entry_tail_nonneg(files: Files, i: int, n: int)
    requires
        0 <= i <= n <= files.sorted_indices@.len(),
        files_entry_facts(files),
    ensures
        sum_entry_tail(files, i, n) >= 0,
    decreases n - i,
{
    if i < n {
        lemma_entry_tail_nonneg(files, i + 1, n);
        let (t, k) = files.sorted_indices@[i];
        if t == Type::MDL {
            let f = files.mdl@[k as int];
            vstd::arithmetic::mul::lemma_mul_nonnegative(
                f.models.data@.len() as int,
                f.models.element_size as int,
            );
            lemma_sum_model_bounds_ge0(f.models_data@);
        }
    }
}

/// A sum of 16 and a multiple of 4 is already aligned.
/// `offset` is `step` rounded up to the next multiple of 4.
proof fn lemma_pad_to_4(step: int, offset: int)
    requires
        step >= 0,
        offset == step + ((4 - step % 4) % 4) || (step % 4 == 0 && offset == step) || (step % 4
            != 0 && offset == step + (4 - step % 4)),
    ensures
        step <= offset <= step + 3,
        offset % 4 == 0,
        offset == align4(step),
{
    let r = step % 4;
    vstd::arithmetic::div_mod::lemma_fundamental_div_mod(step, 4);
    let q = step / 4;
    if r == 0 {
        vstd::arithmetic::div_mod::lemma_mod_multiples_basic(q, 4);
        assert(4 * q == q * 4) by (nonlinear_arith);
        vstd::arithmetic::div_mod::lemma_fundamental_div_mod_converse(step + 3, 4, q, 3);
    } else {
        assert(offset == 4 * q + 4);
        assert(4 * q + 4 == (q + 1) * 4) by (nonlinear_arith);
        vstd::arithmetic::div_mod::lemma_mod_multiples_basic(q + 1, 4);
        vstd::arithmetic::div_mod::lemma_fundamental_div_mod_converse(
            step + 3,
            4,
            q + 1,
            r - 1,
        );
    }
}

} // verus!
