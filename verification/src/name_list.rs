//! Generic paired array: `count` fixed-slot data records followed by
//! `count` 16-byte name records, preceded by a variable-size metadata
//! sub-block. Record `i`'s name always corresponds to record `i`'s data.

use crate::error::AppError;
use crate::lebytes::read_u16;
use crate::lebytes::read_u32;
use crate::lebytes::read_u8;
use crate::lebytes::write_u16;
use crate::lebytes::write_u32;
use crate::lebytes::write_u8;
use crate::name::Name;
use crate::traits::BinarySerializable;
use vstd::bytes::spec_u16_from_le_bytes;
use vstd::bytes::spec_u16_to_le_bytes;
use vstd::bytes::spec_u32_from_le_bytes;
use vstd::bytes::spec_u32_to_le_bytes;
use vstd::prelude::*;
use vstd::slice::slice_subrange;

verus! {

/// The fixed eight-byte header of the metadata sub-block.
#[derive(Clone, Copy, Debug, PartialEq, Eq, Structural)]
pub struct UnknownHeader {
    pub subheader_size: u16,
    pub unknown_size: u16,
    pub unknown: u32,
}

/// The metadata sub-block: its header and one undecoded word per record.
#[derive(Clone, Debug)]
pub struct Unknown {
    pub header: UnknownHeader,
    pub unknown: Vec<u32>,
}

/// Every way a list decode can fail, over the raw bytes: a truncated
/// header or metadata block, a recorded size past the buffer, layout
/// regions out of order or past the recorded size, a record that does not
/// decode, or a record larger than its slot.
pub open spec fn nl_decode_err<T: BinarySerializable>(bytes: Seq<u8>) -> bool {
    let count = bytes[1] as int;
    let size = spec_u16_from_le_bytes(bytes.subrange(2, 4)) as int;
    let base = spec_u16_from_le_bytes(bytes.subrange(6, 8)) as int;
    let esz = spec_u16_from_le_bytes(bytes.subrange(base, base + 2)) as int;
    ||| bytes.len() < 4
    ||| size > bytes.len()
    ||| bytes.len() < 12 + 4 * count
    ||| base < 12 + 4 * count
    ||| base + 4 > bytes.len()
    ||| base + 4 + count * esz + 16 * count > size
    ||| exists|i: int|
        0 <= i < count && !T::spec_can_decode(
            #[trigger] bytes.subrange(base + 4 + i * esz, bytes.len() as int),
        )
    ||| exists|i: int|
        0 <= i < count && T::spec_dec_size(
            #[trigger] bytes.subrange(base + 4 + i * esz, bytes.len() as int),
        ) > esz
}

/// The value of record `i` of a `u32` record list, read from the raw
/// bytes at its slot.
pub open spec fn nl_u32_at(bytes: Seq<u8>, i: int) -> int {
    let base = spec_u16_from_le_bytes(bytes.subrange(6, 8)) as int;
    let esz = spec_u16_from_le_bytes(bytes.subrange(base, base + 2)) as int;
    spec_u32_from_le_bytes(bytes.subrange(base + 4 + i * esz, base + 4 + i * esz + 4)) as int
}

/// The list's encoded image stands in `v` at `pos`: every field and
/// record the writer fixes, at its place in the layout.
pub open spec fn nl_written<T: BinarySerializable>(l: NameList<T>, v: Seq<u8>, pos: int) -> bool {
    &&& v[pos] == l.dummy
    &&& v[pos + 1] == l.count
    &&& v.subrange(pos + 2, pos + 4) == spec_u16_to_le_bytes(l.size)
    &&& v.subrange(pos + 4, pos + 6) == spec_u16_to_le_bytes(l.unknown.header.subheader_size)
    &&& v.subrange(pos + 6, pos + 8) == spec_u16_to_le_bytes(l.unknown.header.unknown_size)
    &&& v.subrange(pos + 8, pos + 12) == spec_u32_to_le_bytes(l.unknown.header.unknown)
    &&& forall|i: int|
        0 <= i < l.count as int ==> v.subrange(pos + 12 + 4 * i, pos + 16 + 4 * i)
            == spec_u32_to_le_bytes(#[trigger] l.unknown.unknown@[i])
    &&& v.subrange(pos + l.base_off(), pos + l.base_off() + 2) == spec_u16_to_le_bytes(
        l.element_size,
    )
    &&& v.subrange(pos + l.base_off() + 2, pos + l.base_off() + 4) == spec_u16_to_le_bytes(
        l.data_section_size,
    )
    &&& forall|i: int|
        0 <= i < l.count as int ==> v.subrange(
            pos + l.data_off() + i * l.element_size as int,
            pos + l.data_off() + i * l.element_size as int + l.data@[i].spec_size(),
        ) == (#[trigger] l.data@[i]).enc()
    &&& forall|i: int|
        0 <= i < l.count as int ==> v.subrange(
            pos + l.names_off() + 16 * i,
            pos + l.names_off() + 16 * i + 16,
        ) == (#[trigger] l.names@[i]).name@
}

/// A later write that leaves the list's bytes alone leaves its image
/// standing.
pub proof fn lemma_nl_written_frame<T: BinarySerializable>(
    l: NameList<T>,
    v1: Seq<u8>,
    v2: Seq<u8>,
    pos: int,
)
    requires
        nl_written(l, v1, pos),
        l.wf(),
        0 <= pos,
        pos + l.size as int <= v1.len(),
        v1.len() == v2.len(),
        forall|k: int| pos <= k < pos + l.size as int ==> v2[k] == v1[k],
    ensures
        nl_written(l, v2, pos),
{
    assert(v2.subrange(pos + 2, pos + 4) =~= v1.subrange(pos + 2, pos + 4));
    assert(v2.subrange(pos + 4, pos + 6) =~= v1.subrange(pos + 4, pos + 6));
    assert(v2.subrange(pos + 6, pos + 8) =~= v1.subrange(pos + 6, pos + 8));
    assert(v2.subrange(pos + 8, pos + 12) =~= v1.subrange(pos + 8, pos + 12));
    assert forall|i: int| 0 <= i < l.count as int implies v2.subrange(
        pos + 12 + 4 * i,
        pos + 16 + 4 * i,
    ) == spec_u32_to_le_bytes(#[trigger] l.unknown.unknown@[i]) by {
        assert(v2.subrange(pos + 12 + 4 * i, pos + 16 + 4 * i) =~= v1.subrange(
            pos + 12 + 4 * i,
            pos + 16 + 4 * i,
        ));
    };
    assert(v2.subrange(pos + l.base_off(), pos + l.base_off() + 2) =~= v1.subrange(
        pos + l.base_off(),
        pos + l.base_off() + 2,
    ));
    assert(v2.subrange(pos + l.base_off() + 2, pos + l.base_off() + 4) =~= v1.subrange(
        pos + l.base_off() + 2,
        pos + l.base_off() + 4,
    ));
    assert forall|i: int| 0 <= i < l.count as int implies v2.subrange(
        pos + l.data_off() + i * l.element_size as int,
        pos + l.data_off() + i * l.element_size as int + l.data@[i].spec_size(),
    ) == (#[trigger] l.data@[i]).enc() by {
        l.data@[i].lemma_size();
        assert((i + 1) * l.element_size as int <= (l.count as int) * l.element_size as int)
            by (nonlinear_arith)
            requires
                i < l.count as int,
                0 <= l.element_size as int,
        ;
        assert(i * l.element_size as int + l.data@[i].spec_size() <= (i + 1)
            * l.element_size as int) by (nonlinear_arith)
            requires
                l.data@[i].spec_size() <= l.element_size as int,
                0 <= i,
        ;
        assert(0 <= i * l.element_size as int) by (nonlinear_arith)
            requires
                0 <= i,
                0 <= l.element_size as int,
        ;
        assert(v2.subrange(
            pos + l.data_off() + i * l.element_size as int,
            pos + l.data_off() + i * l.element_size as int + l.data@[i].spec_size(),
        ) =~= v1.subrange(
            pos + l.data_off() + i * l.element_size as int,
            pos + l.data_off() + i * l.element_size as int + l.data@[i].spec_size(),
        ));
    };
    assert forall|i: int| 0 <= i < l.count as int implies v2.subrange(
        pos + l.names_off() + 16 * i,
        pos + l.names_off() + 16 * i + 16,
    ) == (#[trigger] l.names@[i]).name@ by {
        assert(0 <= (l.count as int) * (l.element_size as int)) by (nonlinear_arith)
            requires
                0 <= l.count as int,
                0 <= l.element_size as int,
        ;
        assert(v2.subrange(pos + l.names_off() + 16 * i, pos + l.names_off() + 16 * i + 16)
            =~= v1.subrange(pos + l.names_off() + 16 * i, pos + l.names_off() + 16 * i + 16));
    };
}

/// A named record list.
#[derive(Clone, Debug)]
pub struct NameList<T> {
    pub dummy: u8,
    pub count: u8,
    pub size: u16,
    pub unknown: Unknown,
    pub element_size: u16,
    pub data_section_size: u16,
    pub data: Vec<T>,
    pub names: Vec<Name>,
}

impl<T: BinarySerializable> NameList<T> {
    /// Where the metadata sub-block ends and the element-size pair begins.
    pub open spec fn base_off(self) -> int {
        self.unknown.header.unknown_size as int
    }

    /// Where the data records begin.
    pub open spec fn data_off(self) -> int {
        self.base_off() + 4
    }

    /// Where the name records begin.
    pub open spec fn names_off(self) -> int {
        self.data_off() + self.count as int * self.element_size as int
    }

    /// Where the name records end.
    pub open spec fn layout_end(self) -> int {
        self.names_off() + 16 * self.count as int
    }

    /// The byte length the `rebase` size rule computes: header, metadata
    /// block, element-size pair, data slots and name records.
    pub open spec fn computed_size(self) -> int {
        4 + (8 + 4 * self.unknown.unknown@.len() as int) + 4 + self.data@.len() as int
            * self.element_size as int + self.names@.len() as int * 16
    }

    /// Counts agree, the layout regions are in order and lie inside the
    /// recorded size, and every record fits its slot.
    pub open spec fn wf(self) -> bool {
        &&& self.data@.len() == self.count as int
        &&& self.names@.len() == self.count as int
        &&& self.unknown.unknown@.len() == self.count as int
        &&& self.base_off() >= 12 + 4 * self.count as int
        &&& self.layout_end() <= self.size as int
        &&& forall|i: int|
            0 <= i < self.count as int ==> (#[trigger] self.data@[i]).wf()
                && self.data@[i].spec_size() <= self.element_size as int
    }

    /// Decodes the list from the bytes that start at its header; the slice
    /// may extend past the list.
    pub fn from_bytes(bytes: &[u8]) -> (r: Result<NameList<T>, AppError>)
        ensures
            r is Err <==> nl_decode_err::<T>(bytes@),
            r is Ok ==> {
                let nl = r->Ok_0;
                &&& nl.wf()
                &&& nl.dummy == bytes@[0]
                &&& nl.count == bytes@[1]
                &&& nl.size == spec_u16_from_le_bytes(bytes@.subrange(2, 4))
                &&& nl.size as int <= bytes@.len()
                &&& nl.unknown.header.subheader_size == spec_u16_from_le_bytes(
                    bytes@.subrange(4, 6),
                )
                &&& nl.unknown.header.unknown_size == spec_u16_from_le_bytes(
                    bytes@.subrange(6, 8),
                )
                &&& nl.unknown.header.unknown == spec_u32_from_le_bytes(bytes@.subrange(8, 12))
                &&& forall|i: int|
                    0 <= i < nl.count as int ==> nl.unknown.unknown@[i] == spec_u32_from_le_bytes(
                        bytes@.subrange(12 + 4 * i, 16 + 4 * i),
                    )
                &&& nl.element_size == spec_u16_from_le_bytes(
                    bytes@.subrange(nl.base_off(), nl.base_off() + 2),
                )
                &&& nl.data_section_size == spec_u16_from_le_bytes(
                    bytes@.subrange(nl.base_off() + 2, nl.base_off() + 4),
                )
                &&& forall|i: int|
                    0 <= i < nl.count as int ==> (#[trigger] nl.names@[i]).name@
                        == bytes@.subrange(
                        nl.names_off() + 16 * i,
                        nl.names_off() + 16 * i + 16,
                    )
                &&& forall|i: int|
                    0 <= i < nl.count as int ==> (#[trigger] nl.data@[i]).enc() == bytes@.subrange(
                        nl.data_off() + i * nl.element_size as int,
                        nl.data_off() + i * nl.element_size as int + nl.data@[i].spec_size(),
                    )
            },
    {
        let n = bytes.len();
        if n < 4 {
            return Err(AppError::new("NameList needs at least 4 bytes"));
        }
        let dummy = read_u8(bytes, 0);
        let count = read_u8(bytes, 1);
        let size = read_u16(bytes, 2);
        if size as usize > n {
            return Err(AppError::new("NameList size is bigger than the buffer size"));
        }
        if n < 12 + 4 * (count as usize) {
            return Err(AppError::new("NameList metadata block is truncated"));
        }
        let subheader_size = read_u16(bytes, 4);
        let unknown_size = read_u16(bytes, 6);
        let unknown_word = read_u32(bytes, 8);
        let mut unknown_values: Vec<u32> = Vec::new();
        let mut i: usize = 0;
        while i < count as usize
            invariant
                i <= count as int,
                n == bytes@.len(),
                n >= 12 + 4 * (count as int),
                unknown_values@.len() == i,
                forall|k: int|
                    0 <= k < i ==> unknown_values@[k] == spec_u32_from_le_bytes(
                        bytes@.subrange(12 + 4 * k, 16 + 4 * k),
                    ),
            decreases count as int - i,
        {
            unknown_values.push(read_u32(bytes, 12 + 4 * i));
            i = i + 1;
        }
        let base_offset = unknown_size as usize;
        if base_offset < 12 + 4 * (count as usize) {
            return Err(AppError::new("NameList metadata size is smaller than its block"));
        }
        if base_offset + 4 > n {
            return Err(AppError::new("NameList element-size pair is out of bounds"));
        }
        let element_size = read_u16(bytes, base_offset);
        let data_section_size = read_u16(bytes, base_offset + 2);
        let data_offset = base_offset + 4;
        proof {
            assert((count as int) * (element_size as int) <= 255 * 65535) by (nonlinear_arith)
                requires
                    0 <= count as int <= 255,
                    0 <= element_size as int <= 65535,
            ;
            assert(0 <= (count as int) * (element_size as int)) by (nonlinear_arith)
                requires
                    0 <= count as int,
                    0 <= element_size as int,
            ;
        }
        let slots = (count as usize) * (element_size as usize);
        if data_offset + slots + 16 * (count as usize) > size as usize {
            return Err(AppError::new("NameList records run past its recorded size"));
        }
        let mut data: Vec<T> = Vec::new();
        let mut i: usize = 0;
        while i < count as usize
            invariant
                i <= count as int,
                n == bytes@.len(),
                data_offset + (count as int) * (element_size as int) + 16 * (count as int)
                    <= size as int,
                size as int <= n,
                data_offset == base_offset + 4,
                slots == (count as int) * (element_size as int),
                count as int == bytes@[1] as int,
                size as int == spec_u16_from_le_bytes(bytes@.subrange(2, 4)) as int,
                base_offset == spec_u16_from_le_bytes(bytes@.subrange(6, 8)) as int,
                element_size as int == spec_u16_from_le_bytes(
                    bytes@.subrange(base_offset as int, base_offset + 2),
                ) as int,
                data@.len() == i,
                forall|k: int|
                    0 <= k < i ==> (#[trigger] data@[k]).wf() && data@[k].spec_size()
                        <= element_size as int,
                forall|k: int|
                    0 <= k < i ==> T::spec_can_decode(
                        #[trigger] bytes@.subrange(
                            base_offset + 4 + k * element_size as int,
                            n as int,
                        ),
                    ) && T::spec_dec_size(
                        bytes@.subrange(base_offset + 4 + k * element_size as int, n as int),
                    ) <= element_size as int,
                forall|k: int|
                    0 <= k < i ==> (#[trigger] data@[k]).enc() == bytes@.subrange(
                        base_offset + 4 + k * element_size as int,
                        base_offset + 4 + k * element_size as int + data@[k].spec_size(),
                    ),
            decreases count as int - i,
        {
            proof {
                assert((i as int) * (element_size as int) + element_size as int <= (
                count as int) * (element_size as int)) by (nonlinear_arith)
                    requires
                        0 <= i < count as int,
                        0 <= element_size as int,
                ;
                assert(0 <= (i as int) * (element_size as int)) by (nonlinear_arith)
                    requires
                        0 <= i,
                        0 <= element_size as int,
                ;
            }
            let offset = data_offset + i * (element_size as usize);
            let slice = slice_subrange(bytes, offset, n);
            let element = match T::from_bytes(slice) {
                Ok(e) => e,
                Err(e) => {
                    proof {
                        assert(!T::spec_can_decode(
                            bytes@.subrange(
                                base_offset + 4 + (i as int) * (element_size as int),
                                n as int,
                            ),
                        ));
                    }
                    return Err(e);
                },
            };
            let esz = element.size();
            if esz > element_size as usize {
                proof {
                    assert(T::spec_dec_size(
                        bytes@.subrange(
                            base_offset + 4 + (i as int) * (element_size as int),
                            n as int,
                        ),
                    ) > element_size as int);
                }
                return Err(AppError::new("NameList record is larger than its slot"));
            }
            proof {
                assert(slice@.subrange(0, element.spec_size()) =~= bytes@.subrange(
                    offset as int,
                    offset as int + element.spec_size(),
                ));
            }
            data.push(element);
            i = i + 1;
        }
        let names_offset = data_offset + slots;
        let mut names: Vec<Name> = Vec::new();
        let mut i: usize = 0;
        while i < count as usize
            invariant
                i <= count as int,
                n == bytes@.len(),
                names_offset + 16 * (count as int) <= size as int,
                size as int <= n,
                names@.len() == i,
                forall|k: int|
                    0 <= k < i ==> (#[trigger] names@[k]).name@ == bytes@.subrange(
                        names_offset + 16 * k,
                        names_offset + 16 * k + 16,
                    ),
            decreases count as int - i,
        {
            let offset = names_offset + 16 * i;
            let name = match Name::from_bytes(slice_subrange(bytes, offset, offset + 16)) {
                Ok(nm) => nm,
                Err(e) => return Err(e),
            };
            names.push(name);
            i = i + 1;
        }
        proof {
            assert(!nl_decode_err::<T>(bytes@));
        }
        Ok(
            NameList {
                dummy,
                count,
                size,
                unknown: Unknown {
                    header: UnknownHeader { subheader_size, unknown_size, unknown: unknown_word },
                    unknown: unknown_values,
                },
                element_size,
                data_section_size,
                data,
                names,
            },
        )
    }

    /// Writes the list at `buffer[pos..]`: header, metadata block,
    /// element-size pair, data records each at its slot, then name records.
    /// Bytes of the gap before the element-size pair and of slot padding
    /// are left as they are.
    #[verifier::rlimit(80)]
    pub fn write_bytes(&self, buffer: &mut Vec<u8>, pos: usize)
        requires
            self.wf(),
            pos + self.size as int <= old(buffer)@.len(),
        ensures
            final(buffer)@.len() == old(buffer)@.len(),
            forall|i: int|
                0 <= i < final(buffer)@.len() && !(pos <= i < pos + self.size as int)
                    ==> final(buffer)@[i] == old(buffer)@[i],
            nl_written(*self, final(buffer)@, pos as int),
    {
        let buf_len = buffer.len();
        write_u8(buffer, pos, self.dummy);
        write_u8(buffer, pos + 1, self.count);
        write_u16(buffer, pos + 2, self.size);
        write_u16(buffer, pos + 4, self.unknown.header.subheader_size);
        write_u16(buffer, pos + 6, self.unknown.header.unknown_size);
        write_u32(buffer, pos + 8, self.unknown.header.unknown);
        let ghost after_header = buffer@;
        let count = self.count as usize;
        let mut i: usize = 0;
        while i < count
            invariant
                i <= count,
                count == self.count as int,
                self.wf(),
                pos + self.size as int <= buffer@.len(),
                buffer@.len() <= usize::MAX,
                buffer@.len() == after_header.len(),
                forall|k: int|
                    0 <= k < buffer@.len() && !(pos + 12 <= k < pos + 12 + 4 * i) ==> buffer@[k]
                        == after_header[k],
                forall|k: int|
                    0 <= k < i ==> buffer@.subrange(pos + 12 + 4 * k, pos + 16 + 4 * k)
                        == spec_u32_to_le_bytes(#[trigger] self.unknown.unknown@[k]),
            decreases count - i,
        {
            let ghost before = buffer@;
            let w = *vstd::slice::slice_index_get(self.unknown.unknown.as_slice(), i);
            write_u32(buffer, pos + 12 + 4 * i, w);
            proof {
                assert forall|k: int|
                    0 <= k < i implies buffer@.subrange(pos + 12 + 4 * k, pos + 16 + 4 * k)
                    == spec_u32_to_le_bytes(self.unknown.unknown@[k]) by {
                    assert(buffer@.subrange(pos + 12 + 4 * k, pos + 16 + 4 * k) =~= before.subrange(
                        pos + 12 + 4 * k,
                        pos + 16 + 4 * k,
                    ));
                };
            }
            i = i + 1;
        }
        let base_offset = self.unknown.header.unknown_size as usize;
        write_u16(buffer, pos + base_offset, self.element_size);
        write_u16(buffer, pos + base_offset + 2, self.data_section_size);
        let ghost after_pair = buffer@;
        let data_offset = base_offset + 4;
        let mut i: usize = 0;
        while i < count
            invariant
                i <= count,
                count == self.count as int,
                self.wf(),
                base_offset == self.base_off(),
                data_offset == self.data_off(),
                pos + self.size as int <= buffer@.len(),
                buffer@.len() <= usize::MAX,
                buffer@.len() == after_pair.len(),
                forall|k: int|
                    0 <= k < buffer@.len() && !(pos + data_offset <= k < pos + data_offset + i
                        * self.element_size as int) ==> buffer@[k] == after_pair[k],
                forall|k: int|
                    0 <= k < i ==> buffer@.subrange(
                        pos + data_offset + k * self.element_size as int,
                        pos + data_offset + k * self.element_size as int
                            + self.data@[k].spec_size(),
                    ) == (#[trigger] self.data@[k]).enc(),
            decreases count - i,
        {
            let ghost before = buffer@;
            proof {
                assert((i as int) * (self.element_size as int) + self.element_size as int <= (
                count as int) * (self.element_size as int)) by (nonlinear_arith)
                    requires
                        0 <= i < count as int,
                        0 <= self.element_size as int,
                ;
                assert(0 <= (i as int) * (self.element_size as int)) by (nonlinear_arith)
                    requires
                        0 <= i,
                        0 <= self.element_size as int,
                ;
                assert((i as int + 1) * (self.element_size as int) == (i as int) * (
                self.element_size as int) + self.element_size as int) by (nonlinear_arith);
                self.data@[i as int].lemma_size();
            }
            let offset = data_offset + i * (self.element_size as usize);
            let el = &self.data[i];
            el.write_bytes(buffer, pos + offset);
            proof {
                assert forall|k: int|
                    0 <= k < i implies buffer@.subrange(
                    pos + data_offset + k * self.element_size as int,
                    pos + data_offset + k * self.element_size as int + self.data@[k].spec_size(),
                ) == (#[trigger] self.data@[k]).enc() by {
                    self.data@[k].lemma_size();
                    assert((k + 1) * self.element_size as int <= (i as int)
                        * self.element_size as int) by (nonlinear_arith)
                        requires
                            k < i as int,
                            0 <= self.element_size as int,
                    ;
                    assert(k * self.element_size as int + self.data@[k].spec_size() <= (k + 1)
                        * self.element_size as int) by (nonlinear_arith)
                        requires
                            self.data@[k].spec_size() <= self.element_size as int,
                            0 <= k,
                    ;
                    assert(0 <= k * self.element_size as int) by (nonlinear_arith)
                        requires
                            0 <= k,
                            0 <= self.element_size as int,
                    ;
                    assert(buffer@.subrange(
                        pos + data_offset + k * self.element_size as int,
                        pos + data_offset + k * self.element_size as int
                            + self.data@[k].spec_size(),
                    ) =~= before.subrange(
                        pos + data_offset + k * self.element_size as int,
                        pos + data_offset + k * self.element_size as int
                            + self.data@[k].spec_size(),
                    ));
                };
            }
            i = i + 1;
        }
        let names_offset = data_offset + count * (self.element_size as usize);
        let ghost after_data = buffer@;
        let mut i: usize = 0;
        while i < count
            invariant
                i <= count,
                count == self.count as int,
                self.wf(),
                names_offset == self.names_off(),
                data_offset == self.data_off(),
                pos + self.size as int <= buffer@.len(),
                buffer@.len() <= usize::MAX,
                buffer@.len() == after_data.len(),
                forall|k: int|
                    0 <= k < buffer@.len() && !(pos + names_offset <= k < pos + names_offset + 16
                        * i) ==> buffer@[k] == after_data[k],
                forall|k: int|
                    0 <= k < i ==> buffer@.subrange(
                        pos + names_offset + 16 * k,
                        pos + names_offset + 16 * k + 16,
                    ) == (#[trigger] self.names@[k]).name@,
            decreases count - i,
        {
            let ghost before = buffer@;
            let offset = names_offset + 16 * i;
            let nm = &self.names[i];
            nm.write_bytes(buffer, pos + offset);
            proof {
                assert forall|k: int|
                    0 <= k < i implies buffer@.subrange(
                    pos + names_offset + 16 * k,
                    pos + names_offset + 16 * k + 16,
                ) == (#[trigger] self.names@[k]).name@ by {
                    assert(buffer@.subrange(
                        pos + names_offset + 16 * k,
                        pos + names_offset + 16 * k + 16,
                    ) =~= before.subrange(
                        pos + names_offset + 16 * k,
                        pos + names_offset + 16 * k + 16,
                    ));
                };
            }
            i = i + 1;
        }
        proof {
            assert(0 <= (self.count as int) * (self.element_size as int)) by (nonlinear_arith)
                requires
                    0 <= self.count as int,
                    0 <= self.element_size as int,
            ;
            assert(buffer@.subrange(pos + 2, pos + 4) =~= after_header.subrange(pos + 2, pos + 4));
            assert(buffer@.subrange(pos + 4, pos + 6) =~= after_header.subrange(pos + 4, pos + 6));
            assert(buffer@.subrange(pos + 6, pos + 8) =~= after_header.subrange(pos + 6, pos + 8));
            assert(buffer@.subrange(pos + 8, pos + 12) =~= after_header.subrange(
                pos + 8,
                pos + 12,
            ));
            assert(buffer@.subrange(pos + self.base_off(), pos + self.base_off() + 2)
                =~= after_pair.subrange(pos + self.base_off(), pos + self.base_off() + 2));
            assert(buffer@.subrange(pos + self.base_off() + 2, pos + self.base_off() + 4)
                =~= after_pair.subrange(pos + self.base_off() + 2, pos + self.base_off() + 4));
            assert forall|i2: int|
                0 <= i2 < self.count as int implies buffer@.subrange(
                pos + 12 + 4 * i2,
                pos + 16 + 4 * i2,
            ) == spec_u32_to_le_bytes(#[trigger] self.unknown.unknown@[i2]) by {
                assert(buffer@.subrange(pos + 12 + 4 * i2, pos + 16 + 4 * i2)
                    =~= after_pair.subrange(pos + 12 + 4 * i2, pos + 16 + 4 * i2));
            };
            assert forall|i2: int|
                0 <= i2 < self.count as int implies buffer@.subrange(
                pos + self.data_off() + i2 * self.element_size as int,
                pos + self.data_off() + i2 * self.element_size as int
                    + self.data@[i2].spec_size(),
            ) == (#[trigger] self.data@[i2]).enc() by {
                self.data@[i2].lemma_size();
                assert((i2 + 1) * self.element_size as int <= (self.count as int)
                    * self.element_size as int) by (nonlinear_arith)
                    requires
                        i2 < self.count as int,
                        0 <= self.element_size as int,
                ;
                assert(i2 * self.element_size as int + self.data@[i2].spec_size() <= (i2 + 1)
                    * self.element_size as int) by (nonlinear_arith)
                    requires
                        self.data@[i2].spec_size() <= self.element_size as int,
                        0 <= i2,
                ;
                assert(0 <= i2 * self.element_size as int) by (nonlinear_arith)
                    requires
                        0 <= i2,
                        0 <= self.element_size as int,
                ;
                assert(buffer@.subrange(
                    pos + self.data_off() + i2 * self.element_size as int,
                    pos + self.data_off() + i2 * self.element_size as int
                        + self.data@[i2].spec_size(),
                ) =~= after_data.subrange(
                    pos + self.data_off() + i2 * self.element_size as int,
                    pos + self.data_off() + i2 * self.element_size as int
                        + self.data@[i2].spec_size(),
                ));
            };
            assert forall|k: int|
                0 <= k < buffer@.len() && !(pos <= k < pos + self.size as int) implies buffer@[k]
                == old(buffer)@[k] by {
                assert(buffer@[k] == after_data[k]);
                assert(after_data[k] == after_pair[k]);
                assert(after_pair[k] == after_header[k]);
            };
            assert(buffer@[pos as int] == after_header[pos as int]);
            assert(buffer@[pos + 1] == after_header[pos + 1]);
            assert(buffer@[pos as int] == self.dummy);
            assert(buffer@[pos + 1] == self.count);
            assert(buffer@.subrange(pos + 2, pos + 4) == spec_u16_to_le_bytes(self.size));
            assert(buffer@.subrange(pos + 4, pos + 6) == spec_u16_to_le_bytes(
                self.unknown.header.subheader_size,
            ));
            assert(buffer@.subrange(pos + 6, pos + 8) == spec_u16_to_le_bytes(
                self.unknown.header.unknown_size,
            ));
            assert(buffer@.subrange(pos + 8, pos + 12) == spec_u32_to_le_bytes(
                self.unknown.header.unknown,
            ));
            assert(buffer@.subrange(pos + self.base_off(), pos + self.base_off() + 2)
                == spec_u16_to_le_bytes(self.element_size));
            assert(buffer@.subrange(pos + self.base_off() + 2, pos + self.base_off() + 4)
                == spec_u16_to_le_bytes(self.data_section_size));
            assert(forall|i2: int|
                0 <= i2 < self.count as int ==> buffer@.subrange(
                    pos + self.names_off() + 16 * i2,
                    pos + self.names_off() + 16 * i2 + 16,
                ) == (#[trigger] self.names@[i2]).name@);
            assert(nl_written(*self, buffer@, pos as int));
        }
    }

    /// The list's encoded bytes in a fresh zeroed buffer of its size:
    /// every field `write_bytes` fixes, written at the start of the
    /// buffer, with zero bytes in the gaps it leaves.
    pub fn to_bytes(&self) -> (r: Result<Vec<u8>, AppError>)
        requires
            self.wf(),
        ensures
            r is Ok,
            r is Ok ==> r->Ok_0@.len() == self.size as int && nl_written(*self, r->Ok_0@, 0),
    {
        let mut bytes: Vec<u8> = Vec::new();
        let mut i: usize = 0;
        let sz = self.size as usize;
        while i < sz
            invariant
                bytes@.len() == i,
                i <= sz,
            decreases sz - i,
        {
            bytes.push(0);
            i = i + 1;
        }
        self.write_bytes(&mut bytes, 0);
        Ok(bytes)
    }

    /// The recorded byte length of the whole list.
    pub fn size(&self) -> (r: usize)
        ensures
            r == self.size as int,
    {
        self.size as usize
    }

    /// The list as a rebase leaves it: only the recorded size changes,
    /// recomputed from the current record counts.
    pub open spec fn spec_rebased(self) -> NameList<T> {
        (NameList { size: self.computed_size() as u16, ..self })
    }

    /// Recomputes the recorded size from the current record counts; the
    /// metadata block and element size are structural and stay as they
    /// are.
    pub fn rebase(&mut self)
        requires
            old(self).computed_size() <= 0xFFFF,
        ensures
            *final(self) == old(self).spec_rebased(),
            final(self).size as int == old(self).computed_size(),
            final(self).dummy == old(self).dummy,
            final(self).count == old(self).count,
            final(self).unknown.header == old(self).unknown.header,
            final(self).unknown.unknown@ == old(self).unknown.unknown@,
            final(self).element_size == old(self).element_size,
            final(self).data_section_size == old(self).data_section_size,
            final(self).data@ == old(self).data@,
            final(self).names@ == old(self).names@,
    {
        proof {
            vstd::arithmetic::mul::lemma_mul_nonnegative(
                self.data@.len() as int,
                self.element_size as int,
            );
        }
        let new_size = 4 + (8 + 4 * self.unknown.unknown.len()) + 4 + self.data.len() * (
        self.element_size as usize) + self.names.len() * 16;
        self.size = new_size as u16;
    }

    /// Rebasing is idempotent: a second rebase with no intervening edit
    /// computes the same size from the same record counts and changes
    /// nothing.
    pub proof fn lemma_rebase_idempotent(self)
        requires
            self.computed_size() <= 0xFFFF,
        ensures
            self.spec_rebased().spec_rebased() == self.spec_rebased(),
    {
        assert(self.spec_rebased().computed_size() == self.computed_size());
    }

    /// The number of records.
    pub fn len(&self) -> (r: usize)
        ensures
            r == self.count as int,
    {
        self.count as usize
    }

    /// The data record at `index`, if any.
    pub fn get(&self, index: usize) -> (r: Option<&T>)
        ensures
            index < self.data@.len() ==> r is Some && *r->Some_0 == self.data@[index as int],
            index >= self.data@.len() ==> r is None,
    {
        if index < self.data.len() {
            Some(&self.data[index])
        } else {
            None
        }
    }

    /// The name record at `index`, if any.
    pub fn get_name(&self, index: usize) -> (r: Option<&Name>)
        ensures
            index < self.names@.len() ==> r is Some && *r->Some_0 == self.names@[index as int],
            index >= self.names@.len() ==> r is None,
    {
        if index < self.names.len() {
            Some(&self.names[index])
        } else {
            None
        }
    }

    /// Replaces the name record at `index`.
    pub fn set_name(&mut self, index: usize, value: Name)
        requires
            index < old(self).names@.len(),
        ensures
            final(self).names@ == old(self).names@.update(index as int, value),
            final(self).data@ == old(self).data@,
            final(self).count == old(self).count,
            final(self).size == old(self).size,
            final(self).element_size == old(self).element_size,
            final(self).data_section_size == old(self).data_section_size,
            final(self).dummy == old(self).dummy,
            final(self).unknown.header == old(self).unknown.header,
            final(self).unknown.unknown@ == old(self).unknown.unknown@,
    {
        self.names.set(index, value);
    }

    /// Replaces the data record at `index`.
    pub fn set_data(&mut self, index: usize, value: T)
        requires
            index < old(self).data@.len(),
        ensures
            final(self).data@ == old(self).data@.update(index as int, value),
            final(self).names@ == old(self).names@,
            final(self).count == old(self).count,
            final(self).size == old(self).size,
            final(self).element_size == old(self).element_size,
            final(self).data_section_size == old(self).data_section_size,
            final(self).dummy == old(self).dummy,
            final(self).unknown.header == old(self).unknown.header,
            final(self).unknown.unknown@ == old(self).unknown.unknown@,
    {
        self.data.set(index, value);
    }
}

} // verus!
