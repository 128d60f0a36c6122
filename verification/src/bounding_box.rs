//! The model's axis-aligned bounding box: origin and extent, six 1.3.12
//! values over twelve bytes.

use crate::error::AppError;
use crate::fixed_1_3_12::Fixed1_3_12;
use crate::lebytes::i16_bits;
use crate::lebytes::i16_from_bits;
use crate::lebytes::i16_of_u16;
use crate::lebytes::read_u16;
use crate::lebytes::u16_of_i16;
use crate::lebytes::write_u16;
use vstd::bytes::spec_u16_from_le_bytes;
use vstd::bytes::spec_u16_to_le_bytes;
use vstd::prelude::*;

verus! {

/// The number of bytes of an encoded bounding box.
pub const BOUNDING_BOX_SIZE: usize = 12;

#[derive(Clone, Copy, Debug, PartialEq, Eq, Structural)]
pub struct BoundingBox {
    pub x: Fixed1_3_12,
    pub y: Fixed1_3_12,
    pub z: Fixed1_3_12,
    pub w: Fixed1_3_12,
    pub h: Fixed1_3_12,
    pub d: Fixed1_3_12,
}

impl BoundingBox {
    pub open spec fn enc(self) -> Seq<u8> {
        spec_u16_to_le_bytes(u16_of_i16(self.x.value as int) as u16) + spec_u16_to_le_bytes(
            u16_of_i16(self.y.value as int) as u16,
        ) + spec_u16_to_le_bytes(u16_of_i16(self.z.value as int) as u16) + spec_u16_to_le_bytes(
            u16_of_i16(self.w.value as int) as u16,
        ) + spec_u16_to_le_bytes(u16_of_i16(self.h.value as int) as u16) + spec_u16_to_le_bytes(
            u16_of_i16(self.d.value as int) as u16,
        )
    }

    pub open spec fn dec(bytes: Seq<u8>) -> Self {
        (BoundingBox {
            x: (Fixed1_3_12 {
                value: i16_of_u16(spec_u16_from_le_bytes(bytes.subrange(0, 2)) as int) as i16,
            }),
            y: (Fixed1_3_12 {
                value: i16_of_u16(spec_u16_from_le_bytes(bytes.subrange(2, 4)) as int) as i16,
            }),
            z: (Fixed1_3_12 {
                value: i16_of_u16(spec_u16_from_le_bytes(bytes.subrange(4, 6)) as int) as i16,
            }),
            w: (Fixed1_3_12 {
                value: i16_of_u16(spec_u16_from_le_bytes(bytes.subrange(6, 8)) as int) as i16,
            }),
            h: (Fixed1_3_12 {
                value: i16_of_u16(spec_u16_from_le_bytes(bytes.subrange(8, 10)) as int) as i16,
            }),
            d: (Fixed1_3_12 {
                value: i16_of_u16(spec_u16_from_le_bytes(bytes.subrange(10, 12)) as int) as i16,
            }),
        })
    }

    pub fn from_bytes(bytes: &[u8]) -> (r: Result<BoundingBox, AppError>)
        ensures
            r is Ok <==> bytes@.len() >= 12,
            r is Ok ==> r->Ok_0 == BoundingBox::dec(bytes@),
    {
        if bytes.len() < 12 {
            return Err(AppError::new("Bounding box needs at least 12 bytes"));
        }
        Ok(BoundingBox {
            x: Fixed1_3_12::from_i16(i16_from_bits(read_u16(bytes, 0))),
            y: Fixed1_3_12::from_i16(i16_from_bits(read_u16(bytes, 2))),
            z: Fixed1_3_12::from_i16(i16_from_bits(read_u16(bytes, 4))),
            w: Fixed1_3_12::from_i16(i16_from_bits(read_u16(bytes, 6))),
            h: Fixed1_3_12::from_i16(i16_from_bits(read_u16(bytes, 8))),
            d: Fixed1_3_12::from_i16(i16_from_bits(read_u16(bytes, 10))),
        })
    }

    pub fn write_bytes(&self, buffer: &mut Vec<u8>, pos: usize)
        requires
            pos + 12 <= old(buffer)@.len(),
        ensures
            final(buffer)@.len() == old(buffer)@.len(),
            final(buffer)@.subrange(pos as int, pos + 12) == self.enc(),
            forall|i: int|
                0 <= i < final(buffer)@.len() && !(pos <= i < pos + 12) ==> final(buffer)@[i]
                    == old(buffer)@[i],
    {
        let n = buffer.len();
        assert(pos + 12 <= n);
        write_u16(buffer, pos, i16_bits(self.x.value));
        write_u16(buffer, pos + 2, i16_bits(self.y.value));
        write_u16(buffer, pos + 4, i16_bits(self.z.value));
        write_u16(buffer, pos + 6, i16_bits(self.w.value));
        write_u16(buffer, pos + 8, i16_bits(self.h.value));
        write_u16(buffer, pos + 10, i16_bits(self.d.value));
        assert(buffer@.subrange(pos as int, pos + 12) =~= self.enc());
    }
}

} // verus!
