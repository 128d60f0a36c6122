//! Fixed 16-byte padded name record, paired positionally with data records
//! in every `NameList`.

use crate::error::AppError;
use crate::lebytes::read_u8;
use crate::lebytes::write_u8;
use vstd::prelude::*;
use vstd::string::StringSliceAdditionalSpecFns;
use vstd::utf8::encode_utf8;
use vstd::utf8::valid_utf8;

verus! {

/// The number of bytes of every name record.
pub const NAME_SIZE: usize = 16;

#[derive(Clone, Debug)]
pub struct Name {
    pub name: [u8; 16],
}

/// `s` with every trailing zero byte removed.
pub open spec fn strip_trailing_nuls(s: Seq<u8>) -> Seq<u8>
    decreases s.len(),
{
    if s.len() > 0 && s[s.len() - 1] == 0 {
        strip_trailing_nuls(s.drop_last())
    } else {
        s
    }
}

impl Name {
    /// Accepts exactly 16 bytes and stores them verbatim.
    pub fn from_bytes(bytes: &[u8]) -> (r: Result<Name, AppError>)
        ensures
            r is Ok <==> bytes@.len() == 16,
            r is Ok ==> r->Ok_0.name@ == bytes@,
    {
        if bytes.len() != 16 {
            return Err(AppError::new("Name needs exactly 16 bytes"));
        }
        let name: [u8; 16] = [
            read_u8(bytes, 0),
            read_u8(bytes, 1),
            read_u8(bytes, 2),
            read_u8(bytes, 3),
            read_u8(bytes, 4),
            read_u8(bytes, 5),
            read_u8(bytes, 6),
            read_u8(bytes, 7),
            read_u8(bytes, 8),
            read_u8(bytes, 9),
            read_u8(bytes, 10),
            read_u8(bytes, 11),
            read_u8(bytes, 12),
            read_u8(bytes, 13),
            read_u8(bytes, 14),
            read_u8(bytes, 15),
        ];
        assert(name@ =~= bytes@);
        Ok(Name { name })
    }

    /// Accepts exactly a 16-byte string and stores its bytes verbatim.
    pub fn from_string(name: &str) -> (r: Result<Name, AppError>)
        ensures
            r is Ok <==> name.spec_bytes().len() == 16,
            r is Ok ==> r->Ok_0.name@ == name.spec_bytes(),
    {
        let bytes = name.as_bytes();
        Self::from_bytes(bytes)
    }

    /// The stored bytes decoded as UTF-8, padding included.
    pub fn to_string(&self) -> (r: Result<String, AppError>)
        ensures
            r is Ok <==> valid_utf8(self.name@),
            r is Ok ==> encode_utf8(r->Ok_0@) == self.name@,
    {
        let s = self.as_slice();
        match utf8_to_str(s) {
            Some(text) => Ok(text.to_owned()),
            None => Err(AppError::new("Invalid UTF-8 string")),
        }
    }

    /// The stored bytes decoded as UTF-8 with the trailing zero padding
    /// removed. The whole record must be valid UTF-8, as for `to_string`.
    pub fn to_not_null_string(&self) -> (r: Result<String, AppError>)
        ensures
            r is Ok <==> valid_utf8(self.name@),
            r is Ok ==> encode_utf8(r->Ok_0@) == strip_trailing_nuls(self.name@),
    {
        let s = self.as_slice();
        if utf8_to_str(s).is_none() {
            return Err(AppError::new("Invalid UTF-8 string"));
        }
        let mut end: usize = 16;
        assert(s@.subrange(0, 16) =~= s@);
        while end > 0 && *vstd::slice::slice_index_get(s, end - 1) == 0
            invariant
                end <= 16,
                s@ == self.name@,
                strip_trailing_nuls(self.name@) == strip_trailing_nuls(s@.subrange(0, end as int)),
                forall|i: int| end <= i < 16 ==> self.name@[i] == 0,
            decreases end,
        {
            proof {
                assert(s@.subrange(0, end as int).drop_last() =~= s@.subrange(0, end - 1));
            }
            end = end - 1;
        }
        let head = vstd::slice::slice_subrange(s, 0, end);
        proof {
            if end > 0 {
                assert(strip_trailing_nuls(head@) == head@);
            }
            assert(head@ == strip_trailing_nuls(self.name@));
            if end < 16 {
                vstd::utf8::is_char_boundary_iff_not_is_continuation_byte(
                    self.name@,
                    end as int,
                );
            } else {
                vstd::utf8::is_char_boundary_start_end_of_seq(self.name@);
            }
            vstd::utf8::valid_utf8_split(self.name@, end as int);
            assert(valid_utf8(head@));
        }
        match utf8_to_str(head) {
            Some(text) => Ok(text.to_owned()),
            None => Err(AppError::new("Invalid UTF-8 string")),
        }
    }

    /// Writes the 16 name bytes at `buffer[pos..pos + 16]`.
    pub fn write_bytes(&self, buffer: &mut Vec<u8>, pos: usize)
        requires
            pos + 16 <= old(buffer)@.len(),
        ensures
            final(buffer)@.len() == old(buffer)@.len(),
            final(buffer)@.subrange(pos as int, pos + 16) == self.name@,
            forall|i: int|
                0 <= i < final(buffer)@.len() && !(pos <= i < pos + 16) ==> final(buffer)@[i]
                    == old(buffer)@[i],
    {
        let n = buffer.len();
        assert(pos + 16 <= n);
        let mut k: usize = 0;
        while k < 16
            invariant
                k <= 16,
                pos + 16 <= usize::MAX,
                pos + 16 <= buffer@.len(),
                buffer@.len() == old(buffer)@.len(),
                forall|i: int|
                    0 <= i < buffer@.len() && !(pos <= i < pos + k) ==> buffer@[i] == old(
                        buffer,
                    )@[i],
                forall|i: int| 0 <= i < k ==> buffer@[pos + i] == self.name@[i],
            decreases 16 - k,
        {
            let b = self.get_byte(k);
            write_u8(buffer, pos + k, b);
            k = k + 1;
        }
        assert(buffer@.subrange(pos as int, pos + 16) =~= self.name@);
    }

    /// The 16 name bytes as a fresh vector.
    pub fn to_bytes(&self) -> (r: Vec<u8>)
        ensures
            r@ == self.name@,
    {
        let mut out: Vec<u8> = Vec::new();
        let mut k: usize = 0;
        while k < 16
            invariant
                k <= 16,
                out@.len() == k,
                forall|i: int| 0 <= i < k ==> out@[i] == self.name@[i],
            decreases 16 - k,
        {
            out.push(self.get_byte(k));
            k = k + 1;
        }
        assert(out@ =~= self.name@);
        out
    }

    /// An owned copy of this name.
    pub fn clone_name(&self) -> (r: Name)
        ensures
            r == *self,
    {
        Name { name: self.name }
    }

    fn get_byte(&self, k: usize) -> (r: u8)
        requires
            k < 16,
        ensures
            r == self.name@[k as int],
    {
        self.name[k]
    }

    fn as_slice(&self) -> (r: &[u8])
        ensures
            r@ == self.name@,
    {
        self.name.as_slice()
    }
}

/// Relies on `std::str::from_utf8`: succeeds exactly on valid UTF-8 input
/// and yields the string of those bytes.
#[verifier::external_body]
fn utf8_to_str(bytes: &[u8]) -> (r: Option<&str>)
    ensures
        match r {
            Some(s) => valid_utf8(bytes@) && s.spec_bytes() == bytes@,
            None => !valid_utf8(bytes@),
        },
{
    std::str::from_utf8(bytes).ok()
}

} // verus!
