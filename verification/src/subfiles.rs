//! Subfile kinds and the placeholder kinds whose bodies are not decoded:
//! each subfile of a container is stamped with four ASCII bytes.

use crate::error::AppError;
use vstd::prelude::*;

verus! {

/// The kind of a subfile, by its 4-byte stamp.
#[derive(Debug, Clone, Copy, PartialEq, Eq, Structural)]
pub enum Type {
    MDL,
    TEX,
    JNT,
    PAT,
    SRT,
}

/// The stamp bytes of each subfile kind.
pub open spec fn stamp_of(t: Type) -> Seq<u8> {
    match t {
        Type::MDL => seq![77u8, 68u8, 76u8, 48u8],
        Type::TEX => seq![84u8, 69u8, 88u8, 48u8],
        Type::JNT => seq![74u8, 78u8, 84u8, 48u8],
        Type::PAT => seq![80u8, 65u8, 84u8, 48u8],
        Type::SRT => seq![83u8, 82u8, 84u8, 48u8],
    }
}

impl Type {
    /// Recognizes a 4-byte stamp; any other length or value is refused.
    pub fn from_stamp(stamp: &[u8]) -> (r: Result<Type, AppError>)
        ensures
            r is Ok <==> (stamp@.len() == 4 && (stamp@ == stamp_of(Type::MDL) || stamp@ == stamp_of(
                Type::TEX,
            ) || stamp@ == stamp_of(Type::JNT) || stamp@ == stamp_of(Type::PAT) || stamp@
                == stamp_of(Type::SRT))),
            r is Ok ==> stamp@ == stamp_of(r->Ok_0),
            stamp@.len() == 4 && r is Err ==> r->Err_0@ == "Unknown subfile stamp "@
                + crate::error::u8_decimal(stamp@[0] as int) + " "@ + crate::error::u8_decimal(
                stamp@[1] as int,
            ) + " "@ + crate::error::u8_decimal(stamp@[2] as int) + " "@
                + crate::error::u8_decimal(stamp@[3] as int),
    {
        if stamp.len() != 4 {
            return Err(AppError::new("Invalid stamp length"));
        }
        let b0 = crate::lebytes::read_u8(stamp, 0);
        let b1 = crate::lebytes::read_u8(stamp, 1);
        let b2 = crate::lebytes::read_u8(stamp, 2);
        let b3 = crate::lebytes::read_u8(stamp, 3);
        if b0 == 77 && b1 == 68 && b2 == 76 && b3 == 48 {
            proof {
                assert(stamp@ =~= stamp_of(Type::MDL));
            }
            Ok(Type::MDL)
        } else if b0 == 84 && b1 == 69 && b2 == 88 && b3 == 48 {
            proof {
                assert(stamp@ =~= stamp_of(Type::TEX));
            }
            Ok(Type::TEX)
        } else if b0 == 74 && b1 == 78 && b2 == 84 && b3 == 48 {
            proof {
                assert(stamp@ =~= stamp_of(Type::JNT));
            }
            Ok(Type::JNT)
        } else if b0 == 80 && b1 == 65 && b2 == 84 && b3 == 48 {
            proof {
                assert(stamp@ =~= stamp_of(Type::PAT));
            }
            Ok(Type::PAT)
        } else if b0 == 83 && b1 == 82 && b2 == 84 && b3 == 48 {
            proof {
                assert(stamp@ =~= stamp_of(Type::SRT));
            }
            Ok(Type::SRT)
        } else {
            proof {
                assert(stamp@.len() == 4);
                assert(stamp@[0] == b0 && stamp@[1] == b1 && stamp@[2] == b2 && stamp@[3] == b3);
            }
            Err(AppError::with_four_bytes("Unknown subfile stamp ", b0, b1, b2, b3))
        }
    }
}

/// Joint-animation subfile: an opaque placeholder whose body is not yet
/// decoded; re-encoding it is refused rather than silently emitting zero
/// bytes.
#[derive(Debug, Clone)]
pub struct Jnt {}

impl Jnt {
    pub fn from_bytes(_bytes: &[u8]) -> (r: Result<Jnt, AppError>)
        ensures
            r is Ok,
    {
        Ok(Jnt {  })
    }
}

/// Pattern-animation subfile: an opaque placeholder like `Jnt`.
#[derive(Debug, Clone)]
pub struct Pat {}

impl Pat {
    pub fn from_bytes(_bytes: &[u8]) -> (r: Result<Pat, AppError>)
        ensures
            r is Ok,
    {
        Ok(Pat {  })
    }
}

/// Texture-transform-animation subfile: an opaque placeholder like `Jnt`.
#[derive(Debug, Clone)]
pub struct Srt {}

impl Srt {
    pub fn from_bytes(_bytes: &[u8]) -> (r: Result<Srt, AppError>)
        ensures
            r is Ok,
    {
        Ok(Srt {  })
    }
}

} // verus!
