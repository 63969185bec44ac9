use vstd::prelude::*;

pub mod convert;
pub mod decimal;
pub mod enums;
pub mod payload;
pub mod result;
pub mod time;
pub mod value;

use crate::result::Error;

verus! {

/// Packing: turning a domain value into its wire form.
pub trait S2ProtoPack<T>: Sized {
    /// Whether `r` is the outcome of packing `self`; an implementation that does not say
    /// leaves it unknown.
    open spec fn pack_spec(self, r: Result<T, Error>) -> bool {
        arbitrary()
    }

    fn pack(self) -> (r: Result<T, Error>)
        ensures
            Self::pack_spec(self, r),
    ;
}

/// Unpacking: rebuilding a domain value from its wire form, or rejecting it.
pub trait S2ProtoUnpack<T>: Sized {
    /// Whether `r` is the outcome of unpacking `value`; an implementation that does not say
    /// leaves it unknown.
    open spec fn unpack_spec(value: T, r: Result<Self, Error>) -> bool {
        arbitrary()
    }

    fn unpack(value: T) -> (r: Result<Self, Error>)
        ensures
            Self::unpack_spec(value, r),
    ;
}

/// The names of a domain enumeration, for diagnostics.
pub trait S2ProtoEnumMeta {
    /// The enumeration's declared name.
    const NAME: &'static str;

    /// The declared name of this variant.
    fn get_variant_name(&self) -> &'static str;
}

/// A domain enumeration declared against the wire enumeration `T`.
pub trait S2ProtoEnum<T>: Sized {
    /// The variant that the wire discriminant `v` stands for; none where `v` is not a
    /// declared discriminant of `T`. An implementation that does not say leaves it unknown.
    open spec fn spec_from_i32(v: i32) -> Option<Self> {
        arbitrary()
    }

    /// The wire value that this variant corresponds to; an implementation that does not say
    /// leaves it unknown.
    open spec fn spec_into_proto_enum(self) -> T {
        arbitrary()
    }

    fn from_i32(v: i32) -> (r: Option<Self>)
        ensures
            r == Self::spec_from_i32(v),
    ;

    fn into_proto_enum(self) -> (r: T)
        ensures
            r == self.spec_into_proto_enum(),
    ;

    /// The variant for the discriminant `v`; an undeclared one fails with the
    /// enumeration's name and `v`.
    fn unpack_i32(v: i32) -> (r: Result<Self, Error>)
        where
            Self: S2ProtoEnumMeta,
        ensures
            match r {
                Ok(x) => Self::spec_from_i32(v) == Some(x),
                Err(e) => Self::spec_from_i32(v) is None && (e matches Error::EnumDiscriminantNotFound { enum_name, discriminant }
                    && enum_name@ == <Self as S2ProtoEnumMeta>::NAME@ && discriminant == v),
            },
    {
        match Self::from_i32(v) {
            Some(x) => Ok(x),
            None => Err(Error::EnumDiscriminantNotFound { enum_name: Self::NAME, discriminant: v }),
        }
    }
}

/// Converts a value of the library's own form to the wire's, with no way to fail.
pub trait IntoProto {
    type Target;

    fn into_proto(self) -> Self::Target;
}

} // verus!
