//! The byte order that a numeric field of a struct is written in.
use vstd::prelude::*;

verus! {

/// The byte order asked for by an attribute: little, big or native endian,
/// or none.
#[derive(Debug, PartialEq, Eq, Structural, Clone, Copy)]
pub enum Endian {
    Lit,
    Big,
    Native,
    NotSet,
}

/// The name of the serializer method for the byte order `endian`.
pub open spec fn ser_method(endian: Endian) -> Seq<char> {
    match endian {
        Endian::Big => "serialize_be"@,
        Endian::Lit => "serialize_le"@,
        _ => "serialize_ne"@,
    }
}

/// The name of the deserializer method for the byte order `endian`.
pub open spec fn des_method(endian: Endian) -> Seq<char> {
    match endian {
        Endian::Big => "deserialize_be"@,
        Endian::Lit => "deserialize_le"@,
        _ => "deserialize_ne"@,
    }
}

/// The byte order of a field: its own when set, else its struct's.
pub open spec fn field_endian(struct_endian: Endian, fld_endian: Endian) -> Endian {
    if fld_endian == Endian::NotSet {
        struct_endian
    } else {
        fld_endian
    }
}

/// The name of the serializer method that writes a numeric in the byte
/// order `endian`: native order when none is set.
pub fn ser_endian_method_xx(endian: &Endian) -> (r: &'static str)
    ensures
        r@ == ser_method(*endian),
{
    match endian {
        Endian::Big => "serialize_be",
        Endian::Lit => "serialize_le",
        _ => "serialize_ne",
    }
}

/// The name of the deserializer method that reads a numeric in the byte
/// order `endian`: native order when none is set.
pub fn des_endian_method_xx(endian: &Endian) -> (r: &'static str)
    ensures
        r@ == des_method(*endian),
{
    match endian {
        Endian::Big => "deserialize_be",
        Endian::Lit => "deserialize_le",
        _ => "deserialize_ne",
    }
}

/// The byte order of a field: the field's own when it sets one, else the
/// struct's.
pub fn endian_attr(struct_endian: Endian, fld_endian: Endian) -> (r: Endian)
    ensures
        r == field_endian(struct_endian, fld_endian),
{
    match fld_endian {
        Endian::NotSet => struct_endian,
        _ => fld_endian,
    }
}

} // verus!
