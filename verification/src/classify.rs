//! Type classification: maps a field's declared type reference to its
//! type class and natural bit width.

use vstd::prelude::*;
use vstd::string::StringExecFns;

verus! {

/// The four categories a field's declared type can fall into.
#[derive(Clone, Copy, PartialEq, Eq, Structural, Debug)]
pub enum TypeClass {
    /// A boolean flag, one bit wide.
    Bool,
    /// A fixed-width unsigned integer (also covers platform-sized
    /// integers, whose natural width is reported as the sentinel 0).
    UInt,
    /// A fixed-width signed integer, stored in two's complement.
    SInt,
    /// Any other type; converted through caller-supplied hooks.
    Opaque,
}

/// A field's declared type, reduced to what classification reads:
/// either a bare one-identifier type name, or any other type shape.
#[derive(Debug)]
pub enum TypeRef {
    /// A type written as a single identifier, carried by name.
    Name(String),
    /// A type of any other shape (a qualified path, reference, tuple, ...).
    Composite,
}

/// The class and natural bit width of a declared type.
///
/// A natural width of 0 is a sentinel for "statically unknown": it is
/// reported for platform-sized integers and for opaque types, and an
/// explicit width must then be requested for the field.
pub open spec fn spec_type_bits(t: TypeRef) -> (TypeClass, u32) {
    match t {
        TypeRef::Composite => (TypeClass::Opaque, 0),
        TypeRef::Name(s) => {
            if s@ == "bool"@ {
                (TypeClass::Bool, 1)
            } else if s@ == "usize"@ || s@ == "isize"@ {
                (TypeClass::UInt, 0)
            } else if s@ == "u8"@ {
                (TypeClass::UInt, 8)
            } else if s@ == "u16"@ {
                (TypeClass::UInt, 16)
            } else if s@ == "u32"@ {
                (TypeClass::UInt, 32)
            } else if s@ == "u64"@ {
                (TypeClass::UInt, 64)
            } else if s@ == "u128"@ {
                (TypeClass::UInt, 128)
            } else if s@ == "i8"@ {
                (TypeClass::SInt, 8)
            } else if s@ == "i16"@ {
                (TypeClass::SInt, 16)
            } else if s@ == "i32"@ {
                (TypeClass::SInt, 32)
            } else if s@ == "i64"@ {
                (TypeClass::SInt, 64)
            } else if s@ == "i128"@ {
                (TypeClass::SInt, 128)
            } else {
                (TypeClass::Opaque, 0)
            }
        },
    }
}

/// Classifies a declared type and returns its natural bit width.
///
/// Pure and total: unrecognized type names simply fall into
/// [`TypeClass::Opaque`] with the sentinel width 0.
pub fn type_bits(t: &TypeRef) -> (r: (TypeClass, u32))
    ensures
        r == spec_type_bits(*t),
{
    match t {
        TypeRef::Composite => (TypeClass::Opaque, 0),
        TypeRef::Name(s) => {
            if *s == String::from_str("bool") {
                (TypeClass::Bool, 1)
            } else if *s == String::from_str("usize") || *s == String::from_str("isize") {
                (TypeClass::UInt, 0)
            } else if *s == String::from_str("u8") {
                (TypeClass::UInt, 8)
            } else if *s == String::from_str("u16") {
                (TypeClass::UInt, 16)
            } else if *s == String::from_str("u32") {
                (TypeClass::UInt, 32)
            } else if *s == String::from_str("u64") {
                (TypeClass::UInt, 64)
            } else if *s == String::from_str("u128") {
                (TypeClass::UInt, 128)
            } else if *s == String::from_str("i8") {
                (TypeClass::SInt, 8)
            } else if *s == String::from_str("i16") {
                (TypeClass::SInt, 16)
            } else if *s == String::from_str("i32") {
                (TypeClass::SInt, 32)
            } else if *s == String::from_str("i64") {
                (TypeClass::SInt, 64)
            } else if *s == String::from_str("i128") {
                (TypeClass::SInt, 128)
            } else {
                (TypeClass::Opaque, 0)
            }
        },
    }
}

} // verus!
