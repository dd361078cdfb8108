//! The field descriptor model and the conversion synthesizer: from a
//! validated field description to its effective width, its read/write
//! conversion semantics, and its default.

use vstd::prelude::*;
use crate::bitops::{lemma_sint_range_bounds, sint_bits, sint_to_bits};
use crate::classify::{spec_type_bits, type_bits, TypeClass, TypeRef};
use crate::error::LayoutError;

verus! {

/// A field's name: a real identifier, or the padding sentinel.
///
/// Padding reserves a bit range but gets no accessors; it is a variant
/// of its own so that no string convention leaks into the engine.
#[derive(Debug)]
pub enum FieldName {
    /// A reserved bit range without accessors.
    Padding,
    /// An accessor-bearing field with this identifier.
    Named(String),
}

impl FieldName {
    /// Copies the name.
    pub fn duplicate(&self) -> (r: FieldName)
        ensures
            r == *self,
    {
        match self {
            FieldName::Padding => FieldName::Padding,
            FieldName::Named(s) => FieldName::Named(s.clone()),
        }
    }

    /// Whether this is a real, accessor-bearing name.
    pub open spec fn spec_is_named(self) -> bool {
        self is Named
    }

    /// Whether this is a real, accessor-bearing name.
    pub fn is_named(&self) -> (r: bool)
        ensures
            r == self.spec_is_named(),
    {
        match self {
            FieldName::Padding => false,
            FieldName::Named(_) => true,
        }
    }
}

/// A runtime value crossing a field's accessor boundary.
///
/// For opaque fields the engine never sees the user's type: such a
/// value is carried as the raw-bit image at the conversion-hook
/// boundary (what `into` produced, or what `from` will consume).
#[derive(Clone, Copy, PartialEq, Eq, Structural, Debug)]
pub enum FieldValue {
    /// A boolean flag.
    Bool(bool),
    /// An unsigned integer value.
    UInt(u128),
    /// A signed integer value, stored in two's complement.
    SInt(i128),
    /// The raw-bit image of an opaque value at the hook boundary.
    Opaque(u128),
}

/// The read/write conversion semantics of an accessor-bearing field.
///
/// For the three primitive classes the semantics are engine-derived;
/// for an opaque field they are exactly the caller-supplied hooks,
/// carried by name and never interpreted.
#[derive(Debug)]
pub enum Conversion {
    /// Read: nonzero test on the masked bits; write: 1 or 0.
    Bool,
    /// Read and write: numeric identity under a bounds check.
    UInt,
    /// Read: sign extension; write: two's complement under a signed
    /// bounds check.
    SInt,
    /// Read: invoke `from_hook` on the masked bits; write: invoke
    /// `into_hook` on the value.
    Opaque {
        /// Name of the value-to-bits hook.
        into_hook: String,
        /// Name of the bits-to-value hook.
        from_hook: String,
    },
}

impl Conversion {
    /// Copies the conversion contract.
    pub fn duplicate(&self) -> (r: Conversion)
        ensures
            r == *self,
    {
        match self {
            Conversion::Bool => Conversion::Bool,
            Conversion::UInt => Conversion::UInt,
            Conversion::SInt => Conversion::SInt,
            Conversion::Opaque { into_hook, from_hook } => Conversion::Opaque {
                into_hook: into_hook.clone(),
                from_hook: from_hook.clone(),
            },
        }
    }
}

/// How a field's default reaches the zero-state constructor.
#[derive(Clone, Copy, Debug)]
pub enum DefaultSource {
    /// A value-level default, applied through the field's own write
    /// path, so the write path's bounds checks also apply to it
    /// (accessor-bearing fields).
    Value(FieldValue),
    /// A raw bit pattern, OR'd into storage under the field's mask
    /// (padding fields, which have no write path to route through).
    RawBits(u128),
}

/// The validated, in-memory shape of one declared field, as handed in
/// by the surface front end.  Never mutated once created.
#[derive(Debug)]
pub struct FieldDescriptor {
    /// The field's name, or the padding sentinel.
    pub name: FieldName,
    /// The field's declared type reference.
    pub ty: TypeRef,
    /// An explicit bit-width request, if any.
    pub bits: Option<u32>,
    /// The value-to-bits conversion hook, if any.
    pub into_hook: Option<String>,
    /// The bits-to-value conversion hook, if any.
    pub from_hook: Option<String>,
    /// An explicit default value, if any.
    pub default: Option<FieldValue>,
}

/// One field after conversion synthesis: its effective width, its
/// conversion semantics (absent exactly for padding), and its default.
#[derive(Debug)]
pub struct SynthField {
    /// The field's name, or the padding sentinel.
    pub name: FieldName,
    /// The effective width in bits, at least 1.
    pub width: u32,
    /// The conversion contract; present exactly for named fields.
    pub conversion: Option<Conversion>,
    /// The default and how to apply it.
    pub default: DefaultSource,
}

impl SynthField {
    /// Structural sanity of a synthesized field: a positive width, and
    /// a conversion contract and value-level default exactly for the
    /// accessor-bearing fields.
    pub open spec fn wf(self) -> bool {
        &&& 1 <= self.width
        &&& (self.name is Named <==> self.conversion is Some)
        &&& (self.name is Named <==> self.default is Value)
    }
}

/// The effective width of a field: the explicit request if present,
/// else the type's natural width.  Width 0 — an explicit 0, or an
/// opaque or platform-sized type without a request — is rejected, as
/// is a request that exceeds a known natural width.
pub open spec fn spec_effective_width(d: FieldDescriptor) -> Result<u32, LayoutError> {
    let natural = spec_type_bits(d.ty).1;
    match d.bits {
        Option::Some(b) => if b == 0 {
            Result::Err(LayoutError::ZeroWidth)
        } else if natural != 0 && b > natural {
            Result::Err(LayoutError::WidthOverflow)
        } else {
            Result::Ok(b)
        },
        Option::None => if natural == 0 {
            Result::Err(LayoutError::ZeroWidth)
        } else {
            Result::Ok(natural)
        },
    }
}

/// The conversion contract of an accessor-bearing field: engine-derived
/// for the primitive classes, the caller's hooks for an opaque field.
pub open spec fn spec_conversion(d: FieldDescriptor) -> Result<Conversion, LayoutError> {
    match spec_type_bits(d.ty).0 {
        TypeClass::Bool => Result::Ok(Conversion::Bool),
        TypeClass::UInt => Result::Ok(Conversion::UInt),
        TypeClass::SInt => Result::Ok(Conversion::SInt),
        TypeClass::Opaque => match (d.into_hook, d.from_hook) {
            (Option::Some(i), Option::Some(f)) => Result::Ok(
                Conversion::Opaque { into_hook: i, from_hook: f },
            ),
            _ => Result::Err(LayoutError::MissingConversion),
        },
    }
}

/// The value-level default of an accessor-bearing field: the explicit
/// default if given, else the type class's zero-like default (`false`,
/// `0`, or the opaque image of the all-zero bit pattern).
pub open spec fn spec_default_value(d: FieldDescriptor) -> FieldValue {
    match d.default {
        Option::Some(v) => v,
        Option::None => match spec_type_bits(d.ty).0 {
            TypeClass::Bool => FieldValue::Bool(false),
            TypeClass::UInt => FieldValue::UInt(0),
            TypeClass::SInt => FieldValue::SInt(0),
            TypeClass::Opaque => FieldValue::Opaque(0),
        },
    }
}

/// A decoded default read as a raw 128-bit literal (padding fields):
/// the numeric value's bits, two's complement for a negative value.
pub open spec fn spec_raw_literal(v: FieldValue) -> u128 {
    match v {
        FieldValue::Bool(b) => if b {
            1
        } else {
            0
        },
        FieldValue::UInt(u) => u,
        FieldValue::SInt(i) => sint_bits(i as int, 128),
        FieldValue::Opaque(u) => u,
    }
}

/// The whole synthesis step for one field, rules in order: effective
/// width first, then the padding checks or the conversion contract and
/// the default.
pub open spec fn spec_synthesize(d: FieldDescriptor) -> Result<SynthField, LayoutError> {
    match spec_effective_width(d) {
        Result::Err(e) => Result::Err(e),
        Result::Ok(w) => match d.name {
            FieldName::Padding => if d.into_hook is Some || d.from_hook is Some {
                Result::Err(LayoutError::HooksOnPadding)
            } else {
                Result::Ok(
                    SynthField {
                        name: FieldName::Padding,
                        width: w,
                        conversion: Option::None,
                        default: DefaultSource::RawBits(
                            match d.default {
                                Option::Some(v) => spec_raw_literal(v),
                                Option::None => 0,
                            },
                        ),
                    },
                )
            },
            FieldName::Named(_) => match spec_conversion(d) {
                Result::Err(e) => Result::Err(e),
                Result::Ok(c) => Result::Ok(
                    SynthField {
                        name: d.name,
                        width: w,
                        conversion: Option::Some(c),
                        default: DefaultSource::Value(spec_default_value(d)),
                    },
                ),
            },
        },
    }
}

/// Reads a decoded default as a raw 128-bit literal.
pub fn raw_literal(v: &FieldValue) -> (r: u128)
    ensures
        r == spec_raw_literal(*v),
{
    match v {
        FieldValue::Bool(b) => if *b {
            1
        } else {
            0
        },
        FieldValue::UInt(u) => *u,
        FieldValue::SInt(i) => {
            proof {
                lemma_sint_range_bounds(128);
            }
            sint_to_bits(*i, 128)
        },
        FieldValue::Opaque(u) => *u,
    }
}

/// Synthesizes one field: its effective width, conversion contract and
/// default, or the first error its description contains.
///
/// A synthesized field is always well formed; the width may still
/// exceed the storage width, which the layout resolver checks.
pub fn synthesize(d: &FieldDescriptor) -> (r: Result<SynthField, LayoutError>)
    ensures
        r == spec_synthesize(*d),
        r matches Result::Ok(f) ==> f.wf(),
{
    let (class, natural) = type_bits(&d.ty);
    let w: u32 = match d.bits {
        Option::Some(b) => {
            if b == 0 {
                return Result::Err(LayoutError::ZeroWidth);
            }
            if natural != 0 && b > natural {
                return Result::Err(LayoutError::WidthOverflow);
            }
            b
        },
        Option::None => {
            if natural == 0 {
                return Result::Err(LayoutError::ZeroWidth);
            }
            natural
        },
    };
    match &d.name {
        FieldName::Padding => {
            if d.into_hook.is_some() || d.from_hook.is_some() {
                return Result::Err(LayoutError::HooksOnPadding);
            }
            let bits: u128 = match &d.default {
                Option::Some(v) => raw_literal(v),
                Option::None => 0,
            };
            Result::Ok(
                SynthField {
                    name: FieldName::Padding,
                    width: w,
                    conversion: Option::None,
                    default: DefaultSource::RawBits(bits),
                },
            )
        },
        FieldName::Named(_) => {
            let conv: Conversion = if class == TypeClass::Bool {
                Conversion::Bool
            } else if class == TypeClass::UInt {
                Conversion::UInt
            } else if class == TypeClass::SInt {
                Conversion::SInt
            } else {
                match (&d.into_hook, &d.from_hook) {
                    (Option::Some(i), Option::Some(f)) => Conversion::Opaque {
                        into_hook: i.clone(),
                        from_hook: f.clone(),
                    },
                    _ => {
                        return Result::Err(LayoutError::MissingConversion);
                    },
                }
            };
            let dflt: FieldValue = match &d.default {
                Option::Some(v) => *v,
                Option::None => {
                    if class == TypeClass::Bool {
                        FieldValue::Bool(false)
                    } else if class == TypeClass::UInt {
                        FieldValue::UInt(0)
                    } else if class == TypeClass::SInt {
                        FieldValue::SInt(0)
                    } else {
                        FieldValue::Opaque(0)
                    }
                },
            };
            Result::Ok(
                SynthField {
                    name: d.name.duplicate(),
                    width: w,
                    conversion: Option::Some(conv),
                    default: DefaultSource::Value(dflt),
                },
            )
        },
    }
}

} // verus!
