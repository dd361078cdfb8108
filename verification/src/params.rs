//! The decoded macro-level parameters of one bitfield definition: the
//! storage type, the bit order, and the debug/default emission toggles,
//! with the validation of unrecognized names and values.

use vstd::prelude::*;
use vstd::string::StringExecFns;
use crate::classify::{spec_type_bits, TypeClass, TypeRef};
use crate::error::LayoutError;
use crate::layout::{Order, StorageSpec};

verus! {

/// A decoded value supplied for a storage parameter: a boolean
/// literal, or a bare name (as the bit-order values are written).
#[derive(Debug)]
pub enum ParamValue {
    /// A boolean literal.
    Flag(bool),
    /// A bare identifier.
    Name(String),
}

/// The parameters of one bitfield definition: the storage width and
/// bit order, and the two emission toggles, which default to on.
#[derive(Clone, Copy, PartialEq, Eq, Structural, Debug)]
pub struct Params {
    /// The storage width and bit-order policy.
    pub storage: StorageSpec,
    /// Whether a structural formatting contract is emitted.
    pub debug: bool,
    /// Whether a default-value contract, equal to the zero-state
    /// constructor, is emitted.
    pub default: bool,
}

impl Params {
    /// Builds the parameters from the declared storage type, with the
    /// defaults: Lsb order, both emission toggles on.
    ///
    /// Only a fixed-width unsigned integer is accepted as storage.
    pub fn new(ty: &TypeRef) -> (r: Result<Params, LayoutError>)
        ensures
            ({
                let class = spec_type_bits(*ty).0;
                let n = spec_type_bits(*ty).1;
                match r {
                    Result::Ok(p) => class == TypeClass::UInt && n != 0 && p == (Params {
                        storage: StorageSpec { total_bits: n, order: Order::Lsb },
                        debug: true,
                        default: true,
                    }) && p.storage.wf(),
                    Result::Err(e) => e == LayoutError::UnsupportedStorageType && !(class
                        == TypeClass::UInt && n != 0),
                }
            }),
    {
        match StorageSpec::new(ty, Order::Lsb) {
            Result::Ok(s) => Result::Ok(Params { storage: s, debug: true, default: true }),
            Result::Err(e) => Result::Err(e),
        }
    }
}

/// One configuration step: the parameters after applying the named
/// option, and its outcome.  The keys are `debug` and `default`, each
/// taking a boolean literal, and `order`, taking one of the names
/// `Msb`, `msb`, `Lsb`, `lsb`.  Anything else is
/// [`LayoutError::UnknownConfigurationOption`] and leaves the
/// parameters unchanged.
pub open spec fn spec_set_param(p: Params, key: Seq<char>, v: ParamValue) -> (
    Params,
    Result<(), LayoutError>,
) {
    if key == "debug"@ {
        match v {
            ParamValue::Flag(b) => (Params { debug: b, ..p }, Result::Ok(())),
            ParamValue::Name(_) => (p, Result::Err(LayoutError::UnknownConfigurationOption)),
        }
    } else if key == "default"@ {
        match v {
            ParamValue::Flag(b) => (Params { default: b, ..p }, Result::Ok(())),
            ParamValue::Name(_) => (p, Result::Err(LayoutError::UnknownConfigurationOption)),
        }
    } else if key == "order"@ {
        match v {
            ParamValue::Name(s) => if s@ == "Msb"@ || s@ == "msb"@ {
                (
                    Params { storage: StorageSpec { order: Order::Msb, ..p.storage }, ..p },
                    Result::Ok(()),
                )
            } else if s@ == "Lsb"@ || s@ == "lsb"@ {
                (
                    Params { storage: StorageSpec { order: Order::Lsb, ..p.storage }, ..p },
                    Result::Ok(()),
                )
            } else {
                (p, Result::Err(LayoutError::UnknownConfigurationOption))
            },
            ParamValue::Flag(_) => (p, Result::Err(LayoutError::UnknownConfigurationOption)),
        }
    } else {
        (p, Result::Err(LayoutError::UnknownConfigurationOption))
    }
}

impl Params {
    /// Applies one named option to the parameters; an unrecognized
    /// name or value reports
    /// [`LayoutError::UnknownConfigurationOption`] and changes
    /// nothing.
    pub fn set_param(&mut self, key: &String, value: &ParamValue) -> (r: Result<(), LayoutError>)
        ensures
            *final(self) == spec_set_param(*old(self), key@, *value).0,
            r == spec_set_param(*old(self), key@, *value).1,
    {
        if *key == String::from_str("debug") {
            match value {
                ParamValue::Flag(b) => {
                    self.debug = *b;
                    Result::Ok(())
                },
                ParamValue::Name(_) => Result::Err(LayoutError::UnknownConfigurationOption),
            }
        } else if *key == String::from_str("default") {
            match value {
                ParamValue::Flag(b) => {
                    self.default = *b;
                    Result::Ok(())
                },
                ParamValue::Name(_) => Result::Err(LayoutError::UnknownConfigurationOption),
            }
        } else if *key == String::from_str("order") {
            match value {
                ParamValue::Name(s) => {
                    if *s == String::from_str("Msb") || *s == String::from_str("msb") {
                        self.storage.order = Order::Msb;
                        Result::Ok(())
                    } else if *s == String::from_str("Lsb") || *s == String::from_str("lsb") {
                        self.storage.order = Order::Lsb;
                        Result::Ok(())
                    } else {
                        Result::Err(LayoutError::UnknownConfigurationOption)
                    }
                },
                ParamValue::Flag(_) => Result::Err(LayoutError::UnknownConfigurationOption),
            }
        } else {
            Result::Err(LayoutError::UnknownConfigurationOption)
        }
    }
}

} // verus!
