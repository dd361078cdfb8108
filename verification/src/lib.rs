//! A bit-packing layout engine for fixed-width bitfield types.
//!
//! From a declarative list of named fields with bit widths, the crate
//! computes a deterministic layout inside a fixed-width unsigned integer:
//! it classifies each field's declared type, derives the read/write
//! conversion semantics (including two's-complement sign extension and
//! bounds checks), assigns non-overlapping bit ranges under a chosen bit
//! order, and validates that the resolved widths exactly cover the
//! declared storage width.  The accessor operations over a packed value
//! (functional update, read, in-place update, default construction) are
//! implemented and verified against the resolved layout.

pub mod bitops;
pub mod classify;
pub mod error;
pub mod field;
pub mod layout;
pub mod packed;
pub mod params;
