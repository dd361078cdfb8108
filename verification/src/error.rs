//! The error taxonomy of layout construction and of the write path.

use vstd::prelude::*;

verus! {

/// Everything that can go wrong while building a layout, plus the one
/// runtime-observable failure of the write path.
///
/// Construction-time errors are fatal to the whole type: no partial
/// layout is ever produced.
#[derive(Clone, Copy, PartialEq, Eq, Structural, Debug)]
pub enum LayoutError {
    /// The storage type is not a fixed-width unsigned integer
    /// (platform-sized integers are rejected: their width is not
    /// statically known).
    UnsupportedStorageType,
    /// A field resolves to width 0: an opaque or platform-sized type
    /// without an explicit width, or an explicit width of 0.
    ZeroWidth,
    /// An explicit width exceeds the field type's natural width, or a
    /// field's starting offset plus width exceeds the storage width.
    WidthOverflow,
    /// An opaque, non-padding field lacks one or both conversion hooks.
    MissingConversion,
    /// A padding field specifies conversion hooks.
    HooksOnPadding,
    /// The resolved widths undershoot the storage width; `missing` is
    /// the bit count a padding field would have to add.
    IncompleteLayout { missing: u32 },
    /// The resolved widths overshoot the storage width; `excess` is the
    /// overshoot at the first field that crosses the storage width.
    LayoutExceedsStorage { excess: u32 },
    /// An unrecognized name or value was supplied for a storage
    /// parameter (bit order, debug/default toggles).
    UnknownConfigurationOption,
    /// A value handed to a write operation does not fit the field's
    /// declared width and signedness.  Local to the single write call;
    /// the packed value is left untouched.
    BoundsViolation,
}

} // verus!
