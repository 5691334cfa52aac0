//! Errors found while a schema is processed.
use vstd::prelude::*;

verus! {

/// Why a record or enumeration schema is refused.
#[derive(Clone, Copy, Debug, PartialEq, Eq, Structural)]
pub enum SchemaError {
    /// A record declared without a storage type.
    NoStorageType,
    /// A width that no supported storage integer holds.
    InvalidStorageWidth { size: u32 },
    /// The fields need more bits than the storage has; `field` is the first
    /// field that does not fit.
    Overflow { field: usize, needed: u64, available: u32 },
    /// A position, range or stride that cannot be used, or an access mode
    /// given twice.
    MalformedAnnotation,
    /// A type name with no bit width.
    InvalidType,
    /// The discriminant of variant `variant` does not fit the declared width.
    DiscriminantOutOfRange { variant: usize },
    /// An enumeration declared exhaustive does not have one variant for each
    /// pattern of its width; `variants` is how many it has.
    WrongVariantCount { variants: usize },
    /// An enumeration declared exhaustive leaves a bit pattern without a
    /// variant.
    NotExhaustive { pattern: u64 },
}

} // verus!
