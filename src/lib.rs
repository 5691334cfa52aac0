//! Bit-packed records and bit-pattern enumerations over a fixed-width
//! unsigned storage integer.
pub mod window;
pub mod bit_size;
pub mod uint;
pub mod error;
pub mod storage;
pub mod annotation;
pub mod layout;
pub mod enumeration;
pub mod field_type;

pub use crate::annotation::{Annotation, FieldConfig, Mode};
pub use crate::bit_size::{from_offset, with_offset, BitSize};
pub use crate::enumeration::EnumSchema;
pub use crate::error::SchemaError;
pub use crate::field_type::type_width;
pub use crate::layout::{bitfield, resolve, BitRange, Config, FieldLayout, FieldSchema, Layout};
pub use crate::storage::{base_type, is_arbitrary_int, pack, unpack, widen, StorageWidth};
pub use crate::uint::UInt;
