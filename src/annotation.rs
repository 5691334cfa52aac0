//! Per-field annotations: access mode, explicit bit position or range, and
//! stride.
use vstd::prelude::*;
use crate::error::SchemaError;
use crate::layout::{BitRange, FieldSchema};

verus! {

/// How a field may be used: read only, read and written, or written only.
#[derive(Clone, Copy, Debug, PartialEq, Eq, Structural)]
pub enum Mode {
    Read,
    ReadWrite,
    Write,
}

/// One annotation on a field.
#[derive(Clone, Copy, Debug, PartialEq, Eq, Structural)]
pub enum Annotation {
    /// The access mode.
    Access(Mode),
    /// The distance in bits between repeated instances of the field.
    Stride(u32),
    /// A single bit position.
    Bit(u32),
    /// A bit range `start..end`, or `start..=end` when `inclusive`.
    Bits { start: u32, end: u32, inclusive: bool },
}

/// What the annotations of one field say so far.
#[derive(Clone, Copy, Debug, PartialEq, Eq, Structural)]
pub struct FieldConfig {
    pub range: Option<BitRange>,
    pub mode: Option<Mode>,
    pub stride: Option<u32>,
}

/// The configuration after `a` is applied to `c`, or why `a` is refused.
pub open spec fn spec_apply(c: FieldConfig, a: Annotation) -> Result<FieldConfig, SchemaError> {
    match a {
        Annotation::Access(m) => if c.mode is Some {
            Err(SchemaError::MalformedAnnotation)
        } else {
            Ok(FieldConfig { mode: Some(m), ..c })
        },
        Annotation::Stride(n) => if n == 0 {
            Err(SchemaError::MalformedAnnotation)
        } else {
            Ok(FieldConfig { stride: Some(n), ..c })
        },
        Annotation::Bit(n) => if n == u32::MAX {
            Err(SchemaError::MalformedAnnotation)
        } else {
            Ok(FieldConfig { range: Some(BitRange { start: n, end: (n + 1) as u32 }), ..c })
        },
        Annotation::Bits { start, end, inclusive } => if inclusive && end == u32::MAX {
            Err(SchemaError::MalformedAnnotation)
        } else {
            Ok(
                FieldConfig {
                    range: Some(
                        BitRange { start, end: if inclusive { (end + 1) as u32 } else { end } },
                    ),
                    ..c
                },
            )
        },
    }
}

impl FieldConfig {
    /// No annotation yet.
    pub fn new() -> (r: Self)
        ensures
            r.range is None && r.mode is None && r.stride is None,
    {
        FieldConfig { range: None, mode: None, stride: None }
    }

    /// Applies one annotation. An access mode given twice, a stride of zero
    /// and a range whose end does not fit are refused, leaving the
    /// configuration unchanged.
    pub fn apply(&mut self, a: Annotation) -> (r: Result<(), SchemaError>)
        ensures
            match spec_apply(*old(self), a) {
                Ok(c) => r is Ok && *final(self) == c,
                Err(e) => r == Err::<(), SchemaError>(e) && *final(self) == *old(self),
            },
    {
        match a {
            Annotation::Access(m) => {
                if self.mode.is_some() {
                    return Err(SchemaError::MalformedAnnotation);
                }
                self.mode = Some(m);
            },
            Annotation::Stride(n) => {
                if n == 0 {
                    return Err(SchemaError::MalformedAnnotation);
                }
                self.stride = Some(n);
            },
            Annotation::Bit(n) => {
                if n == u32::MAX {
                    return Err(SchemaError::MalformedAnnotation);
                }
                self.range = Some(BitRange { start: n, end: n + 1 });
            },
            Annotation::Bits { start, end, inclusive } => {
                if inclusive && end == u32::MAX {
                    return Err(SchemaError::MalformedAnnotation);
                }
                let end = if inclusive { end + 1 } else { end };
                self.range = Some(BitRange { start, end });
            },
        }
        Ok(())
    }

    /// The field schema of a field of `width` bits with this configuration;
    /// the access mode is read-write unless given.
    pub fn field(&self, width: u32) -> (r: FieldSchema)
        ensures
            r.width == width,
            r.range == self.range,
            r.stride == self.stride,
            r.mode == match self.mode {
                Some(m) => m,
                None => Mode::ReadWrite,
            },
    {
        let mode = match self.mode {
            Some(m) => m,
            None => Mode::ReadWrite,
        };
        FieldSchema { width, range: self.range, mode, stride: self.stride }
    }
}

} // verus!
