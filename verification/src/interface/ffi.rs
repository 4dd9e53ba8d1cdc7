//! The shapes in which a value travels across the foreign-function boundary.

use vstd::prelude::*;

verus! {

/// What the native interface transports. The set is closed: integers of four
/// widths in both signednesses, two floats, a handle to a native object, a
/// buffer passed by value, a byte range that the caller owns, and a reference
/// to a foreign callback.
#[derive(Clone, Copy, Debug, PartialEq, Eq, Structural)]
pub enum FFIType {
    UInt8,
    Int8,
    UInt16,
    Int16,
    UInt32,
    Int32,
    UInt64,
    Int64,
    Float32,
    Float64,
    RustArcPtr,
    RustBuffer,
    ForeignBytes,
    ForeignCallback,
}

} // verus!
