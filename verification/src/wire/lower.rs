//! Lowering and lifting: a value as the one thing that is passed across
//! the boundary by value, and back.
//!
//! A number crosses as itself, a boolean as a byte, an object as the
//! pointer that is its handle, a callback interface as the number that is
//! its handle. Every other value crosses in a buffer of its own that holds
//! the value as it is written. Who lifts a buffer takes it over: the buffer
//! is given up when it has been read, and cannot be given up twice.

use vstd::prelude::*;
use vstd::utf8::encode_utf8;
use crate::interface::component::ComponentInterface;
use crate::interface::component::ComponentInterfaceView;
use crate::interface::ffi::FFIType;
use crate::interface::types::Type;
use crate::interface::types::TypeView;
use crate::wire::bytes::be_bytes;
use crate::wire::read::decode;
use crate::wire::read::read;
use crate::wire::roundtrip::conforms;
use crate::wire::roundtrip::lemma_read_after_write;
use crate::wire::value::depth;
use crate::wire::value::encodable;
use crate::wire::value::encoding;
use crate::wire::value::Value;
use crate::wire::value::ValueView;
use crate::wire::write::WireError;

verus! {

/// What is passed across the boundary for one value.
#[derive(Debug, PartialEq, Eq)]
pub enum Lowered {
    UInt8(u8),
    Int8(i8),
    UInt16(u16),
    Int16(i16),
    UInt32(u32),
    Int32(i32),
    UInt64(u64),
    Int64(i64),
    Float32(u32),
    Float64(u64),
    Pointer(u64),
    Buffer(Vec<u8>),
}

/// The mathematical value of a [`Lowered`].
pub enum LoweredView {
    UInt8(u8),
    Int8(i8),
    UInt16(u16),
    Int16(i16),
    UInt32(u32),
    Int32(i32),
    UInt64(u64),
    Int64(i64),
    Float32(u32),
    Float64(u64),
    Pointer(u64),
    Buffer(Seq<u8>),
}

impl View for Lowered {
    type V = LoweredView;

    open spec fn view(&self) -> LoweredView {
        match self {
            Lowered::UInt8(n) => LoweredView::UInt8(*n),
            Lowered::Int8(n) => LoweredView::Int8(*n),
            Lowered::UInt16(n) => LoweredView::UInt16(*n),
            Lowered::Int16(n) => LoweredView::Int16(*n),
            Lowered::UInt32(n) => LoweredView::UInt32(*n),
            Lowered::Int32(n) => LoweredView::Int32(*n),
            Lowered::UInt64(n) => LoweredView::UInt64(*n),
            Lowered::Int64(n) => LoweredView::Int64(*n),
            Lowered::Float32(n) => LoweredView::Float32(*n),
            Lowered::Float64(n) => LoweredView::Float64(*n),
            Lowered::Pointer(handle) => LoweredView::Pointer(*handle),
            Lowered::Buffer(bytes) => LoweredView::Buffer(bytes@),
        }
    }
}

impl LoweredView {
    /// The transport shape of what is passed.
    pub open spec fn shape(self) -> FFIType {
        match self {
            LoweredView::UInt8(_) => FFIType::UInt8,
            LoweredView::Int8(_) => FFIType::Int8,
            LoweredView::UInt16(_) => FFIType::UInt16,
            LoweredView::Int16(_) => FFIType::Int16,
            LoweredView::UInt32(_) => FFIType::UInt32,
            LoweredView::Int32(_) => FFIType::Int32,
            LoweredView::UInt64(_) => FFIType::UInt64,
            LoweredView::Int64(_) => FFIType::Int64,
            LoweredView::Float32(_) => FFIType::Float32,
            LoweredView::Float64(_) => FFIType::Float64,
            LoweredView::Pointer(_) => FFIType::RustArcPtr,
            LoweredView::Buffer(_) => FFIType::RustBuffer,
        }
    }
}

impl Lowered {
    /// The transport shape of what is passed.
    pub fn shape(&self) -> (r: FFIType)
        ensures
            r == self@.shape(),
    {
        match self {
            Lowered::UInt8(_) => FFIType::UInt8,
            Lowered::Int8(_) => FFIType::Int8,
            Lowered::UInt16(_) => FFIType::UInt16,
            Lowered::Int16(_) => FFIType::Int16,
            Lowered::UInt32(_) => FFIType::UInt32,
            Lowered::Int32(_) => FFIType::Int32,
            Lowered::UInt64(_) => FFIType::UInt64,
            Lowered::Int64(_) => FFIType::Int64,
            Lowered::Float32(_) => FFIType::Float32,
            Lowered::Float64(_) => FFIType::Float64,
            Lowered::Pointer(_) => FFIType::RustArcPtr,
            Lowered::Buffer(_) => FFIType::RustBuffer,
        }
    }
}

/// The transport shape in which the values of a type cross the boundary.
/// Each type has exactly one.
pub open spec fn ffi_type_of(t: TypeView) -> FFIType {
    match t {
        TypeView::UInt8 => FFIType::UInt8,
        TypeView::Int8 => FFIType::Int8,
        TypeView::UInt16 => FFIType::UInt16,
        TypeView::Int16 => FFIType::Int16,
        TypeView::UInt32 => FFIType::UInt32,
        TypeView::Int32 => FFIType::Int32,
        TypeView::UInt64 => FFIType::UInt64,
        TypeView::Int64 => FFIType::Int64,
        TypeView::Float32 => FFIType::Float32,
        TypeView::Float64 => FFIType::Float64,
        TypeView::Boolean => FFIType::Int8,
        TypeView::Object(_) => FFIType::RustArcPtr,
        TypeView::CallbackInterface(_) => FFIType::UInt64,
        _ => FFIType::RustBuffer,
    }
}

/// The transport shape in which the values of a type cross the boundary.
pub fn ffi_type(type_: &Type) -> (r: FFIType)
    ensures
        r == ffi_type_of(type_@),
{
    match type_ {
        Type::UInt8 => FFIType::UInt8,
        Type::Int8 => FFIType::Int8,
        Type::UInt16 => FFIType::UInt16,
        Type::Int16 => FFIType::Int16,
        Type::UInt32 => FFIType::UInt32,
        Type::Int32 => FFIType::Int32,
        Type::UInt64 => FFIType::UInt64,
        Type::Int64 => FFIType::Int64,
        Type::Float32 => FFIType::Float32,
        Type::Float64 => FFIType::Float64,
        Type::Boolean => FFIType::Int8,
        Type::Object(_) => FFIType::RustArcPtr,
        Type::CallbackInterface(_) => FFIType::UInt64,
        _ => FFIType::RustBuffer,
    }
}

/// What is passed across the boundary for a value.
pub open spec fn lowered(v: ValueView) -> LoweredView {
    match v {
        ValueView::UInt8(n) => LoweredView::UInt8(n),
        ValueView::Int8(n) => LoweredView::Int8(n),
        ValueView::UInt16(n) => LoweredView::UInt16(n),
        ValueView::Int16(n) => LoweredView::Int16(n),
        ValueView::UInt32(n) => LoweredView::UInt32(n),
        ValueView::Int32(n) => LoweredView::Int32(n),
        ValueView::UInt64(n) => LoweredView::UInt64(n),
        ValueView::Int64(n) => LoweredView::Int64(n),
        ValueView::Float32(n) => LoweredView::Float32(n),
        ValueView::Float64(n) => LoweredView::Float64(n),
        ValueView::Boolean(b) => LoweredView::Int8(
            if b {
                1
            } else {
                0
            },
        ),
        ValueView::Object(handle) => LoweredView::Pointer(handle),
        ValueView::CallbackInterface(handle) => LoweredView::UInt64(handle),
        _ => LoweredView::Buffer(encoding(v)),
    }
}

/// The value of a type that was passed across the boundary, or why what
/// was passed is none. A buffer has to hold one value of the type and
/// nothing behind it.
pub open spec fn lifted(ci: ComponentInterfaceView, t: TypeView, l: LoweredView, fuel: nat) -> Result<
    ValueView,
    WireError,
> {
    match t {
        TypeView::UInt8 => match l {
            LoweredView::UInt8(n) => Ok(ValueView::UInt8(n)),
            _ => Err(WireError::WrongShape),
        },
        TypeView::Int8 => match l {
            LoweredView::Int8(n) => Ok(ValueView::Int8(n)),
            _ => Err(WireError::WrongShape),
        },
        TypeView::UInt16 => match l {
            LoweredView::UInt16(n) => Ok(ValueView::UInt16(n)),
            _ => Err(WireError::WrongShape),
        },
        TypeView::Int16 => match l {
            LoweredView::Int16(n) => Ok(ValueView::Int16(n)),
            _ => Err(WireError::WrongShape),
        },
        TypeView::UInt32 => match l {
            LoweredView::UInt32(n) => Ok(ValueView::UInt32(n)),
            _ => Err(WireError::WrongShape),
        },
        TypeView::Int32 => match l {
            LoweredView::Int32(n) => Ok(ValueView::Int32(n)),
            _ => Err(WireError::WrongShape),
        },
        TypeView::UInt64 => match l {
            LoweredView::UInt64(n) => Ok(ValueView::UInt64(n)),
            _ => Err(WireError::WrongShape),
        },
        TypeView::Int64 => match l {
            LoweredView::Int64(n) => Ok(ValueView::Int64(n)),
            _ => Err(WireError::WrongShape),
        },
        TypeView::Float32 => match l {
            LoweredView::Float32(n) => Ok(ValueView::Float32(n)),
            _ => Err(WireError::WrongShape),
        },
        TypeView::Float64 => match l {
            LoweredView::Float64(n) => Ok(ValueView::Float64(n)),
            _ => Err(WireError::WrongShape),
        },
        TypeView::Boolean => match l {
            LoweredView::Int8(n) => Ok(ValueView::Boolean(n != 0)),
            _ => Err(WireError::WrongShape),
        },
        TypeView::Object(_) => match l {
            LoweredView::Pointer(handle) => Ok(ValueView::Object(handle)),
            _ => Err(WireError::WrongShape),
        },
        TypeView::CallbackInterface(_) => match l {
            LoweredView::UInt64(handle) => Ok(ValueView::CallbackInterface(handle)),
            _ => Err(WireError::WrongShape),
        },
        _ => match l {
            LoweredView::Buffer(bytes) => match decode(ci, t, bytes, fuel) {
                Ok((v, n)) => if n == bytes.len() {
                    Ok(v)
                } else {
                    Err(WireError::TrailingBytes)
                },
                Err(e) => Err(e),
            },
            _ => Err(WireError::WrongShape),
        },
    }
}

/// Lowers a value. A value that cannot be written cannot be lowered into a
/// buffer either; a number, a boolean or a handle can always be lowered.
pub fn lower(value: &Value) -> (r: Result<Lowered, WireError>)
    ensures
        lowered(value@) is Buffer && !encodable(value@) ==> r is Err && r->Err_0
            == WireError::Unencodable,
        !(lowered(value@) is Buffer) || encodable(value@) ==> r is Ok && r->Ok_0@ == lowered(
            value@,
        ),
{
    match value {
        Value::UInt8(n) => Ok(Lowered::UInt8(*n)),
        Value::Int8(n) => Ok(Lowered::Int8(*n)),
        Value::UInt16(n) => Ok(Lowered::UInt16(*n)),
        Value::Int16(n) => Ok(Lowered::Int16(*n)),
        Value::UInt32(n) => Ok(Lowered::UInt32(*n)),
        Value::Int32(n) => Ok(Lowered::Int32(*n)),
        Value::UInt64(n) => Ok(Lowered::UInt64(*n)),
        Value::Int64(n) => Ok(Lowered::Int64(*n)),
        Value::Float32(n) => Ok(Lowered::Float32(*n)),
        Value::Float64(n) => Ok(Lowered::Float64(*n)),
        Value::Boolean(b) => Ok(
            Lowered::Int8(
                if *b {
                    1
                } else {
                    0
                },
            ),
        ),
        Value::Object(handle) => Ok(Lowered::Pointer(*handle)),
        Value::CallbackInterface(handle) => Ok(Lowered::UInt64(*handle)),
        _ => {
            let mut bytes: Vec<u8> = Vec::new();
            match crate::wire::write::write(value, &mut bytes) {
                Ok(()) => {
                    assert(bytes@ =~= encoding(value@));
                    Ok(Lowered::Buffer(bytes))
                },
                Err(e) => Err(e),
            }
        },
    }
}

/// Whether a lift gave what was to be lifted.
pub open spec fn lifts(r: Result<Value, WireError>, expected: Result<ValueView, WireError>) -> bool {
    match expected {
        Ok(v) => r is Ok && r->Ok_0@ == v,
        Err(e) => r is Err && r->Err_0 == e,
    }
}

/// Lifts a value of a type out of what was passed across the boundary. The
/// reader enters at most `depth` levels of values. What was passed is taken
/// over and given up here, whether or not it held a value.
pub fn lift(ci: &ComponentInterface, type_: &Type, passed: Lowered, depth: usize) -> (r: Result<
    Value,
    WireError,
>)
    ensures
        lifts(r, lifted(ci@, type_@, passed@, depth as nat)),
{
    match type_ {
        Type::UInt8 => match passed {
            Lowered::UInt8(n) => Ok(Value::UInt8(n)),
            _ => Err(WireError::WrongShape),
        },
        Type::Int8 => match passed {
            Lowered::Int8(n) => Ok(Value::Int8(n)),
            _ => Err(WireError::WrongShape),
        },
        Type::UInt16 => match passed {
            Lowered::UInt16(n) => Ok(Value::UInt16(n)),
            _ => Err(WireError::WrongShape),
        },
        Type::Int16 => match passed {
            Lowered::Int16(n) => Ok(Value::Int16(n)),
            _ => Err(WireError::WrongShape),
        },
        Type::UInt32 => match passed {
            Lowered::UInt32(n) => Ok(Value::UInt32(n)),
            _ => Err(WireError::WrongShape),
        },
        Type::Int32 => match passed {
            Lowered::Int32(n) => Ok(Value::Int32(n)),
            _ => Err(WireError::WrongShape),
        },
        Type::UInt64 => match passed {
            Lowered::UInt64(n) => Ok(Value::UInt64(n)),
            _ => Err(WireError::WrongShape),
        },
        Type::Int64 => match passed {
            Lowered::Int64(n) => Ok(Value::Int64(n)),
            _ => Err(WireError::WrongShape),
        },
        Type::Float32 => match passed {
            Lowered::Float32(n) => Ok(Value::Float32(n)),
            _ => Err(WireError::WrongShape),
        },
        Type::Float64 => match passed {
            Lowered::Float64(n) => Ok(Value::Float64(n)),
            _ => Err(WireError::WrongShape),
        },
        Type::Boolean => match passed {
            Lowered::Int8(n) => Ok(Value::Boolean(n != 0)),
            _ => Err(WireError::WrongShape),
        },
        Type::Object(_) => match passed {
            Lowered::Pointer(handle) => Ok(Value::Object(handle)),
            _ => Err(WireError::WrongShape),
        },
        Type::CallbackInterface(_) => match passed {
            Lowered::UInt64(handle) => Ok(Value::CallbackInterface(handle)),
            _ => Err(WireError::WrongShape),
        },
        _ => match passed {
            Lowered::Buffer(bytes) => {
                assert(bytes@.skip(0) =~= bytes@);
                match read(ci, type_, &bytes, 0, depth) {
                    Ok((value, end)) => if end == bytes.len() {
                        Ok(value)
                    } else {
                        Err(WireError::TrailingBytes)
                    },
                    Err(e) => Err(e),
                }
            },
            _ => Err(WireError::WrongShape),
        },
    }
}

/// Lift after lower: a value of a type that was lowered is lifted as it
/// was. This holds of every type and of every value of the type that can
/// be written and has no more levels than the reader may enter.
pub proof fn lemma_lift_after_lower(
    ci: ComponentInterfaceView,
    t: TypeView,
    v: ValueView,
    fuel: nat,
)
    requires
        conforms(ci, v, t),
        encodable(v),
        fuel >= depth(v),
    ensures
        lifted(ci, t, lowered(v), fuel) == Ok::<ValueView, WireError>(v),
{
    if lowered(v) is Buffer {
        lemma_read_after_write(ci, t, v, Seq::empty(), fuel);
        assert(encoding(v) + Seq::<u8>::empty() =~= encoding(v));
    }
}

/// To lower is to write: what is lowered into a buffer is the value as it
/// is written onto an empty buffer, and nothing else. So a lowered string
/// is the count of its UTF-8 bytes in four bytes and then those bytes, as
/// a string is written anywhere.
pub proof fn lemma_lowered_is_written(v: ValueView)
    requires
        lowered(v) is Buffer,
    ensures
        lowered(v) == LoweredView::Buffer(Seq::<u8>::empty() + encoding(v)),
        v matches ValueView::String(s) ==> lowered(v) == LoweredView::Buffer(
            be_bytes(encode_utf8(s).len(), 4) + encode_utf8(s),
        ),
{
    assert(Seq::<u8>::empty() + encoding(v) =~= encoding(v));
}

/// To lift is to read: a buffer is lifted to the value that is read at its
/// front, if that value fills the buffer.
pub proof fn lemma_lifted_is_read(
    ci: ComponentInterfaceView,
    t: TypeView,
    bytes: Seq<u8>,
    fuel: nat,
)
    requires
        ffi_type_of(t) == FFIType::RustBuffer,
    ensures
        lifted(ci, t, LoweredView::Buffer(bytes), fuel) == match decode(ci, t, bytes, fuel) {
            Ok((v, n)) => if n == bytes.len() {
                Ok::<ValueView, WireError>(v)
            } else {
                Err::<ValueView, WireError>(WireError::TrailingBytes)
            },
            Err(e) => Err::<ValueView, WireError>(e),
        },
{
}

/// A value of a type crosses the boundary in the shape of the type.
pub proof fn lemma_lowered_shape(ci: ComponentInterfaceView, t: TypeView, v: ValueView)
    requires
        conforms(ci, v, t),
    ensures
        lowered(v).shape() == ffi_type_of(t),
{
}

} // verus!
