//! Message layer carried in a frame payload.
//!
//! Layout: `KIND(u8) OP(u16 LE) BODY`. This module handles the message header
//! plus the shared [`Kind`], [`ErrorCode`] and [`ValueType`] enumerations and
//! the opcode catalog.
use vstd::prelude::*;

pub mod op;

verus! {

/// Size of the message header: KIND + OP(2).
pub const MESSAGE_HEADER_LEN: usize = 3;

/// Message direction/class. Wire values are the declaration order, from 0.
#[derive(Debug, Clone, Copy, PartialEq, Eq, Structural)]
pub enum Kind {
    /// Host → device request (0).
    Request,
    /// Device → host response, correlated by frame `seq` (1).
    Response,
    /// Device → host asynchronous notification (2).
    Event,
    /// Device → host streamed telemetry frame (3).
    Telemetry,
}

impl Kind {
    /// The wire byte of this kind.
    pub open spec fn code(self) -> u8 {
        match self {
            Kind::Request => 0,
            Kind::Response => 1,
            Kind::Event => 2,
            Kind::Telemetry => 3,
        }
    }

    /// The wire byte of this kind.
    pub fn to_u8(self) -> (r: u8)
        ensures
            r == self.code(),
    {
        match self {
            Kind::Request => 0,
            Kind::Response => 1,
            Kind::Event => 2,
            Kind::Telemetry => 3,
        }
    }

    /// Parse from the wire byte.
    pub fn from_u8(v: u8) -> (r: Option<Self>)
        ensures
            r is None <==> v > 3,
            r matches Some(k) ==> k.code() == v,
    {
        match v {
            0 => Some(Kind::Request),
            1 => Some(Kind::Response),
            2 => Some(Kind::Event),
            3 => Some(Kind::Telemetry),
            _ => None,
        }
    }
}

/// The category byte (high byte) of an opcode.
pub open spec fn spec_op_category(op: u16) -> u8 {
    (op >> 8u16) as u8
}

/// Extract the category byte (high byte) of an opcode.
pub fn op_category(op: u16) -> (r: u8)
    ensures
        r == spec_op_category(op),
        r as int == op as int / 256,
{
    assert((op >> 8u16) as int == op as int / 256) by (bit_vector);
    (op >> 8u16) as u8
}

/// Standard error codes returned in a failed [`Kind::Response`] body. Wire
/// values are the declaration order, from 0.
#[derive(Debug, Clone, Copy, PartialEq, Eq, Structural)]
pub enum ErrorCode {
    /// Success.
    Success,
    /// Unknown opcode.
    UnknownOp,
    /// Malformed request body.
    BadRequest,
    /// Referenced id/channel does not exist.
    NotFound,
    /// Value outside the allowed min/max.
    OutOfRange,
    /// Parameter is read-only.
    ReadOnly,
    /// Rejected because the engine is running.
    Busy,
    /// Feature not supported on this board/build.
    NotSupported,
    /// Fragment reassembly failed.
    Fragmentation,
    /// Protocol/schema version mismatch.
    VersionMismatch,
    /// Authentication required (reserved for future use).
    Unauthorized,
}

impl ErrorCode {
    /// The wire value of this code.
    pub open spec fn code(self) -> u16 {
        match self {
            ErrorCode::Success => 0,
            ErrorCode::UnknownOp => 1,
            ErrorCode::BadRequest => 2,
            ErrorCode::NotFound => 3,
            ErrorCode::OutOfRange => 4,
            ErrorCode::ReadOnly => 5,
            ErrorCode::Busy => 6,
            ErrorCode::NotSupported => 7,
            ErrorCode::Fragmentation => 8,
            ErrorCode::VersionMismatch => 9,
            ErrorCode::Unauthorized => 10,
        }
    }

    /// The wire value of this code.
    pub fn to_u16(self) -> (r: u16)
        ensures
            r == self.code(),
    {
        match self {
            ErrorCode::Success => 0,
            ErrorCode::UnknownOp => 1,
            ErrorCode::BadRequest => 2,
            ErrorCode::NotFound => 3,
            ErrorCode::OutOfRange => 4,
            ErrorCode::ReadOnly => 5,
            ErrorCode::Busy => 6,
            ErrorCode::NotSupported => 7,
            ErrorCode::Fragmentation => 8,
            ErrorCode::VersionMismatch => 9,
            ErrorCode::Unauthorized => 10,
        }
    }

    /// Parse from the wire value.
    pub fn from_u16(v: u16) -> (r: Option<Self>)
        ensures
            r is None <==> v > 10,
            r matches Some(c) ==> c.code() == v,
    {
        match v {
            0 => Some(ErrorCode::Success),
            1 => Some(ErrorCode::UnknownOp),
            2 => Some(ErrorCode::BadRequest),
            3 => Some(ErrorCode::NotFound),
            4 => Some(ErrorCode::OutOfRange),
            5 => Some(ErrorCode::ReadOnly),
            6 => Some(ErrorCode::Busy),
            7 => Some(ErrorCode::NotSupported),
            8 => Some(ErrorCode::Fragmentation),
            9 => Some(ErrorCode::VersionMismatch),
            10 => Some(ErrorCode::Unauthorized),
            _ => None,
        }
    }
}

/// Parameter / channel value types. Wire values are the declaration order,
/// from 0.
#[derive(Debug, Clone, Copy, PartialEq, Eq, Structural)]
pub enum ValueType {
    /// Unsigned 8-bit.
    U8,
    /// Signed 8-bit.
    I8,
    /// Unsigned 16-bit.
    U16,
    /// Signed 16-bit.
    I16,
    /// Unsigned 32-bit.
    U32,
    /// Signed 32-bit.
    I32,
    /// 32-bit float (default for physical quantities).
    F32,
    /// Boolean.
    Bool,
    /// Enumeration (paired with labels in the descriptor).
    Enum,
    /// Fixed-length string.
    Str,
}

impl ValueType {
    /// The wire value of this type.
    pub open spec fn code(self) -> u8 {
        match self {
            ValueType::U8 => 0,
            ValueType::I8 => 1,
            ValueType::U16 => 2,
            ValueType::I16 => 3,
            ValueType::U32 => 4,
            ValueType::I32 => 5,
            ValueType::F32 => 6,
            ValueType::Bool => 7,
            ValueType::Enum => 8,
            ValueType::Str => 9,
        }
    }

    /// The wire value of this type.
    pub fn to_u8(self) -> (r: u8)
        ensures
            r == self.code(),
    {
        match self {
            ValueType::U8 => 0,
            ValueType::I8 => 1,
            ValueType::U16 => 2,
            ValueType::I16 => 3,
            ValueType::U32 => 4,
            ValueType::I32 => 5,
            ValueType::F32 => 6,
            ValueType::Bool => 7,
            ValueType::Enum => 8,
            ValueType::Str => 9,
        }
    }

    /// Parse from the wire value.
    pub fn from_u8(v: u8) -> (r: Option<Self>)
        ensures
            r is None <==> v > 9,
            r matches Some(t) ==> t.code() == v,
    {
        match v {
            0 => Some(ValueType::U8),
            1 => Some(ValueType::I8),
            2 => Some(ValueType::U16),
            3 => Some(ValueType::I16),
            4 => Some(ValueType::U32),
            5 => Some(ValueType::I32),
            6 => Some(ValueType::F32),
            7 => Some(ValueType::Bool),
            8 => Some(ValueType::Enum),
            9 => Some(ValueType::Str),
            _ => None,
        }
    }
}

/// Each kind, error code and value type is parsed back from its own wire
/// value, and two of them share a wire value only if they are the same.
pub proof fn lemma_codes_injective()
    ensures
        forall|a: Kind, b: Kind| a.code() == b.code() ==> a == b,
        forall|a: ErrorCode, b: ErrorCode| a.code() == b.code() ==> a == b,
        forall|a: ValueType, b: ValueType| a.code() == b.code() ==> a == b,
{
}

/// Parsed message header.
#[derive(Debug, Clone, Copy, PartialEq, Eq, Structural)]
pub struct MessageHeader {
    /// Message class.
    pub kind: Kind,
    /// Opcode.
    pub op: u16,
}

/// Errors from message header encode/decode.
#[derive(Debug, Clone, Copy, PartialEq, Eq, Structural)]
pub enum MessageError {
    /// Buffer too small to hold the header.
    BufferTooSmall,
    /// Unknown `KIND` byte.
    UnknownKind(u8),
}

/// The three header bytes `KIND OP(LE)`.
pub open spec fn spec_header_bytes(kind: Kind, op: u16) -> Seq<u8> {
    seq![kind.code(), (op & 0xFFu16) as u8, (op >> 8u16) as u8]
}

/// Write `KIND OP` into the front of `buf`. Returns header length.
pub fn write_message_header(kind: Kind, op: u16, buf: &mut [u8]) -> (r: Result<
    usize,
    MessageError,
>)
    ensures
        final(buf)@.len() == old(buf)@.len(),
        old(buf)@.len() < MESSAGE_HEADER_LEN ==> r == Err::<usize, MessageError>(
            MessageError::BufferTooSmall,
        ) && final(buf)@ == old(buf)@,
        old(buf)@.len() >= MESSAGE_HEADER_LEN ==> r == Ok::<usize, MessageError>(
            MESSAGE_HEADER_LEN,
        ) && final(buf)@ == spec_header_bytes(kind, op) + old(buf)@.skip(3),
{
    if buf.len() < MESSAGE_HEADER_LEN {
        return Err(MessageError::BufferTooSmall);
    }
    buf[0] = kind.to_u8();
    buf[1] = (op & 0xFF) as u8;
    buf[2] = (op >> 8u16) as u8;
    assert(buf@ =~= spec_header_bytes(kind, op) + old(buf)@.skip(3));
    Ok(MESSAGE_HEADER_LEN)
}

/// The little-endian `u16` in bytes `lo`, `hi`.
pub open spec fn le16(lo: u8, hi: u8) -> u16 {
    (lo as u16 | ((hi as u16) << 8u16)) as u16
}

/// Parse a message header from the front of `buf`, returning the header and the
/// remaining body slice.
pub fn read_message_header(buf: &[u8]) -> (r: Result<(MessageHeader, &[u8]), MessageError>)
    ensures
        buf@.len() < MESSAGE_HEADER_LEN ==> r == Err::<(MessageHeader, &[u8]), MessageError>(
            MessageError::BufferTooSmall,
        ),
        buf@.len() >= MESSAGE_HEADER_LEN && buf@[0] > 3 ==> r == Err::<
            (MessageHeader, &[u8]),
            MessageError,
        >(MessageError::UnknownKind(buf@[0])),
        buf@.len() >= MESSAGE_HEADER_LEN && buf@[0] <= 3 ==> (r matches Ok((h, body)) && h.kind.code()
            == buf@[0] && h.op == le16(buf@[1], buf@[2]) && body@ == buf@.skip(3)),
{
    if buf.len() < MESSAGE_HEADER_LEN {
        return Err(MessageError::BufferTooSmall);
    }
    let kind = match Kind::from_u8(buf[0]) {
        Some(k) => k,
        None => {
            return Err(MessageError::UnknownKind(buf[0]));
        },
    };
    let op = (buf[1] as u16) | ((buf[2] as u16) << 8u16);
    let body = vstd::slice::slice_subrange(buf, MESSAGE_HEADER_LEN, buf.len());
    assert(body@ =~= buf@.skip(3));
    Ok((MessageHeader { kind, op }, body))
}

/// Reading back a header written into a buffer gives the same kind and opcode,
/// and leaves the bytes after it as the body.
pub proof fn lemma_header_round_trip(kind: Kind, op: u16, rest: Seq<u8>)
    ensures
        ({
            let bytes = spec_header_bytes(kind, op) + rest;
            &&& bytes[0] == kind.code()
            &&& le16(bytes[1], bytes[2]) == op
            &&& bytes.skip(3) == rest
        }),
{
    let bytes = spec_header_bytes(kind, op) + rest;
    assert(bytes.skip(3) =~= rest);
    assert(((op & 0xFFu16) as u8 as u16 | (((op >> 8u16) as u8 as u16) << 8u16)) as u16 == op)
        by (bit_vector);
}

} // verus!
