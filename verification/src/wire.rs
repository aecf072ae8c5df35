//! The wire codec.
//!
//! A frame is `[object id: u32][opcode: u16][size: u16][payload]`, all
//! little-endian. `size` counts the whole frame, header included, and is a
//! multiple of four. The payload is the arguments one after another: a `u32`
//! takes four bytes; a string or an array takes a `u32` length, the bytes, and
//! zero bytes up to the next multiple of four.

use vstd::prelude::*;
use vstd::bytes::*;
use vstd::slice::slice_subrange;
use crate::error::Error;

verus! {

/// Length of the frame header in bytes.
pub const HEADER_LEN: usize = 8;

/// Largest payload that a frame can carry: the size field is a `u16`.
pub const MAX_PAYLOAD: usize = 65527;

/// The shape of one argument.
#[derive(Clone, Copy, Debug, PartialEq, Eq, Structural)]
pub enum ArgKind {
    Uint,
    Str,
    Array,
}

/// One argument of a message.
#[derive(Clone, Debug, PartialEq, Eq)]
pub enum Arg {
    Uint(u32),
    Str(Vec<u8>),
    Array(Vec<u8>),
}

/// What an argument is, mathematically.
pub enum ArgValue {
    Uint(u32),
    Str(Seq<u8>),
    Array(Seq<u8>),
}

impl View for Arg {
    type V = ArgValue;

    open spec fn view(&self) -> ArgValue {
        match *self {
            Arg::Uint(x) => ArgValue::Uint(x),
            Arg::Str(s) => ArgValue::Str(s@),
            Arg::Array(s) => ArgValue::Array(s@),
        }
    }
}

impl Arg {
    /// The shape of this argument.
    pub fn kind(&self) -> (k: ArgKind)
        ensures
            k == kind_of(self@),
    {
        match self {
            Arg::Uint(_) => ArgKind::Uint,
            Arg::Str(_) => ArgKind::Str,
            Arg::Array(_) => ArgKind::Array,
        }
    }
}

/// The front of a frame.
#[derive(Clone, Copy, Debug, PartialEq, Eq, Structural)]
pub struct Header {
    pub object_id: u32,
    pub opcode: u16,
    /// Length of the whole frame in bytes, header included.
    pub size: u16,
}

/// A decoded message.
#[derive(Clone, Debug, PartialEq, Eq)]
pub struct Message {
    pub object_id: u32,
    pub opcode: u16,
    pub args: Vec<Arg>,
}

/// The arguments of a list, each by its view.
pub open spec fn view_args(args: Seq<Arg>) -> Seq<ArgValue> {
    args.map_values(|a: Arg| a@)
}

pub open spec fn kind_of(a: ArgValue) -> ArgKind {
    match a {
        ArgValue::Uint(_) => ArgKind::Uint,
        ArgValue::Str(_) => ArgKind::Str,
        ArgValue::Array(_) => ArgKind::Array,
    }
}

/// The shapes of a list of arguments.
pub open spec fn kinds_of(args: Seq<ArgValue>) -> Seq<ArgKind> {
    args.map_values(|a: ArgValue| kind_of(a))
}

/// Number of zero bytes that follow `n` bytes to reach a multiple of four.
pub open spec fn padding(n: nat) -> nat {
    ((4 - n % 4) % 4) as nat
}

pub open spec fn zeros(n: nat) -> Seq<u8> {
    Seq::new(n, |i: int| 0u8)
}

/// A length-prefixed, padded run of bytes.
pub open spec fn spec_encode_blob(s: Seq<u8>) -> Seq<u8> {
    spec_u32_to_le_bytes(s.len() as u32) + s + zeros(padding(s.len()))
}

pub open spec fn spec_encode_arg(a: ArgValue) -> Seq<u8> {
    match a {
        ArgValue::Uint(x) => spec_u32_to_le_bytes(x),
        ArgValue::Str(s) => spec_encode_blob(s),
        ArgValue::Array(s) => spec_encode_blob(s),
    }
}

/// The payload: the arguments' encodings, one after another.
pub open spec fn spec_encode_args(args: Seq<ArgValue>) -> Seq<u8>
    decreases args.len(),
{
    if args.len() == 0 {
        Seq::empty()
    } else {
        spec_encode_arg(args[0]) + spec_encode_args(args.skip(1))
    }
}

pub open spec fn spec_encode_header(h: Header) -> Seq<u8> {
    spec_u32_to_le_bytes(h.object_id) + spec_u16_to_le_bytes(h.opcode) + spec_u16_to_le_bytes(
        h.size,
    )
}

/// The frame for a message, or `None` where the payload is too long for the
/// size field.
pub open spec fn spec_encode(object_id: u32, opcode: u16, args: Seq<ArgValue>) -> Option<Seq<u8>> {
    let payload = spec_encode_args(args);
    if payload.len() <= MAX_PAYLOAD {
        Some(
            spec_encode_header(
                Header { object_id, opcode, size: (HEADER_LEN + payload.len()) as u16 },
            ) + payload,
        )
    } else {
        None
    }
}

/// The header that the first eight bytes spell.
pub open spec fn spec_header(bytes: Seq<u8>) -> Header
    recommends
        bytes.len() >= HEADER_LEN,
{
    Header {
        object_id: spec_u32_from_le_bytes(bytes.subrange(0, 4)),
        opcode: spec_u16_from_le_bytes(bytes.subrange(4, 6)),
        size: spec_u16_from_le_bytes(bytes.subrange(6, 8)),
    }
}

/// What the front of a byte stream says about its first frame: `Ok(None)`
/// while the frame is not complete, the header once it is, and an error
/// where the size field cannot be that of a frame.
pub open spec fn spec_peek(bytes: Seq<u8>) -> Result<Option<Header>, Error> {
    if bytes.len() < HEADER_LEN {
        Ok(None)
    } else {
        let h = spec_header(bytes);
        if h.size < HEADER_LEN || h.size % 4 != 0 {
            Err(Error::ProtocolViolation)
        } else if bytes.len() < h.size {
            Ok(None)
        } else {
            Ok(Some(h))
        }
    }
}

/// A length-prefixed run at the front of `bytes`: its contents and the number
/// of bytes it takes with its padding.
pub open spec fn spec_decode_blob(bytes: Seq<u8>) -> Option<(Seq<u8>, nat)> {
    if bytes.len() < 4 {
        None
    } else {
        let n = spec_u32_from_le_bytes(bytes.subrange(0, 4)) as nat;
        let total = 4 + n + padding(n);
        if bytes.len() < total {
            None
        } else {
            Some((bytes.subrange(4, (4 + n) as int), total))
        }
    }
}

/// One argument of the given shape at the front of `bytes`, and the number of
/// bytes it takes.
pub open spec fn spec_decode_arg(bytes: Seq<u8>, kind: ArgKind) -> Option<(ArgValue, nat)> {
    match kind {
        ArgKind::Uint => if bytes.len() < 4 {
            None
        } else {
            Some((ArgValue::Uint(spec_u32_from_le_bytes(bytes.subrange(0, 4))), 4nat))
        },
        ArgKind::Str => match spec_decode_blob(bytes) {
            Some((s, used)) => Some((ArgValue::Str(s), used)),
            None => None,
        },
        ArgKind::Array => match spec_decode_blob(bytes) {
            Some((s, used)) => Some((ArgValue::Array(s), used)),
            None => None,
        },
    }
}

/// The arguments of the given shapes that `bytes` holds, where it holds
/// exactly those and nothing after them.
pub open spec fn spec_decode_args(bytes: Seq<u8>, kinds: Seq<ArgKind>) -> Option<Seq<ArgValue>>
    decreases kinds.len(),
{
    if kinds.len() == 0 {
        if bytes.len() == 0 {
            Some(Seq::empty())
        } else {
            None
        }
    } else {
        match spec_decode_arg(bytes, kinds[0]) {
            None => None,
            Some((value, used)) => match spec_decode_args(bytes.skip(used as int), kinds.skip(1)) {
                None => None,
                Some(rest) => Some(seq![value] + rest),
            },
        }
    }
}

/// The first frame of a byte stream, read with the given argument shapes:
/// `Ok(None)` while it is incomplete, else its header and arguments, or
/// `ProtocolViolation` where the bytes are no such frame.
pub open spec fn spec_decode(bytes: Seq<u8>, kinds: Seq<ArgKind>) -> Result<
    Option<(Header, Seq<ArgValue>)>,
    Error,
> {
    match spec_peek(bytes) {
        Err(e) => Err(e),
        Ok(None) => Ok(None),
        Ok(Some(h)) => match spec_decode_args(bytes.subrange(HEADER_LEN as int, h.size as int), kinds) {
            None => Err(Error::ProtocolViolation),
            Some(args) => Ok(Some((h, args))),
        },
    }
}

} // verus!
