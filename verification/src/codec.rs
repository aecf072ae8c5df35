//! Encoding and decoding of frames, and the laws that tie the two together.

use vstd::prelude::*;
use vstd::bytes::*;
use vstd::slice::slice_subrange;
use crate::error::Error;
use crate::wire::{
    kind_of, kinds_of, padding, spec_decode, spec_decode_arg, spec_decode_args, spec_decode_blob,
    spec_encode, spec_encode_arg, spec_encode_args, spec_encode_blob, spec_encode_header,
    spec_header, spec_peek, view_args, zeros, Arg, ArgKind, ArgValue, Header, Message, HEADER_LEN,
    MAX_PAYLOAD,
};

verus! {

pub(crate) fn append_bytes(out: &mut Vec<u8>, src: &[u8])
    ensures
        final(out)@ == old(out)@ + src@,
{
    let mut i: usize = 0;
    while i < src.len()
        invariant
            i <= src.len(),
            out@ == old(out)@ + src@.take(i as int),
        decreases src.len() - i,
    {
        out.push(src[i]);
        i += 1;
        assert(out@ =~= old(out)@ + src@.take(i as int));
    }
    assert(src@.take(i as int) =~= src@);
}

fn append_zeros(out: &mut Vec<u8>, n: usize)
    ensures
        final(out)@ == old(out)@ + zeros(n as nat),
{
    let mut i: usize = 0;
    while i < n
        invariant
            i <= n,
            out@ == old(out)@ + zeros(i as nat),
        decreases n - i,
    {
        out.push(0u8);
        i += 1;
        assert(out@ =~= old(out)@ + zeros(i as nat));
    }
}

pub(crate) fn copy_range(bytes: &[u8], start: usize, end: usize) -> (v: Vec<u8>)
    requires
        start <= end <= bytes@.len(),
    ensures
        v@ == bytes@.subrange(start as int, end as int),
{
    let mut v: Vec<u8> = Vec::new();
    let mut i: usize = start;
    while i < end
        invariant
            start <= i <= end <= bytes@.len(),
            v@ == bytes@.subrange(start as int, i as int),
        decreases end - i,
    {
        v.push(bytes[i]);
        i += 1;
        assert(v@ =~= bytes@.subrange(start as int, i as int));
    }
    v
}

/// Number of zero bytes that follow `n` bytes to reach a multiple of four.
pub fn pad_len(n: usize) -> (p: usize)
    ensures
        p == padding(n as nat),
        p < 4,
{
    (4 - n % 4) % 4
}

/// Length of an argument's encoding, or `None` where it alone is more than a
/// frame can carry.
fn arg_size(a: &Arg) -> (r: Option<usize>)
    ensures
        match r {
            Some(n) => n == spec_encode_arg(a@).len() && n <= MAX_PAYLOAD,
            None => spec_encode_arg(a@).len() > MAX_PAYLOAD,
        },
{
    proof {
        lemma_auto_spec_u32_to_from_le_bytes();
    }
    match a {
        Arg::Uint(_) => Some(4),
        Arg::Str(s) => if s.len() > MAX_PAYLOAD - 4 {
            None
        } else {
            let n: usize = 4 + s.len() + pad_len(s.len());
            if n > MAX_PAYLOAD {
                None
            } else {
                Some(n)
            }
        },
        Arg::Array(s) => if s.len() > MAX_PAYLOAD - 4 {
            None
        } else {
            let n: usize = 4 + s.len() + pad_len(s.len());
            if n > MAX_PAYLOAD {
                None
            } else {
                Some(n)
            }
        },
    }
}

fn put_blob(out: &mut Vec<u8>, s: &Vec<u8>)
    requires
        s@.len() <= MAX_PAYLOAD,
    ensures
        final(out)@ == old(out)@ + spec_encode_blob(s@),
{
    let len_bytes = u32_to_le_bytes(s.len() as u32);
    append_bytes(out, len_bytes.as_slice());
    append_bytes(out, s.as_slice());
    append_zeros(out, pad_len(s.len()));
    assert(out@ =~= old(out)@ + spec_encode_blob(s@));
}

fn put_arg(out: &mut Vec<u8>, a: &Arg)
    requires
        spec_encode_arg(a@).len() <= MAX_PAYLOAD,
    ensures
        final(out)@ == old(out)@ + spec_encode_arg(a@),
{
    match a {
        Arg::Uint(x) => {
            let word = u32_to_le_bytes(*x);
            append_bytes(out, word.as_slice());
        },
        Arg::Str(s) => {
            put_blob(out, s);
        },
        Arg::Array(s) => {
            put_blob(out, s);
        },
    }
}

/// Encodes a message as one frame. Fails with `ProtocolViolation` exactly
/// where the payload is longer than the size field can say.
pub fn encode(object_id: u32, opcode: u16, args: &Vec<Arg>) -> (r: Result<Vec<u8>, Error>)
    ensures
        match r {
            Ok(bytes) => spec_encode(object_id, opcode, view_args(args@)) == Some(bytes@),
            Err(e) => e == Error::ProtocolViolation && spec_encode(
                object_id,
                opcode,
                view_args(args@),
            ) is None,
        },
{
    let ghost all = view_args(args@);
    let mut payload: Vec<u8> = Vec::new();
    let mut i: usize = 0;
    assert(all.skip(0) =~= all);
    assert(payload@ + spec_encode_args(all) =~= spec_encode_args(all));
    while i < args.len()
        invariant
            i <= args.len(),
            all == view_args(args@),
            payload@.len() <= MAX_PAYLOAD,
            payload@ + spec_encode_args(all.skip(i as int)) == spec_encode_args(all),
        decreases args.len() - i,
    {
        proof {
            assert(all.skip(i as int)[0] == args@[i as int]@);
            assert(all.skip(i as int).skip(1) =~= all.skip(i + 1));
        }
        let ghost before = payload@;
        match arg_size(&args[i]) {
            None => {
                return Err(Error::ProtocolViolation);
            },
            Some(n) => {
                if n > MAX_PAYLOAD - payload.len() {
                    return Err(Error::ProtocolViolation);
                }
                put_arg(&mut payload, &args[i]);
            },
        }
        i += 1;
        assert(payload@ + spec_encode_args(all.skip(i as int)) =~= before + spec_encode_args(
            all.skip(i - 1),
        ));
    }
    assert(payload@ =~= spec_encode_args(all));
    let mut out = u32_to_le_bytes(object_id);
    let op = u16_to_le_bytes(opcode);
    append_bytes(&mut out, op.as_slice());
    let total: usize = HEADER_LEN + payload.len();
    let size = u16_to_le_bytes(total as u16);
    append_bytes(&mut out, size.as_slice());
    append_bytes(&mut out, payload.as_slice());
    Ok(out)
}

/// Whether the arguments have exactly the given shapes, in order.
pub fn kinds_match(args: &Vec<Arg>, kinds: &Vec<ArgKind>) -> (r: bool)
    ensures
        r == (kinds_of(view_args(args@)) == kinds@),
{
    if args.len() != kinds.len() {
        return false;
    }
    let mut i: usize = 0;
    while i < args.len()
        invariant
            i <= args.len(),
            args@.len() == kinds@.len(),
            forall|j: int| 0 <= j < i ==> kinds_of(view_args(args@))[j] == kinds@[j],
        decreases args.len() - i,
    {
        if args[i].kind() != kinds[i] {
            assert(kinds_of(view_args(args@))[i as int] != kinds@[i as int]);
            return false;
        }
        i += 1;
    }
    assert(kinds_of(view_args(args@)) =~= kinds@);
    true
}

/// Reads the header of the first frame: `Ok(None)` while the frame is not
/// complete, `ProtocolViolation` where its size is under eight or no multiple
/// of four.
pub fn peek_header(bytes: &[u8]) -> (r: Result<Option<Header>, Error>)
    ensures
        r == spec_peek(bytes@),
{
    if bytes.len() < HEADER_LEN {
        return Ok(None);
    }
    let s = bytes;
    let h = Header {
        object_id: u32_from_le_bytes(slice_subrange(s, 0, 4)),
        opcode: u16_from_le_bytes(slice_subrange(s, 4, 6)),
        size: u16_from_le_bytes(slice_subrange(s, 6, 8)),
    };
    if h.size < 8 || h.size % 4 != 0 {
        Err(Error::ProtocolViolation)
    } else if bytes.len() < h.size as usize {
        Ok(None)
    } else {
        Ok(Some(h))
    }
}

fn take_blob(bytes: &[u8]) -> (r: Option<(Vec<u8>, usize)>)
    ensures
        match r {
            Some((s, used)) => spec_decode_blob(bytes@) == Some((s@, used as nat)) && used
                <= bytes@.len(),
            None => spec_decode_blob(bytes@) is None,
        },
{
    if bytes.len() < 4 {
        return None;
    }
    let n = u32_from_le_bytes(slice_subrange(bytes, 0, 4)) as usize;
    let avail: usize = bytes.len() - 4;
    if n > avail {
        return None;
    }
    let pad = pad_len(n);
    if pad > avail - n {
        return None;
    }
    let s = copy_range(bytes, 4, 4 + n);
    Some((s, 4 + n + pad))
}

fn take_arg(bytes: &[u8], kind: ArgKind) -> (r: Option<(Arg, usize)>)
    ensures
        match r {
            Some((a, used)) => spec_decode_arg(bytes@, kind) == Some((a@, used as nat)) && used
                <= bytes@.len(),
            None => spec_decode_arg(bytes@, kind) is None,
        },
{
    match kind {
        ArgKind::Uint => {
            if bytes.len() < 4 {
                None
            } else {
                Some((Arg::Uint(u32_from_le_bytes(slice_subrange(bytes, 0, 4))), 4))
            }
        },
        ArgKind::Str => match take_blob(bytes) {
            Some((s, used)) => Some((Arg::Str(s), used)),
            None => None,
        },
        ArgKind::Array => match take_blob(bytes) {
            Some((s, used)) => Some((Arg::Array(s), used)),
            None => None,
        },
    }
}

/// Reads arguments of the given shapes from a payload. Returns them exactly
/// where the payload holds those arguments and nothing after them.
pub fn decode_args(payload: &[u8], kinds: &Vec<ArgKind>) -> (r: Option<Vec<Arg>>)
    ensures
        match r {
            Some(args) => spec_decode_args(payload@, kinds@) == Some(view_args(args@)),
            None => spec_decode_args(payload@, kinds@) is None,
        },
{
    let mut out: Vec<Arg> = Vec::new();
    let mut pos: usize = 0;
    let mut i: usize = 0;
    assert(payload@.skip(0) =~= payload@);
    assert(kinds@.skip(0) =~= kinds@);
    assert(view_args(out@) =~= Seq::empty());
    assert(forall|rest: Seq<ArgValue>| #[trigger] (Seq::<ArgValue>::empty() + rest) =~= rest);
    while i < kinds.len()
        invariant
            i <= kinds.len(),
            pos <= payload@.len(),
            spec_decode_args(payload@, kinds@) == match spec_decode_args(
                payload@.skip(pos as int),
                kinds@.skip(i as int),
            ) {
                None => None,
                Some(rest) => Some(view_args(out@) + rest),
            },
        decreases kinds.len() - i,
    {
        let rest = slice_subrange(payload, pos, payload.len());
        let ghost before = view_args(out@);
        proof {
            assert(rest@ =~= payload@.skip(pos as int));
            assert(kinds@.skip(i as int)[0] == kinds@[i as int]);
            assert(kinds@.skip(i as int).skip(1) =~= kinds@.skip(i + 1));
        }
        match take_arg(rest, kinds[i]) {
            None => {
                return None;
            },
            Some((arg, used)) => {
                proof {
                    assert(payload@.skip(pos as int).skip(used as int) =~= payload@.skip(
                        pos + used,
                    ));
                    assert(view_args(out@.push(arg)) =~= before + seq![arg@]);
                    assert(forall|tail: Seq<ArgValue>| #[trigger]
                        (before + seq![arg@] + tail) =~= before + (seq![arg@] + tail));
                }
                out.push(arg);
                pos += used;
            },
        }
        i += 1;
    }
    assert(kinds@.skip(i as int).len() == 0);
    if pos != payload.len() {
        return None;
    }
    assert(view_args(out@) + Seq::<ArgValue>::empty() =~= view_args(out@));
    Some(out)
}

/// Decodes the first frame of a byte stream, reading its payload with the
/// given argument shapes. `Ok(None)` means that more bytes are needed; a
/// message comes with the number of bytes it took.
pub fn decode(bytes: &[u8], kinds: &Vec<ArgKind>) -> (r: Result<Option<(Message, usize)>, Error>)
    ensures
        match r {
            Ok(Some((m, consumed))) => {
                &&& spec_decode(bytes@, kinds@) == Ok::<Option<(Header, Seq<ArgValue>)>, Error>(
                    Some((spec_header(bytes@), view_args(m.args@))),
                )
                &&& m.object_id == spec_header(bytes@).object_id
                &&& m.opcode == spec_header(bytes@).opcode
                &&& consumed == spec_header(bytes@).size
                &&& consumed <= bytes@.len()
            },
            Ok(None) => spec_decode(bytes@, kinds@) == Ok::<Option<(Header, Seq<ArgValue>)>, Error>(
                None,
            ),
            Err(e) => spec_decode(bytes@, kinds@) == Err::<Option<(Header, Seq<ArgValue>)>, Error>(
                e,
            ),
        },
{
    match peek_header(bytes) {
        Err(e) => Err(e),
        Ok(None) => Ok(None),
        Ok(Some(h)) => {
            let payload = slice_subrange(bytes, HEADER_LEN, h.size as usize);
            match decode_args(payload, kinds) {
                None => Err(Error::ProtocolViolation),
                Some(args) => Ok(
                    Some(
                        (
                            Message { object_id: h.object_id, opcode: h.opcode, args },
                            h.size as usize,
                        ),
                    ),
                ),
            }
        },
    }
}

/// An encoded argument is at least four bytes, a multiple of four, and as
/// long as what it carries.
pub proof fn lemma_arg_len(a: ArgValue)
    ensures
        spec_encode_arg(a).len() % 4 == 0,
        spec_encode_arg(a).len() >= 4,
        match a {
            ArgValue::Uint(_) => spec_encode_arg(a).len() == 4,
            ArgValue::Str(s) => spec_encode_arg(a).len() == 4 + s.len() + padding(s.len()),
            ArgValue::Array(s) => spec_encode_arg(a).len() == 4 + s.len() + padding(s.len()),
        },
{
    lemma_auto_spec_u32_to_from_le_bytes();
}

/// A payload is a multiple of four bytes long.
pub proof fn lemma_payload_aligned(args: Seq<ArgValue>)
    ensures
        spec_encode_args(args).len() % 4 == 0,
    decreases args.len(),
{
    if args.len() > 0 {
        lemma_arg_len(args[0]);
        lemma_payload_aligned(args.skip(1));
    }
}

proof fn lemma_blob_roundtrip(s: Seq<u8>, rest: Seq<u8>)
    requires
        s.len() <= u32::MAX,
    ensures
        spec_decode_blob(spec_encode_blob(s) + rest) == Some((s, spec_encode_blob(s).len())),
{
    lemma_auto_spec_u32_to_from_le_bytes();
    let b = spec_encode_blob(s) + rest;
    assert(b.subrange(0, 4) =~= spec_u32_to_le_bytes(s.len() as u32));
    assert(b.subrange(4, (4 + s.len()) as int) =~= s);
}

/// Decoding an encoded argument, whatever follows it, gives the argument back
/// and takes exactly its encoding.
pub proof fn lemma_arg_roundtrip(a: ArgValue, rest: Seq<u8>)
    requires
        spec_encode_arg(a).len() <= u32::MAX,
    ensures
        spec_decode_arg(spec_encode_arg(a) + rest, kind_of(a)) == Some(
            (a, spec_encode_arg(a).len()),
        ),
{
    lemma_auto_spec_u32_to_from_le_bytes();
    lemma_arg_len(a);
    match a {
        ArgValue::Uint(x) => {
            assert((spec_encode_arg(a) + rest).subrange(0, 4) =~= spec_u32_to_le_bytes(x));
        },
        ArgValue::Str(s) => {
            lemma_blob_roundtrip(s, rest);
        },
        ArgValue::Array(s) => {
            lemma_blob_roundtrip(s, rest);
        },
    }
}

/// Decoding an encoded payload with the shapes of its arguments gives the
/// arguments back.
pub proof fn lemma_args_roundtrip(args: Seq<ArgValue>)
    requires
        spec_encode_args(args).len() <= u32::MAX,
    ensures
        spec_decode_args(spec_encode_args(args), kinds_of(args)) == Some(args),
    decreases args.len(),
{
    if args.len() == 0 {
        assert(args =~= Seq::empty());
    } else {
        let head = spec_encode_arg(args[0]);
        let tail = spec_encode_args(args.skip(1));
        lemma_arg_roundtrip(args[0], tail);
        assert((head + tail).skip(head.len() as int) =~= tail);
        assert(kinds_of(args).skip(1) =~= kinds_of(args.skip(1)));
        assert(kinds_of(args)[0] == kind_of(args[0]));
        lemma_args_roundtrip(args.skip(1));
        assert(seq![args[0]] + args.skip(1) =~= args);
    }
}

/// Arguments read from a payload have the shapes they were read with.
pub proof fn lemma_decoded_kinds(bytes: Seq<u8>, kinds: Seq<ArgKind>)
    requires
        spec_decode_args(bytes, kinds) is Some,
    ensures
        kinds_of(spec_decode_args(bytes, kinds).unwrap()) == kinds,
    decreases kinds.len(),
{
    let args = spec_decode_args(bytes, kinds).unwrap();
    if kinds.len() == 0 {
        assert(kinds_of(args) =~= kinds);
    } else {
        let (value, used) = spec_decode_arg(bytes, kinds[0]).unwrap();
        lemma_decoded_kinds(bytes.skip(used as int), kinds.skip(1));
        let rest = spec_decode_args(bytes.skip(used as int), kinds.skip(1)).unwrap();
        assert(kind_of(value) == kinds[0]);
        assert(args == seq![value] + rest);
        assert forall|i: int| 0 <= i < kinds.len() implies kinds_of(args)[i] == kinds[i] by {
            if i > 0 {
                assert(args[i] == rest[i - 1]);
                assert(kinds_of(rest)[i - 1] == kinds.skip(1)[i - 1]);
            }
        }
        assert(kinds_of(args) =~= kinds);
    }
}

/// The header of an encoded frame reads back as it was written.
pub proof fn lemma_header_roundtrip(h: Header, rest: Seq<u8>)
    ensures
        spec_encode_header(h).len() == HEADER_LEN,
        spec_header(spec_encode_header(h) + rest) == h,
{
    lemma_auto_spec_u32_to_from_le_bytes();
    lemma_auto_spec_u16_to_from_le_bytes();
    let b = spec_encode_header(h) + rest;
    assert(b.subrange(0, 4) =~= spec_u32_to_le_bytes(h.object_id));
    assert(b.subrange(4, 6) =~= spec_u16_to_le_bytes(h.opcode));
    assert(b.subrange(6, 8) =~= spec_u16_to_le_bytes(h.size));
}

/// Round trip: a message that fits a frame decodes, from its encoding and
/// with the shapes of its arguments, to the same object id, opcode and
/// arguments, and the decoder takes the whole frame.
pub proof fn lemma_decode_encode(object_id: u32, opcode: u16, args: Seq<ArgValue>)
    requires
        spec_encode(object_id, opcode, args) is Some,
    ensures
        spec_decode(spec_encode(object_id, opcode, args).unwrap(), kinds_of(args)) == Ok::<
            Option<(Header, Seq<ArgValue>)>,
            Error,
        >(
            Some(
                (
                    Header {
                        object_id,
                        opcode,
                        size: spec_encode(object_id, opcode, args).unwrap().len() as u16,
                    },
                    args,
                ),
            ),
        ),
        spec_encode(object_id, opcode, args).unwrap().len() == HEADER_LEN + spec_encode_args(
            args,
        ).len(),
{
    let payload = spec_encode_args(args);
    let h = Header { object_id, opcode, size: (HEADER_LEN + payload.len()) as u16 };
    let frame = spec_encode(object_id, opcode, args).unwrap();
    lemma_header_roundtrip(h, payload);
    lemma_payload_aligned(args);
    lemma_args_roundtrip(args);
    assert(frame.subrange(HEADER_LEN as int, h.size as int) =~= payload);
}

/// Frames keep their boundaries in a stream: an encoded frame decodes to its
/// message whatever bytes follow it, and the decoder takes the frame alone,
/// so that what follows is read next, from its own first byte.
pub proof fn lemma_decode_stream(object_id: u32, opcode: u16, args: Seq<ArgValue>, rest: Seq<u8>)
    requires
        spec_encode(object_id, opcode, args) is Some,
    ensures
        spec_decode(spec_encode(object_id, opcode, args).unwrap() + rest, kinds_of(args)) == Ok::<
            Option<(Header, Seq<ArgValue>)>,
            Error,
        >(
            Some(
                (
                    Header {
                        object_id,
                        opcode,
                        size: spec_encode(object_id, opcode, args).unwrap().len() as u16,
                    },
                    args,
                ),
            ),
        ),
        spec_encode(object_id, opcode, args).unwrap().len() <= u16::MAX,
        (spec_encode(object_id, opcode, args).unwrap() + rest).skip(
            spec_encode(object_id, opcode, args).unwrap().len() as int,
        ) == rest,
{
    let payload = spec_encode_args(args);
    let h = Header { object_id, opcode, size: (HEADER_LEN + payload.len()) as u16 };
    let frame = spec_encode(object_id, opcode, args).unwrap();
    let stream = frame + rest;
    lemma_header_roundtrip(h, payload + rest);
    assert(stream =~= spec_encode_header(h) + (payload + rest));
    lemma_payload_aligned(args);
    lemma_args_roundtrip(args);
    assert(stream.subrange(HEADER_LEN as int, h.size as int) =~= payload);
    assert(stream.skip(frame.len() as int) =~= rest);
}

/// Resumable decoding: every proper prefix of an encoded frame is answered
/// with "more bytes are needed", never with an error, whatever shapes the
/// reader expects.
pub proof fn lemma_prefix_needs_more(
    object_id: u32,
    opcode: u16,
    args: Seq<ArgValue>,
    n: int,
    kinds: Seq<ArgKind>,
)
    requires
        spec_encode(object_id, opcode, args) is Some,
        0 <= n < spec_encode(object_id, opcode, args).unwrap().len(),
    ensures
        spec_decode(spec_encode(object_id, opcode, args).unwrap().take(n), kinds) == Ok::<
            Option<(Header, Seq<ArgValue>)>,
            Error,
        >(None),
{
    let payload = spec_encode_args(args);
    let h = Header { object_id, opcode, size: (HEADER_LEN + payload.len()) as u16 };
    let frame = spec_encode(object_id, opcode, args).unwrap();
    lemma_header_roundtrip(h, payload);
    lemma_payload_aligned(args);
    let part = frame.take(n);
    if n >= HEADER_LEN {
        assert(part.subrange(0, 4) =~= frame.subrange(0, 4));
        assert(part.subrange(4, 6) =~= frame.subrange(4, 6));
        assert(part.subrange(6, 8) =~= frame.subrange(6, 8));
    }
}

} // verus!
