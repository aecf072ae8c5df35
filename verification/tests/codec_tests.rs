use wlcore::codec::{decode, decode_args, encode, kinds_match, pad_len, peek_header};
use wlcore::error::Error;
use wlcore::wire::{Arg, ArgKind, Header, Message};

fn frame_header(object_id: u32, opcode: u16, size: u16) -> Vec<u8> {
    let mut v = Vec::new();
    v.extend_from_slice(&object_id.to_le_bytes());
    v.extend_from_slice(&opcode.to_le_bytes());
    v.extend_from_slice(&size.to_le_bytes());
    v
}

#[test]
fn padding_reaches_the_next_multiple_of_four() {
    assert_eq!(pad_len(0), 0);
    assert_eq!(pad_len(1), 3);
    assert_eq!(pad_len(2), 2);
    assert_eq!(pad_len(3), 1);
    assert_eq!(pad_len(4), 0);
    assert_eq!(pad_len(13), 3);
}

#[test]
fn encode_gives_the_exact_bytes() {
    let args = vec![Arg::Uint(1), Arg::Str(b"wl_shm".to_vec()), Arg::Uint(0x0102_0304)];
    let bytes = encode(3, 7, &args).unwrap();
    let expected: Vec<u8> = vec![
        3, 0, 0, 0, // object id
        7, 0, // opcode
        28, 0, // size
        1, 0, 0, 0, // first argument
        6, 0, 0, 0, // length of the string
        b'w', b'l', b'_', b's', b'h', b'm', 0, 0, // the string and its padding
        4, 3, 2, 1, // last argument
    ];
    assert_eq!(bytes, expected);
}

#[test]
fn encode_of_no_arguments_is_the_header_alone() {
    let bytes = encode(9, 0, &Vec::new()).unwrap();
    assert_eq!(bytes, vec![9, 0, 0, 0, 0, 0, 8, 0]);
}

#[test]
fn encode_pads_an_array_of_aligned_length_with_nothing() {
    let bytes = encode(1, 2, &vec![Arg::Array(vec![9, 8, 7, 6])]).unwrap();
    assert_eq!(bytes, vec![1, 0, 0, 0, 2, 0, 16, 0, 4, 0, 0, 0, 9, 8, 7, 6]);
}

#[test]
fn encode_refuses_a_payload_too_long_for_the_size_field() {
    let args = vec![Arg::Array(vec![0u8; 70000])];
    assert_eq!(encode(1, 0, &args), Err(Error::ProtocolViolation));
    let fits = vec![Arg::Array(vec![0u8; 65520])];
    assert_eq!(encode(1, 0, &fits).unwrap().len(), 65532);
    let over = vec![Arg::Array(vec![0u8; 65521])];
    assert_eq!(encode(1, 0, &over), Err(Error::ProtocolViolation));
}

#[test]
fn decode_gives_back_what_encode_took_for_every_shape() {
    let shapes: Vec<Vec<Arg>> = vec![
        vec![],
        vec![Arg::Uint(0)],
        vec![Arg::Uint(u32::MAX)],
        vec![Arg::Str(Vec::new())],
        vec![Arg::Str(b"wl_compositor".to_vec())],
        vec![Arg::Array(vec![1, 2, 3, 4, 5])],
        vec![Arg::Uint(7), Arg::Str(b"abc".to_vec()), Arg::Array(vec![1]), Arg::Uint(9)],
    ];
    for args in shapes {
        let kinds: Vec<ArgKind> = args.iter().map(|a| a.kind()).collect();
        let bytes = encode(0x1234_5678, 0x9abc, &args).unwrap();
        let (message, consumed) = decode(&bytes, &kinds).unwrap().unwrap();
        assert_eq!(consumed, bytes.len());
        assert_eq!(message, Message { object_id: 0x1234_5678, opcode: 0x9abc, args });
    }
}

#[test]
fn decode_asks_for_more_on_a_partial_payload_and_resumes() {
    let args = vec![Arg::Uint(11), Arg::Uint(22)];
    let kinds = vec![ArgKind::Uint, ArgKind::Uint];
    let bytes = encode(5, 1, &args).unwrap();
    assert_eq!(bytes.len(), 16);
    let mut arrived: Vec<u8> = bytes[..11].to_vec();
    assert_eq!(decode(&arrived, &kinds), Ok(None));
    arrived.extend_from_slice(&bytes[11..]);
    let (message, consumed) = decode(&arrived, &kinds).unwrap().unwrap();
    assert_eq!(consumed, 16);
    assert_eq!(message, Message { object_id: 5, opcode: 1, args });
}

#[test]
fn decode_asks_for_more_on_every_proper_prefix() {
    let args = vec![Arg::Str(b"hello".to_vec()), Arg::Uint(1)];
    let kinds = vec![ArgKind::Str, ArgKind::Uint];
    let bytes = encode(2, 0, &args).unwrap();
    for n in 0..bytes.len() {
        assert_eq!(decode(&bytes[..n].to_vec(), &kinds), Ok(None));
    }
}

#[test]
fn decode_takes_one_frame_and_leaves_the_next() {
    let first = encode(2, 0, &vec![Arg::Uint(1)]).unwrap();
    let second = encode(3, 1, &vec![Arg::Str(b"x".to_vec())]).unwrap();
    let mut stream = first.clone();
    stream.extend_from_slice(&second);
    let (m1, n1) = decode(&stream, &vec![ArgKind::Uint]).unwrap().unwrap();
    assert_eq!(n1, first.len());
    assert_eq!(m1, Message { object_id: 2, opcode: 0, args: vec![Arg::Uint(1)] });
    let rest = stream[n1..].to_vec();
    let (m2, n2) = decode(&rest, &vec![ArgKind::Str]).unwrap().unwrap();
    assert_eq!(n2, second.len());
    assert_eq!(m2, Message { object_id: 3, opcode: 1, args: vec![Arg::Str(b"x".to_vec())] });
}

#[test]
fn peek_header_reads_and_checks_the_size() {
    assert_eq!(peek_header(&vec![1, 0, 0]), Ok(None));
    assert_eq!(peek_header(&frame_header(1, 0, 7)), Err(Error::ProtocolViolation));
    assert_eq!(peek_header(&frame_header(1, 0, 10)), Err(Error::ProtocolViolation));
    assert_eq!(peek_header(&frame_header(1, 0, 12)), Ok(None));
    assert_eq!(
        peek_header(&frame_header(0x0a0b_0c0d, 0x0102, 8)),
        Ok(Some(Header { object_id: 0x0a0b_0c0d, opcode: 0x0102, size: 8 }))
    );
}

#[test]
fn decode_refuses_a_payload_of_other_shapes() {
    let bytes = encode(1, 0, &vec![Arg::Uint(1), Arg::Uint(2)]).unwrap();
    assert_eq!(decode(&bytes, &vec![ArgKind::Uint]), Err(Error::ProtocolViolation));
    assert_eq!(
        decode(&bytes, &vec![ArgKind::Uint, ArgKind::Uint, ArgKind::Uint]),
        Err(Error::ProtocolViolation)
    );
    // a string whose length runs past the payload
    let mut bad = frame_header(1, 0, 12);
    bad.extend_from_slice(&100u32.to_le_bytes());
    assert_eq!(decode(&bad, &vec![ArgKind::Str]), Err(Error::ProtocolViolation));
}

#[test]
fn decode_args_reads_exactly_the_payload() {
    let payload: Vec<u8> = vec![2, 0, 0, 0, 7, 8, 0, 0, 5, 0, 0, 0];
    assert_eq!(
        decode_args(&payload, &vec![ArgKind::Array, ArgKind::Uint]),
        Some(vec![Arg::Array(vec![7, 8]), Arg::Uint(5)])
    );
    assert_eq!(decode_args(&payload, &vec![ArgKind::Array]), None);
    assert_eq!(decode_args(&[], &Vec::new()), Some(Vec::new()));
}

#[test]
fn kinds_match_compares_shapes_in_order() {
    let args = vec![Arg::Uint(1), Arg::Str(Vec::new())];
    assert!(kinds_match(&args, &vec![ArgKind::Uint, ArgKind::Str]));
    assert!(!kinds_match(&args, &vec![ArgKind::Str, ArgKind::Uint]));
    assert!(!kinds_match(&args, &vec![ArgKind::Uint]));
    assert!(!kinds_match(&args, &vec![ArgKind::Uint, ArgKind::Array]));
}
