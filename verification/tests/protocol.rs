use gfoc::cobs::unframe_bytes;
use gfoc::protocol::{
    decode_frame, encode_frame, Command, ProtocolError, Response, State, MAX_FRAME,
};

fn frame_of<T: gfoc::protocol::WireMessage>(value: &T) -> Vec<u8> {
    let mut buf = [0u8; MAX_FRAME];
    let n = encode_frame(value, &mut buf).expect("frame fits");
    buf[..n].to_vec()
}

#[test]
fn command_frames_are_exact() {
    assert_eq!(frame_of(&Command::Start), vec![1, 1, 0]);
    assert_eq!(frame_of(&Command::SetCyclic(false)), vec![2, 1, 1, 0]);
    assert_eq!(frame_of(&Command::SetCyclic(true)), vec![3, 1, 1, 0]);
    assert_eq!(frame_of(&Command::Stop), vec![2, 2, 0]);
    assert_eq!(frame_of(&Command::Status), vec![2, 3, 0]);
}

#[test]
fn response_frames_are_exact() {
    assert_eq!(
        frame_of(&Response::CyclicStatus { state: State::Idle }),
        vec![1, 1, 1, 0]
    );
    assert_eq!(
        frame_of(&Response::CyclicStatus { state: State::Running }),
        vec![1, 2, 1, 0]
    );
    assert_eq!(frame_of(&Response::Ack), vec![2, 1, 0]);
}

#[test]
fn every_message_round_trips() {
    let commands = [
        Command::Start,
        Command::SetCyclic(false),
        Command::SetCyclic(true),
        Command::Stop,
        Command::Status,
    ];
    for c in commands {
        let mut f = frame_of(&c);
        assert_eq!(decode_frame::<Command>(&mut f), Ok(c));
    }
    let responses = [
        Response::CyclicStatus { state: State::Idle },
        Response::CyclicStatus { state: State::Running },
        Response::Ack,
    ];
    for r in responses {
        let mut f = frame_of(&r);
        assert_eq!(decode_frame::<Response>(&mut f), Ok(r));
    }
}

#[test]
fn frames_match_postcard() {
    let mut a = [0u8; 16];
    let mut b = [0u8; 16];
    // A command is laid out as its variant index followed by its fields.
    let n = encode_frame(&Command::SetCyclic(true), &mut a).unwrap();
    let p = postcard::to_slice_cobs(&(1u32, true), &mut b).unwrap();
    assert_eq!(&a[..n], &p[..]);
    let n = encode_frame(&Command::Status, &mut a).unwrap();
    let p = postcard::to_slice_cobs(&3u32, &mut b).unwrap();
    assert_eq!(&a[..n], &p[..]);
    let n = encode_frame(&Response::CyclicStatus { state: State::Running }, &mut a).unwrap();
    let p = postcard::to_slice_cobs(&(0u32, 1u32), &mut b).unwrap();
    assert_eq!(&a[..n], &p[..]);
    let mut f = frame_of(&Command::SetCyclic(false));
    let decoded: (u32, bool) = postcard::from_bytes_cobs(&mut f).unwrap();
    assert_eq!(decoded, (1, false));
}

#[test]
fn short_buffer_is_an_encode_error_with_a_partial_frame() {
    let mut buf = [7u8; 3];
    assert_eq!(
        encode_frame(&Command::SetCyclic(true), &mut buf),
        Err(ProtocolError::Encode)
    );
    assert_eq!(buf, [3, 1, 1]);
    let mut two = [7u8; 2];
    assert_eq!(encode_frame(&Command::SetCyclic(true), &mut two), Err(ProtocolError::Encode));
    assert_eq!(two, [0, 1]);
    let mut one = [7u8; 1];
    assert_eq!(encode_frame(&Command::Start, &mut one), Err(ProtocolError::Encode));
    assert_eq!(one, [1]);
    let mut none: [u8; 0] = [];
    assert_eq!(encode_frame(&Command::Stop, &mut none), Err(ProtocolError::Encode));
    let mut exact = [9u8; 4];
    assert_eq!(encode_frame(&Command::SetCyclic(true), &mut exact), Ok(4));
    assert_eq!(exact, [3, 1, 1, 0]);
    let mut longer = [9u8; 5];
    assert_eq!(encode_frame(&Command::Stop, &mut longer), Ok(3));
    assert_eq!(longer, [2, 2, 0, 9, 9]);
}

#[test]
fn short_buffers_hold_what_postcard_leaves() {
    for len in 0..5usize {
        let mut ours = vec![7u8; len];
        let mut theirs = vec![7u8; len];
        let a = encode_frame(&Command::SetCyclic(true), &mut ours).is_ok();
        let b = postcard::to_slice_cobs(&(1u32, true), &mut theirs).is_ok();
        assert_eq!((a, &ours), (b, &theirs), "SetCyclic(true), {len}");

        let mut ours = vec![7u8; len];
        let mut theirs = vec![7u8; len];
        let a = encode_frame(&Command::SetCyclic(false), &mut ours).is_ok();
        let b = postcard::to_slice_cobs(&(1u32, false), &mut theirs).is_ok();
        assert_eq!((a, &ours), (b, &theirs), "SetCyclic(false), {len}");

        let mut ours = vec![7u8; len];
        let mut theirs = vec![7u8; len];
        let a = encode_frame(&Response::CyclicStatus { state: State::Idle }, &mut ours).is_ok();
        let b = postcard::to_slice_cobs(&(0u32, 0u32), &mut theirs).is_ok();
        assert_eq!((a, &ours), (b, &theirs), "CyclicStatus(Idle), {len}");

        let mut ours = vec![7u8; len];
        let mut theirs = vec![7u8; len];
        let a = encode_frame(&Command::Start, &mut ours).is_ok();
        let b = postcard::to_slice_cobs(&0u32, &mut theirs).is_ok();
        assert_eq!((a, &ours), (b, &theirs), "Start, {len}");
    }
}

#[test]
fn malformed_frames_are_decode_errors() {
    let cases: Vec<Vec<u8>> = vec![
        vec![],           // empty input
        vec![0],          // empty payload
        vec![1, 0],       // empty payload
        vec![2, 9, 0],    // unknown variant
        vec![5, 1, 0],    // group longer than the frame
        vec![2, 1, 0],    // SetCyclic without its flag
        vec![3, 1, 2, 0], // flag that is not 0 or 1
        vec![2, 0x80, 0], // unterminated varint
    ];
    for mut c in cases {
        assert_eq!(decode_frame::<Command>(&mut c), Err(ProtocolError::Decode), "{c:?}");
    }
}

#[test]
fn decoding_ignores_what_follows_a_message() {
    // Trailing payload bytes and everything after the first 0 are ignored.
    let mut f = vec![3, 2, 7, 0, 5, 5];
    assert_eq!(decode_frame::<Command>(&mut f), Ok(Command::Stop));
    // A varint may be written with redundant continuation bytes.
    let mut g = vec![4, 0x82, 0x80, 1, 0];
    assert_eq!(decode_frame::<Command>(&mut g), Err(ProtocolError::Decode));
    let mut h = vec![2, 0x82, 1, 0];
    assert_eq!(decode_frame::<Command>(&mut h), Ok(Command::Stop));
    let mut buf = [0u8; 8];
    let n = postcard::to_slice_cobs(&2u32, &mut buf).unwrap().len();
    assert_eq!(decode_frame::<Command>(&mut buf[..n]), Ok(Command::Stop));
}

#[test]
fn decoding_works_in_place() {
    let mut f = vec![2, 3, 0];
    assert_eq!(decode_frame::<Command>(&mut f), Ok(Command::Status));
    assert_eq!(f, vec![3, 3, 0]);
    let mut g = vec![3, 1, 1, 0];
    assert_eq!(decode_frame::<Command>(&mut g), Ok(Command::SetCyclic(true)));
    assert_eq!(g, vec![1, 1, 1, 0]);
    // A malformed second group: the first is still written out.
    let mut h = vec![3, 0x11, 0x22, 5, 0x33, 0];
    assert_eq!(decode_frame::<Command>(&mut h), Err(ProtocolError::Decode));
    assert_eq!(h, vec![0x11, 0x22, 0, 5, 0x33, 0]);
    let mut e: Vec<u8> = vec![];
    assert_eq!(decode_frame::<Command>(&mut e), Err(ProtocolError::Decode));
}

#[test]
fn decoding_leaves_what_postcard_leaves() {
    let cases: Vec<Vec<u8>> = vec![
        vec![2, 3, 0],
        vec![3, 1, 1, 0],
        vec![1, 1, 1, 0],
        vec![3, 0x11, 0x22, 5, 0x33, 0],
        vec![5, 1, 0],
        vec![2, 2, 0, 9, 9],
        vec![0, 4],
    ];
    for c in cases {
        let mut ours = c.clone();
        let mut theirs = c.clone();
        let _ = decode_frame::<Command>(&mut ours);
        let _ = postcard::from_bytes_cobs::<u32>(&mut theirs);
        assert_eq!(ours, theirs, "{c:?}");
    }
}

#[test]
fn unframing_restores_zeros_of_the_payload() {
    assert_eq!(unframe_bytes(&[1, 0]), Some(vec![]));
    assert_eq!(unframe_bytes(&[1, 1, 0]), Some(vec![0]));
    assert_eq!(unframe_bytes(&[1, 1, 1, 0]), Some(vec![0, 0]));
    assert_eq!(unframe_bytes(&[3, 0x11, 0x22, 2, 0x33, 0]), Some(vec![0x11, 0x22, 0x00, 0x33]));
    // The same bytes through postcard's framing.
    let mut buf = [0u8; 16];
    let data: [u8; 4] = [5, 0, 6, 0];
    let p = postcard::to_slice_cobs(&data, &mut buf).unwrap();
    assert_eq!(unframe_bytes(p), Some(data.to_vec()));
}

#[test]
fn unframing_follows_the_group_codes() {
    assert_eq!(unframe_bytes(&[]), None);
    assert_eq!(unframe_bytes(&[0]), Some(vec![]));
    assert_eq!(unframe_bytes(&[3, 1, 2]), Some(vec![1, 2]));
    assert_eq!(unframe_bytes(&[2, 1, 2, 3, 0]), Some(vec![1, 0, 3]));
    assert_eq!(unframe_bytes(&[4, 1, 0]), None);
    let mut long = vec![0xFFu8];
    long.extend(std::iter::repeat(7u8).take(254));
    long.push(2);
    long.push(8);
    let mut expected = vec![7u8; 254];
    expected.push(8);
    assert_eq!(unframe_bytes(&long), Some(expected));
}
