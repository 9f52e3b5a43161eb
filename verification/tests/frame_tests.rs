use ws_core::frame::{decode_frame, encode_frame, Frame, FrameError, Opcode};

fn masked(opcode_byte: u8, payload: &[u8], mask: [u8; 4]) -> Vec<u8> {
    let mut out = vec![opcode_byte];
    let n = payload.len();
    if n < 126 {
        out.push(128 + n as u8);
    } else if n < 65536 {
        out.push(128 + 126);
        out.push((n / 256) as u8);
        out.push((n % 256) as u8);
    } else {
        out.push(128 + 127);
        let v = n as u64;
        for i in 0..8 {
            out.push((v >> (56 - 8 * i)) as u8);
        }
    }
    out.extend_from_slice(&mask);
    for (i, b) in payload.iter().enumerate() {
        out.push(b ^ mask[i % 4]);
    }
    out
}

#[test]
fn encode_pong_small() {
    let f = Frame { fin: true, opcode: Opcode::Pong, payload: b"abc".to_vec() };
    assert_eq!(encode_frame(&f), vec![0x8A, 3, 97, 98, 99]);
}

#[test]
fn encode_close_empty() {
    let f = Frame { fin: true, opcode: Opcode::Close, payload: Vec::new() };
    assert_eq!(encode_frame(&f), vec![0x88, 0]);
}

#[test]
fn encode_text_not_fin() {
    let f = Frame { fin: false, opcode: Opcode::Text, payload: b"hi".to_vec() };
    assert_eq!(encode_frame(&f), vec![0x01, 2, 104, 105]);
}

#[test]
fn encode_sixteen_bit_length() {
    let f = Frame { fin: true, opcode: Opcode::Binary, payload: vec![7u8; 300] };
    let out = encode_frame(&f);
    assert_eq!(out[0], 0x82);
    assert_eq!(out[1], 126);
    assert_eq!(out[2], 1);
    assert_eq!(out[3], 44);
    assert_eq!(out.len(), 4 + 300);
    assert!(out[4..].iter().all(|&b| b == 7));
}

#[test]
fn encode_sixty_four_bit_length() {
    let f = Frame { fin: true, opcode: Opcode::Binary, payload: vec![1u8; 65536] };
    let out = encode_frame(&f);
    assert_eq!(out[0], 0x82);
    assert_eq!(out[1], 127);
    assert_eq!(&out[2..10], &[0, 0, 0, 0, 0, 1, 0, 0]);
    assert_eq!(out.len(), 10 + 65536);
}

#[test]
fn decode_masked_ping() {
    let buf = masked(0x89, b"abc", [1, 2, 3, 4]);
    let (f, used) = decode_frame(&buf).expect("whole frame present");
    assert_eq!(f.opcode, Opcode::Ping);
    assert!(f.fin);
    assert_eq!(f.payload, b"abc".to_vec());
    assert_eq!(used, buf.len());
}

#[test]
fn decode_missing_mask() {
    // Same ping, but with the mask bit clear and no key.
    let buf = vec![0x89, 3, 97, 98, 99];
    assert_eq!(decode_frame(&buf), Err(FrameError::MissingMask));
}

#[test]
fn decode_incomplete_header() {
    assert_eq!(decode_frame(&vec![]), Err(FrameError::Incomplete));
    assert_eq!(decode_frame(&vec![0x89]), Err(FrameError::Incomplete));
}

#[test]
fn decode_incomplete_payload() {
    let mut buf = masked(0x89, b"abcdef", [9, 9, 9, 9]);
    buf.truncate(buf.len() - 1);
    assert_eq!(decode_frame(&buf), Err(FrameError::Incomplete));
}

#[test]
fn decode_extended_length() {
    let payload: Vec<u8> = (0..300u32).map(|i| (i % 251) as u8).collect();
    let buf = masked(0x82, &payload, [5, 6, 7, 8]);
    let (f, used) = decode_frame(&buf).expect("whole frame present");
    assert_eq!(f.opcode, Opcode::Binary);
    assert_eq!(f.payload, payload);
    assert_eq!(used, buf.len());
}

#[test]
fn decode_sixty_four_bit_length() {
    let payload = vec![3u8; 65536];
    let buf = masked(0x81, &payload, [0, 0, 0, 0]);
    let (f, used) = decode_frame(&buf).expect("whole frame present");
    assert_eq!(f.opcode, Opcode::Text);
    assert_eq!(f.payload.len(), 65536);
    assert_eq!(used, buf.len());
}

#[test]
fn decode_nonminimal_sixteen_bit_length() {
    // A 100-byte length must use the one-byte form, not the 126 form.
    let buf = vec![0x81, 128 + 126, 0, 100, 1, 2, 3, 4];
    assert_eq!(decode_frame(&buf), Err(FrameError::BadLength));
}

#[test]
fn decode_nonminimal_sixty_four_bit_length() {
    let buf = vec![0x81, 128 + 127, 0, 0, 0, 0, 0, 0, 1, 0, 1, 2, 3, 4];
    assert_eq!(decode_frame(&buf), Err(FrameError::BadLength));
}

#[test]
fn decode_reserved_opcode() {
    let buf = masked(0x83, b"", [1, 1, 1, 1]);
    let (f, _) = decode_frame(&buf).expect("whole frame present");
    assert_eq!(f.opcode, Opcode::Reserved);
}

#[test]
fn decode_trailing_bytes_left() {
    let mut buf = masked(0x89, b"ab", [1, 2, 3, 4]);
    let next = masked(0x88, b"", [0, 0, 0, 0]);
    let first_len = buf.len();
    buf.extend_from_slice(&next);
    let (f, used) = decode_frame(&buf).expect("whole frame present");
    assert_eq!(f.opcode, Opcode::Ping);
    assert_eq!(f.payload, b"ab".to_vec());
    assert_eq!(used, first_len);
}

#[test]
fn round_trip_through_mask() {
    // Encode a server frame, remask it as a client would, decode it back.
    let f = Frame { fin: true, opcode: Opcode::Ping, payload: b"payload".to_vec() };
    let server_bytes = encode_frame(&f);
    let mask = [0x12, 0x34, 0x56, 0x78];
    let mut client_bytes = vec![server_bytes[0], server_bytes[1] | 128];
    client_bytes.extend_from_slice(&mask);
    for (i, b) in server_bytes[2..].iter().enumerate() {
        client_bytes.push(b ^ mask[i % 4]);
    }
    let (g, used) = decode_frame(&client_bytes).expect("whole frame present");
    assert_eq!(used, client_bytes.len());
    assert_eq!(g.opcode, Opcode::Ping);
    assert!(g.fin);
    assert_eq!(g.payload, f.payload);
}
