use ws_chat::consts::{is_fin, is_mask, is_rsv1, is_rsv2, is_rsv3};
use ws_chat::encoding::encode_length;
use ws_chat::frame::Headers;
use ws_chat::mask::apply_mask;
use ws_chat::opcode::Opcode;
use ws_chat::read::{
    missing_bytes, read_frame, read_length, read_length_u16, read_length_u64, read_mask,
    ByteReader, Length, ReadError,
};
use ws_chat::write::{encode_binary, encode_close_frame, encode_event, encode_text};
use ws_chat::event::EventKind;

const LENGTHS: [usize; 6] = [0, 1, 125, 126, 65535, 65536];

fn sample(length: usize) -> Vec<u8> {
    (0..length).map(|i| (i * 7 + 3) as u8).collect()
}

fn masked_text_frame(payload: &[u8], key: [u8; 4]) -> Vec<u8> {
    let mut bytes = vec![0x81u8];
    let mut field = encode_length(payload.len());
    field[0] |= 0x80;
    bytes.extend_from_slice(&field);
    bytes.extend_from_slice(&key);
    let mut body = payload.to_vec();
    apply_mask(&mut body, &key);
    bytes.extend_from_slice(&body);
    bytes
}

#[test]
fn flags_are_read_bit_by_bit() {
    assert!(is_fin(0b1000_0000));
    assert!(!is_fin(0b0111_1111));
    assert!(is_rsv1(0b0100_0000));
    assert!(!is_rsv1(0b1011_1111));
    assert!(is_rsv2(0b0010_0000));
    assert!(!is_rsv2(0b1101_1111));
    assert!(is_rsv3(0b0001_0000));
    assert!(!is_rsv3(0b1110_1111));
    assert!(is_mask(0b1000_0000));
    assert!(!is_mask(0b0111_1111));
}

#[test]
fn headers_take_mask_from_second_byte() {
    let headers = Headers::decode(0b1010_0001, 0b1000_0101);
    assert_eq!(
        headers,
        Headers { fin: true, rsv1: false, rsv2: true, rsv3: false, mask: true }
    );
    let headers = Headers::decode(0b1000_0001, 0b0000_0101);
    assert_eq!(
        headers,
        Headers { fin: true, rsv1: false, rsv2: false, rsv3: false, mask: false }
    );
    let headers = Headers::decode(0b0101_0010, 0b0111_1111);
    assert_eq!(
        headers,
        Headers { fin: false, rsv1: true, rsv2: false, rsv3: true, mask: false }
    );
}

#[test]
fn opcode_round_trips_for_every_nibble() {
    for value in 0u8..=0xF {
        assert_eq!(Opcode::decode(value).encode(), value);
        assert_eq!(Opcode::decode(value | 0xF0).encode(), value);
    }
}

#[test]
fn opcode_values_are_the_wire_values() {
    assert_eq!(Opcode::decode(0x0), Opcode::Continuation);
    assert_eq!(Opcode::decode(0x1), Opcode::Text);
    assert_eq!(Opcode::decode(0x2), Opcode::Binary);
    assert_eq!(Opcode::decode(0x3), Opcode::ReservedNonControl3);
    assert_eq!(Opcode::decode(0x7), Opcode::ReservedNonControl7);
    assert_eq!(Opcode::decode(0x8), Opcode::Close);
    assert_eq!(Opcode::decode(0x9), Opcode::Ping);
    assert_eq!(Opcode::decode(0xA), Opcode::Pong);
    assert_eq!(Opcode::decode(0xB), Opcode::ReservedControlB);
    assert_eq!(Opcode::decode(0xF), Opcode::ReservedControlF);
    assert_eq!(Opcode::decode(0x81), Opcode::Text);
    assert_eq!(Opcode::Close.encode(), 0x8);
    assert_eq!(Opcode::ReservedControlE.encode(), 0xE);
}

#[test]
fn length_field_has_three_forms() {
    assert_eq!(encode_length(0), vec![0]);
    assert_eq!(encode_length(1), vec![1]);
    assert_eq!(encode_length(125), vec![125]);
    assert_eq!(encode_length(126), vec![126, 0, 126]);
    assert_eq!(encode_length(0x1234), vec![126, 0x12, 0x34]);
    assert_eq!(encode_length(65535), vec![126, 255, 255]);
    assert_eq!(encode_length(65536), vec![127, 0, 0, 0, 0, 0, 1, 0, 0]);
    assert_eq!(
        encode_length(0x0102_0304),
        vec![127, 0, 0, 0, 0, 1, 2, 3, 4]
    );
}

#[test]
fn encoded_frames_are_final_and_unmasked() {
    assert_eq!(encode_close_frame(), vec![0x88]);
    assert_eq!(encode_text(b"hi"), vec![0x81, 2, b'h', b'i']);
    assert_eq!(encode_binary(&[9, 8, 7]), vec![0x82, 3, 9, 8, 7]);
    assert_eq!(encode_text(b""), vec![0x81, 0]);
    let long = sample(300);
    let frame = encode_text(&long);
    assert_eq!(&frame[..4], &[0x81, 126, 1, 44]);
    assert_eq!(&frame[4..], &long[..]);
}

#[test]
fn events_are_encoded_by_kind() {
    assert_eq!(encode_event(EventKind::Text, b"a"), vec![0x81, 1, b'a']);
    assert_eq!(encode_event(EventKind::Binary, b"a"), vec![0x82, 1, b'a']);
    assert_eq!(encode_event(EventKind::Close, b"ignored"), vec![0x88]);
}

#[test]
fn unmasked_text_round_trips_at_every_length_form() {
    for length in LENGTHS {
        let payload = sample(length);
        let bytes = encode_text(&payload);
        let mut reader = ByteReader::new(&bytes);
        let frame = read_frame(&mut reader).unwrap();
        assert_eq!(frame.opcode, Opcode::Text);
        assert_eq!(
            frame.headers,
            Headers { fin: true, rsv1: false, rsv2: false, rsv3: false, mask: false }
        );
        assert_eq!(frame.payload, payload);
        assert_eq!(reader.remaining(), 0);
    }
}

#[test]
fn masked_text_round_trips_at_every_length_form() {
    for length in LENGTHS {
        for key in [[0u8, 0, 0, 0], [0x37, 0xfa, 0x21, 0x3d], [255, 1, 128, 77]] {
            let payload = sample(length);
            let bytes = masked_text_frame(&payload, key);
            let mut reader = ByteReader::new(&bytes);
            let frame = read_frame(&mut reader).unwrap();
            assert_eq!(frame.opcode, Opcode::Text);
            assert!(frame.headers.mask);
            assert!(frame.headers.fin);
            assert_eq!(frame.payload, payload);
            assert_eq!(reader.remaining(), 0);
        }
    }
}

#[test]
fn masked_hello_from_the_wire() {
    let bytes = [0x81, 0x85, 0x37, 0xfa, 0x21, 0x3d, 0x7f, 0x9f, 0x4d, 0x51, 0x58];
    let mut reader = ByteReader::new(&bytes);
    let frame = read_frame(&mut reader).unwrap();
    assert_eq!(frame.opcode, Opcode::Text);
    assert_eq!(frame.payload, b"Hello".to_vec());
}

#[test]
fn binary_round_trips() {
    let payload = sample(200);
    let bytes = encode_binary(&payload);
    let mut reader = ByteReader::new(&bytes);
    let frame = read_frame(&mut reader).unwrap();
    assert_eq!(frame.opcode, Opcode::Binary);
    assert_eq!(frame.payload, payload);
}

#[test]
fn reserved_opcodes_decode_without_error() {
    let bytes = [0x8B, 0x01, 0x55];
    let mut reader = ByteReader::new(&bytes);
    let frame = read_frame(&mut reader).unwrap();
    assert_eq!(frame.opcode, Opcode::ReservedControlB);
    assert_eq!(frame.payload, vec![0x55]);
    let bytes = [0x03, 0x00];
    let frame = read_frame(&mut ByteReader::new(&bytes)).unwrap();
    assert_eq!(frame.opcode, Opcode::ReservedNonControl3);
    assert!(!frame.headers.fin);
}

#[test]
fn frames_are_read_one_after_another() {
    let mut bytes = encode_text(b"one");
    bytes.extend_from_slice(&encode_binary(b"two!"));
    bytes.extend_from_slice(&encode_close_frame());
    bytes.push(0);
    let mut reader = ByteReader::new(&bytes);
    let first = read_frame(&mut reader).unwrap();
    assert_eq!(first.payload, b"one".to_vec());
    let second = read_frame(&mut reader).unwrap();
    assert_eq!(second.opcode, Opcode::Binary);
    assert_eq!(second.payload, b"two!".to_vec());
    let third = read_frame(&mut reader).unwrap();
    assert_eq!(third.opcode, Opcode::Close);
    assert!(third.payload.is_empty());
    assert_eq!(reader.remaining(), 0);
    assert_eq!(read_frame(&mut reader).unwrap_err(), ReadError::UnexpectedEof);
}

#[test]
fn short_input_is_an_error_never_a_short_frame() {
    let whole = masked_text_frame(&sample(300), [1, 2, 3, 4]);
    for cut in 0..whole.len() {
        let mut reader = ByteReader::new(&whole[..cut]);
        assert_eq!(read_frame(&mut reader).unwrap_err(), ReadError::UnexpectedEof);
        assert_eq!(reader.remaining(), 0);
    }
    let whole = encode_text(&sample(65536));
    for cut in [0, 1, 2, 5, 9, 10, 11, 65545] {
        let mut reader = ByteReader::new(&whole[..cut]);
        assert_eq!(read_frame(&mut reader).unwrap_err(), ReadError::UnexpectedEof);
    }
    assert!(read_frame(&mut ByteReader::new(&whole)).is_ok());
}

#[test]
fn a_declared_length_beyond_the_input_is_an_error() {
    let bytes = [0x82, 127, 0xff, 0xff, 0xff, 0xff, 0xff, 0xff, 0xff, 0xff, 1, 2, 3];
    let mut reader = ByteReader::new(&bytes);
    assert_eq!(read_frame(&mut reader).unwrap_err(), ReadError::UnexpectedEof);
}

#[test]
fn read_exact_takes_a_prefix() {
    let bytes = [1u8, 2, 3, 4, 5];
    let mut reader = ByteReader::new(&bytes);
    assert_eq!(reader.remaining(), 5);
    assert_eq!(reader.read_exact(2).unwrap(), vec![1, 2]);
    assert_eq!(reader.remaining(), 3);
    assert_eq!(reader.read_exact(0).unwrap(), Vec::<u8>::new());
    assert_eq!(reader.read_exact(4).unwrap_err(), ReadError::UnexpectedEof);
    assert_eq!(reader.remaining(), 0);
}

#[test]
fn extended_lengths_are_big_endian() {
    let bytes = [0x12u8, 0x34, 0xff];
    let mut reader = ByteReader::new(&bytes);
    assert_eq!(read_length_u16(&mut reader).unwrap(), 0x1234);
    assert_eq!(reader.remaining(), 1);
    assert_eq!(read_length_u16(&mut reader).unwrap_err(), ReadError::UnexpectedEof);

    let bytes = [0x01u8, 0x02, 0x03, 0x04, 0x05, 0x06, 0x07, 0x08];
    let mut reader = ByteReader::new(&bytes);
    assert_eq!(read_length_u64(&mut reader).unwrap(), 0x0102_0304_0506_0708);
    let mut reader = ByteReader::new(&bytes[..7]);
    assert_eq!(read_length_u64(&mut reader).unwrap_err(), ReadError::UnexpectedEof);

    let bytes = [0xffu8; 8];
    assert_eq!(read_length(Length::U64, &mut ByteReader::new(&bytes)).unwrap(), u64::MAX);
    assert_eq!(read_length(Length::U16, &mut ByteReader::new(&bytes)).unwrap(), 0xffff);
    assert_eq!(
        read_length(Length::U16, &mut ByteReader::new(&bytes[..1])).unwrap_err(),
        ReadError::UnexpectedEof
    );
}

#[test]
fn mask_key_is_four_bytes() {
    let bytes = [9u8, 8, 7, 6, 5];
    let mut reader = ByteReader::new(&bytes);
    assert_eq!(read_mask(&mut reader).unwrap(), [9, 8, 7, 6]);
    assert_eq!(reader.remaining(), 1);
    assert_eq!(read_mask(&mut reader).unwrap_err(), ReadError::UnexpectedEof);
}

#[test]
fn masking_twice_is_the_identity() {
    for length in [0usize, 1, 3, 4, 5, 1000] {
        let plain = sample(length);
        let key = [0xde, 0xad, 0xbe, 0xef];
        let mut bytes = plain.clone();
        apply_mask(&mut bytes, &key);
        if length > 0 {
            assert_ne!(bytes, plain);
        }
        apply_mask(&mut bytes, &key);
        assert_eq!(bytes, plain);
    }
}

#[test]
fn masking_cycles_through_the_key() {
    let mut bytes = vec![0u8; 6];
    apply_mask(&mut bytes, &[1, 2, 3, 4]);
    assert_eq!(bytes, vec![1, 2, 3, 4, 1, 2]);
    let mut bytes = vec![0xff, 0x0f, 0xf0];
    apply_mask(&mut bytes, &[0x0f, 0x0f, 0x0f, 0x0f]);
    assert_eq!(bytes, vec![0xf0, 0x00, 0xff]);
}

#[test]
fn missing_bytes_leads_through_a_frame() {
    let whole = masked_text_frame(&sample(300), [1, 2, 3, 4]);
    assert_eq!(missing_bytes(&[]), 2);
    assert_eq!(missing_bytes(&whole[..1]), 1);
    assert_eq!(missing_bytes(&whole[..2]), 6);
    assert_eq!(missing_bytes(&whole[..5]), 3);
    assert_eq!(missing_bytes(&whole[..8]), 300);
    assert_eq!(missing_bytes(&whole[..108]), 200);
    assert_eq!(missing_bytes(&whole), 0);

    let small = encode_text(b"hi");
    assert_eq!(missing_bytes(&small[..2]), 2);
    assert_eq!(missing_bytes(&small), 0);
    assert_eq!(missing_bytes(&encode_close_frame()), 1);
    assert_eq!(missing_bytes(&[0x88, 0x00]), 0);
    assert_eq!(missing_bytes(&[0x82, 127]), 8);
    assert_eq!(
        missing_bytes(&[0x82, 127, 0xff, 0xff, 0xff, 0xff, 0xff, 0xff, 0xff, 0xff]),
        u64::MAX
    );
}

#[test]
fn a_frame_fed_by_missing_bytes_decodes() {
    let wire = masked_text_frame(&sample(70000), [7, 7, 7, 9]);
    let mut taken = 0usize;
    let mut buffer: Vec<u8> = Vec::new();
    loop {
        let want = missing_bytes(&buffer) as usize;
        if want == 0 {
            break;
        }
        buffer.extend_from_slice(&wire[taken..taken + want]);
        taken += want;
    }
    assert_eq!(taken, wire.len());
    let frame = read_frame(&mut ByteReader::new(&buffer)).unwrap();
    assert_eq!(frame.payload, sample(70000));
}
