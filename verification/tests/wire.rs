use rendezvous::wire::{
    decode_heartbeat, decode_port, encode_heartbeat, encode_port, prepend_magic_bytes,
    remove_header, HEARTBEAT_SIZE, MAGIC_BYTES, MAGIC_BYTES_SIZE, PORT_SIZE,
};

#[test]
fn tag_is_the_digest_of_hello_world() {
    assert_eq!(MAGIC_BYTES_SIZE, 32);
    assert_eq!(MAGIC_BYTES.len(), 32);
    assert_eq!(MAGIC_BYTES[0], 0x03);
    assert_eq!(MAGIC_BYTES[1], 0xba);
    assert_eq!(MAGIC_BYTES[15], 0x84);
    assert_eq!(MAGIC_BYTES[16], 0xc2);
    assert_eq!(MAGIC_BYTES[31], 0x40);
    assert_eq!(PORT_SIZE, 2);
    assert_eq!(HEARTBEAT_SIZE, 34);
}

#[test]
fn heartbeat_for_a_port_is_tag_then_little_endian_port() {
    let msg = encode_heartbeat(0x1234);
    assert_eq!(msg.len(), 34);
    assert_eq!(&msg[..32], &MAGIC_BYTES[..]);
    assert_eq!(msg[32], 0x34);
    assert_eq!(msg[33], 0x12);
    assert_eq!(decode_heartbeat(&msg), Some(0x1234));
}

#[test]
fn port_is_encoded_as_the_standard_library_does() {
    for port in [0u16, 1, 255, 256, 257, 8888, 0x1234, 0x8000, 0xfffe, 0xffff] {
        assert_eq!(encode_port(port), port.to_le_bytes());
        assert_eq!(decode_port(&port.to_le_bytes()), Some(port));
    }
    assert_eq!(encode_port(8888), [0xb8, 0x22]);
    assert_eq!(decode_port(&[0xb8, 0x22]), Some(8888));
}

#[test]
fn every_port_survives_the_round_trip() {
    for port in 0..=u16::MAX {
        let bytes = encode_port(port);
        assert_eq!(decode_port(&bytes), Some(port));
        let msg = encode_heartbeat(port);
        assert_eq!(msg.len(), HEARTBEAT_SIZE);
        assert_eq!(decode_heartbeat(&msg), Some(port));
    }
}

#[test]
fn every_pair_of_bytes_survives_the_round_trip() {
    for low in 0..=u8::MAX {
        for high in 0..=u8::MAX {
            let port = decode_port(&[low, high]).unwrap();
            assert_eq!(port, u16::from_le_bytes([low, high]));
            assert_eq!(encode_port(port), [low, high]);
        }
    }
}

#[test]
fn port_of_another_length_is_refused() {
    assert_eq!(decode_port(&[]), None);
    assert_eq!(decode_port(&[1]), None);
    assert_eq!(decode_port(&[1, 2, 3]), None);
}

#[test]
fn header_is_prepended_and_removed() {
    let msg = prepend_magic_bytes(&[1, 2, 3]);
    assert_eq!(msg.len(), 35);
    assert_eq!(&msg[..32], &MAGIC_BYTES[..]);
    assert_eq!(&msg[32..], &[1u8, 2, 3][..]);
    assert_eq!(remove_header(&msg), Some(&[1u8, 2, 3][..]));
}

#[test]
fn header_alone_has_an_empty_body() {
    let msg = prepend_magic_bytes(&[]);
    assert_eq!(msg, MAGIC_BYTES.to_vec());
    assert_eq!(remove_header(&msg), Some(&[][..]));
    assert_eq!(decode_heartbeat(&msg), None);
}

#[test]
fn short_message_has_no_header() {
    assert_eq!(remove_header(&[]), None);
    assert_eq!(remove_header(&MAGIC_BYTES[..31]), None);
    assert_eq!(remove_header(&[0u8; 10]), None);
}

#[test]
fn any_wrong_tag_byte_is_refused() {
    for i in 0..MAGIC_BYTES_SIZE {
        let mut msg = encode_heartbeat(8080);
        msg[i] ^= 0x01;
        assert_eq!(remove_header(&msg), None);
        assert_eq!(decode_heartbeat(&msg), None);
    }
}

#[test]
fn heartbeat_of_another_length_is_refused() {
    let good = encode_heartbeat(8080);
    assert_eq!(decode_heartbeat(&good[..33]), None);
    assert_eq!(decode_heartbeat(&good[..32]), None);
    let mut long = good.clone();
    long.push(0);
    assert_eq!(decode_heartbeat(&long), None);
    assert_eq!(remove_header(&long), Some(&[0x90u8, 0x1f, 0][..]));
    assert_eq!(decode_heartbeat(&[0u8; 34]), None);
    assert_eq!(decode_heartbeat(&[0u8; 10]), None);
}
