use frpc::crypto::FrpCoder;

fn iv() -> [u8; 16] {
    [0, 1, 2, 3, 4, 5, 6, 7, 8, 9, 10, 11, 12, 13, 14, 15]
}

#[test]
fn key_is_pbkdf2_sha1_of_token() {
    let c = FrpCoder::new("abc", iv());
    let expected: [u8; 16] = [
        0x62, 0xe5, 0xed, 0x67, 0xfd, 0xd0, 0x4e, 0x5f, 0x1f, 0x71, 0xd7, 0x79, 0xce, 0xb9, 0x66, 0x7f,
    ];
    assert_eq!(c.key(), &expected);
    assert_eq!(c.iv(), &iv());
}

#[test]
fn empty_token_still_gives_a_key() {
    let c = FrpCoder::new("", iv());
    let expected: [u8; 16] = [
        0xcd, 0xc9, 0xdc, 0x4c, 0x47, 0x2c, 0x37, 0x33, 0x12, 0x81, 0xdf, 0x4c, 0x23, 0x2a, 0x84, 0x07,
    ];
    assert_eq!(c.key(), &expected);
}

#[test]
fn key_derivation_is_deterministic() {
    let a = FrpCoder::new("SECRET", iv());
    let b = FrpCoder::new("SECRET", [7u8; 16]);
    let other = FrpCoder::new("SECRET2", iv());
    assert_eq!(a.key(), b.key());
    assert_ne!(a.key(), other.key());
}

#[test]
fn encrypt_matches_aes128_cfb() {
    let mut c = FrpCoder::new("abc", iv());
    let mut buf = b"hello world, this is a longer message".to_vec();
    c.encypt(&mut buf);
    let expected: Vec<u8> = vec![
        198, 17, 109, 13, 146, 52, 80, 168, 187, 174, 28, 174, 183, 228, 71, 248, 224, 102, 81, 223,
        77, 232, 120, 105, 134, 61, 148, 14, 93, 209, 209, 0, 47, 10, 254, 196, 202,
    ];
    assert_eq!(buf, expected);
}

#[test]
fn round_trip_across_buffer_boundaries() {
    let mut sender = FrpCoder::new("token", iv());
    let mut receiver = FrpCoder::new("token", iv());
    let mut a = b"hello".to_vec();
    let mut b = b" world".to_vec();
    sender.encypt(&mut a);
    sender.encypt(&mut b);
    assert_ne!(a, b"hello".to_vec());
    let mut wire = a.clone();
    wire.extend_from_slice(&b);
    assert_eq!(wire.len(), 11);
    receiver.decrypt(&mut wire);
    assert_eq!(wire, b"hello world".to_vec());
}

#[test]
fn round_trip_with_other_chunking() {
    let msg: Vec<u8> = (0u8..100).collect();
    let mut sender = FrpCoder::new("k", iv());
    let mut receiver = FrpCoder::new("k", iv());
    let mut wire = Vec::new();
    for chunk in [&msg[0..3], &msg[3..20], &msg[20..21], &msg[21..64], &msg[64..100]] {
        let mut part = chunk.to_vec();
        sender.encypt(&mut part);
        wire.extend_from_slice(&part);
    }
    let mut out = Vec::new();
    for range in [0..16, 16..17, 17..50, 50..100] {
        let mut part = wire[range].to_vec();
        receiver.decrypt(&mut part);
        out.extend_from_slice(&part);
    }
    assert_eq!(out, msg);
}

#[test]
fn directions_do_not_disturb_each_other() {
    let mut peer = FrpCoder::new("dup", iv());
    let mut from_peer = b"peer data that is long enough".to_vec();
    peer.encypt(&mut from_peer);

    let mut c = FrpCoder::new("dup", iv());
    let mut first = b"AA".to_vec();
    c.encypt(&mut first);
    let mut inbound = from_peer.clone();
    c.decrypt(&mut inbound);
    assert_eq!(inbound, b"peer data that is long enough".to_vec());
    let mut second = b"BB".to_vec();
    c.encypt(&mut second);

    let mut whole = FrpCoder::new("dup", iv());
    let mut both = b"AABB".to_vec();
    whole.encypt(&mut both);
    assert_eq!(first, both[0..2].to_vec());
    assert_eq!(second, both[2..4].to_vec());
}

#[test]
fn empty_buffer_is_left_empty() {
    let mut c = FrpCoder::new("abc", iv());
    let mut empty = Vec::new();
    c.encypt(&mut empty);
    assert!(empty.is_empty());
    let mut buf = b"hello world, this is a longer message".to_vec();
    c.encypt(&mut buf);
    assert_eq!(buf[0], 198);
}
