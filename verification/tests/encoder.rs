use ssh_writer::pubkey::{
    EcdsaPublicKey, Ed25519PublicKey, PublicKey, PublicKeyKind, RsaPublicKey,
};
use ssh_writer::strmap::StringMap;
use ssh_writer::writer::Writer;

#[test]
fn new_writer_is_empty() {
    let writer = Writer::new();
    assert_eq!(writer.as_bytes(), &[] as &[u8]);
}

#[test]
fn default_writer_is_empty() {
    let writer = Writer::default();
    assert_eq!(writer.as_bytes(), &[] as &[u8]);
}

#[test]
fn length_prefixed_block() {
    let mut writer = Writer::new();
    writer.write_bytes(&[0, 0, 0, 42]);
    let bytes = writer.into_bytes();
    assert_eq!(bytes, vec![0, 0, 0, 4, 0, 0, 0, 42]);
}

#[test]
fn length_prefixed_block_empty() {
    let mut writer = Writer::new();
    writer.write_bytes(&[]);
    let bytes = writer.into_bytes();
    assert_eq!(bytes, vec![0, 0, 0, 0]);
}

#[test]
fn length_prefix_counts_four_plus_payload() {
    let data: Vec<u8> = (0..200).collect();
    let mut writer = Writer::new();
    writer.write_bytes(&data);
    let bytes = writer.into_bytes();
    assert_eq!(bytes.len(), 4 + data.len());
    assert_eq!(&bytes[..4], &[0, 0, 0, 200]);
    assert_eq!(&bytes[4..], &data[..]);
}

#[test]
fn string_block() {
    let mut writer = Writer::new();
    writer.write_string("a test string");
    let bytes = writer.into_bytes();
    assert_eq!(
        bytes,
        [0, 0, 0, 13, 97, 32, 116, 101, 115, 116, 32, 115, 116, 114, 105, 110, 103]
    );
}

#[test]
fn string_block_utf8_uses_byte_length() {
    let mut writer = Writer::new();
    writer.write_string("\u{e9}");
    let bytes = writer.into_bytes();
    assert_eq!(bytes, [0, 0, 0, 2, 0xC3, 0xA9]);
}

#[test]
fn u64_all_ones() {
    let mut writer = Writer::new();
    writer.write_u64(0xFFFFFFFFFFFFFFFF);
    let bytes = writer.into_bytes();
    assert_eq!(bytes, [255, 255, 255, 255, 255, 255, 255, 255]);
}

#[test]
fn u64_big_endian_order() {
    let mut writer = Writer::new();
    writer.write_u64(0x0102030405060708);
    let bytes = writer.into_bytes();
    assert_eq!(bytes, [1, 2, 3, 4, 5, 6, 7, 8]);
}

#[test]
fn u32_all_ones() {
    let mut writer = Writer::new();
    writer.write_u32(0xFFFFFFFF);
    let bytes = writer.into_bytes();
    assert_eq!(bytes, [255, 255, 255, 255]);
}

#[test]
fn u32_big_endian_order() {
    let mut writer = Writer::new();
    writer.write_u32(0x01020304);
    let bytes = writer.into_bytes();
    assert_eq!(bytes, [1, 2, 3, 4]);
}

#[test]
fn mpint_without_high_bit_is_verbatim() {
    let mut writer = Writer::new();
    writer.write_mpint(&[1, 0, 1]);
    let bytes = writer.into_bytes();
    assert_eq!(bytes, [0, 0, 0, 3, 1, 0, 1]);
}

#[test]
fn mpint_with_high_bit_gets_zero_byte() {
    let mut writer = Writer::new();
    writer.write_mpint(&[0x80, 0x01]);
    let bytes = writer.into_bytes();
    assert_eq!(bytes, [0, 0, 0, 3, 0, 0x80, 0x01]);
}

#[test]
fn mpint_empty_is_bare_zero_length() {
    let mut writer = Writer::new();
    writer.write_mpint(&[]);
    let bytes = writer.into_bytes();
    assert_eq!(bytes, [0, 0, 0, 0]);
}

#[test]
fn string_vec_empty() {
    let mut writer = Writer::new();
    writer.write_string_vec(&[]);
    let bytes = writer.into_bytes();
    assert_eq!(bytes, [0, 0, 0, 0]);
}

#[test]
fn string_vec_two_items() {
    let mut writer = Writer::new();
    writer.write_string_vec(&[String::from("Test"), String::from("Test")]);
    let bytes = writer.into_bytes();
    assert_eq!(
        bytes,
        [0, 0, 0, 16, 0, 0, 0, 4, 84, 101, 115, 116, 0, 0, 0, 4, 84, 101, 115, 116]
    );
}

#[test]
fn string_vec_counts_utf8_bytes() {
    let mut writer = Writer::new();
    writer.write_string_vec(&[String::from("\u{e9}")]);
    let bytes = writer.into_bytes();
    assert_eq!(bytes, [0, 0, 0, 6, 0, 0, 0, 2, 0xC3, 0xA9]);
}

#[test]
fn string_map_counts_utf8_bytes() {
    let mut writer = Writer::new();
    let mut map = StringMap::new();
    map.insert(String::from("\u{e9}"), String::from("\u{e9}"));
    writer.write_string_map(&map);
    let bytes = writer.into_bytes();
    assert_eq!(
        bytes,
        [0, 0, 0, 16, 0, 0, 0, 2, 0xC3, 0xA9, 0, 0, 0, 6, 0, 0, 0, 2, 0xC3, 0xA9]
    );
}

#[test]
fn string_map_empty_value_is_bare_zero_marker() {
    let mut writer = Writer::new();
    let mut map = StringMap::new();
    map.insert(String::from("Test"), String::from(""));
    writer.write_string_map(&map);
    let bytes = writer.into_bytes();
    assert_eq!(bytes, [0, 0, 0, 12, 0, 0, 0, 4, 84, 101, 115, 116, 0, 0, 0, 0]);
}

#[test]
fn string_map_nonempty_value_carries_its_size() {
    let mut writer = Writer::new();
    let mut map = StringMap::new();
    map.insert(String::from("k"), String::from("vv"));
    writer.write_string_map(&map);
    let bytes = writer.into_bytes();
    assert_eq!(
        bytes,
        [0, 0, 0, 15, 0, 0, 0, 1, 107, 0, 0, 0, 6, 0, 0, 0, 2, 118, 118]
    );
}

#[test]
fn string_map_empty() {
    let mut writer = Writer::new();
    let map = StringMap::new();
    writer.write_string_map(&map);
    let bytes = writer.into_bytes();
    assert_eq!(bytes, [0, 0, 0, 0]);
}

#[test]
fn string_map_keeps_insertion_order() {
    let mut writer = Writer::new();
    let mut map = StringMap::new();
    map.insert(String::from("b"), String::from(""));
    map.insert(String::from("a"), String::from(""));
    writer.write_string_map(&map);
    let bytes = writer.into_bytes();
    assert_eq!(
        bytes,
        [0, 0, 0, 18, 0, 0, 0, 1, 98, 0, 0, 0, 0, 0, 0, 0, 1, 97, 0, 0, 0, 0]
    );
}

#[test]
fn string_map_insert_replaces_existing_key() {
    let mut map = StringMap::new();
    map.insert(String::from("k"), String::from("old"));
    map.insert(String::from("k"), String::from("vv"));
    assert_eq!(map.len(), 1);
    let mut writer = Writer::new();
    writer.write_string_map(&map);
    let bytes = writer.into_bytes();
    assert_eq!(
        bytes,
        [0, 0, 0, 15, 0, 0, 0, 1, 107, 0, 0, 0, 6, 0, 0, 0, 2, 118, 118]
    );
}

#[test]
fn pub_key_ed25519() {
    let key_bytes: Vec<u8> = (1..=32).collect();
    let key = PublicKey {
        kind: PublicKeyKind::Ed25519(Ed25519PublicKey {
            key: key_bytes.clone(),
        }),
    };
    let mut writer = Writer::new();
    writer.write_pub_key(&key);
    let bytes = writer.into_bytes();
    let mut expected = vec![0, 0, 0, 32];
    expected.extend_from_slice(&key_bytes);
    assert_eq!(bytes, expected);
}

#[test]
fn pub_key_rsa_writes_n_then_e_verbatim() {
    let key = PublicKey {
        kind: PublicKeyKind::Rsa(RsaPublicKey {
            n: vec![0xC3, 0x01],
            e: vec![1, 0, 1],
        }),
    };
    let mut writer = Writer::new();
    writer.write_pub_key(&key);
    let bytes = writer.into_bytes();
    // No mpint canonicalization: 0xC3 keeps its place with no zero byte.
    assert_eq!(bytes, [0, 0, 0, 2, 0xC3, 0x01, 0, 0, 0, 3, 1, 0, 1]);
}

#[test]
fn pub_key_ecdsa_writes_curve_then_point() {
    let key = PublicKey {
        kind: PublicKeyKind::Ecdsa(EcdsaPublicKey {
            curve: String::from("nistp256"),
            key: vec![4, 9, 9],
        }),
    };
    let mut writer = Writer::new();
    writer.write_pub_key(&key);
    let bytes = writer.into_bytes();
    let mut expected = vec![0, 0, 0, 8];
    expected.extend_from_slice(b"nistp256");
    expected.extend_from_slice(&[0, 0, 0, 3, 4, 9, 9]);
    assert_eq!(bytes, expected);
}

#[test]
fn writes_are_additive() {
    let mut writer = Writer::new();
    let mut expected_len = 0;
    writer.write_u32(7);
    expected_len += 4;
    writer.write_u64(7);
    expected_len += 8;
    writer.write_bytes(&[1, 2, 3]);
    expected_len += 4 + 3;
    writer.write_string("Test");
    expected_len += 4 + 4;
    writer.write_mpint(&[0x90]);
    expected_len += 4 + 2;
    writer.write_string_vec(&[String::from("ab")]);
    expected_len += 4 + 4 + 2;
    assert_eq!(writer.as_bytes().len(), expected_len);
}

#[test]
fn as_bytes_is_idempotent() {
    let mut writer = Writer::new();
    writer.write_string("some data");
    let first: Vec<u8> = writer.as_bytes().to_vec();
    let second: Vec<u8> = writer.as_bytes().to_vec();
    assert_eq!(first, second);
    assert_eq!(
        writer.into_bytes(),
        [0, 0, 0, 9, 115, 111, 109, 101, 32, 100, 97, 116, 97]
    );
}
