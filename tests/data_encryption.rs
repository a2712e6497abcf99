use unlock_excel::data_encryption::{decode, encode};
use unlock_excel::error::DataEncryption;

fn lower_hex(bytes: &[u8]) -> String {
    bytes.iter().fold(String::new(), |s, b| format!("{s}{b:02x}"))
}

#[test]
fn decrypt_too_short() {
    let test = [0x21, 0x34, 0x56, 0x78, 0x4a, 0x3b, 0x2f];
    assert_eq!(Err(DataEncryption::TooShort(lower_hex(&test))), decode(&test));
    let test = [0x7e, 0x2f];
    assert_eq!(Err(DataEncryption::TooShort(lower_hex(&test))), decode(&test));
}

#[test]
fn decrypt_version_not_2() {
    let test = [0x01, 0x23, 0x45, 0x67, 0x89, 0xab, 0xcd, 0xef];
    assert_eq!(Err(DataEncryption::Version(0x01 ^ 0x23)), decode(&test));
}

#[test]
fn decrypt_data_length_mismatch() {
    let test = [0x11, 0x13, 0xeb, 0x02, 0xfa, 0x02, 0xfa, 0x6d, 0x27];
    assert_eq!(Err(DataEncryption::LengthMismatch(2, 15)), decode(&test));
}

#[test]
fn encrypt_and_decrypt() {
    let raw =
        b"When he was nearly thirteen, my brother Jem got his arm badly broken at the elbow.";
    let enc = encode(0x0c, 0x9f, raw);
    let dec = decode(&enc).unwrap();
    assert_eq!(&raw[..], &dec);
}

#[test]
fn too_short_keeps_the_input_as_hex() {
    assert_eq!(
        Err(DataEncryption::TooShort(String::from("00ff10ab"))),
        decode(&[0x00, 0xff, 0x10, 0xab])
    );
    assert_eq!(Err(DataEncryption::TooShort(String::new())), decode(&[]));
}

#[test]
fn every_version_but_two_is_refused() {
    for seed in [0x00u8, 0x5a, 0xff] {
        for version in [0u8, 1, 3, 0x80, 0xff] {
            let test = [seed, seed ^ version, 0x00, 0x00, 0x00, 0x00, 0x00, 0x00];
            assert_eq!(Err(DataEncryption::Version(version)), decode(&test));
        }
    }
}

#[test]
fn round_trip_over_seeds_and_keys() {
    let payload: Vec<u8> = (0u8..=200).collect();
    for seed in [0x00u8, 0x02, 0x04, 0x06, 0x0c, 0xff] {
        for key in [0x00u8, 0x7f, 0x9f, 0xff] {
            for n in [1usize, 2, 17, 201] {
                let enc = encode(seed, key, &payload[..n]);
                assert_eq!(enc.len(), 3 + usize::from((seed & 6) >> 1) + 4 + n);
                assert_eq!(decode(&enc).unwrap(), payload[..n].to_vec());
            }
        }
    }
}

#[test]
fn empty_payload_round_trips_with_ignored_bytes() {
    let enc = encode(0x02, 0x11, &[]);
    assert_eq!(enc.len(), 8);
    assert_eq!(decode(&enc).unwrap(), Vec::<u8>::new());
    let enc = encode(0x00, 0x11, &[]);
    assert_eq!(enc.len(), 7);
    assert!(matches!(decode(&enc), Err(DataEncryption::TooShort(_))));
}

#[test]
fn long_payloads_round_trip() {
    for n in [255usize, 256, 300, 4096, 0x10000, 0x12345] {
        let payload: Vec<u8> = (0..n).map(|i| (i * 7 % 251) as u8).collect();
        let enc = encode(0x06, 0x42, &payload);
        assert_eq!(decode(&enc).unwrap(), payload);
    }
}

#[test]
fn length_is_written_four_bits_apart() {
    // 0x123 bytes: the plain length bytes are 3, 2, 1, 0
    let enc = encode(0x00, 0x00, &[0u8; 0x123]);
    let mut plain = Vec::new();
    let (mut p1, mut e1, mut e2) = (0u8, enc[2], enc[1]);
    for e in &enc[3..7] {
        let p = e ^ e2.wrapping_add(p1);
        plain.push(p);
        e2 = e1;
        e1 = *e;
        p1 = p;
    }
    assert_eq!(plain, vec![3, 2, 1, 0]);
}

#[test]
fn encode_is_fixed() {
    assert_eq!(
        encode(0x00, 0x00, &[0x00]),
        vec![0x00, 0x02, 0x00, 0x03, 0x01, 0x03, 0x01, 0x03]
    );
}
