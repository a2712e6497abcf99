use unlock_excel::error::{PasswordHash, PasswordHashEncode};
use unlock_excel::password_hash::{
    decode, encode, encode_password, encode_password_with_salt, generate_hash, password_match,
    password_match_hash,
};

const SALT: [u8; 4] = [0x12, 0x34, 0x56, 0x78];
const HASH: [u8; 20] = [
    0x11, 0x22, 0x33, 0x44, 0x55, 0x66, 0x77, 0x88, 0x99, 0xaa, 0xbb, 0xcc, 0xdd, 0xee, 0xff,
    0x11, 0x22, 0x33, 0x44, 0x55,
];

fn record(reserved: u8, grbits: [u8; 3], salt: &[u8; 4], hash: &[u8; 20], terminator: u8) -> Vec<u8> {
    let mut data = Vec::new();
    data.push(reserved);
    data.extend_from_slice(&grbits);
    data.extend_from_slice(salt);
    data.extend_from_slice(hash);
    data.push(terminator);
    data
}

#[test]
fn encoded_too_short() {
    let data = [0xff, 0x00];
    assert_eq!(Err(PasswordHash::Length(2)), decode(&data));
    let data = b"This is an array in disguise";
    assert_eq!(Err(PasswordHash::Length(28)), decode(data));
}

#[test]
fn encoded_too_long() {
    let data = [0xff; 1_000];
    assert_eq!(Err(PasswordHash::Length(1_000)), decode(&data));
    let data = b"This is a longer array in disguise";
    assert_eq!(Err(PasswordHash::Length(34)), decode(data));
}

#[test]
fn bad_start_value() {
    let data = record(0xfe, [0b1111_1111, 0b1111_1111, 0b1111_1111], &SALT, &HASH, 0x00);
    assert_eq!(Err(PasswordHash::Reserved(0xfe)), decode(&data));
}

#[test]
fn bad_end_value() {
    let data = record(0xff, [0b1111_1111, 0b1111_1111, 0b1111_1111], &SALT, &HASH, 0x01);
    assert_eq!(Err(PasswordHash::Terminator(0x01)), decode(&data));
}

#[test]
fn bad_salt_null() {
    let data = record(0xff, [0b1111_1101, 0b1111_1111, 0b1111_1111], &SALT, &HASH, 0x00);
    assert_eq!(Err(PasswordHash::SaltNull(SALT, 1)), decode(&data));
}

#[test]
fn bad_hash_null() {
    let data = record(0xff, [0b1011_1111, 0b1111_1111, 0b1111_1111], &SALT, &HASH, 0x00);
    assert_eq!(Err(PasswordHash::HashNull(HASH, 2)), decode(&data));
    let data = record(0xff, [0b1111_1111, 0b1111_1011, 0b1111_1111], &SALT, &HASH, 0x00);
    assert_eq!(Err(PasswordHash::HashNull(HASH, 6)), decode(&data));
    let data = record(0xff, [0b1111_1111, 0b1111_1111, 0b0111_1111], &SALT, &HASH, 0x00);
    assert_eq!(Err(PasswordHash::HashNull(HASH, 19)), decode(&data));
}

#[test]
fn ok_no_null() {
    let data = record(0xff, [0b1111_1111, 0b1111_1111, 0b1111_1111], &SALT, &HASH, 0x00);
    let (ds, dh) = decode(&data).unwrap();
    assert_eq!(SALT, ds);
    assert_eq!(HASH, dh);
}

#[test]
fn ok_with_null() {
    let mut salt = [0x12, 0x34, 0x01, 0x78];
    let mut hash = HASH;
    hash[11] = 0x01;
    let data = record(0xff, [0b1111_1011, 0b0111_1111, 0b1111_1111], &salt, &hash, 0x00);
    let (ds, dh) = decode(&data).unwrap();
    salt[2] = 0x00;
    hash[11] = 0x00;
    assert_eq!(salt, ds);
    assert_eq!(hash, dh);
}

#[test]
fn encode_and_decode() {
    let enc = encode(&SALT, HASH).unwrap();
    let (ds, dh) = decode(enc.as_slice()).unwrap();
    assert_eq!(SALT, ds);
    assert_eq!(HASH, dh);
}

#[test]
fn encode_and_decode_with_nulls() {
    let salt = [0x12, 0x00, 0x56, 0x00];
    let hash = [
        0x00, 0x22, 0x00, 0x44, 0x55, 0x66, 0x77, 0x88, 0x99, 0xaa, 0xbb, 0xcc, 0xdd, 0x00, 0xff,
        0x11, 0x22, 0x33, 0x00, 0x55,
    ];
    let enc = encode(&salt, hash).unwrap();
    let (ds, dh) = decode(enc.as_slice()).unwrap();
    assert_eq!(salt, ds);
    assert_eq!(hash, dh);
}

#[test]
fn encoded_password_matches() {
    let password = "CorrectHorseBatteryStaple";
    let enc = encode_password(password);
    assert!(password_match(password, enc.as_slice()).unwrap());
    let password = "P@ssw0rd";
    let enc = encode_password(password);
    assert!(password_match(password, enc.as_slice()).unwrap());
}

#[test]
fn encoded_password_matches_no_random() {
    let salt = [0x4a, 0x4d, 0x2a, 0x15];
    let password = "CorrectHorseBatteryStaple";
    let enc = encode_password_with_salt(password, &salt).unwrap();
    assert!(password_match(password, enc.as_slice()).unwrap());
    let password = "P@ssw0rd";
    let enc = encode_password_with_salt(password, &salt).unwrap();
    assert!(password_match(password, enc.as_slice()).unwrap());
}

#[test]
fn other_password_does_not_match() {
    let enc = encode_password("CorrectHorseBatteryStaple");
    assert!(!password_match("CorrectHorseBatteryStapler", enc.as_slice()).unwrap());
    assert!(!password_match("", enc.as_slice()).unwrap());
}

#[test]
fn encoded_record_layout() {
    let enc = encode(&[0x00, 0x01, 0x00, 0x02], [0u8; 20]).unwrap();
    let bytes = enc.as_slice();
    assert_eq!(bytes.len(), 29);
    assert_eq!(bytes[0], 0xff);
    assert_eq!(bytes[1], 0b0000_1010);
    assert_eq!(bytes[2], 0x00);
    assert_eq!(bytes[3], 0x00);
    assert_eq!(&bytes[4..8], &[0x01, 0x01, 0x01, 0x02]);
    assert!(bytes[8..28].iter().all(|b| *b == 0x01));
    assert_eq!(bytes[28], 0x00);
}

#[test]
fn salt_must_be_four_bytes() {
    assert_eq!(Err(PasswordHashEncode::SaltLength(3)), encode(&[1, 2, 3], HASH));
    assert_eq!(
        Err(PasswordHashEncode::SaltLength(5)),
        encode_password_with_salt("x", &[1, 2, 3, 4, 5])
    );
}

#[test]
fn sha1_of_salted_password() {
    // SHA-1 of "abc"
    let expected = [
        0xa9, 0x99, 0x3e, 0x36, 0x47, 0x06, 0x81, 0x6a, 0xba, 0x3e, 0x25, 0x71, 0x78, 0x50, 0xc2,
        0x6c, 0x9c, 0xd0, 0xd8, 0x9d,
    ];
    assert_eq!(generate_hash("a", b"bc"), expected);
    assert!(password_match_hash("ab", [b'c', 0, 0, 0], generate_hash("ab", &[b'c', 0, 0, 0])));
    assert!(!password_match_hash("ab", *b"c\0\0\0", expected));
}
