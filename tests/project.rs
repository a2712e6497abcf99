use unlock_excel::data_encryption::encode;
use unlock_excel::error::{
    DataEncryption, Password as PasswordError, PasswordNone, PasswordPlain, ProjectStructure,
    ProtectionState as ProtectionError, Visibility as VisibilityError,
};
use unlock_excel::hex::Data;
use unlock_excel::password_hash::encode_password_with_salt;
use unlock_excel::project::fields::{decode_password, decode_protection_state, decode_visibility};
use unlock_excel::project::{Password, Project, ProtectionState, Visibility};
use unlock_excel::read::try_solve_password;
use unlock_excel::remove::{unlocked_project, UNLOCKED_CMG, UNLOCKED_DPB, UNLOCKED_GC, UNLOCKED_ID};

fn hex_of(bytes: Vec<u8>) -> String {
    Data::from(bytes).to_hex()
}

fn stream(name: &str, cmg: &str, dpb: &str, gc: &str) -> Vec<u8> {
    let text = format!(
        "ID=\"{{5D8F5A0F-D1B1-4A9B-8E5E-0BBA6C3F1F11}}\"\r\n\
         Document=ThisWorkbook/&H00000000\r\n\
         Document=Sheet1/&H00000000\r\n\
         Module=Module1\r\n\
         Name={name}\r\n\
         HelpContextID=\"0\"\r\n\
         VersionCompatible32=\"393222000\"\r\n\
         CMG=\"{cmg}\"\r\n\
         DPB=\"{dpb}\"\r\n\
         GC=\"{gc}\"\r\n\
         \r\n\
         [Host Extender Info]\r\n\
         &H00000001={{3832D640-CF90-11CF-8E43-00A0C911005A}};VBE;&H00000000\r\n\
         \r\n\
         [Workspace]\r\n\
         ThisWorkbook=0, 0, 0, 0, C\r\n\
         Sheet1=0, 0, 0, 0, C\r\n\
         Module1=26, 26, 1349, 522, Z\r\n"
    );
    text.into_bytes()
}

fn unlocked_sample() -> Vec<u8> {
    stream("\"VBAProject\"", "1E1C02263E5A585E585E585E585E", "3C3E2044206321632163", "5A58466A656B656B9A")
}

fn locked_sample() -> Vec<u8> {
    let cmg = hex_of(encode(0x13, 0x57, &[0x07, 0x00, 0x00, 0x00]));
    let record = encode_password_with_salt("P@ssw0rd", &[0x4a, 0x4d, 0x2a, 0x15]).unwrap();
    let dpb = hex_of(encode(0x6c, 0x57, record.as_slice()));
    let gc = hex_of(encode(0x21, 0x57, &[0x00]));
    stream("\"VBAProject\"", &cmg, &dpb, &gc)
}

#[test]
fn unlocked_sample_is_not_locked() {
    let p = Project::from_stream(&unlocked_sample()).unwrap();
    assert!(!p.is_locked());
    assert_eq!(p.password(), &Password::NoPassword);
}

#[test]
fn locked_sample_holds_a_hash_that_the_word_list_cracks() {
    let p = Project::from_stream(&locked_sample()).unwrap();
    assert!(p.is_locked());
    assert!(matches!(p.password(), Password::Hash(salt, _) if *salt == [0x4a, 0x4d, 0x2a, 0x15]));
    let words = ["123456", "password", "P@ssw0rd", "qwerty"];
    assert_eq!(try_solve_password(p.password(), &words), Some(String::from("P@ssw0rd")));
    assert_eq!(try_solve_password(p.password(), &words[..2]), None);
    assert_eq!(try_solve_password(&Password::NoPassword, &words), None);
}

#[test]
fn name_holds_one_to_128_characters() {
    let ok = |name: &str| {
        let s = stream(name, "1E1C02263E5A585E585E585E585E", "3C3E2044206321632163", "5A58466A656B656B9A");
        Project::from_stream(&s)
    };
    assert!(ok("\"A\"").is_ok());
    assert!(ok(&format!("\"{}\"", "n".repeat(128))).is_ok());
    assert!(matches!(ok("\"\""), Err(ProjectStructure::Grammar(_, _))));
    assert!(matches!(ok(&format!("\"{}\"", "n".repeat(129))), Err(ProjectStructure::Grammar(_, _))));
    assert!(ok("\"Say \"\"hi\"\"\"").is_ok());
}

#[test]
fn grammar_error_holds_the_input_left_and_the_stream() {
    let s = stream("\"\"", "1E1C02263E5A585E585E585E585E", "3C3E2044206321632163", "5A58466A656B656B9A");
    let text = String::from_utf8(s.clone()).unwrap();
    let at = text.find("\"\"\r\nHelpContextID").unwrap() + 1;
    assert_eq!(
        Project::from_stream(&s).unwrap_err(),
        ProjectStructure::Grammar(s[at..].to_vec(), s.clone())
    );
}

#[test]
fn bare_line_feeds_are_refused() {
    let s: Vec<u8> = unlocked_sample().into_iter().filter(|b| *b != b'\r').collect();
    assert!(matches!(Project::from_stream(&s), Err(ProjectStructure::Grammar(_, _))));
}

#[test]
fn field_errors_come_through() {
    let bad_cmg = hex_of(encode(0x13, 0x57, &[0x08, 0x00, 0x00, 0x00]));
    let s = stream("\"P\"", &bad_cmg, "3C3E2044206321632163", "5A58466A656B656B9A");
    assert_eq!(
        Project::from_stream(&s).unwrap_err(),
        ProjectStructure::ProtectionState(
            ProtectionError::ReservedBits([0x08, 0, 0, 0]),
            s[s.windows(5).position(|w| w == b"CMG=\"").unwrap()..].to_vec(),
            s.clone()
        )
    );
    let bad_gc = hex_of(encode(0x21, 0x57, &[0x01]));
    let s = stream("\"P\"", "1E1C02263E5A585E585E585E585E", "3C3E2044206321632163", &bad_gc);
    assert_eq!(
        Project::from_stream(&s).unwrap_err(),
        ProjectStructure::Visibility(
            VisibilityError::InvalidState(0x01),
            s[s.windows(4).position(|w| w == b"GC=\"").unwrap()..].to_vec(),
            s.clone()
        )
    );
}

#[test]
fn protection_state_bits() {
    assert_eq!(
        decode_protection_state(&encode(0x02, 0x11, &[0x05, 0, 0, 0])),
        Ok(ProtectionState { user: true, host: false, vbe: true })
    );
    assert_eq!(
        decode_protection_state(&encode(0x02, 0x11, &[0x00, 0, 1, 0])),
        Err(ProtectionError::ReservedBits([0, 0, 1, 0]))
    );
    assert_eq!(
        decode_protection_state(&encode(0x02, 0x11, &[0x00, 0])),
        Err(ProtectionError::DataLength(2))
    );
    assert_eq!(
        decode_protection_state(&[0x00, 0x03, 0, 0, 0, 0, 0, 0]),
        Err(ProtectionError::Decrypt(DataEncryption::Version(3)))
    );
}

#[test]
fn password_forms() {
    assert_eq!(decode_password(&encode(0x02, 0x11, &[0x00])), Ok(Password::NoPassword));
    assert_eq!(
        decode_password(&encode(0x02, 0x11, &[0x07])),
        Err(PasswordError::NoPassword(PasswordNone::NotNull(0x07)))
    );
    assert_eq!(decode_password(&encode(0x02, 0x11, &[])), Err(PasswordError::NoData));
    assert_eq!(
        decode_password(&encode(0x02, 0x11, b"secret\0")),
        Ok(Password::Plain(String::from("secret")))
    );
    assert_eq!(
        decode_password(&encode(0x02, 0x11, &[0x41, 0xff, 0x00])),
        Ok(Password::Plain(String::from("A\u{fffd}")))
    );
    assert_eq!(
        decode_password(&encode(0x02, 0x11, b"secret")),
        Err(PasswordError::PlainText(PasswordPlain::Terminator(b't')))
    );
    assert!(matches!(
        decode_password(&encode(0x02, 0x11, &[0u8; 29])),
        Err(PasswordError::Hash(_))
    ));
}

#[test]
fn visibility_states() {
    assert_eq!(decode_visibility(&encode(0x04, 0x11, &[0x00])), Ok(Visibility::NotVisible));
    assert_eq!(decode_visibility(&encode(0x04, 0x11, &[0xff])), Ok(Visibility::Visible));
    assert_eq!(
        decode_visibility(&encode(0x04, 0x11, &[0x00, 0x00])),
        Err(VisibilityError::DataLength(2))
    );
}

#[test]
fn removal_replaces_the_four_lines() {
    let locked = locked_sample();
    let out = unlocked_project(&locked);
    let text = String::from_utf8(out.clone()).unwrap();
    assert!(text.starts_with(UNLOCKED_ID));
    assert!(text.contains(UNLOCKED_CMG));
    assert!(text.contains(UNLOCKED_DPB));
    assert!(text.contains(UNLOCKED_GC));
    assert!(text.contains("Document=ThisWorkbook/&H00000000\r\n"));
    let p = Project::from_stream(&out).unwrap();
    assert!(!p.is_locked());
    assert_eq!(p.password(), &Password::NoPassword);
}

#[test]
fn removal_copies_other_lines() {
    let input = b"Name=\"x\"\r\nGC=\"\nGC=\r\nlast";
    let out = unlocked_project(input);
    let mut expected = b"Name=\"x\"\r\n".to_vec();
    expected.extend_from_slice(UNLOCKED_GC.as_bytes());
    expected.extend_from_slice(b"GC=\r\nlast");
    assert_eq!(out, expected);
    assert_eq!(unlocked_project(b""), Vec::<u8>::new());
    assert_eq!(unlocked_project(b"GC=\""), b"GC=\"".to_vec());
}

#[test]
fn hex_text_round_trip() {
    let d: Data = Data::from_hex("00a1FF7").unwrap();
    assert_eq!(d.as_slice(), &[0x00, 0xa1, 0xff]);
    assert_eq!(d.to_hex(), "00A1FF");
    assert_eq!(Data::from_hex("12g4").unwrap_err().0, "12g4");
    assert_eq!(Data::from_hex("").unwrap().into_inner(), Vec::<u8>::new());
}

#[test]
fn data_parses_from_text() {
    let d: Data = "0aFf".parse().unwrap();
    assert_eq!(d.into_inner(), vec![0x0a, 0xff]);
    assert!("0x".parse::<Data>().is_err());
}

#[test]
fn random_salt_record_is_valid() {
    let enc = unlock_excel::password_hash::encode_password("P@ssw0rd");
    let bytes = enc.as_slice();
    assert_eq!(bytes.len(), 29);
    assert_eq!(bytes[0], 0xff);
    assert_eq!(bytes[28], 0x00);
    assert!(bytes[4..28].iter().all(|b| *b != 0));
    assert!(unlock_excel::password_hash::decode(bytes).is_ok());
}

#[test]
fn a_project_may_have_no_items() {
    let s = unlocked_sample();
    let text = String::from_utf8(s).unwrap();
    let start = text.find("Document=").unwrap();
    let end = text.find("Name=").unwrap();
    let without = format!("{}{}", &text[..start], &text[end..]);
    let p = Project::from_stream(without.as_bytes()).unwrap();
    assert!(!p.is_locked());
    let blank = format!("{}\r\n{}", &text[..start], &text[end..]);
    assert!(matches!(
        Project::from_stream(blank.as_bytes()),
        Err(ProjectStructure::Grammar(_, _))
    ));
}

#[test]
fn names_in_a_code_page_are_read() {
    let mut s = b"ID=\"{5D8F5A0F-D1B1-4A9B-8E5E-0BBA6C3F1F11}\"\r\nName=\"Caf".to_vec();
    s.extend_from_slice(&[0xe9]);
    s.extend_from_slice(
        b"\"\r\nHelpContextID=\"0\"\r\nCMG=\"1E1C02263E5A585E585E585E585E\"\r\n\
          DPB=\"3C3E2044206321632163\"\r\nGC=\"5A58466A656B656B9A\"\r\n\r\n[Host Extender Info]\r\n",
    );
    let p = Project::from_stream(&s).unwrap();
    assert!(!p.is_locked());
}
