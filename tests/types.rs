use unlock_excel::types::{
    guid, hex_int_32, hexdigits, int_32, module_identifier, new_line, path, quoted_character,
    quoted_characters, whitespace, ErrorKind, ParseError,
};

fn err<T>(input: &[u8], kind: ErrorKind) -> Result<(&'static [u8], T), ParseError> {
    Err(ParseError::new(input, kind))
}

#[test]
fn guid_well_formed() {
    assert_eq!(guid::parse(b"{00000000-0000-0000-0000-000000000000}"), Ok((&b""[..], 0)));
    assert_eq!(
        guid::parse(b"{3832D640-CF90-11CF-8E43-00A0C911005A}"),
        Ok((&b""[..], u128::from_str_radix("3832d640cf9011cf8e4300a0c911005a", 16).unwrap()))
    );
}

#[test]
fn guid_further_data() {
    assert_eq!(
        guid::parse(b"{3832D640-CF90-11CF-8E43-00A0C911005A}{00000000-0000-0000-0000-000000000000}"),
        Ok((
            &b"{00000000-0000-0000-0000-000000000000}"[..],
            u128::from_str_radix("3832d640cf9011cf8e4300a0c911005a", 16).unwrap()
        ))
    );
}

#[test]
fn missing_start() {
    assert_eq!(
        guid::parse(b"3832D640-CF90-11CF-8E43-00A0C911005A}"),
        err(b"3832D640-CF90-11CF-8E43-00A0C911005A}", ErrorKind::Tag)
    );
}

#[test]
fn missing_end() {
    assert_eq!(guid::parse(b"{3832D640-CF90-11CF-8E43-00A0C911005A"), err(b"", ErrorKind::Tag));
}

#[test]
fn missing_hyphen() {
    assert_eq!(
        guid::parse(b"{3832D640CF90-11CF-8E43-00A0C911005A}"),
        err(b"CF90-11CF-8E43-00A0C911005A}", ErrorKind::Tag)
    );
    assert_eq!(
        guid::parse(b"{3832D640-CF9011CF-8E43-00A0C911005A}"),
        err(b"11CF-8E43-00A0C911005A}", ErrorKind::Tag)
    );
    assert_eq!(
        guid::parse(b"{3832D640-CF90-11CF8E43-00A0C911005A}"),
        err(b"8E43-00A0C911005A}", ErrorKind::Tag)
    );
    assert_eq!(
        guid::parse(b"{3832D640-CF90-11CF-8E4300A0C911005A}"),
        err(b"00A0C911005A}", ErrorKind::Tag)
    );
}

#[test]
fn missing_numbers() {
    assert_eq!(
        guid::parse(b"{3832D64-CF90-11CF-8E43-00A0C911005A}"),
        err(b"3832D64-", ErrorKind::HexDigit)
    );
    assert_eq!(
        guid::parse(b"{3832D640-CF9-11CF-8E43-00A0C911005A}"),
        err(b"CF9-", ErrorKind::HexDigit)
    );
    assert_eq!(
        guid::parse(b"{3832D640-CF90-11C-8E43-00A0C911005A}"),
        err(b"11C-", ErrorKind::HexDigit)
    );
    assert_eq!(
        guid::parse(b"{3832D640-CF90-11CF-8E4-00A0C911005A}"),
        err(b"8E4-", ErrorKind::HexDigit)
    );
    assert_eq!(
        guid::parse(b"{3832D640-CF90-11CF-8E43-00A0C911005}"),
        err(b"00A0C911005}", ErrorKind::HexDigit)
    );
}

#[test]
fn extra_numbers() {
    assert_eq!(
        guid::parse(b"{3832D6402-CF90-11CF-8E43-00A0C911005A}"),
        err(b"2-CF90-11CF-8E43-00A0C911005A}", ErrorKind::Tag)
    );
    assert_eq!(
        guid::parse(b"{3832D640-CF903-11CF-8E43-00A0C911005A}"),
        err(b"3-11CF-8E43-00A0C911005A}", ErrorKind::Tag)
    );
    assert_eq!(
        guid::parse(b"{3832D640-CF90-11CFA-8E43-00A0C911005A}"),
        err(b"A-8E43-00A0C911005A}", ErrorKind::Tag)
    );
    assert_eq!(
        guid::parse(b"{3832D640-CF90-11CF-8E439-00A0C911005A}"),
        err(b"9-00A0C911005A}", ErrorKind::Tag)
    );
    assert_eq!(
        guid::parse(b"{3832D640-CF90-11CF-8E43-00A0C911005A0}"),
        err(b"0}", ErrorKind::Tag)
    );
}

#[test]
fn guid_groups_join_most_significant_first() {
    assert_eq!(
        guid::parse(b"{00000001-0002-0003-0004-000000000005}"),
        Ok((&b""[..], (1u128 << 96) | (2 << 80) | (3 << 64) | (4 << 48) | 5))
    );
    assert_eq!(
        guid::parse(b"{FFFFFFFF-FFFF-ffff-FFFF-ffffffffffff}"),
        Ok((&b""[..], u128::MAX))
    );
}

#[test]
fn hex_int_32_well_formed() {
    assert_eq!(hex_int_32::parse(b"&H00000000"), Ok((&b""[..], 0)));
    assert_eq!(
        hex_int_32::parse(b"&H7A12CF0A"),
        Ok((&b""[..], i32::from_str_radix("7a12cf0a", 16).unwrap()))
    );
}

#[test]
fn hex_int_32_further_data() {
    assert_eq!(
        hex_int_32::parse(b"&H7A12CF0A0122"),
        Ok((&b"0122"[..], i32::from_str_radix("7a12cf0a", 16).unwrap()))
    );
}

#[test]
fn missing_opening_tag() {
    assert_eq!(hex_int_32::parse(b"H7A12CF0A"), err(b"H7A12CF0A", ErrorKind::Tag));
    assert_eq!(hex_int_32::parse(b"&7A12CF0A"), err(b"&7A12CF0A", ErrorKind::Tag));
    assert_eq!(hex_int_32::parse(b"7A12CF0A"), err(b"7A12CF0A", ErrorKind::Tag));
}

#[test]
fn hex_int_32_too_short() {
    assert_eq!(hex_int_32::parse(b"&H7A12CF"), err(b"7A12CF", ErrorKind::Eof));
    assert_eq!(hex_int_32::parse(b"&H"), err(b"", ErrorKind::Eof));
}

#[test]
fn not_hex() {
    assert_eq!(hex_int_32::parse(b"&H7A12CF!A"), err(b"7A12CF!A", ErrorKind::HexDigit));
    assert_eq!(hex_int_32::parse(b"&H7A 2CF0A"), err(b"7A 2CF0A", ErrorKind::HexDigit));
}

#[test]
fn hex_int_32_high_bit_is_the_sign() {
    assert_eq!(hex_int_32::parse(b"&HFFFFFFFF"), Ok((&b""[..], -1)));
    assert_eq!(hex_int_32::parse(b"&H80000000"), Ok((&b""[..], i32::MIN)));
    assert_eq!(hex_int_32::parse(b"&H-0000001"), err(b"-0000001", ErrorKind::HexDigit));
}

#[test]
fn hexdigits_well_formed() {
    assert_eq!(
        hexdigits::parse(&b"a1dc9183"[..], 0, 20),
        Ok((&b""[..], vec![0xa1, 0xdc, 0x91, 0x83]))
    );
    assert_eq!(
        hexdigits::parse(&b"A1DC9183"[..], 0, 20),
        Ok((&b""[..], vec![0xa1, 0xdc, 0x91, 0x83]))
    );
}

#[test]
fn empty() {
    assert_eq!(hexdigits::parse(&b""[..], 0, 20), Ok((&b""[..], vec![])));
}

#[test]
fn odd_number_input() {
    assert_eq!(
        hexdigits::parse(&b"a1dc9183c"[..], 0, 20),
        Ok((&b"c"[..], vec![0xa1, 0xdc, 0x91, 0x83]))
    );
    assert_eq!(hexdigits::parse(&b"3"[..], 0, 20), Ok((&b"3"[..], vec![])));
}

#[test]
fn hexdigits_too_short() {
    assert_eq!(hexdigits::parse(&b"a1dc9183"[..], 16, 20), err(b"", ErrorKind::TakeWhileMN));
}

#[test]
fn hexdigits_further_data() {
    assert_eq!(
        hexdigits::parse(&b"a1dc9183"[..], 0, 6),
        Ok((&b"83"[..], vec![0xa1, 0xdc, 0x91]))
    );
    assert_eq!(
        hexdigits::parse(&b"a1dc9183\r\n012345"[..], 0, 20),
        Ok((&b"\r\n012345"[..], vec![0xa1, 0xdc, 0x91, 0x83]))
    );
}

#[test]
fn int_32_well_formed() {
    assert_eq!(int_32::parse(b"0"), Ok((&b""[..], 0)));
    assert_eq!(int_32::parse(b"12340"), Ok((&b""[..], 12340)));
    assert_eq!(int_32::parse(b"-7789"), Ok((&b""[..], -7789)));
}

#[test]
fn int_32_further_data() {
    assert_eq!(int_32::parse(b"12340\r\n"), Ok((&b"\r\n"[..], 12340)));
}

#[test]
fn too_large() {
    assert_eq!(int_32::parse(b"2147483647"), Ok((&b""[..], 2_147_483_647)));
    assert_eq!(int_32::parse(b"-2147483648"), Ok((&b""[..], -2_147_483_648)));
    assert_eq!(int_32::parse(b"2147483648"), err(b"2147483648", ErrorKind::MapRes));
    assert_eq!(int_32::parse(b"-2147483649"), err(b"-2147483649", ErrorKind::MapRes));
}

#[test]
fn int_32_invalid_character() {
    assert_eq!(int_32::parse(b".24"), err(b".24", ErrorKind::Digit));
}

#[test]
fn int_32_edges() {
    assert_eq!(int_32::parse(b"-"), err(b"", ErrorKind::Digit));
    assert_eq!(int_32::parse(b"-x"), err(b"x", ErrorKind::Digit));
    assert_eq!(int_32::parse(b"0000000000002147483647,"), Ok((&b","[..], i32::MAX)));
    assert_eq!(
        int_32::parse(b"99999999999999999999999"),
        err(b"99999999999999999999999", ErrorKind::MapRes)
    );
}

#[test]
fn bad_leading_char() {
    assert_eq!(module_identifier::parse(b"01234"), err(b"01234", ErrorKind::TakeWhileMN));
    assert_eq!(module_identifier::parse(b" 1234"), err(b" 1234", ErrorKind::TakeWhileMN));
    assert_eq!(module_identifier::parse(b"*1234"), err(b"*1234", ErrorKind::TakeWhileMN));
}

#[test]
fn long_input() {
    assert_eq!(
        module_identifier::parse(b"A_really_really_long_string_that_is_more_than_31_characters"),
        Ok((
            &b"t_is_more_than_31_characters"[..],
            String::from("A_really_really_long_string_tha")
        ))
    );
}

#[test]
fn terminating_char() {
    assert_eq!(module_identifier::parse(b"A01234\n"), Ok((&b"\n"[..], String::from("A01234"))));
    assert_eq!(
        module_identifier::parse(b"A01234\r\n"),
        Ok((&b"\r\n"[..], String::from("A01234")))
    );
    assert_eq!(
        module_identifier::parse(b"A01234\n\r"),
        Ok((&b"\n\r"[..], String::from("A01234")))
    );
    assert_eq!(
        module_identifier::parse(b"A01234&another_thing"),
        Ok((&b"&another_thing"[..], String::from("A01234")))
    );
}

#[test]
fn short_input() {
    assert_eq!(module_identifier::parse(b"A_module"), Ok((&b""[..], String::from("A_module"))));
    assert_eq!(
        module_identifier::parse(b"A_really_really_long_module_xxx"),
        Ok((&b""[..], String::from("A_really_really_long_module_xxx")))
    );
}

#[test]
fn new_line_well_formed() {
    assert_eq!(new_line::parse(b"\r\n"), Ok((&b""[..], b'\n')));
    assert_eq!(new_line::parse(b"\n\r"), Ok((&b""[..], b'\n')));
}

#[test]
fn new_line_further_data() {
    assert_eq!(new_line::parse(b"\r\nsomething else"), Ok((&b"something else"[..], b'\n')));
}

#[test]
fn just_one() {
    assert_eq!(new_line::parse(b"\n"), err(b"\n", ErrorKind::Tag));
    assert_eq!(new_line::parse(b"\nsomething else"), err(b"\nsomething else", ErrorKind::Tag));
}

#[test]
fn other_data_first() {
    assert_eq!(
        new_line::parse(b"test\r\nsomething else"),
        err(b"test\r\nsomething else", ErrorKind::Tag)
    );
}

#[test]
fn bare_carriage_return_is_no_line_break() {
    assert_eq!(new_line::parse(b"\r"), err(b"\r", ErrorKind::Tag));
    assert_eq!(new_line::parse(b"\r\r"), err(b"\r\r", ErrorKind::Tag));
}

#[test]
fn find_a_path() {
    assert_eq!(
        path::parse(&b"\"C:\\Program Files\\Microsoft Office\\root\\Office16\""[..]),
        Ok((&b""[..], String::from("C:\\Program Files\\Microsoft Office\\root\\Office16")))
    );
}

#[test]
fn escaped_dquote() {
    assert_eq!(
        path::parse(&b"\"C:\\Program Files\\Microsoft Office\\\"\"root\"\"\\Office16\""[..]),
        Ok((
            &b""[..],
            String::from("C:\\Program Files\\Microsoft Office\\\"root\"\\Office16")
        ))
    );
}

#[test]
fn missing_start_or_end_dquotes() {
    assert_eq!(
        path::parse(&b"C:\\Program Files\\Microsoft Office\\root\\Office16\""[..]),
        err(b"C:\\Program Files\\Microsoft Office\\root\\Office16\"", ErrorKind::Tag)
    );
    assert_eq!(
        path::parse(&b"\"C:\\Program Files\\Microsoft Office\\root\\Office16"[..]),
        err(b"", ErrorKind::Tag)
    );
}

#[test]
fn path_further_data() {
    assert_eq!(
        path::parse(&b"\"C:\\Program Files\\Microsoft Office\\root\\Office16\" and now for something completely different"[..]),
        Ok((
            &b" and now for something completely different"[..],
            String::from("C:\\Program Files\\Microsoft Office\\root\\Office16")
        ))
    );
}

#[test]
fn path_invalid_character() {
    assert_eq!(
        path::parse(&b"\"C:\\Program Files\\Microsoft Office\\ro\not\\Office16\""[..]),
        err(b"\not\\Office16\"", ErrorKind::Tag)
    );
    assert_eq!(
        path::parse(&b"\"C:\\Program Files\\Microsoft Office\\ro\0ot\\Office16\""[..]),
        err(b"\0ot\\Office16\"", ErrorKind::Tag)
    );
}

#[test]
fn path_too_long() {
    let head = "C:\\Program Files\\Microsoft Office\\root\\Office16";
    let fits = format!("{head}{}", "f".repeat(259 - head.len()));
    let quoted = format!("\"{fits}\"");
    assert_eq!(path::parse(quoted.as_bytes()), Ok((&b""[..], fits.clone())));
    let long = format!("\"{fits}f\"");
    assert_eq!(path::parse(long.as_bytes()), err(b"f\"", ErrorKind::Tag));
}

#[test]
fn find_nq_char() {
    assert_eq!(quoted_character::parse(&b"!"[..]), Ok((&b""[..], 0x21)));
    assert_eq!(quoted_character::parse(&b"+"[..]), Ok((&b""[..], 0x2b)));
    assert_eq!(quoted_character::parse(&b"5"[..]), Ok((&b""[..], 0x35)));
    assert_eq!(quoted_character::parse(&b"D"[..]), Ok((&b""[..], 0x44)));
    assert_eq!(quoted_character::parse(&b"m"[..]), Ok((&b""[..], 0x6d)));
    assert_eq!(quoted_character::parse(&[0xac][..]), Ok((&b""[..], 0xac)));
}

#[test]
fn find_wsp() {
    assert_eq!(quoted_character::parse(&b" "[..]), Ok((&b""[..], 0x20)));
    assert_eq!(quoted_character::parse(&b"\t"[..]), Ok((&b""[..], 0x09)));
}

#[test]
fn find_dquote() {
    assert_eq!(quoted_character::parse(&b"\"\""[..]), Ok((&b""[..], 0x22)));
}

#[test]
fn single_dquote() {
    assert_eq!(quoted_character::parse(&b"\""[..]), err(b"\"", ErrorKind::TakeWhileMN));
    assert_eq!(quoted_character::parse(&b"\" \""[..]), err(b"\" \"", ErrorKind::TakeWhileMN));
}

#[test]
fn quoted_character_further_data() {
    assert_eq!(quoted_character::parse(&b"! "[..]), Ok((&b" "[..], 0x21)));
    assert_eq!(quoted_character::parse(&b"+a"[..]), Ok((&b"a"[..], 0x2b)));
    assert_eq!(quoted_character::parse(&b"55"[..]), Ok((&b"5"[..], 0x35)));
    assert_eq!(quoted_character::parse(&b"D\t"[..]), Ok((&b"\t"[..], 0x44)));
    assert_eq!(quoted_character::parse(&b"m;"[..]), Ok((&b";"[..], 0x6d)));
    assert_eq!(quoted_character::parse(&[0xac, 0x30][..]), Ok((&b"0"[..], 0xac)));
}

#[test]
fn quoted_character_invalid_character() {
    assert_eq!(quoted_character::parse(&b"\r"[..]), err(b"\r", ErrorKind::TakeWhileMN));
    assert_eq!(quoted_character::parse(&b"\n"[..]), err(b"\n", ErrorKind::TakeWhileMN));
    assert_eq!(quoted_character::parse(&b"\r\n"[..]), err(b"\r\n", ErrorKind::TakeWhileMN));
    assert_eq!(quoted_character::parse(&b"\0"[..]), err(b"\0", ErrorKind::TakeWhileMN));
}

#[test]
fn quoted_characters_well_formed() {
    assert_eq!(
        quoted_characters::parse(&b"\"A quoted string\""[..], 1, 20),
        Ok((&b""[..], String::from("A quoted string")))
    );
}

#[test]
fn quoted_dquote() {
    assert_eq!(
        quoted_characters::parse(&b"\"A \"\"quoted\"\" string\""[..], 1, 20),
        Ok((&b""[..], String::from("A \"quoted\" string")))
    );
}

#[test]
fn quoted_characters_too_short() {
    assert_eq!(
        quoted_characters::parse(&b"\"A quoted string\""[..], 16, 20),
        err(b"\"", ErrorKind::TakeWhileMN)
    );
}

#[test]
fn quoted_characters_too_long() {
    assert_eq!(
        quoted_characters::parse(&b"\"A quoted string\""[..], 1, 13),
        err(b"ng\"", ErrorKind::Tag)
    );
}

#[test]
fn quoted_characters_invalid_character() {
    assert_eq!(
        quoted_characters::parse(&b"\"A quo\nted string\""[..], 1, 20),
        err(b"\nted string\"", ErrorKind::Tag)
    );
    assert_eq!(
        quoted_characters::parse(&b"\"A quoted str\0ing\""[..], 1, 20),
        err(b"\0ing\"", ErrorKind::Tag)
    );
}

#[test]
fn quoted_characters_further_data() {
    assert_eq!(
        quoted_characters::parse(&b"\"A quoted string\" plus a bit more"[..], 1, 20),
        Ok((&b" plus a bit more"[..], String::from("A quoted string")))
    );
}

#[test]
fn quoted_characters_not_utf8() {
    assert_eq!(
        quoted_characters::parse(&[0x22, 0x41, 0xac, 0x22][..], 1, 20),
        Ok((&b""[..], String::from("A\u{fffd}")))
    );
    assert_eq!(
        quoted_characters::parse(&[0x22, 0xac, 0x22][..], 1, 1),
        Ok((&b""[..], String::from("\u{fffd}")))
    );
    assert_eq!(
        quoted_characters::parse("\"caf\u{e9}\"".as_bytes(), 1, 20),
        Ok((&b""[..], String::from("caf\u{e9}")))
    );
}

#[test]
fn find_space() {
    assert_eq!(whitespace::parse(&b" "[..]), Ok((&b""[..], 0x20)));
}

#[test]
fn find_tab() {
    assert_eq!(whitespace::parse(&b"\t"[..]), Ok((&b""[..], 0x09)));
}

#[test]
fn find_with_more_data() {
    assert_eq!(
        whitespace::parse(&b" & then something else"[..]),
        Ok((&b"& then something else"[..], 0x20))
    );
}

#[test]
fn double_wsp() {
    assert_eq!(whitespace::parse(&b"  "[..]), Ok((&b" "[..], 0x20)));
    assert_eq!(whitespace::parse(&b" \t"[..]), Ok((&b"\t"[..], 0x20)));
    assert_eq!(whitespace::parse(&b"\t "[..]), Ok((&b" "[..], 0x09)));
}

#[test]
fn not_wsp() {
    assert_eq!(whitespace::parse(&b"x "[..]), err(b"x ", ErrorKind::Tag));
}
