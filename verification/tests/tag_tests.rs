use git_sign_verifier::tag::{
    magnitude_of, push_decimal, push_signed_decimal, push_two_digits, push_zone_field,
    reference_log, reference_name, signature_start, signed_tag, tag_content, Tagger,
    BASE_MESSAGE,
};

fn tagger(name: &str, email: &str, seconds: i64, offset_minutes: i32) -> Tagger {
    Tagger {
        name: name.as_bytes().to_vec(),
        email: email.as_bytes().to_vec(),
        seconds,
        offset_minutes,
    }
}

fn zone(offset_minutes: i32) -> String {
    let mut out = Vec::new();
    push_zone_field(&mut out, offset_minutes);
    String::from_utf8(out).unwrap()
}

// The offset as sign, hours and minutes, written with the formatter of std.
fn hhmm(offset_minutes: i32) -> String {
    let minutes = (offset_minutes as i64).abs();
    let sign = if offset_minutes < 0 { '-' } else { '+' };
    format!("{}{:02}{:02}", sign, minutes / 60, minutes % 60)
}

fn seconds(value: i64) -> String {
    let mut out = Vec::new();
    push_signed_decimal(&mut out, value);
    String::from_utf8(out).unwrap()
}

#[test]
fn tag_content_has_the_fixed_field_order() {
    let content = tag_content(
        b"054b5a7cf9b0f5a1d0f8c4f0e6d1c2b3a4958677",
        &tagger("Test User", "test@example.com", 1750782139, 120),
    );
    let expected = "object 054b5a7cf9b0f5a1d0f8c4f0e6d1c2b3a4958677\n\
                    type commit\n\
                    tag SIGN_VERIFIED\n\
                    tagger Test User <test@example.com> 1750782139 +0200\n\
                    \n\
                    Verification tag managed by git-sign-verifier\n";
    assert_eq!(String::from_utf8(content).unwrap(), expected);
}

#[test]
fn tag_content_agrees_with_the_formatted_text() {
    let cases = vec![
        ("A", "a@b", 0i64, 0i32),
        ("Jean-Pierre", "jp@example.org", 1, -300),
        ("", "", -1, 60),
        ("Zoë", "zoe@example.org", 9_999_999_999, 345),
        ("N", "e", i64::MAX, 840),
        ("N", "e", i64::MIN, -720),
    ];
    for (name, email, when, offset) in cases {
        let id = "00112233445566778899aabbccddeeff00112233";
        let expected = format!(
            "object {}\ntype commit\ntag {}\ntagger {} <{}> {} {}\n\n{}\n",
            id,
            "SIGN_VERIFIED",
            name,
            email,
            when,
            hhmm(offset),
            BASE_MESSAGE
        );
        let content = tag_content(id.as_bytes(), &tagger(name, email, when, offset));
        assert_eq!(content, expected.into_bytes());
    }
}

#[test]
fn tag_content_keeps_bytes_that_are_no_text() {
    let who = Tagger { name: vec![0xff, b'x'], email: vec![0x80], seconds: 5, offset_minutes: 0 };
    let content = tag_content(b"abc", &who);
    let mut expected = b"object abc\ntype commit\ntag SIGN_VERIFIED\ntagger ".to_vec();
    expected.extend_from_slice(&[0xff, b'x', b' ', b'<', 0x80, b'>', b' ']);
    expected.extend_from_slice(b"5 +0000\n\nVerification tag managed by git-sign-verifier\n");
    assert_eq!(content, expected);
}

#[test]
fn a_signature_line_smuggled_into_the_name_is_not_part_of_what_is_signed() {
    let who = tagger("A\ngpgsig x", "a@b", 1, 0);
    let content = tag_content(b"abc", &who);
    let expected = b"object abc\ntype commit\ntag SIGN_VERIFIED\ntagger A\n\nVerification tag managed by git-sign-verifier\n";
    assert_eq!(content, expected.to_vec());
}

#[test]
fn zone_field_of_whole_hours() {
    assert_eq!(zone(0), "+0000");
    assert_eq!(zone(60), "+0100");
    assert_eq!(zone(120), "+0200");
    assert_eq!(zone(-60), "-0100");
    assert_eq!(zone(-480), "-0800");
    assert_eq!(zone(840), "+1400");
    assert_eq!(zone(-720), "-1200");
}

#[test]
fn zone_field_of_part_hours_has_the_minutes_left_over() {
    assert_eq!(zone(30), "+0030");
    assert_eq!(zone(90), "+0130");
    assert_eq!(zone(-90), "-0130");
    assert_eq!(zone(330), "+0530");
    assert_eq!(zone(345), "+0545");
    assert_eq!(zone(-210), "-0330");
    assert_eq!(zone(765), "+1245");
    assert_eq!(zone(1), "+0001");
    assert_eq!(zone(-1), "-0001");
    assert_eq!(zone(59), "+0059");
    assert_eq!(zone(-59), "-0059");
    assert_eq!(zone(61), "+0101");
    assert_eq!(zone(599), "+0959");
    assert_eq!(zone(600), "+1000");
}

#[test]
fn a_tagger_five_and_a_half_hours_east_is_written_as_such() {
    let content = tag_content(b"abc", &tagger("N", "e@x", 1750782139, 330));
    let text = String::from_utf8(content).unwrap();
    assert!(text.contains("\ntagger N <e@x> 1750782139 +0530\n\n"));
}

#[test]
fn zone_field_agrees_with_hours_and_minutes_formatted() {
    let mut offset: i32 = -7000;
    while offset <= 7000 {
        assert_eq!(zone(offset), hhmm(offset), "offset {}", offset);
        offset += 1;
    }
}

#[test]
fn zone_field_takes_more_digits_from_a_hundred_hours_on() {
    assert_eq!(zone(5999), "+9959");
    assert_eq!(zone(6000), "+10000");
    assert_eq!(zone(-6000), "-10000");
    assert_eq!(zone(6061), "+10101");
    assert_eq!(zone(i32::MAX), hhmm(i32::MAX));
    assert_eq!(zone(i32::MIN), hhmm(i32::MIN));
    assert_eq!(zone(i32::MAX), "+3579139407");
    assert_eq!(zone(i32::MIN), "-3579139408");
}

#[test]
fn two_digits_lead_one_digit_with_a_zero() {
    let mut out = Vec::new();
    push_two_digits(&mut out, 0);
    push_two_digits(&mut out, 7);
    push_two_digits(&mut out, 10);
    push_two_digits(&mut out, 59);
    push_two_digits(&mut out, 123);
    assert_eq!(out, b"00071059123".to_vec());
}

#[test]
fn seconds_are_written_in_decimal() {
    assert_eq!(seconds(0), "0");
    assert_eq!(seconds(7), "7");
    assert_eq!(seconds(10), "10");
    assert_eq!(seconds(1750782139), "1750782139");
    assert_eq!(seconds(-1), "-1");
    assert_eq!(seconds(-1234567890), "-1234567890");
    assert_eq!(seconds(i64::MAX), "9223372036854775807");
    assert_eq!(seconds(i64::MIN), "-9223372036854775808");
}

#[test]
fn decimal_is_appended_to_what_is_there() {
    let mut out = b"n=".to_vec();
    push_decimal(&mut out, 0);
    push_decimal(&mut out, 42);
    push_decimal(&mut out, u64::MAX);
    assert_eq!(out, b"n=04218446744073709551615".to_vec());
}

#[test]
fn magnitude_of_the_extremes() {
    assert_eq!(magnitude_of(0), 0);
    assert_eq!(magnitude_of(-5), 5);
    assert_eq!(magnitude_of(5), 5);
    assert_eq!(magnitude_of(i64::MAX), 9223372036854775807);
    assert_eq!(magnitude_of(i64::MIN), 9223372036854775808);
}

#[test]
fn signed_tag_is_metadata_then_signature() {
    let object = signed_tag(b"object abc\n\nmsg\n", b"-----BEGIN PGP SIGNATURE-----\nxyz\n");
    assert_eq!(object, b"object abc\n\nmsg\n-----BEGIN PGP SIGNATURE-----\nxyz\n".to_vec());
    assert_eq!(signed_tag(b"", b""), Vec::<u8>::new());
    assert_eq!(signed_tag(b"a", b""), b"a".to_vec());
}

#[test]
fn signature_starts_at_the_first_armor_marker() {
    assert_eq!(signature_start(b"object abc\n\nmsg\n-----BEGIN PGP SIGNATURE-----\n"), Some(16));
    assert_eq!(signature_start(b"-----BEGIN"), Some(0));
    assert_eq!(signature_start(b"x-----BEGIN y -----BEGIN"), Some(1));
    assert_eq!(signature_start(b"------BEGIN"), Some(1));
}

#[test]
fn no_armor_marker_no_signature() {
    assert_eq!(signature_start(b""), None);
    assert_eq!(signature_start(b"object abc\n\nmsg\n"), None);
    assert_eq!(signature_start(b"-----BEGI"), None);
    assert_eq!(signature_start(b"----BEGIN"), None);
    assert_eq!(signature_start(b"-----begin"), None);
}

#[test]
fn a_signed_tag_splits_into_what_was_joined() {
    let content = tag_content(b"0123456789abcdef0123456789abcdef01234567", &tagger("Jean-Pierre", "jp@x.org", 12, -90));
    let signature = b"-----BEGIN PGP SIGNATURE-----\n\niQEz\n-----END PGP SIGNATURE-----\n".to_vec();
    let object = signed_tag(&content, &signature);
    let at = signature_start(&object).unwrap();
    assert_eq!(at, content.len());
    assert_eq!(object[..at].to_vec(), content);
    assert_eq!(object[at..].to_vec(), signature);
}

#[test]
fn reference_name_is_the_tag_under_refs_tags() {
    assert_eq!(reference_name(), b"refs/tags/SIGN_VERIFIED".to_vec());
}

#[test]
fn reference_log_names_the_commit() {
    assert_eq!(
        reference_log(b"abc123"),
        b"Verification tag managed by git-sign-verifier on abc123".to_vec()
    );
}
