use git_sign_verifier::payload::{line_end, signed_commit_data};

fn joined(header: &[u8], message: &[u8]) -> Vec<u8> {
    let mut expected = header.to_vec();
    expected.push(b'\n');
    expected.extend_from_slice(message);
    expected
}

#[test]
fn unsigned_header_is_kept_whole() {
    let header = b"tree 1234\nauthor A <a@b> 1 +0000\ncommitter A <a@b> 1 +0000\n";
    let message = b"hello\n";
    assert_eq!(signed_commit_data(header, message), joined(header, message));
}

#[test]
fn signature_field_and_its_continuation_lines_are_left_out() {
    let header = b"tree 1234\nparent 5678\nauthor A <a@b> 1 +0000\ncommitter A <a@b> 1 +0000\ngpgsig -----BEGIN PGP SIGNATURE-----\n \n iQEz\n =abcd\n -----END PGP SIGNATURE-----\nencoding latin1\n";
    let message = b"subject\n\nbody\n";
    let expected = b"tree 1234\nparent 5678\nauthor A <a@b> 1 +0000\ncommitter A <a@b> 1 +0000\nencoding latin1\n\nsubject\n\nbody\n";
    assert_eq!(signed_commit_data(header, message), expected.to_vec());
}

#[test]
fn signature_field_at_the_end_of_the_header_is_left_out() {
    let header = b"tree 1234\ncommitter A <a@b> 1 +0000\ngpgsig -----BEGIN PGP SIGNATURE-----\n iQEz\n -----END PGP SIGNATURE-----\n";
    let expected = b"tree 1234\ncommitter A <a@b> 1 +0000\n\nmsg";
    assert_eq!(signed_commit_data(header, b"msg"), expected.to_vec());
}

#[test]
fn signature_field_without_final_line_feed_is_left_out() {
    let header = b"tree 1234\ngpgsig -----BEGIN PGP SIGNATURE-----\n iQEz";
    assert_eq!(signed_commit_data(header, b"m"), b"tree 1234\n\nm".to_vec());
}

#[test]
fn continuation_lines_of_other_fields_are_kept() {
    let header = b"tree 1234\nmergetag object abcd\n type commit\n -----BEGIN PGP SIGNATURE-----\n iQEz\n -----END PGP SIGNATURE-----\ncommitter A <a@b> 1 +0000\n";
    assert_eq!(signed_commit_data(header, b"m\n"), joined(header, b"m\n"));
}

#[test]
fn a_line_with_a_leading_space_after_the_signature_closed_is_kept() {
    let header = b"gpgsig one\n two\nauthor A\n kept\n";
    assert_eq!(signed_commit_data(header, b""), b"author A\n kept\n\n".to_vec());
}

#[test]
fn every_signature_field_is_left_out() {
    let header = b"tree 1\ngpgsig first\n more\ngpgsig second\n more\nauthor A\n";
    assert_eq!(signed_commit_data(header, b"m"), b"tree 1\nauthor A\n\nm".to_vec());
}

#[test]
fn a_field_whose_name_only_begins_like_the_keyword_is_kept() {
    let header = b"tree 1\ngpgsig-sha256 abc\n def\nauthor A\n";
    assert_eq!(signed_commit_data(header, b"m"), joined(header, b"m"));
}

#[test]
fn the_keyword_inside_a_line_does_not_open_a_signature() {
    let header = b"author gpgsig x\n y\n";
    assert_eq!(signed_commit_data(header, b"m"), joined(header, b"m"));
}

#[test]
fn empty_header_gives_blank_line_and_body() {
    assert_eq!(signed_commit_data(b"", b"body"), b"\nbody".to_vec());
    assert_eq!(signed_commit_data(b"", b""), b"\n".to_vec());
}

#[test]
fn bytes_that_are_no_text_pass_through_unchanged() {
    let header: Vec<u8> = vec![b't', 0xff, 0xfe, b'\n', b'g', b'p', b'g', b's', b'i', b'g', b' ', 0x80, b'\n', b' ', 0x81, b'\n', 0xc3, b'\n'];
    let message: Vec<u8> = vec![0x00, 0xff, b'\n', 0xe9];
    let expected: Vec<u8> = vec![b't', 0xff, 0xfe, b'\n', 0xc3, b'\n', b'\n', 0x00, 0xff, b'\n', 0xe9];
    assert_eq!(signed_commit_data(&header, &message), expected);
}

#[test]
fn blank_header_lines_are_kept() {
    let header = b"a\n\n\nb\n";
    assert_eq!(signed_commit_data(header, b"m"), joined(header, b"m"));
}

#[test]
fn line_end_is_the_index_after_the_line_feed() {
    let text = b"ab\ncd\n\nef";
    assert_eq!(line_end(text, 0), 3);
    assert_eq!(line_end(text, 1), 3);
    assert_eq!(line_end(text, 2), 3);
    assert_eq!(line_end(text, 3), 6);
    assert_eq!(line_end(text, 6), 7);
    assert_eq!(line_end(text, 7), 9);
    assert_eq!(line_end(text, 9), 9);
    assert_eq!(line_end(b"", 0), 0);
}

fn embedded(signature: &[u8]) -> Vec<u8> {
    let mut field = b"gpgsig ".to_vec();
    for b in signature {
        field.push(*b);
        if *b == b'\n' {
            field.push(b' ');
        }
    }
    field.push(b'\n');
    field
}

#[test]
fn embedding_a_signature_and_taking_it_out_gives_back_what_was_signed() {
    let signatures: Vec<&[u8]> = vec![
        b"",
        b"one line",
        b"-----BEGIN PGP SIGNATURE-----\n\niQEz\n=abcd\n-----END PGP SIGNATURE-----",
        b"-----BEGIN PGP SIGNATURE-----\n\niQEz\n=abcd\n-----END PGP SIGNATURE-----\n",
        b"\n\n\n",
        b" leading space\ngpgsig inside\n",
    ];
    let splits: Vec<(&[u8], &[u8])> = vec![
        (b"", b""),
        (b"tree 1\nparent 2\nauthor A <a@b> 1 +0000\ncommitter A <a@b> 1 +0000\n", b""),
        (b"tree 1\nauthor A\ncommitter A\n", b"encoding latin1\n"),
        (b"", b"tree 1\nmergetag object 3\n type commit\n"),
        (b"tree 1\n", b"\nodd blank line\n"),
    ];
    for signature in &signatures {
        for (before, after) in &splits {
            let mut header = before.to_vec();
            header.extend_from_slice(&embedded(signature));
            header.extend_from_slice(after);
            let mut signed = before.to_vec();
            signed.extend_from_slice(after);
            assert_eq!(signed_commit_data(&header, b"msg\n"), joined(&signed, b"msg\n"));
        }
    }
}
