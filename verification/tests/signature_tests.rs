use git_sign_verifier::signature::{
    classify_signature, judge_signers, verify_gpg_signature_result, SignatureKind, SignerOutcome,
    TrustFailure, TrustPolicy, Validity,
};

fn signer(revoked: bool, key_expired: bool, sig_expired: bool, missing: bool) -> SignerOutcome {
    SignerOutcome {
        fingerprint: b"DCCC658D5D477A6BC88FED274FB865FDBCA4BCC4".to_vec(),
        key_revoked: revoked,
        key_expired,
        sig_expired,
        key_missing: missing,
        validity: Some(Validity::Full),
    }
}

fn clean() -> SignerOutcome {
    signer(false, false, false, false)
}

fn any() -> TrustPolicy {
    TrustPolicy { min_validity: Validity::Unknown }
}

#[test]
fn pgp_block_is_recognised() {
    let block = b"-----BEGIN PGP SIGNATURE-----\n\niQEz\n=abcd\n-----END PGP SIGNATURE-----\n";
    assert_eq!(classify_signature(block), SignatureKind::Pgp);
}

#[test]
fn ssh_block_is_recognised() {
    let block = b"-----BEGIN SSH SIGNATURE-----\nU1NIU0lH\n-----END SSH SIGNATURE-----\n";
    assert_eq!(classify_signature(block), SignatureKind::Ssh);
}

#[test]
fn other_first_lines_are_unknown() {
    assert_eq!(classify_signature(b""), SignatureKind::Unknown);
    assert_eq!(classify_signature(b"\n"), SignatureKind::Unknown);
    assert_eq!(classify_signature(b"-----BEGIN SIGNED MESSAGE-----\nabc\n"), SignatureKind::Unknown);
    assert_eq!(classify_signature(b"-----BEGIN PGP MESSAGE-----\n"), SignatureKind::Unknown);
    assert_eq!(classify_signature(b" -----BEGIN PGP SIGNATURE-----\n"), SignatureKind::Unknown);
    assert_eq!(classify_signature(b"-----BEGIN PGP SIGNATURE----- \n"), SignatureKind::Unknown);
    assert_eq!(classify_signature(b"-----BEGIN PGP SIGNATURE-----x"), SignatureKind::Unknown);
    assert_eq!(classify_signature(b"\n-----BEGIN PGP SIGNATURE-----\n"), SignatureKind::Unknown);
    assert_eq!(classify_signature(b"-----begin pgp signature-----\n"), SignatureKind::Unknown);
}

#[test]
fn marker_alone_without_line_feed_is_recognised() {
    assert_eq!(classify_signature(b"-----BEGIN PGP SIGNATURE-----"), SignatureKind::Pgp);
    assert_eq!(classify_signature(b"-----BEGIN SSH SIGNATURE-----"), SignatureKind::Ssh);
}

#[test]
fn carriage_return_before_the_line_feed_belongs_to_the_line_ending() {
    assert_eq!(classify_signature(b"-----BEGIN PGP SIGNATURE-----\r\nabc\r\n"), SignatureKind::Pgp);
    assert_eq!(classify_signature(b"-----BEGIN SSH SIGNATURE-----\r\n"), SignatureKind::Ssh);
}

#[test]
fn carriage_return_without_line_feed_belongs_to_the_line() {
    assert_eq!(classify_signature(b"-----BEGIN PGP SIGNATURE-----\r"), SignatureKind::Unknown);
    assert_eq!(classify_signature(b"-----BEGIN PGP SIGNATURE-----\r\r\n"), SignatureKind::Unknown);
}

#[test]
fn first_line_agrees_with_the_lines_of_std() {
    let samples: Vec<&str> = vec![
        "",
        "\n",
        "\r\n",
        "\r",
        "-----BEGIN PGP SIGNATURE-----",
        "-----BEGIN PGP SIGNATURE-----\n",
        "-----BEGIN PGP SIGNATURE-----\r\n",
        "-----BEGIN PGP SIGNATURE-----\r",
        "-----BEGIN PGP SIGNATURE-----\n\r",
        "-----BEGIN SSH SIGNATURE-----\nrest",
        "-----BEGIN SSH SIGNATURE-----\r\r\n",
        "x\n-----BEGIN SSH SIGNATURE-----\n",
    ];
    for sample in samples {
        let first = sample.lines().next().unwrap_or("");
        let expected = if first == "-----BEGIN PGP SIGNATURE-----" {
            SignatureKind::Pgp
        } else if first == "-----BEGIN SSH SIGNATURE-----" {
            SignatureKind::Ssh
        } else {
            SignatureKind::Unknown
        };
        assert_eq!(classify_signature(sample.as_bytes()), expected, "{:?}", sample);
    }
}

#[test]
fn no_signer_is_no_signature() {
    assert_eq!(judge_signers(&vec![], &any()), Err(TrustFailure::NoSignatureFound));
}

#[test]
fn one_clean_signer_is_trusted() {
    assert_eq!(judge_signers(&vec![clean()], &any()), Ok(()));
}

#[test]
fn each_failure_flag_alone_is_reported() {
    let cases = vec![
        (signer(true, false, false, false), TrustFailure::KeyRevoked),
        (signer(false, true, false, false), TrustFailure::KeyExpired),
        (signer(false, false, true, false), TrustFailure::SignatureExpired),
        (signer(false, false, false, true), TrustFailure::KeyMissing),
    ];
    for (outcome, reason) in cases {
        assert_eq!(judge_signers(&vec![outcome], &any()), Err(reason));
    }
}

#[test]
fn the_first_flag_in_order_is_the_reason() {
    assert_eq!(
        judge_signers(&vec![signer(true, true, true, true)], &any()),
        Err(TrustFailure::KeyRevoked)
    );
    assert_eq!(
        judge_signers(&vec![signer(false, true, true, true)], &any()),
        Err(TrustFailure::KeyExpired)
    );
    assert_eq!(
        judge_signers(&vec![signer(false, false, true, true)], &any()),
        Err(TrustFailure::SignatureExpired)
    );
}

#[test]
fn a_clean_signer_after_a_failed_one_is_enough() {
    let outcomes = vec![signer(false, false, false, true), clean()];
    assert_eq!(judge_signers(&outcomes, &any()), Ok(()));
    let outcomes = vec![signer(true, true, false, false), signer(false, false, true, false), clean()];
    assert_eq!(judge_signers(&outcomes, &any()), Ok(()));
}

#[test]
fn the_order_of_the_signers_does_not_change_the_decision() {
    let a = vec![clean(), signer(false, false, false, true)];
    let b = vec![signer(false, false, false, true), clean()];
    assert_eq!(judge_signers(&a, &any()), judge_signers(&b, &any()));
}

#[test]
fn when_every_signer_fails_the_first_signer_gives_the_reason() {
    let outcomes = vec![signer(false, false, false, true), signer(true, false, false, false)];
    assert_eq!(judge_signers(&outcomes, &any()), Err(TrustFailure::KeyMissing));
    let outcomes = vec![signer(false, true, false, false), signer(false, false, false, true)];
    assert_eq!(judge_signers(&outcomes, &any()), Err(TrustFailure::KeyExpired));
}

#[test]
fn validity_below_the_minimum_is_not_trusted() {
    let marginal = SignerOutcome { validity: Some(Validity::Marginal), ..clean() };
    let unknown = SignerOutcome { validity: None, ..clean() };
    let full = TrustPolicy { min_validity: Validity::Full };
    assert_eq!(
        judge_signers(&vec![marginal.clone()], &full),
        Err(TrustFailure::InsufficientValidity)
    );
    assert_eq!(
        judge_signers(&vec![unknown.clone()], &full),
        Err(TrustFailure::InsufficientValidity)
    );
    assert_eq!(judge_signers(&vec![clean()], &full), Ok(()));
    assert_eq!(judge_signers(&vec![marginal.clone(), clean()], &full), Ok(()));
    assert_eq!(judge_signers(&vec![marginal], &any()), Ok(()));
    assert_eq!(judge_signers(&vec![unknown], &any()), Ok(()));
}

#[test]
fn a_failure_flag_is_reported_before_the_validity() {
    let outcome = SignerOutcome { validity: Some(Validity::Never), ..signer(false, false, false, true) };
    let ultimate = TrustPolicy { min_validity: Validity::Ultimate };
    assert_eq!(judge_signers(&vec![outcome], &ultimate), Err(TrustFailure::KeyMissing));
}

#[test]
fn validity_levels_are_ranked_from_unknown_to_ultimate() {
    let levels = vec![
        Validity::Unknown,
        Validity::Undefined,
        Validity::Never,
        Validity::Marginal,
        Validity::Full,
        Validity::Ultimate,
    ];
    for (position, level) in levels.iter().enumerate() {
        assert_eq!(level.level() as usize, position);
    }
}

#[test]
fn a_signer_is_checked_on_its_own() {
    assert_eq!(clean().check(&any()), Ok(()));
    assert_eq!(signer(false, false, true, false).check(&any()), Err(TrustFailure::SignatureExpired));
}

#[test]
fn the_flags_alone_decide_without_policy() {
    assert_eq!(verify_gpg_signature_result(&vec![clean()]), Ok(()));
    assert_eq!(
        verify_gpg_signature_result(&vec![signer(false, false, false, true), clean()]),
        Ok(())
    );
    let never = SignerOutcome { validity: Some(Validity::Never), ..clean() };
    assert_eq!(verify_gpg_signature_result(&vec![never]), Ok(()));
    let unknown = SignerOutcome { validity: None, ..clean() };
    assert_eq!(verify_gpg_signature_result(&vec![unknown]), Ok(()));
}

#[test]
fn the_reason_is_given_in_words() {
    assert_eq!(verify_gpg_signature_result(&vec![]), Err("No signature found"));
    assert_eq!(
        verify_gpg_signature_result(&vec![signer(true, false, false, false)]),
        Err("GPG key revoked")
    );
    assert_eq!(
        verify_gpg_signature_result(&vec![signer(false, true, false, false)]),
        Err("GPG key expired")
    );
    assert_eq!(
        verify_gpg_signature_result(&vec![signer(false, false, true, false)]),
        Err("Signature expired")
    );
    assert_eq!(
        verify_gpg_signature_result(&vec![signer(false, false, false, true)]),
        Err("Unknown GPG key, missing in keyring")
    );
    assert_eq!(
        verify_gpg_signature_result(&vec![signer(true, true, true, true), signer(false, false, false, true)]),
        Err("GPG key revoked")
    );
}

#[test]
fn every_reason_has_its_words() {
    assert_eq!(TrustFailure::NoSignatureFound.message(), "No signature found");
    assert_eq!(TrustFailure::KeyRevoked.message(), "GPG key revoked");
    assert_eq!(TrustFailure::KeyExpired.message(), "GPG key expired");
    assert_eq!(TrustFailure::SignatureExpired.message(), "Signature expired");
    assert_eq!(TrustFailure::KeyMissing.message(), "Unknown GPG key, missing in keyring");
    assert_eq!(TrustFailure::InsufficientValidity.message(), "GPG key is not valid enough");
}
