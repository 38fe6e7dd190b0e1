use git_sign_verifier::signer::{Signer, SignerAction, SignerError, SignerEvent, SignerPhase};
use git_sign_verifier::tag::{tag_content, Tagger};

const TARGET: &[u8] = b"0123456789abcdef0123456789abcdef01234567";
const SIGNATURE: &[u8] = b"-----BEGIN PGP SIGNATURE-----\n\niQEz\n-----END PGP SIGNATURE-----\n";

fn tagger() -> Tagger {
    Tagger {
        name: b"Test User".to_vec(),
        email: b"test@example.com".to_vec(),
        seconds: 1750782139,
        offset_minutes: 120,
    }
}

fn content() -> Vec<u8> {
    b"object 0123456789abcdef0123456789abcdef01234567\ntype commit\ntag SIGN_VERIFIED\ntagger Test User <test@example.com> 1750782139 +0200\n\nVerification tag managed by git-sign-verifier\n".to_vec()
}

#[test]
fn the_metadata_is_built_first_and_handed_out_for_signing() {
    let (signer, action) = Signer::new(TARGET, &tagger());
    assert_eq!(action, SignerAction::Sign { payload: content() });
    assert_eq!(action, SignerAction::Sign { payload: tag_content(TARGET, &tagger()) });
    assert_eq!(signer.phase(), SignerPhase::Signing);
}

#[test]
fn metadata_and_signature_are_stored_as_one_object() {
    let (signer, _) = Signer::new(TARGET, &tagger());
    let (signer, action) = signer.step(SignerEvent::Signed(SIGNATURE.to_vec()));
    let mut object = content();
    object.extend_from_slice(SIGNATURE);
    assert_eq!(action, SignerAction::WriteTag { object });
    assert_eq!(signer.phase(), SignerPhase::Writing);
}

#[test]
fn the_reference_is_pointed_at_the_stored_object() {
    let (signer, _) = Signer::new(TARGET, &tagger());
    let (signer, _) = signer.step(SignerEvent::Signed(SIGNATURE.to_vec()));
    let (signer, action) = signer.step(SignerEvent::Written(b"feedbeef".to_vec()));
    assert_eq!(
        action,
        SignerAction::UpdateReference {
            name: b"refs/tags/SIGN_VERIFIED".to_vec(),
            target: b"feedbeef".to_vec(),
            log: b"Verification tag managed by git-sign-verifier on 0123456789abcdef0123456789abcdef01234567".to_vec(),
        }
    );
    assert_eq!(signer.phase(), SignerPhase::Updating);
    let (signer, action) = signer.step(SignerEvent::Updated);
    assert_eq!(action, SignerAction::Finish);
    assert_eq!(signer.phase(), SignerPhase::Done);
}

#[test]
fn without_signature_nothing_is_stored() {
    let (signer, _) = Signer::new(TARGET, &tagger());
    let (signer, action) = signer.step(SignerEvent::SigningFailed);
    assert_eq!(action, SignerAction::Fail(SignerError::SigningFailed));
    assert_eq!(signer.phase(), SignerPhase::Failed);
    let (signer, action) = signer.step(SignerEvent::Signed(SIGNATURE.to_vec()));
    assert_eq!(action, SignerAction::Halt);
    assert_eq!(signer.phase(), SignerPhase::Failed);
}

#[test]
fn a_failure_of_the_store_ends_the_making() {
    let (signer, _) = Signer::new(TARGET, &tagger());
    let (signer, _) = signer.step(SignerEvent::Signed(SIGNATURE.to_vec()));
    let (signer, action) = signer.step(SignerEvent::StoreFailed);
    assert_eq!(action, SignerAction::Fail(SignerError::StoreFailed));
    assert_eq!(signer.phase(), SignerPhase::Failed);

    let (signer, _) = Signer::new(TARGET, &tagger());
    let (signer, _) = signer.step(SignerEvent::Signed(SIGNATURE.to_vec()));
    let (signer, _) = signer.step(SignerEvent::Written(b"feedbeef".to_vec()));
    let (signer, action) = signer.step(SignerEvent::StoreFailed);
    assert_eq!(action, SignerAction::Fail(SignerError::StoreFailed));
    assert_eq!(signer.phase(), SignerPhase::Failed);
}

#[test]
fn steps_out_of_order_end_the_making() {
    let out_of_order: Vec<(Vec<SignerEvent>, SignerEvent)> = vec![
        (vec![], SignerEvent::Written(b"feedbeef".to_vec())),
        (vec![], SignerEvent::Updated),
        (vec![], SignerEvent::StoreFailed),
        (vec![SignerEvent::Signed(SIGNATURE.to_vec())], SignerEvent::Signed(SIGNATURE.to_vec())),
        (vec![SignerEvent::Signed(SIGNATURE.to_vec())], SignerEvent::Updated),
        (vec![SignerEvent::Signed(SIGNATURE.to_vec())], SignerEvent::SigningFailed),
        (
            vec![SignerEvent::Signed(SIGNATURE.to_vec()), SignerEvent::Written(b"feedbeef".to_vec())],
            SignerEvent::Written(b"feedbeef".to_vec()),
        ),
        (
            vec![SignerEvent::Signed(SIGNATURE.to_vec()), SignerEvent::Written(b"feedbeef".to_vec())],
            SignerEvent::Signed(SIGNATURE.to_vec()),
        ),
    ];
    for (before, event) in out_of_order {
        let (mut signer, _) = Signer::new(TARGET, &tagger());
        for e in before {
            let (next, _) = signer.step(e);
            signer = next;
        }
        let (signer, action) = signer.step(event);
        assert_eq!(action, SignerAction::Fail(SignerError::UnexpectedEvent));
        assert_eq!(signer.phase(), SignerPhase::Failed);
    }
}

#[test]
fn a_checkpoint_that_stands_is_not_made_again() {
    let (signer, _) = Signer::new(TARGET, &tagger());
    let (signer, _) = signer.step(SignerEvent::Signed(SIGNATURE.to_vec()));
    let (signer, _) = signer.step(SignerEvent::Written(b"feedbeef".to_vec()));
    let (mut signer, _) = signer.step(SignerEvent::Updated);
    for event in vec![
        SignerEvent::Signed(SIGNATURE.to_vec()),
        SignerEvent::Written(b"other".to_vec()),
        SignerEvent::Updated,
        SignerEvent::StoreFailed,
        SignerEvent::SigningFailed,
    ] {
        let (next, action) = signer.step(event);
        assert_eq!(action, SignerAction::Halt);
        assert_eq!(next.phase(), SignerPhase::Done);
        signer = next;
    }
}
