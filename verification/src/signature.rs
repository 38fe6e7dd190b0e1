//! Classification of signature blocks and the trust decision.
//!
//! A signature block is an armored text whose first line names its scheme.
//! Only OpenPGP blocks are handed to the cryptographic engine; what the
//! engine reports for each signer is then judged by the trust policy.

use vstd::prelude::*;
use vstd::string::*;
use crate::bytes::{same_bytes, starts_with, text};
use crate::payload::{line_end, line_len, lemma_line_len_bounds, lemma_line_len_shape, LF};

verus! {

/// Carriage return, dropped from the end of a line that a line feed ends.
pub const CR: u8 = 13;

/// First line of an OpenPGP signature block.
pub open spec fn pgp_marker() -> Seq<u8> {
    text("-----BEGIN PGP SIGNATURE-----")
}

/// First line of an SSH signature block.
pub open spec fn ssh_marker() -> Seq<u8> {
    text("-----BEGIN SSH SIGNATURE-----")
}

/// The scheme that the first line of a signature block names.
#[derive(Clone, Copy, Debug, PartialEq, Eq, Structural)]
pub enum SignatureKind {
    /// An OpenPGP detached signature.
    Pgp,
    /// An SSH signature, which is recognised and never verified.
    Ssh,
    /// Any other first line, an empty block included.
    Unknown,
}

/// The first line of `s` without its line ending.
///
/// A line ending is a line feed, or a carriage return followed by a line
/// feed. A text without any line feed is its own first line, whatever its
/// last byte.
pub open spec fn first_line(s: Seq<u8>) -> Seq<u8> {
    let n = line_len(s) as int;
    if n > 0 && s[n - 1] == LF {
        let body = s.take(n - 1);
        if body.len() > 0 && body.last() == CR {
            body.drop_last()
        } else {
            body
        }
    } else {
        s
    }
}

/// The scheme of a signature block, read from its first line.
pub open spec fn spec_classify(block: Seq<u8>) -> SignatureKind {
    if first_line(block) == pgp_marker() {
        SignatureKind::Pgp
    } else if first_line(block) == ssh_marker() {
        SignatureKind::Ssh
    } else {
        SignatureKind::Unknown
    }
}

/// The text that opens every armored block, whatever its scheme.
pub open spec fn armor_marker() -> Seq<u8> {
    text("-----BEGIN")
}

/// A block of a known scheme opens with the armor marker.
pub proof fn lemma_known_block_is_armored(block: Seq<u8>)
    requires
        spec_classify(block) != SignatureKind::Unknown,
    ensures
        starts_with(block, armor_marker()),
{
    reveal_strlit("-----BEGIN PGP SIGNATURE-----");
    reveal_strlit("-----BEGIN SSH SIGNATURE-----");
    reveal_strlit("-----BEGIN");
    is_ascii_spec_bytes("-----BEGIN PGP SIGNATURE-----");
    is_ascii_spec_bytes("-----BEGIN SSH SIGNATURE-----");
    is_ascii_spec_bytes("-----BEGIN");
    lemma_line_len_bounds(block);
    let line = first_line(block);
    assert forall|i: int| 0 <= i < 10 implies block[i] == armor_marker()[i] by {
        assert(block[i] == line[i]);
    }
    assert(block.subrange(0, 10) =~= armor_marker());
}

/// Names the scheme of a signature block by its first line.
pub fn classify_signature(block: &[u8]) -> (kind: SignatureKind)
    ensures
        kind == spec_classify(block@),
{
    let end: usize = line_end(block, 0);
    proof {
        assert(block@.skip(0) =~= block@);
        lemma_line_len_bounds(block@);
        lemma_line_len_shape(block@);
    }
    let mut stop: usize = end;
    if end > 0 && block[end - 1] == LF {
        stop = end - 1;
        if stop > 0 && block[stop - 1] == CR {
            stop = stop - 1;
        }
    }
    let line = &block[0..stop];
    proof {
        if end > 0 && block@[end - 1] == LF {
            let body = block@.take(end - 1);
            if body.len() > 0 && body.last() == CR {
                assert(line@ =~= body.drop_last());
            }
        }
    }
    if same_bytes(line, "-----BEGIN PGP SIGNATURE-----".as_bytes()) {
        SignatureKind::Pgp
    } else if same_bytes(line, "-----BEGIN SSH SIGNATURE-----".as_bytes()) {
        SignatureKind::Ssh
    } else {
        SignatureKind::Unknown
    }
}

/// How far the engine's keyring vouches for a signer's key.
#[derive(Clone, Copy, Debug, PartialEq, Eq, Structural)]
pub enum Validity {
    Unknown,
    Undefined,
    Never,
    Marginal,
    Full,
    Ultimate,
}

impl Validity {
    /// Position of the level in the order from `Unknown` up to `Ultimate`.
    pub open spec fn rank(self) -> nat {
        match self {
            Validity::Unknown => 0,
            Validity::Undefined => 1,
            Validity::Never => 2,
            Validity::Marginal => 3,
            Validity::Full => 4,
            Validity::Ultimate => 5,
        }
    }

    /// Position of the level in the order from `Unknown` up to `Ultimate`.
    pub fn level(self) -> (r: u8)
        ensures
            r == self.rank(),
    {
        match self {
            Validity::Unknown => 0,
            Validity::Undefined => 1,
            Validity::Never => 2,
            Validity::Marginal => 3,
            Validity::Full => 4,
            Validity::Ultimate => 5,
        }
    }
}

/// What the engine reports for one signer of a verified block.
#[derive(Clone, Debug, PartialEq, Eq)]
pub struct SignerOutcome {
    /// Fingerprint of the signing key, as the engine prints it.
    pub fingerprint: Vec<u8>,
    /// The key has been revoked.
    pub key_revoked: bool,
    /// The key has expired.
    pub key_expired: bool,
    /// The signature itself has expired.
    pub sig_expired: bool,
    /// The key is not in the keyring.
    pub key_missing: bool,
    /// Validity of the key, where the engine gives one.
    pub validity: Option<Validity>,
}

/// The rule by which a signer is accepted.
#[derive(Clone, Copy, Debug, PartialEq, Eq, Structural)]
pub struct TrustPolicy {
    /// Lowest validity accepted. `Validity::Unknown` accepts every signer
    /// that has no failure flag.
    pub min_validity: Validity,
}

impl TrustPolicy {
    /// The policy that asks for no validity: a signer without failure flag
    /// is trusted.
    pub open spec fn lenient() -> TrustPolicy {
        TrustPolicy { min_validity: Validity::Unknown }
    }
}

impl Default for TrustPolicy {
    /// The policy that asks for no validity.
    fn default() -> (policy: TrustPolicy)
        ensures
            policy == TrustPolicy::lenient(),
    {
        TrustPolicy { min_validity: Validity::Unknown }
    }
}

/// Why a verified block is not trusted.
#[derive(Clone, Copy, Debug, PartialEq, Eq, Structural)]
pub enum TrustFailure {
    /// The engine reported no signer at all.
    NoSignatureFound,
    KeyRevoked,
    KeyExpired,
    SignatureExpired,
    /// The signing key is not in the keyring.
    KeyMissing,
    /// The key's validity is below the policy's minimum.
    InsufficientValidity,
}

impl TrustFailure {
    /// The reason in words.
    pub open spec fn words(self) -> Seq<char> {
        match self {
            TrustFailure::NoSignatureFound => "No signature found"@,
            TrustFailure::KeyRevoked => "GPG key revoked"@,
            TrustFailure::KeyExpired => "GPG key expired"@,
            TrustFailure::SignatureExpired => "Signature expired"@,
            TrustFailure::KeyMissing => "Unknown GPG key, missing in keyring"@,
            TrustFailure::InsufficientValidity => "GPG key is not valid enough"@,
        }
    }

    /// The reason in words.
    pub fn message(self) -> (words: &'static str)
        ensures
            words@ == self.words(),
    {
        match self {
            TrustFailure::NoSignatureFound => "No signature found",
            TrustFailure::KeyRevoked => "GPG key revoked",
            TrustFailure::KeyExpired => "GPG key expired",
            TrustFailure::SignatureExpired => "Signature expired",
            TrustFailure::KeyMissing => "Unknown GPG key, missing in keyring",
            TrustFailure::InsufficientValidity => "GPG key is not valid enough",
        }
    }
}

impl SignerOutcome {
    /// Rank of the signer's validity; a signer without one ranks lowest.
    pub open spec fn validity_rank(self) -> nat {
        match self.validity {
            Some(v) => v.rank(),
            None => 0,
        }
    }

    /// None of the four failure flags is set.
    pub open spec fn is_clean(self) -> bool {
        !self.key_revoked && !self.key_expired && !self.sig_expired && !self.key_missing
    }

    /// The signer is accepted under `policy`: clean, and valid enough.
    pub open spec fn is_trusted(self, policy: TrustPolicy) -> bool {
        self.is_clean() && self.validity_rank() >= policy.min_validity.rank()
    }

    /// The first reason against the signer, in the order revoked key,
    /// expired key, expired signature, missing key, validity.
    pub open spec fn failure(self, policy: TrustPolicy) -> Option<TrustFailure> {
        if self.key_revoked {
            Some(TrustFailure::KeyRevoked)
        } else if self.key_expired {
            Some(TrustFailure::KeyExpired)
        } else if self.sig_expired {
            Some(TrustFailure::SignatureExpired)
        } else if self.key_missing {
            Some(TrustFailure::KeyMissing)
        } else if self.validity_rank() < policy.min_validity.rank() {
            Some(TrustFailure::InsufficientValidity)
        } else {
            None
        }
    }

    /// What judging this signer alone gives.
    pub open spec fn judgement(self, policy: TrustPolicy) -> Result<(), TrustFailure> {
        match self.failure(policy) {
            Some(reason) => Err(reason),
            None => Ok(()),
        }
    }

    /// Judges this signer alone: `Ok` where it is trusted, else the first
    /// reason against it.
    pub fn check(&self, policy: &TrustPolicy) -> (r: Result<(), TrustFailure>)
        ensures
            r == self.judgement(*policy),
            r is Ok <==> self.is_trusted(*policy),
    {
        if self.key_revoked {
            Err(TrustFailure::KeyRevoked)
        } else if self.key_expired {
            Err(TrustFailure::KeyExpired)
        } else if self.sig_expired {
            Err(TrustFailure::SignatureExpired)
        } else if self.key_missing {
            Err(TrustFailure::KeyMissing)
        } else {
            let rank: u8 = match self.validity {
                Some(v) => v.level(),
                None => 0,
            };
            if rank < policy.min_validity.level() {
                Err(TrustFailure::InsufficientValidity)
            } else {
                Ok(())
            }
        }
    }
}

/// Some signer among `outcomes` is trusted under `policy`.
pub open spec fn some_signer_trusted(outcomes: Seq<SignerOutcome>, policy: TrustPolicy) -> bool {
    exists|i: int| 0 <= i < outcomes.len() && (#[trigger] outcomes[i]).is_trusted(policy)
}

/// The trust decision for the signers of one block.
///
/// Each signer is judged on its own. One trusted signer is enough. With no
/// signer at all there is no signature; with signers of which none is
/// trusted, the reason given is the first one against the first signer.
pub open spec fn spec_trust_decision(outcomes: Seq<SignerOutcome>, policy: TrustPolicy) -> Result<
    (),
    TrustFailure,
> {
    if some_signer_trusted(outcomes, policy) {
        Ok(())
    } else if outcomes.len() == 0 {
        Err(TrustFailure::NoSignatureFound)
    } else {
        outcomes[0].judgement(policy)
    }
}

/// Whether a block is trusted does not depend on the order in which its
/// signers are reported, nor on how often one is reported: two reports
/// that hold the same signers are trusted alike.
pub proof fn lemma_trust_ignores_order(
    a: Seq<SignerOutcome>,
    b: Seq<SignerOutcome>,
    policy: TrustPolicy,
)
    requires
        forall|o: SignerOutcome| a.contains(o) <==> b.contains(o),
    ensures
        spec_trust_decision(a, policy) is Ok <==> spec_trust_decision(b, policy) is Ok,
{
    if some_signer_trusted(a, policy) {
        let i = choose|i: int| 0 <= i < a.len() && (#[trigger] a[i]).is_trusted(policy);
        assert(a.contains(a[i]));
        let j = choose|j: int| 0 <= j < b.len() && b[j] == a[i];
    }
    if some_signer_trusted(b, policy) {
        let i = choose|i: int| 0 <= i < b.len() && (#[trigger] b[i]).is_trusted(policy);
        assert(b.contains(b[i]));
        let j = choose|j: int| 0 <= j < a.len() && a[j] == b[i];
    }
}

/// A signer trusted under a policy is trusted under every policy that
/// asks for no more validity.
pub proof fn lemma_trust_is_monotone(
    outcomes: Seq<SignerOutcome>,
    strict: TrustPolicy,
    lenient: TrustPolicy,
)
    requires
        lenient.min_validity.rank() <= strict.min_validity.rank(),
        spec_trust_decision(outcomes, strict) is Ok,
    ensures
        spec_trust_decision(outcomes, lenient) is Ok,
{
    let i = choose|i: int| 0 <= i < outcomes.len() && (#[trigger] outcomes[i]).is_trusted(strict);
}

/// Decides under `policy` whether the signers that the engine reported
/// for one block make the block trusted.
pub fn judge_signers(outcomes: &Vec<SignerOutcome>, policy: &TrustPolicy) -> (r: Result<
    (),
    TrustFailure,
>)
    ensures
        r == spec_trust_decision(outcomes@, *policy),
        r is Ok <==> some_signer_trusted(outcomes@, *policy),
{
    if outcomes.len() == 0 {
        return Err(TrustFailure::NoSignatureFound);
    }
    let mut i: usize = 0;
    while i < outcomes.len()
        invariant
            i <= outcomes.len(),
            forall|k: int| 0 <= k < i ==> !(#[trigger] outcomes@[k]).is_trusted(*policy),
        decreases outcomes.len() - i,
    {
        if outcomes[i].check(policy).is_ok() {
            return Ok(());
        }
        i += 1;
    }
    outcomes[0].check(policy)
}

/// Some signer among `outcomes` has none of the four failure flags.
pub open spec fn some_signer_clean(outcomes: Seq<SignerOutcome>) -> bool {
    exists|i: int| 0 <= i < outcomes.len() && (#[trigger] outcomes[i]).is_clean()
}

/// Decides whether the signers that the engine reported for one block make
/// the block trusted, by the failure flags alone: one signer without any
/// is enough. Where the block is not trusted the reason is given in words.
pub fn verify_gpg_signature_result(outcomes: &Vec<SignerOutcome>) -> (r: Result<
    (),
    &'static str,
>)
    ensures
        r is Ok <==> some_signer_clean(outcomes@),
        r is Ok <==> spec_trust_decision(outcomes@, TrustPolicy::lenient()) is Ok,
        r matches Err(words) ==> spec_trust_decision(outcomes@, TrustPolicy::lenient()) matches Err(
            reason,
        ) && words@ == reason.words(),
{
    let policy = TrustPolicy { min_validity: Validity::Unknown };
    proof {
        assert forall|i: int| 0 <= i < outcomes@.len() implies ((#[trigger] outcomes@[i]).is_clean()
            <==> outcomes@[i].is_trusted(policy)) by {}
    }
    match judge_signers(outcomes, &policy) {
        Ok(()) => Ok(()),
        Err(reason) => Err(reason.message()),
    }
}

} // verus!
