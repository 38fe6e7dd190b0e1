//! The trust anchor protocol: verify everything, then advance, or reject.
//!
//! The protocol is a state machine that never touches the object store or
//! the cryptographic engine itself. It is told what they answered, decides,
//! and says what to ask next. The caller performs each [`Action`] and hands
//! back the matching [`Event`].
//!
//! A pass goes `Idle → AnchorLoaded → AnchorVerified → RangeComputed →
//! Verifying(i) → AllTrusted | Rejected`. The checkpoint's own signature is
//! judged first, by the same policy as the commits. The commits are judged
//! oldest first, and the first one that is not trusted ends the pass. Only a
//! pass in which every commit was trusted asks for the checkpoint to move.

use vstd::prelude::*;
use vstd::utf8::valid_utf8;
use crate::bytes::{copy_of, same_bytes};
use crate::config::EXIT_INVALID_SIGNATURE;
use crate::payload::{signed_commit_data, spec_signed_commit_data};
use crate::signature::{
    classify_signature, judge_signers, spec_classify, spec_trust_decision,
    SignatureKind, SignerOutcome, TrustFailure, TrustPolicy,
};
use crate::tag::{is_utf8, signature_start, spec_signature_start};

verus! {

/// The judgement on one signature block.
#[derive(Clone, Copy, Debug, PartialEq, Eq, Structural)]
pub enum Verdict {
    /// The engine verified the block and at least one signer is trusted.
    Trusted,
    /// There is no signature block, or the engine found no signer in it.
    Unsigned,
    /// The engine verified the block and no signer is trusted.
    UntrustedOrInvalid,
    /// The block is an SSH signature.
    UnsupportedSignatureScheme,
    /// The block's first line names no known scheme.
    UnknownSignatureMarker,
    /// The engine could not verify the block at all.
    EngineError,
}

/// What the engine answered to one detached verification.
#[derive(Clone, Debug, PartialEq, Eq)]
pub enum EngineReply {
    /// The verification ran; one entry for each signer it found.
    Signers(Vec<SignerOutcome>),
    /// The verification could not run.
    Error,
}

/// Kind of a stored object.
#[derive(Clone, Copy, Debug, PartialEq, Eq, Structural)]
pub enum ObjectKind {
    Commit,
    Tree,
    Blob,
    Tag,
    /// Anything else the store may hold.
    Other,
}

/// The object that the checkpoint reference points at.
#[derive(Clone, Debug, PartialEq, Eq)]
pub struct AnchorObject {
    /// Id of the object.
    pub id: Vec<u8>,
    /// Kind of the object; a signed checkpoint is a tag.
    pub kind: ObjectKind,
    /// The object's bytes as stored.
    pub raw: Vec<u8>,
}

/// A commit as the object store holds it.
#[derive(Clone, Debug, PartialEq, Eq)]
pub struct CommitObject {
    /// Id of the commit.
    pub id: Vec<u8>,
    /// The header, with the embedded signature if there is one.
    pub raw_header: Vec<u8>,
    /// The message.
    pub message: Vec<u8>,
    /// The value of the embedded signature field, if there is one.
    pub signature: Option<Vec<u8>>,
}

/// What the caller reports back to the protocol.
#[derive(Clone, Debug, PartialEq, Eq)]
pub enum Event {
    /// The checkpoint reference was looked up; `None` where it does not exist.
    AnchorResolved(Option<AnchorObject>),
    /// The engine answered the last `VerifyDetached`.
    EngineReplied(EngineReply),
    /// The commits reachable from `tip` and not from the checkpoint, oldest
    /// first, so that `tip` itself comes last where there are any.
    RangeResolved { tip: Vec<u8>, commits: Vec<Vec<u8>> },
    /// The commit asked for by the last `LoadCommit`.
    CommitLoaded(CommitObject),
}

/// Why a pass ended without a judgement.
#[derive(Clone, Copy, Debug, PartialEq, Eq, Structural)]
pub enum ProtocolError {
    /// There is no checkpoint yet: initialise the repository first.
    MissingAnchor,
    /// The checkpoint object is not text.
    InvalidUtf8,
    /// An event arrived that the current state does not wait for, or that
    /// does not fit what was asked for: a range that does not end with its
    /// tip, or another commit than the one to load.
    UnexpectedEvent,
}

/// What the protocol asks of the caller.
#[derive(Clone, Debug, PartialEq, Eq)]
pub enum Action {
    /// Ask the engine to verify `signature` as a detached signature over
    /// `payload`, then report `EngineReplied`.
    VerifyDetached { signature: Vec<u8>, payload: Vec<u8> },
    /// Find the current tip and the commits between the checkpoint object
    /// `anchor` and the tip, then report `RangeResolved`.
    ResolveRange { anchor: Vec<u8> },
    /// Read the commit `id`, then report `CommitLoaded`.
    LoadCommit { id: Vec<u8> },
    /// Every commit was trusted: move the checkpoint to `tip`. The pass is
    /// over and its result is `true`.
    Advance { tip: Vec<u8> },
    /// `subject` is not trusted. The pass is over, its result is `false`,
    /// and the checkpoint stays where it is.
    Reject { subject: Vec<u8>, verdict: Verdict },
    /// The pass cannot go on. The checkpoint stays where it is.
    Fail(ProtocolError),
    /// The pass was over before this event; there is nothing to do.
    Halt,
}

/// Where a pass stands.
#[derive(Clone, Copy, Debug, PartialEq, Eq, Structural)]
pub enum Phase {
    /// Nothing is known yet; waits for `AnchorResolved`.
    Idle,
    /// The checkpoint's signature is with the engine; waits for
    /// `EngineReplied`.
    AnchorLoaded,
    /// The checkpoint is trusted; waits for `RangeResolved`.
    AnchorVerified,
    /// The range is known and not empty; waits for its first commit.
    RangeComputed,
    /// The commits before this index are trusted and the commit at this
    /// index is next: either its signature is with the engine, or the commit
    /// is yet to be loaded.
    Verifying(usize),
    /// Every commit of the range was trusted.
    AllTrusted,
    /// The checkpoint or a commit was not trusted.
    Rejected,
    /// The pass ended on an error.
    Failed,
}

/// The mathematical value of an [`Action`].
pub enum ActionView {
    VerifyDetached { signature: Seq<u8>, payload: Seq<u8> },
    ResolveRange { anchor: Seq<u8> },
    LoadCommit { id: Seq<u8> },
    Advance { tip: Seq<u8> },
    Reject { subject: Seq<u8>, verdict: Verdict },
    Fail(ProtocolError),
    Halt,
}

impl View for Action {
    type V = ActionView;

    open spec fn view(&self) -> ActionView {
        match *self {
            Action::VerifyDetached { signature, payload } => ActionView::VerifyDetached {
                signature: signature@,
                payload: payload@,
            },
            Action::ResolveRange { anchor } => ActionView::ResolveRange { anchor: anchor@ },
            Action::LoadCommit { id } => ActionView::LoadCommit { id: id@ },
            Action::Advance { tip } => ActionView::Advance { tip: tip@ },
            Action::Reject { subject, verdict } => ActionView::Reject { subject: subject@, verdict },
            Action::Fail(e) => ActionView::Fail(e),
            Action::Halt => ActionView::Halt,
        }
    }
}

/// The range fits the tip: a range that is not empty ends with the tip,
/// which is the youngest of its commits.
pub open spec fn range_ends_at(range: Seq<Seq<u8>>, tip: Seq<u8>) -> bool {
    range.len() == 0 || range.last() == tip
}

/// The ids of a range as plain byte strings.
pub open spec fn ids(range: Seq<Vec<u8>>) -> Seq<Seq<u8>> {
    Seq::new(range.len(), |i: int| range[i]@)
}

/// The mathematical value of a [`Protocol`].
pub struct ProtocolView {
    pub policy: TrustPolicy,
    pub phase: Phase,
    /// In `Verifying`: the commit's signature is with the engine.
    pub awaiting_reply: bool,
    /// Id of the checkpoint object, once loaded.
    pub anchor: Seq<u8>,
    /// Id of the tip, once the range is known.
    pub tip: Seq<u8>,
    /// The range, once known.
    pub range: Seq<Seq<u8>>,
}

/// The state of one verification pass.
pub struct Protocol {
    policy: TrustPolicy,
    phase: Phase,
    awaiting_reply: bool,
    anchor: Vec<u8>,
    tip: Vec<u8>,
    range: Vec<Vec<u8>>,
}

impl View for Protocol {
    type V = ProtocolView;

    closed spec fn view(&self) -> ProtocolView {
        ProtocolView {
            policy: self.policy,
            phase: self.phase,
            awaiting_reply: self.awaiting_reply,
            anchor: self.anchor@,
            tip: self.tip@,
            range: ids(self.range@),
        }
    }
}

/// The exit status that stands for a pass resting in `phase`.
pub open spec fn spec_exit_code(phase: Phase) -> i32 {
    match phase {
        Phase::AllTrusted => 0,
        Phase::Rejected => EXIT_INVALID_SIGNATURE,
        _ => 1,
    }
}

/// The judgement that an engine reply amounts to under `policy`.
pub open spec fn spec_reply_verdict(reply: EngineReply, policy: TrustPolicy) -> Verdict {
    match reply {
        EngineReply::Error => Verdict::EngineError,
        EngineReply::Signers(outcomes) => match spec_trust_decision(outcomes@, policy) {
            Ok(_) => Verdict::Trusted,
            Err(TrustFailure::NoSignatureFound) => Verdict::Unsigned,
            Err(_) => Verdict::UntrustedOrInvalid,
        },
    }
}

/// Judges an engine reply under `policy`.
pub fn reply_verdict(reply: &EngineReply, policy: &TrustPolicy) -> (verdict: Verdict)
    ensures
        verdict == spec_reply_verdict(*reply, *policy),
{
    match reply {
        EngineReply::Error => Verdict::EngineError,
        EngineReply::Signers(outcomes) => match judge_signers(outcomes, policy) {
            Ok(_) => Verdict::Trusted,
            Err(TrustFailure::NoSignatureFound) => Verdict::Unsigned,
            Err(_) => Verdict::UntrustedOrInvalid,
        },
    }
}

/// What looking at a signature block settles before the engine is asked:
/// `None` for an OpenPGP block, which the engine must judge, else the
/// judgement.
pub open spec fn spec_screen(block: Option<Seq<u8>>) -> Option<Verdict> {
    match block {
        None => Some(Verdict::Unsigned),
        Some(b) => match spec_classify(b) {
            SignatureKind::Pgp => None,
            SignatureKind::Ssh => Some(Verdict::UnsupportedSignatureScheme),
            SignatureKind::Unknown => Some(Verdict::UnknownSignatureMarker),
        },
    }
}

/// The signature block of a stored checkpoint object, where it has one.
/// An object that is not a tag, or holds no armor marker, has none.
pub open spec fn anchor_block(anchor: AnchorObject) -> Option<Seq<u8>> {
    if anchor.kind != ObjectKind::Tag {
        None
    } else {
        match spec_signature_start(anchor.raw@) {
            None => None,
            Some(at) => Some(anchor.raw@.skip(at)),
        }
    }
}

/// The signed bytes of a stored checkpoint object: what stands before its
/// signature block.
pub open spec fn anchor_payload(anchor: AnchorObject) -> Seq<u8> {
    match spec_signature_start(anchor.raw@) {
        None => anchor.raw@,
        Some(at) => anchor.raw@.take(at),
    }
}

/// The checkpoint object is a tag whose bytes are not text.
pub open spec fn anchor_malformed(anchor: AnchorObject) -> bool {
    anchor.kind == ObjectKind::Tag && !valid_utf8(anchor.raw@)
}

/// The judgement on a commit, given what the engine would answer for its
/// signature. The answer counts only for an OpenPGP block.
pub open spec fn commit_verdict(commit: CommitObject, reply: EngineReply, policy: TrustPolicy)
    -> Verdict {
    match spec_screen(commit_block(commit)) {
        Some(v) => v,
        None => spec_reply_verdict(reply, policy),
    }
}

/// The signature block of a commit, where it has one.
pub open spec fn commit_block(commit: CommitObject) -> Option<Seq<u8>> {
    match commit.signature {
        None => None,
        Some(s) => Some(s@),
    }
}

/// The judgement on a checkpoint object that is well formed, given what
/// the engine would answer for its signature.
pub open spec fn anchor_verdict(anchor: AnchorObject, reply: EngineReply, policy: TrustPolicy)
    -> Verdict {
    match spec_screen(anchor_block(anchor)) {
        Some(v) => v,
        None => spec_reply_verdict(reply, policy),
    }
}

impl ProtocolView {
    /// The state in which every pass starts.
    pub open spec fn initial(policy: TrustPolicy) -> ProtocolView {
        ProtocolView {
            policy,
            phase: Phase::Idle,
            awaiting_reply: false,
            anchor: Seq::empty(),
            tip: Seq::empty(),
            range: Seq::empty(),
        }
    }

    /// The pass is over.
    pub open spec fn finished(self) -> bool {
        self.phase == Phase::AllTrusted || self.phase == Phase::Rejected || self.phase
            == Phase::Failed
    }

    /// This state with another phase.
    pub open spec fn at(self, phase: Phase, awaiting_reply: bool) -> ProtocolView {
        ProtocolView { phase, awaiting_reply, ..self }
    }

    /// The pass ends on an error.
    pub open spec fn fail(self, error: ProtocolError) -> (ProtocolView, ActionView) {
        (self.at(Phase::Failed, false), ActionView::Fail(error))
    }

    /// The pass ends on a rejection.
    pub open spec fn reject(self, subject: Seq<u8>, verdict: Verdict) -> (ProtocolView, ActionView) {
        (self.at(Phase::Rejected, false), ActionView::Reject { subject, verdict })
    }

    /// The commits before `index` are trusted: go on with the commit at
    /// `index`, or end the pass where there is none.
    pub open spec fn proceed(self, index: int) -> (ProtocolView, ActionView) {
        if index >= self.range.len() {
            (self.at(Phase::AllTrusted, false), ActionView::Advance { tip: self.tip })
        } else if index == 0 {
            (self.at(Phase::RangeComputed, false), ActionView::LoadCommit { id: self.range[0] })
        } else {
            (
                self.at(Phase::Verifying(index as usize), false),
                ActionView::LoadCommit { id: self.range[index] },
            )
        }
    }

    /// The checkpoint object has arrived.
    pub open spec fn verify_tag(self, anchor: AnchorObject) -> (ProtocolView, ActionView) {
        let s = ProtocolView { anchor: anchor.id@, ..self };
        if anchor_malformed(anchor) {
            s.fail(ProtocolError::InvalidUtf8)
        } else {
            match spec_screen(anchor_block(anchor)) {
                Some(verdict) => s.reject(anchor.id@, verdict),
                None => (
                    s.at(Phase::AnchorLoaded, true),
                    ActionView::VerifyDetached {
                        signature: anchor_block(anchor).unwrap(),
                        payload: anchor_payload(anchor),
                    },
                ),
            }
        }
    }

    /// The commit at `index` has arrived.
    pub open spec fn verify_commit(self, index: int, commit: CommitObject) -> (
        ProtocolView,
        ActionView,
    ) {
        if !(0 <= index < self.range.len()) || commit.id@ != self.range[index] {
            self.fail(ProtocolError::UnexpectedEvent)
        } else {
            match spec_screen(commit_block(commit)) {
                Some(verdict) => self.reject(commit.id@, verdict),
                None => (
                    self.at(Phase::Verifying(index as usize), true),
                    ActionView::VerifyDetached {
                        signature: commit_block(commit).unwrap(),
                        payload: spec_signed_commit_data(commit.raw_header@, commit.message@),
                    },
                ),
            }
        }
    }

    /// The state after `event`, and what the protocol then asks for.
    pub open spec fn step(self, event: Event) -> (ProtocolView, ActionView) {
        match (self.phase, event) {
            (Phase::AllTrusted, _) | (Phase::Rejected, _) | (Phase::Failed, _) => (
                self,
                ActionView::Halt,
            ),
            (Phase::Idle, Event::AnchorResolved(None)) => self.fail(ProtocolError::MissingAnchor),
            (Phase::Idle, Event::AnchorResolved(Some(anchor))) => self.verify_tag(anchor),
            (Phase::AnchorLoaded, Event::EngineReplied(reply)) => {
                let verdict = spec_reply_verdict(reply, self.policy);
                if verdict == Verdict::Trusted {
                    (
                        self.at(Phase::AnchorVerified, false),
                        ActionView::ResolveRange { anchor: self.anchor },
                    )
                } else {
                    self.reject(self.anchor, verdict)
                }
            },
            (Phase::AnchorVerified, Event::RangeResolved { tip, commits }) => {
                if range_ends_at(ids(commits@), tip@) {
                    ProtocolView { tip: tip@, range: ids(commits@), ..self }.proceed(0)
                } else {
                    self.fail(ProtocolError::UnexpectedEvent)
                }
            },
            (Phase::RangeComputed, Event::CommitLoaded(commit)) => self.verify_commit(0, commit),
            (Phase::Verifying(index), Event::CommitLoaded(commit)) => {
                if self.awaiting_reply {
                    self.fail(ProtocolError::UnexpectedEvent)
                } else {
                    self.verify_commit(index as int, commit)
                }
            },
            (Phase::Verifying(index), Event::EngineReplied(reply)) => {
                if !self.awaiting_reply || index >= self.range.len() {
                    self.fail(ProtocolError::UnexpectedEvent)
                } else {
                    let verdict = spec_reply_verdict(reply, self.policy);
                    if verdict == Verdict::Trusted {
                        self.proceed(index + 1)
                    } else {
                        self.reject(self.range[index as int], verdict)
                    }
                }
            },
            _ => self.fail(ProtocolError::UnexpectedEvent),
        }
    }
}

/// Judges a signature block by its first line alone: `None` for an
/// OpenPGP block, which the engine must judge, else the judgement.
pub fn screen(block: Option<&[u8]>) -> (r: Option<Verdict>)
    ensures
        r == spec_screen(
            match block {
                Some(b) => Some(b@),
                None => None,
            },
        ),
{
    match block {
        None => Some(Verdict::Unsigned),
        Some(b) => match classify_signature(b) {
            SignatureKind::Pgp => None,
            SignatureKind::Ssh => Some(Verdict::UnsupportedSignatureScheme),
            SignatureKind::Unknown => Some(Verdict::UnknownSignatureMarker),
        },
    }
}

impl Protocol {
    /// Starts a pass under `policy`. The caller resolves the checkpoint
    /// reference and reports `AnchorResolved`.
    pub fn new(policy: TrustPolicy) -> (p: Protocol)
        ensures
            p@ == ProtocolView::initial(policy),
    {
        let p = Protocol {
            policy,
            phase: Phase::Idle,
            awaiting_reply: false,
            anchor: Vec::new(),
            tip: Vec::new(),
            range: Vec::new(),
        };
        assert(ids(p.range@) =~= Seq::empty());
        p
    }

    /// Where the pass stands.
    pub fn phase(&self) -> (phase: Phase)
        ensures
            phase == self@.phase,
    {
        self.phase
    }

    /// The result of the pass, once it is over: `Some(true)` where every
    /// commit was trusted, `Some(false)` on a rejection, `None` while the
    /// pass runs and where it ended on an error.
    pub fn outcome(&self) -> (r: Option<bool>)
        ensures
            r == match self@.phase {
                Phase::AllTrusted => Some(true),
                Phase::Rejected => Some(false),
                _ => None,
            },
    {
        match self.phase {
            Phase::AllTrusted => Some(true),
            Phase::Rejected => Some(false),
            _ => None,
        }
    }

    /// The exit status that stands for where the pass rests: 0 after
    /// `AllTrusted`, the status of an invalid signature after `Rejected`,
    /// and 1, the status of every other failure, anywhere else.
    pub fn exit_code(&self) -> (code: i32)
        ensures
            code == spec_exit_code(self@.phase),
    {
        match self.phase {
            Phase::AllTrusted => 0,
            Phase::Rejected => EXIT_INVALID_SIGNATURE,
            _ => 1,
        }
    }

    fn failed(self, error: ProtocolError) -> (r: (Protocol, Action))
        ensures
            (r.0@, r.1@) == self@.fail(error),
    {
        let mut s = self;
        s.phase = Phase::Failed;
        s.awaiting_reply = false;
        (s, Action::Fail(error))
    }

    fn rejected(self, subject: Vec<u8>, verdict: Verdict) -> (r: (Protocol, Action))
        ensures
            (r.0@, r.1@) == self@.reject(subject@, verdict),
    {
        let mut s = self;
        s.phase = Phase::Rejected;
        s.awaiting_reply = false;
        (s, Action::Reject { subject, verdict })
    }

    fn proceed(self, index: usize) -> (r: (Protocol, Action))
        ensures
            (r.0@, r.1@) == self@.proceed(index as int),
    {
        let mut s = self;
        s.awaiting_reply = false;
        if index >= s.range.len() {
            s.phase = Phase::AllTrusted;
            let tip = copy_of(s.tip.as_slice());
            (s, Action::Advance { tip })
        } else {
            let id = copy_of(s.range[index].as_slice());
            if index == 0 {
                s.phase = Phase::RangeComputed;
            } else {
                s.phase = Phase::Verifying(index);
            }
            (s, Action::LoadCommit { id })
        }
    }

    fn verify_tag(self, anchor: AnchorObject) -> (r: (Protocol, Action))
        ensures
            (r.0@, r.1@) == self@.verify_tag(anchor),
    {
        let mut s = self;
        let subject = copy_of(anchor.id.as_slice());
        s.anchor = anchor.id;
        match anchor.kind {
            ObjectKind::Tag => {},
            _ => {
                return s.rejected(subject, Verdict::Unsigned);
            },
        }
        let raw = anchor.raw.as_slice();
        if !is_utf8(raw) {
            return s.failed(ProtocolError::InvalidUtf8);
        }
        match signature_start(raw) {
            None => s.rejected(subject, Verdict::Unsigned),
            Some(at) => {
                let block = &raw[at..raw.len()];
                match screen(Some(block)) {
                    Some(verdict) => s.rejected(subject, verdict),
                    None => {
                        let signature = copy_of(block);
                        let metadata = &raw[0..at];
                        let payload = copy_of(metadata);
                        s.phase = Phase::AnchorLoaded;
                        s.awaiting_reply = true;
                        (s, Action::VerifyDetached { signature, payload })
                    },
                }
            },
        }
    }

    fn verify_commit(self, index: usize, commit: CommitObject) -> (r: (Protocol, Action))
        ensures
            (r.0@, r.1@) == self@.verify_commit(index as int, commit),
    {
        let mut s = self;
        if index >= s.range.len() || !same_bytes(
            commit.id.as_slice(),
            s.range[index].as_slice(),
        ) {
            return s.failed(ProtocolError::UnexpectedEvent);
        }
        let payload = signed_commit_data(commit.raw_header.as_slice(), commit.message.as_slice());
        match commit.signature {
            None => s.rejected(commit.id, Verdict::Unsigned),
            Some(signature) => match screen(Some(signature.as_slice())) {
                Some(verdict) => s.rejected(commit.id, verdict),
                None => {
                    s.phase = Phase::Verifying(index);
                    s.awaiting_reply = true;
                    (s, Action::VerifyDetached { signature, payload })
                },
            },
        }
    }

    /// Takes what the caller reports and answers with the next state and
    /// what to do next.
    ///
    /// A pass that is over stays as it is and answers `Halt`. An event that
    /// the state does not wait for ends the pass with `UnexpectedEvent`.
    pub fn step(self, event: Event) -> (r: (Protocol, Action))
        ensures
            (r.0@, r.1@) == self@.step(event),
    {
        match self.phase {
            Phase::AllTrusted | Phase::Rejected | Phase::Failed => (self, Action::Halt),
            Phase::Idle => match event {
                Event::AnchorResolved(None) => self.failed(ProtocolError::MissingAnchor),
                Event::AnchorResolved(Some(anchor)) => self.verify_tag(anchor),
                _ => self.failed(ProtocolError::UnexpectedEvent),
            },
            Phase::AnchorLoaded => match event {
                Event::EngineReplied(reply) => {
                    match reply_verdict(&reply, &self.policy) {
                        Verdict::Trusted => {
                            let mut s = self;
                            s.phase = Phase::AnchorVerified;
                            s.awaiting_reply = false;
                            let anchor = copy_of(s.anchor.as_slice());
                            (s, Action::ResolveRange { anchor })
                        },
                        verdict => {
                            let subject = copy_of(self.anchor.as_slice());
                            self.rejected(subject, verdict)
                        },
                    }
                },
                _ => self.failed(ProtocolError::UnexpectedEvent),
            },
            Phase::AnchorVerified => match event {
                Event::RangeResolved { tip, commits } => {
                    let count: usize = commits.len();
                    if count > 0 && !same_bytes(commits[count - 1].as_slice(), tip.as_slice()) {
                        self.failed(ProtocolError::UnexpectedEvent)
                    } else {
                        let mut s = self;
                        s.tip = tip;
                        s.range = commits;
                        s.proceed(0)
                    }
                },
                _ => self.failed(ProtocolError::UnexpectedEvent),
            },
            Phase::RangeComputed => match event {
                Event::CommitLoaded(commit) => self.verify_commit(0, commit),
                _ => self.failed(ProtocolError::UnexpectedEvent),
            },
            Phase::Verifying(index) => match event {
                Event::CommitLoaded(commit) => {
                    if self.awaiting_reply {
                        self.failed(ProtocolError::UnexpectedEvent)
                    } else {
                        self.verify_commit(index, commit)
                    }
                },
                Event::EngineReplied(reply) => {
                    if !self.awaiting_reply || index >= self.range.len() {
                        self.failed(ProtocolError::UnexpectedEvent)
                    } else {
                        match reply_verdict(&reply, &self.policy) {
                            Verdict::Trusted => self.proceed(index + 1),
                            verdict => {
                                let subject = copy_of(self.range[index].as_slice());
                                self.rejected(subject, verdict)
                            },
                        }
                    }
                },
                _ => self.failed(ProtocolError::UnexpectedEvent),
            },
        }
    }
}

} // verus!
