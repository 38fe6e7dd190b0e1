//! The checkpoint signer: build, sign, store, point.
//!
//! A checkpoint is made in four steps that have to happen in this order:
//! its metadata is built, the engine signs exactly those bytes, metadata
//! and signature are stored as one object, and the checkpoint reference is
//! pointed at that object, over whatever it pointed at before. The signer
//! decides each step from what the caller reports about the one before; it
//! touches neither the engine nor the store.

use vstd::prelude::*;
use crate::bytes::copy_of;
use crate::tag::{
    reference_log, reference_name, signed_tag, spec_reference_log, spec_reference_name,
    spec_tag_content, tag_content, Tagger,
};

verus! {

/// Where the making of a checkpoint stands.
#[derive(Clone, Copy, Debug, PartialEq, Eq, Structural)]
pub enum SignerPhase {
    /// The metadata is with the engine; waits for `Signed`.
    Signing,
    /// The signed object is with the store; waits for `Written`.
    Writing,
    /// The reference is being pointed at the object; waits for `Updated`.
    Updating,
    /// The checkpoint stands.
    Done,
    /// The checkpoint was not made.
    Failed,
}

/// Why a checkpoint was not made.
#[derive(Clone, Copy, Debug, PartialEq, Eq, Structural)]
pub enum SignerError {
    /// The engine did not sign.
    SigningFailed,
    /// The store did not take the object or the reference.
    StoreFailed,
    /// An event arrived that the current state does not wait for.
    UnexpectedEvent,
}

/// What the caller reports back to the signer.
#[derive(Clone, Debug, PartialEq, Eq)]
pub enum SignerEvent {
    /// The engine's armored detached signature over the payload.
    Signed(Vec<u8>),
    /// The engine did not sign.
    SigningFailed,
    /// The id that the store gave the object.
    Written(Vec<u8>),
    /// The reference now points at the object.
    Updated,
    /// The store failed.
    StoreFailed,
}

/// What the signer asks of the caller.
#[derive(Clone, Debug, PartialEq, Eq)]
pub enum SignerAction {
    /// Ask the engine for an armored detached signature over `payload`,
    /// then report `Signed`.
    Sign { payload: Vec<u8> },
    /// Store `object` as a raw tag object, then report `Written`.
    WriteTag { object: Vec<u8> },
    /// Point the reference `name` at the object `target`, overwriting what
    /// it points at, with `log` as the log message; then report `Updated`.
    UpdateReference { name: Vec<u8>, target: Vec<u8>, log: Vec<u8> },
    /// The checkpoint stands; there is nothing more to do.
    Finish,
    /// The checkpoint was not made.
    Fail(SignerError),
    /// The making was over before this event.
    Halt,
}

/// The mathematical value of a [`SignerAction`].
pub enum SignerActionView {
    Sign { payload: Seq<u8> },
    WriteTag { object: Seq<u8> },
    UpdateReference { name: Seq<u8>, target: Seq<u8>, log: Seq<u8> },
    Finish,
    Fail(SignerError),
    Halt,
}

impl View for SignerAction {
    type V = SignerActionView;

    open spec fn view(&self) -> SignerActionView {
        match *self {
            SignerAction::Sign { payload } => SignerActionView::Sign { payload: payload@ },
            SignerAction::WriteTag { object } => SignerActionView::WriteTag { object: object@ },
            SignerAction::UpdateReference { name, target, log } => {
                SignerActionView::UpdateReference { name: name@, target: target@, log: log@ }
            },
            SignerAction::Finish => SignerActionView::Finish,
            SignerAction::Fail(e) => SignerActionView::Fail(e),
            SignerAction::Halt => SignerActionView::Halt,
        }
    }
}

/// The mathematical value of a [`Signer`].
pub struct SignerView {
    pub phase: SignerPhase,
    /// Id of the commit that the checkpoint points at.
    pub target: Seq<u8>,
    /// The metadata of the checkpoint, which is what is signed.
    pub content: Seq<u8>,
}

/// The state of the making of one checkpoint.
pub struct Signer {
    phase: SignerPhase,
    target: Vec<u8>,
    content: Vec<u8>,
}

impl View for Signer {
    type V = SignerView;

    closed spec fn view(&self) -> SignerView {
        SignerView { phase: self.phase, target: self.target@, content: self.content@ }
    }
}

impl SignerView {
    /// The state in which the making of a checkpoint at `target` starts.
    pub open spec fn initial(target: Seq<u8>, tagger: Tagger) -> SignerView {
        SignerView {
            phase: SignerPhase::Signing,
            target,
            content: spec_tag_content(target, tagger),
        }
    }

    /// The making is over.
    pub open spec fn finished(self) -> bool {
        self.phase == SignerPhase::Done || self.phase == SignerPhase::Failed
    }

    /// This state in another phase.
    pub open spec fn at(self, phase: SignerPhase) -> SignerView {
        SignerView { phase, ..self }
    }

    /// The making ends on an error.
    pub open spec fn fail(self, error: SignerError) -> (SignerView, SignerActionView) {
        (self.at(SignerPhase::Failed), SignerActionView::Fail(error))
    }

    /// The state after `event`, and what the signer then asks for.
    pub open spec fn step(self, event: SignerEvent) -> (SignerView, SignerActionView) {
        match (self.phase, event) {
            (SignerPhase::Done, _) | (SignerPhase::Failed, _) => (self, SignerActionView::Halt),
            (SignerPhase::Signing, SignerEvent::Signed(signature)) => (
                self.at(SignerPhase::Writing),
                SignerActionView::WriteTag { object: self.content + signature@ },
            ),
            (SignerPhase::Signing, SignerEvent::SigningFailed) => self.fail(
                SignerError::SigningFailed,
            ),
            (SignerPhase::Writing, SignerEvent::Written(id)) => (
                self.at(SignerPhase::Updating),
                SignerActionView::UpdateReference {
                    name: spec_reference_name(),
                    target: id@,
                    log: spec_reference_log(self.target),
                },
            ),
            (SignerPhase::Writing, SignerEvent::StoreFailed) => self.fail(SignerError::StoreFailed),
            (SignerPhase::Updating, SignerEvent::Updated) => (
                self.at(SignerPhase::Done),
                SignerActionView::Finish,
            ),
            (SignerPhase::Updating, SignerEvent::StoreFailed) => self.fail(
                SignerError::StoreFailed,
            ),
            _ => self.fail(SignerError::UnexpectedEvent),
        }
    }
}

impl Signer {
    /// Starts making a checkpoint that points at the commit `target`.
    /// Builds the metadata and asks for the signature over it.
    pub fn new(target: &[u8], tagger: &Tagger) -> (r: (Signer, SignerAction))
        ensures
            r.0@ == SignerView::initial(target@, *tagger),
            r.1@ == (SignerActionView::Sign { payload: spec_tag_content(target@, *tagger) }),
    {
        let content = tag_content(target, tagger);
        let payload = copy_of(content.as_slice());
        (
            Signer { phase: SignerPhase::Signing, target: copy_of(target), content },
            SignerAction::Sign { payload },
        )
    }

    /// Where the making stands.
    pub fn phase(&self) -> (phase: SignerPhase)
        ensures
            phase == self@.phase,
    {
        self.phase
    }

    fn failed(self, error: SignerError) -> (r: (Signer, SignerAction))
        ensures
            (r.0@, r.1@) == self@.fail(error),
    {
        let mut s = self;
        s.phase = SignerPhase::Failed;
        (s, SignerAction::Fail(error))
    }

    /// Takes what the caller reports and answers with the next state and
    /// what to do next.
    ///
    /// A making that is over stays as it is and answers `Halt`. An event
    /// that the state does not wait for ends it with `UnexpectedEvent`.
    pub fn step(self, event: SignerEvent) -> (r: (Signer, SignerAction))
        ensures
            (r.0@, r.1@) == self@.step(event),
    {
        match self.phase {
            SignerPhase::Done | SignerPhase::Failed => (self, SignerAction::Halt),
            SignerPhase::Signing => match event {
                SignerEvent::Signed(signature) => {
                    let mut s = self;
                    s.phase = SignerPhase::Writing;
                    let object = signed_tag(s.content.as_slice(), signature.as_slice());
                    (s, SignerAction::WriteTag { object })
                },
                SignerEvent::SigningFailed => self.failed(SignerError::SigningFailed),
                _ => self.failed(SignerError::UnexpectedEvent),
            },
            SignerPhase::Writing => match event {
                SignerEvent::Written(id) => {
                    let mut s = self;
                    s.phase = SignerPhase::Updating;
                    let log = reference_log(s.target.as_slice());
                    (s, SignerAction::UpdateReference { name: reference_name(), target: id, log })
                },
                SignerEvent::StoreFailed => self.failed(SignerError::StoreFailed),
                _ => self.failed(SignerError::UnexpectedEvent),
            },
            SignerPhase::Updating => match event {
                SignerEvent::Updated => {
                    let mut s = self;
                    s.phase = SignerPhase::Done;
                    (s, SignerAction::Finish)
                },
                SignerEvent::StoreFailed => self.failed(SignerError::StoreFailed),
                _ => self.failed(SignerError::UnexpectedEvent),
            },
        }
    }
}

/// The store is given only the metadata followed by a signature that the
/// engine made over it, and the reference is pointed only at an object
/// that the store gave an id for: one step answers `WriteTag` only to
/// `Signed` while signing, `UpdateReference` only to `Written` while
/// writing, and `Finish` only to `Updated` while updating. The signature
/// is asked for once, at the start, and never by a step.
pub proof fn lemma_steps_in_order(s: SignerView, event: SignerEvent)
    ensures
        s.step(event).1 is WriteTag ==> s.phase == SignerPhase::Signing && match event {
            SignerEvent::Signed(signature) => s.step(event).1 == (SignerActionView::WriteTag {
                object: s.content + signature@,
            }),
            _ => false,
        },
        s.step(event).1 is UpdateReference ==> s.phase == SignerPhase::Writing && match event {
            SignerEvent::Written(id) => s.step(event).1 == (SignerActionView::UpdateReference {
                name: spec_reference_name(),
                target: id@,
                log: spec_reference_log(s.target),
            }),
            _ => false,
        },
        s.step(event).1 is Finish ==> s.phase == SignerPhase::Updating && event is Updated,
        !(s.step(event).1 is Sign),
        s.finished() ==> s.step(event) == (s, SignerActionView::Halt),
        s.step(event).0.target == s.target,
        s.step(event).0.content == s.content,
{
}

/// How far a phase is from the start.
pub open spec fn phase_rank(phase: SignerPhase) -> nat {
    match phase {
        SignerPhase::Signing => 0,
        SignerPhase::Writing => 1,
        SignerPhase::Updating => 2,
        SignerPhase::Done => 3,
        SignerPhase::Failed => 3,
    }
}

/// Each step that is taken before the making is over moves to a later
/// phase, so that the object is stored at most once and the reference is
/// pointed at most once.
pub proof fn lemma_phases_go_forward(s: SignerView, event: SignerEvent)
    requires
        !s.finished(),
    ensures
        phase_rank(s.step(event).0.phase) > phase_rank(s.phase),
{
}

} // verus!
