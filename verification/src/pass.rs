//! A verification pass as a whole, and what holds of every pass.
//!
//! The protocol answers one event at a time. This module says what a whole
//! pass comes to when the caller answers each action faithfully, and proves
//! that the protocol, driven that way, ends exactly there: the checkpoint
//! moves if and only if the checkpoint's own signature and every commit of
//! the range are trusted, and then it moves to the tip.

use vstd::prelude::*;
use vstd::utf8::valid_utf8;
use crate::bytes::absent;
use crate::protocol::{
    anchor_block, anchor_malformed, anchor_verdict, commit_block, commit_verdict, ids,
    range_ends_at, spec_reply_verdict, spec_screen, ActionView, AnchorObject, CommitObject,
    EngineReply, Event, ObjectKind, Phase, ProtocolError, ProtocolView, Verdict,
};
use crate::payload::{
    has_signature_line, lemma_signature_field_is_removed, lines, signature_field, LF, SP,
};
use crate::signature::{
    armor_marker, lemma_known_block_is_armored, some_signer_trusted, spec_classify,
    SignatureKind, TrustPolicy,
};
use crate::signer::{SignerActionView, SignerEvent, SignerView};
use crate::tag::{
    lemma_signed_tag_splits, lemma_tag_content_has_no_marker, spec_signature_start,
    spec_tag_content, Tagger,
};

verus! {

/// The state after the events of `events`, in order.
pub open spec fn run(s: ProtocolView, events: Seq<Event>) -> ProtocolView
    decreases events.len(),
{
    if events.len() == 0 {
        s
    } else {
        run(s.step(events.first()).0, events.drop_first())
    }
}

/// The actions that the protocol answers to the events of `events`, in
/// order.
pub open spec fn trace(s: ProtocolView, events: Seq<Event>) -> Seq<ActionView>
    decreases events.len(),
{
    if events.len() == 0 {
        Seq::empty()
    } else {
        seq![s.step(events.first()).1] + trace(s.step(events.first()).0, events.drop_first())
    }
}

/// Feeding two runs of events one after the other is feeding their
/// concatenation.
pub proof fn lemma_run_concat(s: ProtocolView, a: Seq<Event>, b: Seq<Event>)
    ensures
        run(s, a + b) == run(run(s, a), b),
        trace(s, a + b) == trace(s, a) + trace(run(s, a), b),
    decreases a.len(),
{
    if a.len() > 0 {
        let next = s.step(a.first()).0;
        assert((a + b).drop_first() =~= a.drop_first() + b);
        lemma_run_concat(next, a.drop_first(), b);
    }
}

/// One event takes one step.
pub proof fn lemma_run_one(s: ProtocolView, e: Event)
    ensures
        run(s, seq![e]) == s.step(e).0,
        trace(s, seq![e]) == seq![s.step(e).1],
{
    let one = seq![e];
    assert(run(s.step(e).0, one.drop_first()) == s.step(e).0);
    assert(trace(s.step(e).0, one.drop_first()) =~= Seq::<ActionView>::empty());
}

/// Two events take two steps.
pub proof fn lemma_run_two(s: ProtocolView, e1: Event, e2: Event)
    ensures
        run(s, seq![e1, e2]) == s.step(e1).0.step(e2).0,
        trace(s, seq![e1, e2]) == seq![s.step(e1).1, s.step(e1).0.step(e2).1],
{
    assert(seq![e1, e2] =~= seq![e1] + seq![e2]);
    lemma_run_one(s, e1);
    lemma_run_one(s.step(e1).0, e2);
    lemma_run_concat(s, seq![e1], seq![e2]);
}

/// What the object store and the engine hold during one pass: everything
/// that the caller could be asked for, and what it would answer.
pub struct World {
    /// The policy of the pass.
    pub policy: TrustPolicy,
    /// The checkpoint object, if the checkpoint exists.
    pub anchor: Option<AnchorObject>,
    /// The engine's answer for the checkpoint's signature.
    pub anchor_reply: EngineReply,
    /// The tip.
    pub tip: Vec<u8>,
    /// The ids of the range, oldest first.
    pub range: Vec<Vec<u8>>,
    /// The commits of the range, in the same order.
    pub commits: Seq<CommitObject>,
    /// The engine's answer for the signature of each commit.
    pub replies: Seq<EngineReply>,
}

/// How a pass ends.
pub enum Outcome {
    /// Everything was trusted; the checkpoint moves to `tip`.
    Advanced { tip: Seq<u8> },
    /// `subject` was not trusted; the checkpoint stays.
    Rejected { subject: Seq<u8>, verdict: Verdict },
    /// The pass could not be made; the checkpoint stays.
    Failed(ProtocolError),
}

impl Outcome {
    /// The action that announces this outcome.
    pub open spec fn action(self) -> ActionView {
        match self {
            Outcome::Advanced { tip } => ActionView::Advance { tip },
            Outcome::Rejected { subject, verdict } => ActionView::Reject { subject, verdict },
            Outcome::Failed(error) => ActionView::Fail(error),
        }
    }

    /// The phase in which a pass with this outcome rests.
    pub open spec fn phase(self) -> Phase {
        match self {
            Outcome::Advanced { .. } => Phase::AllTrusted,
            Outcome::Rejected { .. } => Phase::Rejected,
            Outcome::Failed(_) => Phase::Failed,
        }
    }
}

/// The action asks for more work and ends nothing.
pub open spec fn is_request(action: ActionView) -> bool {
    action is VerifyDetached || action is ResolveRange || action is LoadCommit
}

/// The checkpoint is asked to move somewhere in `actions`.
pub open spec fn advances(actions: Seq<ActionView>) -> bool {
    exists|i: int| 0 <= i < actions.len() && actions[i] is Advance
}

impl World {
    /// The commits and the engine's answers line up with the range, and
    /// the range ends with the tip.
    pub open spec fn wf(self) -> bool {
        &&& self.commits.len() == self.range.len()
        &&& self.replies.len() == self.range.len()
        &&& range_ends_at(ids(self.range@), self.tip@)
        &&& forall|i: int|
            0 <= i < self.commits.len() ==> (#[trigger] self.commits[i]).id@ == self.range[i]@
    }

    /// The judgement on the commit at `i`.
    pub open spec fn verdict(self, i: int) -> Verdict {
        commit_verdict(self.commits[i], self.replies[i], self.policy)
    }

    /// Index of the first commit at or after `from` that is not trusted;
    /// the length of the range where there is none.
    pub open spec fn first_untrusted(self, from: int) -> int
        decreases self.commits.len() - from,
    {
        if from >= self.commits.len() {
            self.commits.len() as int
        } else if self.verdict(from) != Verdict::Trusted {
            from
        } else {
            self.first_untrusted(from + 1)
        }
    }

    /// How the commits from `from` on end the pass.
    pub open spec fn range_outcome(self, from: int) -> Outcome {
        let k = self.first_untrusted(from);
        if k < self.commits.len() {
            Outcome::Rejected { subject: self.range[k]@, verdict: self.verdict(k) }
        } else {
            Outcome::Advanced { tip: self.tip@ }
        }
    }

    /// How the pass ends.
    pub open spec fn outcome(self) -> Outcome {
        match self.anchor {
            None => Outcome::Failed(ProtocolError::MissingAnchor),
            Some(anchor) => {
                if anchor_malformed(anchor) {
                    Outcome::Failed(ProtocolError::InvalidUtf8)
                } else if anchor_verdict(anchor, self.anchor_reply, self.policy)
                    != Verdict::Trusted {
                    Outcome::Rejected {
                        subject: anchor.id@,
                        verdict: anchor_verdict(anchor, self.anchor_reply, self.policy),
                    }
                } else {
                    self.range_outcome(0)
                }
            },
        }
    }

    /// What a faithful caller reports for the commits from `from` on: each
    /// commit when asked for, the engine's answer when asked for, and
    /// nothing after the pass has ended.
    pub open spec fn commit_events(self, from: int) -> Seq<Event>
        decreases self.commits.len() - from,
    {
        if from >= self.commits.len() {
            Seq::empty()
        } else {
            let loaded = Event::CommitLoaded(self.commits[from]);
            let replied = Event::EngineReplied(self.replies[from]);
            if spec_screen(commit_block(self.commits[from])) is Some {
                seq![loaded]
            } else if self.verdict(from) != Verdict::Trusted {
                seq![loaded, replied]
            } else {
                seq![loaded, replied] + self.commit_events(from + 1)
            }
        }
    }

    /// What a faithful caller reports during the whole pass.
    pub open spec fn events(self) -> Seq<Event> {
        let resolved = Event::AnchorResolved(self.anchor);
        match self.anchor {
            None => seq![resolved],
            Some(anchor) => {
                let replied = Event::EngineReplied(self.anchor_reply);
                if anchor_malformed(anchor) || spec_screen(anchor_block(anchor)) is Some {
                    seq![resolved]
                } else if anchor_verdict(anchor, self.anchor_reply, self.policy)
                    != Verdict::Trusted {
                    seq![resolved, replied]
                } else {
                    seq![
                        resolved,
                        replied,
                        Event::RangeResolved { tip: self.tip, commits: self.range },
                    ] + self.commit_events(0)
                }
            },
        }
    }
}

/// A run of actions ends a pass with `outcome`: its last action announces
/// the outcome, and every action before it only asks for more work.
pub open spec fn ends_with(actions: Seq<ActionView>, outcome: Outcome) -> bool {
    &&& actions.len() > 0
    &&& actions.last() == outcome.action()
    &&& forall|i: int| 0 <= i < actions.len() - 1 ==> is_request(#[trigger] actions[i])
}

/// Requests put before a run that ends a pass leave its ending as it is.
proof fn lemma_ends_with_prepend(head: Seq<ActionView>, tail: Seq<ActionView>, outcome: Outcome)
    requires
        forall|i: int| 0 <= i < head.len() ==> is_request(#[trigger] head[i]),
        ends_with(tail, outcome),
    ensures
        ends_with(head + tail, outcome),
{
    let all = head + tail;
    assert forall|i: int| 0 <= i < all.len() - 1 implies is_request(#[trigger] all[i]) by {
        if i >= head.len() {
            assert(all[i] == tail[i - head.len()]);
        }
    }
}

/// From the state in which the commit at `from` is next, a faithful caller
/// brings the pass to the outcome of the range.
proof fn lemma_commits_refine(w: World, s: ProtocolView, from: int)
    requires
        w.wf(),
        0 <= from < w.commits.len(),
        s.policy == w.policy,
        s.range == ids(w.range@),
        s.tip == w.tip@,
        !s.awaiting_reply,
        s.phase == (if from == 0 {
            Phase::RangeComputed
        } else {
            Phase::Verifying(from as usize)
        }),
    ensures
        run(s, w.commit_events(from)).phase == w.range_outcome(from).phase(),
        ends_with(trace(s, w.commit_events(from)), w.range_outcome(from)),
    decreases w.commits.len() - from,
{
    let commit = w.commits[from];
    let loaded = Event::CommitLoaded(commit);
    let replied = Event::EngineReplied(w.replies[from]);
    let s1 = s.step(loaded).0;
    let a1 = s.step(loaded).1;
    if spec_screen(commit_block(commit)) is Some {
        lemma_run_one(s, loaded);
    } else {
        let s2 = s1.step(replied).0;
        let a2 = s1.step(replied).1;
        let pair = seq![loaded, replied];
        lemma_run_two(s, loaded, replied);
        if w.verdict(from) == Verdict::Trusted {
            let rest = w.commit_events(from + 1);
            lemma_run_concat(s, pair, rest);
            if from + 1 < w.commits.len() {
                lemma_commits_refine(w, s2, from + 1);
                lemma_ends_with_prepend(seq![a1, a2], trace(s2, rest), w.range_outcome(from + 1));
            }
        }
    }
}

/// The protocol, driven by a faithful caller, ends every pass with the
/// outcome of the pass, announces it last, and before that only asks for
/// more work.
pub proof fn lemma_pass_refines(w: World)
    requires
        w.wf(),
    ensures
        run(ProtocolView::initial(w.policy), w.events()).phase == w.outcome().phase(),
        ends_with(trace(ProtocolView::initial(w.policy), w.events()), w.outcome()),
{
    let s = ProtocolView::initial(w.policy);
    let events = w.events();
    let resolved = Event::AnchorResolved(w.anchor);
    let s1 = s.step(resolved).0;
    let a1 = s.step(resolved).1;
    match w.anchor {
        None => {
            lemma_run_one(s, resolved);
        },
        Some(anchor) => {
            let replied = Event::EngineReplied(w.anchor_reply);
            if anchor_malformed(anchor) || spec_screen(anchor_block(anchor)) is Some {
                lemma_run_one(s, resolved);
            } else {
                let s2 = s1.step(replied).0;
                let a2 = s1.step(replied).1;
                lemma_run_two(s, resolved, replied);
                if anchor_verdict(anchor, w.anchor_reply, w.policy) == Verdict::Trusted {
                    let ranged = Event::RangeResolved { tip: w.tip, commits: w.range };
                    let s3 = s2.step(ranged).0;
                    let a3 = s2.step(ranged).1;
                    let head = seq![resolved, replied, ranged];
                    let rest = w.commit_events(0);
                    assert(head =~= seq![resolved, replied] + seq![ranged]);
                    lemma_run_one(s2, ranged);
                    lemma_run_concat(s, seq![resolved, replied], seq![ranged]);
                    lemma_run_concat(s, head, rest);
                    if w.commits.len() > 0 {
                        lemma_commits_refine(w, s3, 0);
                        lemma_ends_with_prepend(seq![a1, a2, a3], trace(s3, rest), w.outcome());
                    }
                }
            }
        },
    }
}

/// The first commit that is not trusted lies at or after `from`, every
/// commit between the two is trusted, and it is not trusted itself.
pub proof fn lemma_first_untrusted(w: World, from: int)
    requires
        0 <= from <= w.commits.len(),
    ensures
        from <= w.first_untrusted(from) <= w.commits.len(),
        forall|i: int| from <= i < w.first_untrusted(from) ==> w.verdict(i) == Verdict::Trusted,
        w.first_untrusted(from) < w.commits.len() ==> w.verdict(w.first_untrusted(from))
            != Verdict::Trusted,
    decreases w.commits.len() - from,
{
    if from < w.commits.len() && w.verdict(from) == Verdict::Trusted {
        lemma_first_untrusted(w, from + 1);
    }
}

/// A pass that does not end with `Advanced` never asks for the checkpoint
/// to move.
pub proof fn lemma_no_advance(actions: Seq<ActionView>, outcome: Outcome)
    requires
        ends_with(actions, outcome),
        !(outcome is Advanced),
    ensures
        !advances(actions),
{
    assert forall|i: int| 0 <= i < actions.len() implies !(actions[i] is Advance) by {
        if i < actions.len() - 1 {
            assert(is_request(actions[i]));
        }
    }
}

/// Where the checkpoint's own signature and every commit of the range are
/// trusted, the pass ends in `AllTrusted` and its last word is to move the
/// checkpoint to the tip.
pub proof fn lemma_all_trusted_advances(w: World)
    requires
        w.wf(),
        w.anchor matches Some(anchor) && !anchor_malformed(anchor) && anchor_verdict(
            anchor,
            w.anchor_reply,
            w.policy,
        ) == Verdict::Trusted,
        forall|i: int| 0 <= i < w.commits.len() ==> w.verdict(i) == Verdict::Trusted,
    ensures
        w.outcome() == (Outcome::Advanced { tip: w.tip@ }),
        run(ProtocolView::initial(w.policy), w.events()).phase == Phase::AllTrusted,
        ends_with(
            trace(ProtocolView::initial(w.policy), w.events()),
            Outcome::Advanced { tip: w.tip@ },
        ),
{
    lemma_first_untrusted(w, 0);
    lemma_pass_refines(w);
}

/// One commit of the range that is not trusted, wherever it stands and
/// whatever the commits after it are, keeps the checkpoint where it is. If
/// the checkpoint itself is trusted the pass ends in `Rejected` and names
/// the first commit that is not trusted.
pub proof fn lemma_untrusted_commit_rejects(w: World, k: int)
    requires
        w.wf(),
        0 <= k < w.commits.len(),
        w.verdict(k) != Verdict::Trusted,
    ensures
        !advances(trace(ProtocolView::initial(w.policy), w.events())),
        run(ProtocolView::initial(w.policy), w.events()).phase != Phase::AllTrusted,
        w.anchor matches Some(anchor) && !anchor_malformed(anchor) ==> run(
            ProtocolView::initial(w.policy),
            w.events(),
        ).phase == Phase::Rejected,
        w.anchor matches Some(anchor) && !anchor_malformed(anchor) && anchor_verdict(
            anchor,
            w.anchor_reply,
            w.policy,
        ) == Verdict::Trusted ==> w.first_untrusted(0) <= k && w.outcome() == (Outcome::Rejected {
            subject: w.range[w.first_untrusted(0)]@,
            verdict: w.verdict(w.first_untrusted(0)),
        }),
{
    lemma_first_untrusted(w, 0);
    lemma_pass_refines(w);
    lemma_no_advance(trace(ProtocolView::initial(w.policy), w.events()), w.outcome());
}

/// A commit without a signature block is not trusted, so a range that
/// holds one keeps the checkpoint where it is, and the pass ends in
/// `Rejected` wherever the checkpoint could be read.
pub proof fn lemma_unsigned_commit_rejects(w: World, k: int)
    requires
        w.wf(),
        0 <= k < w.commits.len(),
        w.commits[k].signature is None,
    ensures
        w.verdict(k) == Verdict::Unsigned,
        !advances(trace(ProtocolView::initial(w.policy), w.events())),
        w.anchor matches Some(anchor) && !anchor_malformed(anchor) ==> run(
            ProtocolView::initial(w.policy),
            w.events(),
        ).phase == Phase::Rejected,
{
    lemma_untrusted_commit_rejects(w, k);
}

/// The checkpoint moves only after a pass in which the checkpoint's own
/// signature and every commit of the range were trusted, and then to the
/// tip.
pub proof fn lemma_advance_means_all_trusted(w: World)
    requires
        w.wf(),
        advances(trace(ProtocolView::initial(w.policy), w.events())),
    ensures
        w.anchor matches Some(anchor) && !anchor_malformed(anchor) && anchor_verdict(
            anchor,
            w.anchor_reply,
            w.policy,
        ) == Verdict::Trusted,
        forall|i: int| 0 <= i < w.commits.len() ==> w.verdict(i) == Verdict::Trusted,
        trace(ProtocolView::initial(w.policy), w.events()).last() == (ActionView::Advance {
            tip: w.tip@,
        }),
{
    lemma_first_untrusted(w, 0);
    lemma_pass_refines(w);
    if !(w.outcome() is Advanced) {
        lemma_no_advance(trace(ProtocolView::initial(w.policy), w.events()), w.outcome());
    }
}

/// The checkpoint's own signature is judged before anything else: where it
/// is not trusted, the pass ends without asking for the range or for any
/// commit.
pub proof fn lemma_anchor_judged_first(w: World)
    requires
        w.wf(),
        !(w.anchor matches Some(anchor) && !anchor_malformed(anchor) && anchor_verdict(
            anchor,
            w.anchor_reply,
            w.policy,
        ) == Verdict::Trusted),
    ensures
        forall|i: int|
            0 <= i < trace(ProtocolView::initial(w.policy), w.events()).len() ==> {
                let action = #[trigger] trace(ProtocolView::initial(w.policy), w.events())[i];
                !(action is ResolveRange) && !(action is LoadCommit) && !(action is Advance)
            },
{
    let s = ProtocolView::initial(w.policy);
    let resolved = Event::AnchorResolved(w.anchor);
    match w.anchor {
        None => {
            lemma_run_one(s, resolved);
        },
        Some(anchor) => {
            if anchor_malformed(anchor) || spec_screen(anchor_block(anchor)) is Some {
                lemma_run_one(s, resolved);
            } else {
                let replied = Event::EngineReplied(w.anchor_reply);
                lemma_run_two(s, resolved, replied);
            }
        },
    }
}

/// The actions answer the events one for one.
pub proof fn lemma_trace_len(s: ProtocolView, events: Seq<Event>)
    ensures
        trace(s, events).len() == events.len(),
    decreases events.len(),
{
    if events.len() > 0 {
        lemma_trace_len(s.step(events.first()).0, events.drop_first());
    }
}

/// The answer to the first event is the step from the state; the answer
/// to a later event is an answer of the run that starts after that step.
pub proof fn lemma_trace_peel(s: ProtocolView, events: Seq<Event>, n: int)
    requires
        0 <= n < events.len(),
    ensures
        n == 0 ==> trace(s, events)[n] == s.step(events[0]).1,
        n > 0 ==> trace(s, events)[n] == trace(s.step(events[0]).0, events.drop_first())[n - 1],
{
    lemma_trace_len(s.step(events.first()).0, events.drop_first());
}

/// Once a pass is over every answer is `Halt`.
pub proof fn lemma_halted(s: ProtocolView, events: Seq<Event>, n: int)
    requires
        s.finished(),
        0 <= n < events.len(),
    ensures
        trace(s, events)[n] == ActionView::Halt,
    decreases events.len(),
{
    lemma_trace_peel(s, events, n);
    if n > 0 {
        lemma_halted(s, events.drop_first(), n - 1);
    }
}

/// The commit `id` was reported when asked for, its signature is an
/// OpenPGP block, and the engine's answer for it makes it trusted.
pub open spec fn judged_trusted(policy: TrustPolicy, id: Seq<u8>, loaded: Event, replied: Event)
    -> bool {
    &&& loaded matches Event::CommitLoaded(commit)
    &&& replied matches Event::EngineReplied(reply)
    &&& commit.id@ == id
    &&& spec_screen(commit_block(commit)) is None
    &&& commit_verdict(commit, reply, policy) == Verdict::Trusted
}

/// The first `n + 1` events are a pass in which everything was trusted:
/// the checkpoint object with an OpenPGP block and a trusted answer for it,
/// a range that ends with its tip, and then for each commit of the range,
/// in order, the commit and a trusted answer for it.
pub open spec fn trusted_pass(policy: TrustPolicy, events: Seq<Event>, n: int) -> bool {
    &&& 2 <= n < events.len()
    &&& events[0] matches Event::AnchorResolved(Some(anchor))
    &&& events[1] matches Event::EngineReplied(reply)
    &&& events[2] matches Event::RangeResolved { tip, commits }
    &&& !anchor_malformed(anchor)
    &&& spec_screen(anchor_block(anchor)) is None
    &&& anchor_verdict(anchor, reply, policy) == Verdict::Trusted
    &&& n == 2 + 2 * commits.len()
    &&& range_ends_at(ids(commits@), tip@)
    &&& forall|i: int|
        0 <= i < commits.len() ==> judged_trusted(
            policy,
            #[trigger] commits[i]@,
            events[3 + 2 * i],
            events[4 + 2 * i],
        )
}

/// From the state that waits for the commit at `i`, the checkpoint is
/// asked to move at event `n` only if every commit from `i` on is reported
/// in its turn and judged trusted, and `n` is the answer for the last.
proof fn lemma_commit_steps(s: ProtocolView, events: Seq<Event>, n: int, i: int)
    requires
        0 <= i < s.range.len() <= usize::MAX,
        3 + 2 * i <= n < events.len(),
        !s.awaiting_reply,
        s.phase == (if i == 0 {
            Phase::RangeComputed
        } else {
            Phase::Verifying(i as usize)
        }),
        trace(s, events.skip(3 + 2 * i))[n - (3 + 2 * i)] is Advance,
    ensures
        n == 2 + 2 * s.range.len(),
        trace(s, events.skip(3 + 2 * i))[n - (3 + 2 * i)] == (ActionView::Advance { tip: s.tip }),
        forall|j: int|
            i <= j < s.range.len() ==> judged_trusted(
                s.policy,
                #[trigger] s.range[j],
                events[3 + 2 * j],
                events[4 + 2 * j],
            ),
    decreases s.range.len() - i,
{
    let k = 3 + 2 * i;
    let rest = events.skip(k);
    let loaded = events[k];
    let s1 = s.step(loaded).0;
    lemma_trace_peel(s, rest, n - k);
    let rest1 = rest.drop_first();
    if s1.finished() {
        lemma_halted(s1, rest1, n - k - 1);
    }
    let replied = events[k + 1];
    let s2 = s1.step(replied).0;
    lemma_trace_peel(s1, rest1, n - k - 1);
    let rest2 = rest1.drop_first();
    assert(rest2 =~= events.skip(k + 2));
    if n > k + 1 {
        if s2.finished() {
            lemma_halted(s2, rest2, n - k - 2);
        }
        lemma_commit_steps(s2, events, n, i + 1);
        assert forall|j: int| i <= j < s.range.len() implies judged_trusted(
            s.policy,
            #[trigger] s.range[j],
            events[3 + 2 * j],
            events[4 + 2 * j],
        ) by {
            if j > i {
                assert(s2.range[j] == s.range[j]);
            }
        }
    }
}

/// Whatever is reported and in whatever order, the checkpoint is asked to
/// move only at the end of a pass in which everything was trusted, and
/// then to the tip that came with the range. Where the range is not
/// empty that tip is its last commit, so the commit that the checkpoint
/// then names was itself judged trusted in this pass, after every commit
/// before it.
///
/// No event out of turn, repeated or left out leads there: the events up
/// to the one that is answered with `Advance` are the checkpoint object
/// and a trusted answer for its signature, the range, and for each commit
/// of the range, oldest first, the commit that was asked for and a trusted
/// answer for its signature.
pub proof fn lemma_advance_only_after_trusted_pass(
    policy: TrustPolicy,
    events: Seq<Event>,
    n: int,
)
    requires
        0 <= n < events.len(),
        trace(ProtocolView::initial(policy), events)[n] is Advance,
    ensures
        trusted_pass(policy, events, n),
        events[2] matches Event::RangeResolved { tip, .. } && trace(
            ProtocolView::initial(policy),
            events,
        )[n] == (ActionView::Advance { tip: tip@ }),
        events[2] matches Event::RangeResolved { tip, commits } && (commits.len() > 0
            ==> commits[commits.len() - 1]@ == tip@),
{
    let s0 = ProtocolView::initial(policy);
    let s1 = s0.step(events[0]).0;
    lemma_trace_peel(s0, events, n);
    let rest1 = events.drop_first();
    if s1.finished() {
        lemma_halted(s1, rest1, n - 1);
    }
    let s2 = s1.step(events[1]).0;
    lemma_trace_peel(s1, rest1, n - 1);
    let rest2 = rest1.drop_first();
    if s2.finished() {
        lemma_halted(s2, rest2, n - 2);
    }
    let s3 = s2.step(events[2]).0;
    lemma_trace_peel(s2, rest2, n - 2);
    let rest3 = rest2.drop_first();
    assert(rest3 =~= events.skip(3));
    if n > 2 {
        if s3.finished() {
            lemma_halted(s3, rest3, n - 3);
        }
    }
    match events[2] {
        Event::RangeResolved { tip, commits } => {
            assert(commits@.len() == commits.len());
            if n > 2 {
                lemma_commit_steps(s3, events, n, 0);
            }
            assert forall|i: int| 0 <= i < commits.len() implies judged_trusted(
                policy,
                #[trigger] commits[i]@,
                events[3 + 2 * i],
                events[4 + 2 * i],
            ) by {
                assert(s3.range[i] == commits[i]@);
            }
        },
        _ => {},
    }
}

/// Whatever is reported, the checkpoint is asked to move at most once.
pub proof fn lemma_advance_at_most_once(policy: TrustPolicy, events: Seq<Event>, m: int, n: int)
    requires
        0 <= m < events.len(),
        0 <= n < events.len(),
        trace(ProtocolView::initial(policy), events)[m] is Advance,
        trace(ProtocolView::initial(policy), events)[n] is Advance,
    ensures
        m == n,
{
    lemma_advance_only_after_trusted_pass(policy, events, m);
    lemma_advance_only_after_trusted_pass(policy, events, n);
}

/// A pass that is over takes no further step: whatever is reported, the
/// state stays and nothing is asked for.
pub proof fn lemma_finished_is_final(s: ProtocolView, event: Event)
    requires
        s.finished(),
    ensures
        s.step(event) == (s, ActionView::Halt),
{
}

/// Whatever the state and the event, one step asks for the checkpoint to
/// move only on entering `AllTrusted`, and enters `AllTrusted` only from a
/// trusted checkpoint with an empty range or from a trusted answer for the
/// last commit of the range.
pub proof fn lemma_advance_is_earned(s: ProtocolView, event: Event)
    ensures
        s.step(event).1 is Advance <==> !s.finished() && s.step(event).0.phase == Phase::AllTrusted,
        s.step(event).1 is Advance ==> s.step(event).1 == (ActionView::Advance {
            tip: s.step(event).0.tip,
        }),
        s.step(event).1 is Advance ==> match (s.phase, event) {
            (Phase::AnchorVerified, Event::RangeResolved { commits, .. }) => commits.len() == 0,
            (Phase::Verifying(index), Event::EngineReplied(reply)) => {
                &&& s.awaiting_reply
                &&& index + 1 == s.range.len()
                &&& spec_reply_verdict(reply, s.policy) == Verdict::Trusted
            },
            _ => false,
        },
{
}

/// A checkpoint whose trailing text opens with an armor marker of no known
/// scheme is rejected as `UnknownSignatureMarker`; one without any armor
/// marker is rejected as `Unsigned`. In both cases the engine is not asked.
pub proof fn lemma_anchor_marker_verdicts(policy: TrustPolicy, anchor: AnchorObject)
    requires
        anchor.kind == ObjectKind::Tag,
        valid_utf8(anchor.raw@),
    ensures
        spec_signature_start(anchor.raw@) is None ==> ProtocolView::initial(
            policy,
        ).step(Event::AnchorResolved(Some(anchor))).1 == (ActionView::Reject {
            subject: anchor.id@,
            verdict: Verdict::Unsigned,
        }),
        spec_signature_start(anchor.raw@) matches Some(at)
            && spec_classify(anchor.raw@.skip(at))
            == SignatureKind::Unknown ==> ProtocolView::initial(policy).step(
            Event::AnchorResolved(Some(anchor)),
        ).1 == (ActionView::Reject {
            subject: anchor.id@,
            verdict: Verdict::UnknownSignatureMarker,
        }),
        ProtocolView::initial(policy).step(Event::AnchorResolved(Some(anchor))).1
            is Reject ==> ProtocolView::initial(policy).step(
            Event::AnchorResolved(Some(anchor)),
        ).0.phase == Phase::Rejected,
{
}

/// A checkpoint made by joining metadata and a signature over it is later
/// judged on exactly these two: the engine is asked to verify that
/// signature over that metadata.
pub proof fn lemma_checkpoint_round_trip(
    policy: TrustPolicy,
    anchor: AnchorObject,
    content: Seq<u8>,
    signature: Seq<u8>,
)
    requires
        anchor.kind == ObjectKind::Tag,
        anchor.raw@ == content + signature,
        valid_utf8(anchor.raw@),
        absent(content, armor_marker()),
        spec_classify(signature) == SignatureKind::Pgp,
    ensures
        ProtocolView::initial(policy).step(Event::AnchorResolved(Some(anchor))).1 == (
        ActionView::VerifyDetached { signature, payload: content }),
{
    lemma_known_block_is_armored(signature);
    lemma_signed_tag_splits(content, signature);
}

/// What the signer stores is later verified as it was signed.
///
/// The signer asks for a signature over the metadata of the checkpoint and
/// stores the two as one object. When a later pass finds that object under
/// the checkpoint reference, the protocol asks the engine to verify that
/// very signature over that very metadata. This holds for an OpenPGP
/// signature and a stored object that is text, wherever the target, the
/// name and the address hold no armor marker.
pub proof fn lemma_made_checkpoint_round_trip(
    policy: TrustPolicy,
    target: Seq<u8>,
    tagger: Tagger,
    signature: Vec<u8>,
    anchor: AnchorObject,
)
    requires
        SignerView::initial(target, tagger).step(SignerEvent::Signed(signature)).1 == (
        SignerActionView::WriteTag { object: anchor.raw@ }),
        anchor.kind == ObjectKind::Tag,
        valid_utf8(anchor.raw@),
        spec_classify(signature@) == SignatureKind::Pgp,
        absent(target, armor_marker()),
        absent(tagger.name@, armor_marker()),
        absent(tagger.email@, armor_marker()),
    ensures
        ProtocolView::initial(policy).step(Event::AnchorResolved(Some(anchor))).1 == (
        ActionView::VerifyDetached {
            signature: signature@,
            payload: spec_tag_content(target, tagger),
        }),
{
    lemma_tag_content_has_no_marker(target, tagger);
    lemma_checkpoint_round_trip(policy, anchor, spec_tag_content(target, tagger), signature@);
}

/// A commit that was signed and then stored with its signature embedded
/// is verified as it was signed, and trusted where the engine finds a
/// trusted signer.
///
/// The bytes that were signed are the header `before + after`, one blank
/// line and the message; the stored header holds the signature as one
/// field between `before` and `after`. When the commit is loaded in its
/// turn, the protocol asks the engine to verify that signature over
/// exactly the bytes that were signed. An answer with a signer that is
/// trusted under the policy of the pass then lets the pass go on past the
/// commit. Whether the engine gives such an answer for a signature that
/// it made itself is the engine's own matter.
pub proof fn lemma_signed_commit_is_verified_as_signed(
    s: ProtocolView,
    index: int,
    commit: CommitObject,
    before: Seq<u8>,
    after: Seq<u8>,
    reply: EngineReply,
)
    requires
        0 <= index < s.range.len(),
        s.range[index] == commit.id@,
        !s.awaiting_reply,
        s.phase == (if index == 0 {
            Phase::RangeComputed
        } else {
            Phase::Verifying(index as usize)
        }),
        index <= usize::MAX,
        commit.signature matches Some(block) && spec_classify(block@) == SignatureKind::Pgp
            && commit.raw_header@ == before + signature_field(block@) + after,
        before.len() == 0 || before.last() == LF,
        after.len() == 0 || after[0] != SP,
        !has_signature_line(lines(before)),
        !has_signature_line(lines(after)),
        reply matches EngineReply::Signers(outcomes) && some_signer_trusted(outcomes@, s.policy),
    ensures
        s.step(Event::CommitLoaded(commit)).1 == (ActionView::VerifyDetached {
            signature: commit_block(commit).unwrap(),
            payload: before + after + seq![LF] + commit.message@,
        }),
        commit_verdict(commit, reply, s.policy) == Verdict::Trusted,
        s.step(Event::CommitLoaded(commit)).0.step(Event::EngineReplied(reply)) == s.step(
            Event::CommitLoaded(commit),
        ).0.proceed(index + 1),
{
    lemma_signature_field_is_removed(
        before,
        commit.signature.unwrap()@,
        after,
        commit.message@,
    );
}

/// A commit whose signature block is an SSH signature is rejected as
/// `UnsupportedSignatureScheme` as soon as it is loaded. The engine is not
/// asked.
pub proof fn lemma_ssh_commit_rejected(s: ProtocolView, commit: CommitObject)
    requires
        s.phase == Phase::RangeComputed || (s.phase is Verifying && !s.awaiting_reply),
        ({
            let index = match s.phase {
                Phase::Verifying(i) => i as int,
                _ => 0,
            };
            0 <= index < s.range.len() && s.range[index] == commit.id@
        }),
        commit.signature matches Some(block) && spec_classify(block@)
            == SignatureKind::Ssh,
    ensures
        s.step(Event::CommitLoaded(commit)).0.phase == Phase::Rejected,
        s.step(Event::CommitLoaded(commit)).1 == (ActionView::Reject {
            subject: commit.id@,
            verdict: Verdict::UnsupportedSignatureScheme,
        }),
{
}

} // verus!
