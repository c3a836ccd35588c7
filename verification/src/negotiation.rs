//! The decisions of the task that drives one peer connection: which step to
//! take next, given the step that was just taken and how it turned out.
//!
//! The task itself (the runtime, the peer connection, its callbacks and the
//! awaits) runs the steps; this module decides them.
use crate::types::{Error, Signal};
use vstd::prelude::*;

verus! {

/// Which side of the negotiation a peer plays.
#[derive(Debug, Clone, Copy, PartialEq, Eq, Structural)]
pub enum Role {
    /// Creates the data channel and sends the offer.
    Offerer,
    /// Waits for an offer and answers it.
    Answerer,
}

/// A step of the task that drives a peer connection.
pub enum Step {
    /// Start the asynchronous runtime.
    StartRuntime,
    /// Register the default codecs with the media engine.
    RegisterCodecs,
    /// Register the default interceptors.
    RegisterInterceptors,
    /// Create the peer connection.
    CreatePeer,
    /// Watch the connection state, so that a disconnection is recorded.
    WatchConnectionState,
    /// Create the data channel (offerer only).
    CreateDataChannel,
    /// Create the offer.
    CreateOffer,
    /// Set the created offer, whose SDP is held here, as local description.
    SetLocalOffer(String),
    /// Send the offer with this SDP to the other peer.
    SendOffer(String),
    /// Accept the data channel that the other peer opens (answerer only).
    WatchIncomingChannels,
    /// Forward each gathered ICE candidate to the other peer.
    WatchIceCandidates,
    /// Wait for the next signal from the other peer.
    AwaitSignal,
    /// Build a remote offer description from this SDP.
    ParseOffer(String),
    /// Set the parsed offer as remote description.
    ApplyRemoteOffer,
    /// Create the answer.
    CreateAnswer,
    /// Set the created answer, whose SDP is held here, as local description.
    SetLocalAnswer(String),
    /// Send the answer with this SDP to the other peer.
    SendAnswer(String),
    /// Build a remote answer description from this SDP.
    ParseAnswer(String),
    /// Set the parsed answer as remote description.
    ApplyRemoteAnswer,
    /// Add this remote ICE candidate.
    AddIceCandidate(String),
    /// The signals are over: take the data channel that opened, if any.
    TakeDataChannel,
    /// Send the messages that the application queues over the channel.
    ForwardMessages,
    /// Close the peer connection.
    ClosePeer,
    /// The task is over.
    Stop,
    /// The task is over: record this error.
    Fail(Error),
}

/// How a step turned out.
pub enum Outcome {
    /// It succeeded (or, for a step that cannot fail, it was done).
    Done,
    /// It failed.
    Failed,
    /// It created a session description with this SDP.
    Created(String),
    /// A signal from the other peer arrived.
    Received(Signal),
    /// No signal will arrive any more.
    SignalsClosed,
    /// There was no open data channel to take.
    NoChannel,
}

/// Whether `step` can fail; a step that can, fails with
/// [`failure_error`] of it.
pub open spec fn can_fail(step: Step) -> bool {
    match step {
        Step::StartRuntime | Step::RegisterCodecs | Step::RegisterInterceptors | Step::CreatePeer
        | Step::CreateDataChannel | Step::CreateOffer | Step::SetLocalOffer(_)
        | Step::ParseOffer(_) | Step::ApplyRemoteOffer | Step::CreateAnswer
        | Step::SetLocalAnswer(_) | Step::ParseAnswer(_) | Step::ApplyRemoteAnswer
        | Step::AddIceCandidate(_) => true,
        _ => false,
    }
}

/// The error that a failure of `step` is recorded as.
pub open spec fn failure_error(step: Step) -> Error {
    match step {
        Step::StartRuntime | Step::RegisterCodecs | Step::RegisterInterceptors =>
            Error::FailedToStartRuntime,
        Step::CreatePeer => Error::FailedToCreatePeer,
        Step::CreateDataChannel => Error::FailedToCreateDataChannel,
        Step::CreateOffer => Error::FailedToCreateOffer,
        Step::ParseOffer(_) => Error::FailedToCreateOfferDescription,
        Step::CreateAnswer => Error::FailedToCreateAnswer,
        Step::ParseAnswer(_) => Error::FailedToCreateAnswerDescription,
        Step::SetLocalOffer(_) | Step::SetLocalAnswer(_) => Error::FailedToSetLocalDescription,
        Step::ApplyRemoteOffer | Step::ApplyRemoteAnswer => Error::FailedToSetRemoteDescription,
        _ => Error::FailedToAddIceCandidate,
    }
}

/// Whether `outcome` is a possible result of `step`.
pub open spec fn answers(step: Step, outcome: Outcome) -> bool {
    match step {
        Step::Stop | Step::Fail(_) => false,
        Step::CreateOffer | Step::CreateAnswer => outcome is Created || outcome is Failed,
        Step::AwaitSignal => outcome is Received || outcome is SignalsClosed,
        Step::TakeDataChannel => outcome is Done || outcome is NoChannel,
        _ => outcome is Done || (can_fail(step) && outcome is Failed),
    }
}

/// The step that follows `step`, for a peer playing `role`, when `step`
/// turned out as `outcome`.
pub open spec fn next_step(role: Role, step: Step, outcome: Outcome) -> Step {
    if outcome is Failed {
        Step::Fail(failure_error(step))
    } else {
        match step {
            Step::StartRuntime => Step::RegisterCodecs,
            Step::RegisterCodecs => Step::RegisterInterceptors,
            Step::RegisterInterceptors => Step::CreatePeer,
            Step::CreatePeer => Step::WatchConnectionState,
            Step::WatchConnectionState => match role {
                Role::Offerer => Step::CreateDataChannel,
                Role::Answerer => Step::WatchIncomingChannels,
            },
            Step::CreateDataChannel => Step::CreateOffer,
            Step::CreateOffer => match outcome {
                Outcome::Created(sdp) => Step::SetLocalOffer(sdp),
                _ => Step::Stop,
            },
            Step::SetLocalOffer(sdp) => Step::SendOffer(sdp),
            Step::SendOffer(_) => Step::WatchIceCandidates,
            Step::WatchIncomingChannels => Step::WatchIceCandidates,
            Step::WatchIceCandidates => Step::AwaitSignal,
            Step::AwaitSignal => match outcome {
                Outcome::Received(Signal::Offer(sdp)) => Step::ParseOffer(sdp),
                Outcome::Received(Signal::Answer(sdp)) => Step::ParseAnswer(sdp),
                Outcome::Received(Signal::IceCandidate(Some(c))) => Step::AddIceCandidate(c),
                Outcome::Received(Signal::IceCandidate(None)) => Step::AwaitSignal,
                _ => Step::TakeDataChannel,
            },
            Step::ParseOffer(_) => Step::ApplyRemoteOffer,
            Step::ApplyRemoteOffer => Step::CreateAnswer,
            Step::CreateAnswer => match outcome {
                Outcome::Created(sdp) => Step::SetLocalAnswer(sdp),
                _ => Step::Stop,
            },
            Step::SetLocalAnswer(sdp) => Step::SendAnswer(sdp),
            Step::SendAnswer(_) => Step::AwaitSignal,
            Step::ParseAnswer(_) => Step::ApplyRemoteAnswer,
            Step::ApplyRemoteAnswer => Step::AwaitSignal,
            Step::AddIceCandidate(_) => Step::AwaitSignal,
            Step::TakeDataChannel => match outcome {
                Outcome::NoChannel => Step::Stop,
                _ => Step::ForwardMessages,
            },
            Step::ForwardMessages => Step::ClosePeer,
            Step::ClosePeer => Step::Stop,
            Step::Stop => Step::Stop,
            Step::Fail(e) => Step::Fail(e),
        }
    }
}

/// The decisions of one peer's task: its role and the step it is at.
pub struct Negotiation {
    role: Role,
    step: Step,
}

impl Negotiation {
    /// The role this peer plays.
    pub closed spec fn spec_role(&self) -> Role {
        self.role
    }

    /// The step the task is to take now.
    pub closed spec fn spec_step(&self) -> Step {
        self.step
    }

    /// A negotiation for a peer playing `role`; its first step starts the
    /// runtime.
    pub fn new(role: Role) -> (n: Negotiation)
        ensures
            n.spec_role() == role,
            n.spec_step() == Step::StartRuntime,
    {
        Negotiation { role, step: Step::StartRuntime }
    }

    /// The role this peer plays.
    pub fn role(&self) -> (r: Role)
        ensures
            r == self.spec_role(),
    {
        self.role
    }

    /// The step the task is to take now.
    pub fn step(&self) -> (s: &Step)
        ensures
            *s == self.spec_step(),
    {
        &self.step
    }

    /// Whether the task is over, with or without an error.
    pub fn is_over(&self) -> (b: bool)
        ensures
            b == (self.spec_step() is Stop || self.spec_step() is Fail),
    {
        match self.step {
            Step::Stop | Step::Fail(_) => true,
            _ => false,
        }
    }

    /// Whether `outcome` is a possible result of the current step.
    pub fn accepts(&self, outcome: &Outcome) -> (b: bool)
        ensures
            b == answers(self.spec_step(), *outcome),
    {
        let created = match outcome {
            Outcome::Created(_) => true,
            _ => false,
        };
        let failed = match outcome {
            Outcome::Failed => true,
            _ => false,
        };
        let done = match outcome {
            Outcome::Done => true,
            _ => false,
        };
        match &self.step {
            Step::Stop | Step::Fail(_) => false,
            Step::CreateOffer | Step::CreateAnswer => created || failed,
            Step::AwaitSignal => match outcome {
                Outcome::Received(_) | Outcome::SignalsClosed => true,
                _ => false,
            },
            Step::TakeDataChannel => match outcome {
                Outcome::Done | Outcome::NoChannel => true,
                _ => false,
            },
            Step::WatchConnectionState | Step::SendOffer(_) | Step::WatchIncomingChannels
            | Step::WatchIceCandidates | Step::SendAnswer(_) | Step::ForwardMessages
            | Step::ClosePeer => done,
            _ => done || failed,
        }
    }

    /// Moves on from the current step, which turned out as `outcome`.
    pub fn advance(&mut self, outcome: Outcome)
        requires
            answers(old(self).spec_step(), outcome),
        ensures
            final(self).spec_role() == old(self).spec_role(),
            final(self).spec_step() == next_step(old(self).spec_role(), old(self).spec_step(), outcome),
    {
        let mut step = Step::Stop;
        std::mem::swap(&mut step, &mut self.step);
        let next = match outcome {
            Outcome::Failed => Step::Fail(failure_of(&step)),
            outcome => match step {
                Step::StartRuntime => Step::RegisterCodecs,
                Step::RegisterCodecs => Step::RegisterInterceptors,
                Step::RegisterInterceptors => Step::CreatePeer,
                Step::CreatePeer => Step::WatchConnectionState,
                Step::WatchConnectionState => match self.role {
                    Role::Offerer => Step::CreateDataChannel,
                    Role::Answerer => Step::WatchIncomingChannels,
                },
                Step::CreateDataChannel => Step::CreateOffer,
                Step::CreateOffer => match outcome {
                    Outcome::Created(sdp) => Step::SetLocalOffer(sdp),
                    _ => Step::Stop,
                },
                Step::SetLocalOffer(sdp) => Step::SendOffer(sdp),
                Step::SendOffer(_) => Step::WatchIceCandidates,
                Step::WatchIncomingChannels => Step::WatchIceCandidates,
                Step::WatchIceCandidates => Step::AwaitSignal,
                Step::AwaitSignal => match outcome {
                    Outcome::Received(Signal::Offer(sdp)) => Step::ParseOffer(sdp),
                    Outcome::Received(Signal::Answer(sdp)) => Step::ParseAnswer(sdp),
                    Outcome::Received(Signal::IceCandidate(Some(c))) => Step::AddIceCandidate(c),
                    Outcome::Received(Signal::IceCandidate(None)) => Step::AwaitSignal,
                    _ => Step::TakeDataChannel,
                },
                Step::ParseOffer(_) => Step::ApplyRemoteOffer,
                Step::ApplyRemoteOffer => Step::CreateAnswer,
                Step::CreateAnswer => match outcome {
                    Outcome::Created(sdp) => Step::SetLocalAnswer(sdp),
                    _ => Step::Stop,
                },
                Step::SetLocalAnswer(sdp) => Step::SendAnswer(sdp),
                Step::SendAnswer(_) => Step::AwaitSignal,
                Step::ParseAnswer(_) => Step::ApplyRemoteAnswer,
                Step::ApplyRemoteAnswer => Step::AwaitSignal,
                Step::AddIceCandidate(_) => Step::AwaitSignal,
                Step::TakeDataChannel => match outcome {
                    Outcome::NoChannel => Step::Stop,
                    _ => Step::ForwardMessages,
                },
                Step::ForwardMessages => Step::ClosePeer,
                Step::ClosePeer => Step::Stop,
                Step::Stop => Step::Stop,
                Step::Fail(e) => Step::Fail(e),
            },
        };
        self.step = next;
    }
}

/// The error that a failure of `step` is recorded as.
fn failure_of(step: &Step) -> (e: Error)
    ensures
        e == failure_error(*step),
{
    match step {
        Step::StartRuntime | Step::RegisterCodecs | Step::RegisterInterceptors =>
            Error::FailedToStartRuntime,
        Step::CreatePeer => Error::FailedToCreatePeer,
        Step::CreateDataChannel => Error::FailedToCreateDataChannel,
        Step::CreateOffer => Error::FailedToCreateOffer,
        Step::ParseOffer(_) => Error::FailedToCreateOfferDescription,
        Step::CreateAnswer => Error::FailedToCreateAnswer,
        Step::ParseAnswer(_) => Error::FailedToCreateAnswerDescription,
        Step::SetLocalOffer(_) | Step::SetLocalAnswer(_) => Error::FailedToSetLocalDescription,
        Step::ApplyRemoteOffer | Step::ApplyRemoteAnswer => Error::FailedToSetRemoteDescription,
        _ => Error::FailedToAddIceCandidate,
    }
}

/// The error slot after `e` is reported to a slot that held `slot`: the
/// first error reported is the one kept.
pub open spec fn recorded(slot: Option<Error>, e: Error) -> Option<Error> {
    match slot {
        Some(first) => Some(first),
        None => Some(e),
    }
}

/// Reports `e` to an error slot: an empty slot takes it, a full one keeps
/// its error.
pub fn record_error(slot: &mut Option<Error>, e: Error)
    ensures
        *final(slot) == recorded(*old(slot), e),
{
    if slot.is_none() {
        *slot = Some(e);
    }
}

/// The error, if any, that a change of the connection's state reports: a
/// disconnection reports [`Error::Disconnected`], any other state nothing.
pub fn state_change_error(disconnected: bool) -> (e: Option<Error>)
    ensures
        e == (if disconnected { Some(Error::Disconnected) } else { None::<Error> }),
{
    if disconnected {
        Some(Error::Disconnected)
    } else {
        None
    }
}

/// The signal that the gathering of local ICE candidates sends to the other
/// peer: `gathered` is `None` when gathering is complete, and otherwise holds
/// the candidate's string, or `None` when it could not be serialized.
pub open spec fn spec_candidate_signal(gathered: Option<Option<String>>) -> Option<Signal> {
    match gathered {
        None => Some(Signal::IceCandidate(None)),
        Some(Some(c)) => Some(Signal::IceCandidate(Some(c))),
        Some(None) => None,
    }
}

/// The signal that a gathered ICE candidate (or the end of gathering) is
/// sent to the other peer as; a candidate that could not be serialized is
/// not sent.
pub fn candidate_signal(gathered: Option<Option<String>>) -> (s: Option<Signal>)
    ensures
        s == spec_candidate_signal(gathered),
{
    match gathered {
        None => Some(Signal::IceCandidate(None)),
        Some(Some(c)) => Some(Signal::IceCandidate(Some(c))),
        Some(None) => None,
    }
}

/// The step reached from `step` by a peer playing `role` when the steps
/// taken turn out as `outcomes`, one after the other.
pub open spec fn run(role: Role, step: Step, outcomes: Seq<Outcome>) -> Step
    decreases outcomes.len(),
{
    if outcomes.len() == 0 {
        step
    } else {
        run(role, next_step(role, step, outcomes[0]), outcomes.drop_first())
    }
}

/// The error slot after each of `errors` is reported to it, in order.
pub open spec fn recorded_all(slot: Option<Error>, errors: Seq<Error>) -> Option<Error>
    decreases errors.len(),
{
    if errors.len() == 0 {
        slot
    } else {
        recorded_all(recorded(slot, errors[0]), errors.drop_first())
    }
}

/// The first error reported is the one the slot keeps, whatever is reported
/// after it.
pub proof fn lemma_first_error_kept(first: Error, later: Seq<Error>)
    ensures
        recorded_all(Some(first), later) == Some(first),
        recorded_all(None, seq![first] + later) == Some(first),
    decreases later.len(),
{
    if later.len() > 0 {
        lemma_first_error_kept(first, later.drop_first());
    }
    assert((seq![first] + later).drop_first() == later);
}

/// A step that fails ends the task with that step's error, and no outcome
/// follows an ended task.
pub proof fn lemma_failure_ends(role: Role, step: Step, outcome: Outcome)
    ensures
        next_step(role, step, Outcome::Failed) == Step::Fail(failure_error(step)),
        !answers(Step::Stop, outcome),
        !answers(Step::Fail(failure_error(step)), outcome),
{
}

/// Whether `step` is one that only the offerer takes.
pub open spec fn offerer_only(step: Step) -> bool {
    step is CreateDataChannel || step is CreateOffer || step is SetLocalOffer || step is SendOffer
}

/// An answerer never creates the data channel or an offer: no step it takes
/// leads it to one that only the offerer takes.
pub proof fn lemma_answerer_never_offers(step: Step, outcome: Outcome)
    requires
        !offerer_only(step),
    ensures
        !offerer_only(next_step(Role::Answerer, step, outcome)),
{
}

/// Every task starts on a step that is not only the offerer's.
pub proof fn lemma_answerer_starts_clean()
    ensures
        !offerer_only(Step::StartRuntime),
{
}

/// An offerer whose setup succeeds sends exactly the offer it created, and
/// then goes on to forward its candidates and wait for signals.
pub proof fn lemma_offerer_sends_created_offer(sdp: String)
    ensures
        run(
            Role::Offerer,
            Step::StartRuntime,
            seq![Outcome::Done, Outcome::Done, Outcome::Done, Outcome::Done, Outcome::Done, Outcome::Done,
                Outcome::Created(sdp), Outcome::Done],
        ) == Step::SendOffer(sdp),
        run(Role::Offerer, Step::SendOffer(sdp), seq![Outcome::Done, Outcome::Done]) == Step::AwaitSignal,
{
    reveal_with_fuel(run, 9);
}

/// An offer that arrives while a peer waits for signals, when every step
/// succeeds, is answered with exactly the answer that was created, after
/// which the peer waits for signals again.
pub proof fn lemma_offer_answered(role: Role, offer: String, answer: String)
    ensures
        run(
            role,
            Step::AwaitSignal,
            seq![Outcome::Received(Signal::Offer(offer)), Outcome::Done, Outcome::Done,
                Outcome::Created(answer), Outcome::Done],
        ) == Step::SendAnswer(answer),
        next_step(role, Step::SendAnswer(answer), Outcome::Done) == Step::AwaitSignal,
{
    reveal_with_fuel(run, 6);
}

/// Whether `step` belongs to answering an offer, from building the remote
/// offer to sending the answer.
pub open spec fn answering(step: Step) -> bool {
    step is ParseOffer || step is ApplyRemoteOffer || step is CreateAnswer || step is SetLocalAnswer
        || step is SendAnswer
}

/// A peer of either role starts answering, and so sends an answer, only
/// when it was waiting for signals and an offer arrived.
pub proof fn lemma_answer_needs_offer(role: Role, step: Step, outcome: Outcome)
    requires
        !answering(step),
        answering(next_step(role, step, outcome)),
    ensures
        step is AwaitSignal,
        outcome matches Outcome::Received(Signal::Offer(_)),
{
}

/// Whether `step` comes before the peer forwards its ICE candidates: the
/// setting up of the peer connection and, for the offerer, the sending of
/// its offer.
pub open spec fn setting_up(step: Step) -> bool {
    step is StartRuntime || step is RegisterCodecs || step is RegisterInterceptors
        || step is CreatePeer || step is WatchConnectionState || step is CreateDataChannel
        || step is CreateOffer || step is SetLocalOffer || step is SendOffer
        || step is WatchIncomingChannels
}

/// An offerer never waits for an incoming data channel: no step it takes
/// leads it there.
pub proof fn lemma_offerer_never_waits_for_channel(step: Step, outcome: Outcome)
    requires
        !(step is WatchIncomingChannels),
    ensures
        !(next_step(Role::Offerer, step, outcome) is WatchIncomingChannels),
{
}

/// An offerer leaves its set-up, without failing, only by sending its
/// offer: it forwards its ICE candidates and takes signals only after the
/// offer went out.
pub proof fn lemma_offerer_offers_first(step: Step, outcome: Outcome)
    requires
        !(step is WatchIncomingChannels),
        setting_up(step),
        answers(step, outcome),
        !setting_up(next_step(Role::Offerer, step, outcome)),
        !(next_step(Role::Offerer, step, outcome) is Fail),
    ensures
        step is SendOffer,
        next_step(Role::Offerer, step, outcome) is WatchIceCandidates,
{
}

/// Whether every outcome in `outcomes` is a possible result of the step it
/// follows, for a peer playing `role` that starts at `step`.
pub open spec fn valid_run(role: Role, step: Step, outcomes: Seq<Outcome>) -> bool {
    forall|i: int|
        0 <= i < outcomes.len() ==> #[trigger] answers(run(role, step, outcomes.take(i)), outcomes[i])
}

/// Taking one more step after a run is running one outcome more.
proof fn lemma_run_push(role: Role, step: Step, outcomes: Seq<Outcome>, outcome: Outcome)
    ensures
        run(role, step, outcomes.push(outcome)) == next_step(role, run(role, step, outcomes), outcome),
    decreases outcomes.len(),
{
    let longer = outcomes.push(outcome);
    if outcomes.len() == 0 {
        assert(longer.drop_first() == Seq::<Outcome>::empty());
        assert(longer[0] == outcome);
        assert(run(role, step, longer) == run(role, next_step(role, step, outcome), longer.drop_first()));
    } else {
        lemma_run_push(role, next_step(role, step, outcomes[0]), outcomes.drop_first(), outcome);
        assert(longer.drop_first() == outcomes.drop_first().push(outcome));
        assert(longer[0] == outcomes[0]);
        assert(run(role, step, longer) == run(role, next_step(role, step, outcomes[0]), longer.drop_first()));
    }
}

/// The step reached after `k + 1` outcomes follows the one reached after `k`.
proof fn lemma_run_take_next(role: Role, step: Step, outcomes: Seq<Outcome>, k: int)
    requires
        0 <= k < outcomes.len(),
    ensures
        run(role, step, outcomes.take(k + 1)) == next_step(
            role,
            run(role, step, outcomes.take(k)),
            outcomes[k],
        ),
{
    assert(outcomes.take(k + 1) == outcomes.take(k).push(outcomes[k]));
    lemma_run_push(role, step, outcomes.take(k), outcomes[k]);
}

/// However its steps turn out, a peer of either role that is not answering
/// an offer gets to answering one, and so to sending an answer, only after
/// an offer arrived from the other peer: with no offer among the first `k`
/// outcomes, it is not answering after them.
pub proof fn lemma_no_answer_without_offer(role: Role, step: Step, outcomes: Seq<Outcome>, k: int)
    requires
        !answering(step),
        0 <= k <= outcomes.len(),
        answering(run(role, step, outcomes.take(k))),
    ensures
        exists|j: int| 0 <= j < k && #[trigger] outcomes[j] matches Outcome::Received(Signal::Offer(_)),
    decreases k,
{
    if k == 0 {
        assert(outcomes.take(0) == Seq::<Outcome>::empty());
    } else {
        lemma_run_take_next(role, step, outcomes, k - 1);
        let before = run(role, step, outcomes.take(k - 1));
        if answering(before) {
            lemma_no_answer_without_offer(role, step, outcomes, k - 1);
            let j = choose|j: int|
                0 <= j < k - 1 && #[trigger] outcomes[j] matches Outcome::Received(Signal::Offer(_));
            assert(0 <= j < k && outcomes[j] matches Outcome::Received(Signal::Offer(_)));
        } else {
            lemma_answer_needs_offer(role, before, outcomes[k - 1]);
            assert(outcomes[k - 1] matches Outcome::Received(Signal::Offer(_)));
        }
    }
}

/// An answerer never takes a step that only the offerer takes, however its
/// steps turn out.
pub proof fn lemma_answerer_never_offers_in_run(outcomes: Seq<Outcome>, k: int)
    requires
        0 <= k <= outcomes.len(),
    ensures
        !offerer_only(run(Role::Answerer, Step::StartRuntime, outcomes.take(k))),
    decreases k,
{
    if k == 0 {
        assert(outcomes.take(0) == Seq::<Outcome>::empty());
    } else {
        lemma_answerer_never_offers_in_run(outcomes, k - 1);
        lemma_run_take_next(Role::Answerer, Step::StartRuntime, outcomes, k - 1);
        lemma_answerer_never_offers(
            run(Role::Answerer, Step::StartRuntime, outcomes.take(k - 1)),
            outcomes[k - 1],
        );
    }
}

/// An answerer sends no signal of its own (neither an offer nor an answer)
/// before an offer arrived from the other peer: with no offer among the
/// first `k` outcomes, the step it reaches sends nothing.
pub proof fn lemma_answerer_silent_until_offer(outcomes: Seq<Outcome>, k: int)
    requires
        0 <= k <= outcomes.len(),
        forall|j: int| 0 <= j < k ==> !(#[trigger] outcomes[j] matches Outcome::Received(Signal::Offer(_))),
    ensures
        !(run(Role::Answerer, Step::StartRuntime, outcomes.take(k)) is SendOffer),
        !(run(Role::Answerer, Step::StartRuntime, outcomes.take(k)) is SendAnswer),
{
    lemma_answerer_never_offers_in_run(outcomes, k);
    if run(Role::Answerer, Step::StartRuntime, outcomes.take(k)) is SendAnswer {
        lemma_no_answer_without_offer(Role::Answerer, Step::StartRuntime, outcomes, k);
    }
}

/// An offerer that receives no offer never sends an answer.
pub proof fn lemma_offerer_never_answers_unasked(outcomes: Seq<Outcome>, k: int)
    requires
        0 <= k <= outcomes.len(),
        forall|j: int| 0 <= j < k ==> !(#[trigger] outcomes[j] matches Outcome::Received(Signal::Offer(_))),
    ensures
        !(run(Role::Offerer, Step::StartRuntime, outcomes.take(k)) is SendAnswer),
{
    if run(Role::Offerer, Step::StartRuntime, outcomes.take(k)) is SendAnswer {
        lemma_no_answer_without_offer(Role::Offerer, Step::StartRuntime, outcomes, k);
    }
}

/// An offerer never reaches the step that waits for an incoming channel.
proof fn lemma_offerer_never_waits_in_run(outcomes: Seq<Outcome>, k: int)
    requires
        0 <= k <= outcomes.len(),
    ensures
        !(run(Role::Offerer, Step::StartRuntime, outcomes.take(k)) is WatchIncomingChannels),
    decreases k,
{
    if k == 0 {
        assert(outcomes.take(0) == Seq::<Outcome>::empty());
    } else {
        lemma_offerer_never_waits_in_run(outcomes, k - 1);
        lemma_run_take_next(Role::Offerer, Step::StartRuntime, outcomes, k - 1);
        lemma_offerer_never_waits_for_channel(
            run(Role::Offerer, Step::StartRuntime, outcomes.take(k - 1)),
            outcomes[k - 1],
        );
    }
}

/// An offerer sends its offer before anything else it sends: once it is
/// past its set-up without failing, with each step turning out in a way the
/// step can, it has sent its offer at an earlier step.
pub proof fn lemma_offerer_offers_before_signals(outcomes: Seq<Outcome>, k: int)
    requires
        valid_run(Role::Offerer, Step::StartRuntime, outcomes),
        0 <= k <= outcomes.len(),
        !setting_up(run(Role::Offerer, Step::StartRuntime, outcomes.take(k))),
        !(run(Role::Offerer, Step::StartRuntime, outcomes.take(k)) is Fail),
    ensures
        exists|j: int|
            0 <= j < k && #[trigger] run(Role::Offerer, Step::StartRuntime, outcomes.take(j)) is SendOffer,
    decreases k,
{
    if k == 0 {
        assert(outcomes.take(0) == Seq::<Outcome>::empty());
    } else {
        let before = run(Role::Offerer, Step::StartRuntime, outcomes.take(k - 1));
        lemma_run_take_next(Role::Offerer, Step::StartRuntime, outcomes, k - 1);
        if setting_up(before) {
            lemma_offerer_never_waits_in_run(outcomes, k - 1);
            assert(answers(before, outcomes[k - 1]));
            lemma_offerer_offers_first(before, outcomes[k - 1]);
            assert(run(Role::Offerer, Step::StartRuntime, outcomes.take(k - 1)) is SendOffer);
        } else {
            assert(!(before is Fail));
            lemma_offerer_offers_before_signals(outcomes, k - 1);
            let j = choose|j: int|
                0 <= j < k - 1 && #[trigger] run(Role::Offerer, Step::StartRuntime, outcomes.take(j)) is SendOffer;
            assert(run(Role::Offerer, Step::StartRuntime, outcomes.take(j)) is SendOffer);
        }
    }
}

/// A peer that answers an offer leaves off answering, without failing, only
/// by sending its answer.
pub proof fn lemma_answering_ends_with_answer(role: Role, step: Step, outcome: Outcome)
    requires
        answering(step),
        answers(step, outcome),
        !answering(next_step(role, step, outcome)),
        !(next_step(role, step, outcome) is Fail),
    ensures
        step is SendAnswer,
{
}

/// A task that ended with an error stays ended with one, however later
/// steps are reported.
proof fn lemma_fail_stays(role: Role, step: Step, outcomes: Seq<Outcome>, i: int, k: int)
    requires
        0 <= i <= k <= outcomes.len(),
        run(role, step, outcomes.take(i)) is Fail,
    ensures
        run(role, step, outcomes.take(k)) is Fail,
    decreases k - i,
{
    if i < k {
        lemma_run_take_next(role, step, outcomes, i);
        lemma_fail_stays(role, step, outcomes, i + 1, k);
    }
}

/// Once an offer arrived, the next signal the peer sends is its answer:
/// from building the remote offer on, with each step turning out in a way
/// the step can, a peer that is past answering without failing sent its
/// answer at an earlier step, and was answering all along until then.
pub proof fn lemma_answer_sent_first(role: Role, offer: String, outcomes: Seq<Outcome>, k: int)
    requires
        valid_run(role, Step::ParseOffer(offer), outcomes),
        0 <= k <= outcomes.len(),
        !answering(run(role, Step::ParseOffer(offer), outcomes.take(k))),
        !(run(role, Step::ParseOffer(offer), outcomes.take(k)) is Fail),
    ensures
        exists|j: int|
            0 <= j < k && #[trigger] run(role, Step::ParseOffer(offer), outcomes.take(j)) is SendAnswer
                && forall|i: int|
                0 <= i <= j ==> answering(#[trigger] run(role, Step::ParseOffer(offer), outcomes.take(i))),
    decreases k,
{
    let start = Step::ParseOffer(offer);
    if k == 0 {
        assert(outcomes.take(0) == Seq::<Outcome>::empty());
    } else if exists|i: int| 0 <= i < k && !answering(#[trigger] run(role, start, outcomes.take(i))) {
        let i = choose|i: int| 0 <= i < k && !answering(#[trigger] run(role, start, outcomes.take(i)));
        if run(role, start, outcomes.take(i)) is Fail {
            lemma_fail_stays(role, start, outcomes, i, k);
        }
        lemma_answer_sent_first(role, offer, outcomes, i);
        let j = choose|j: int|
            0 <= j < i && #[trigger] run(role, start, outcomes.take(j)) is SendAnswer && forall|i: int|
                0 <= i <= j ==> answering(#[trigger] run(role, start, outcomes.take(i)));
        assert(0 <= j < k && run(role, start, outcomes.take(j)) is SendAnswer);
    } else {
        let before = run(role, start, outcomes.take(k - 1));
        lemma_run_take_next(role, start, outcomes, k - 1);
        assert(answering(before));
        assert(answers(before, outcomes[k - 1]));
        lemma_answering_ends_with_answer(role, before, outcomes[k - 1]);
        assert(forall|i: int| 0 <= i <= k - 1 ==> answering(#[trigger] run(role, start, outcomes.take(i))));
    }
}

/// The end of the other peer's candidates does not end the negotiation: a
/// peer of either role that is waiting for signals keeps waiting, and it
/// goes on to take its data channel only when the signals close.
pub proof fn lemma_end_of_candidates_keeps_waiting(role: Role, outcome: Outcome)
    ensures
        next_step(role, Step::AwaitSignal, Outcome::Received(Signal::IceCandidate(None)))
            == Step::AwaitSignal,
        answers(Step::AwaitSignal, outcome) && next_step(role, Step::AwaitSignal, outcome) is TakeDataChannel
            ==> outcome is SignalsClosed,
{
}

/// Each signal that arrives while a peer waits is acted on, for either
/// role: an offer is answered from its SDP, an answer is applied from its
/// SDP, a candidate is added, and the end of the candidates leaves the peer
/// waiting.
pub proof fn lemma_signals_acted_on(role: Role, sdp: String, candidate: String)
    ensures
        next_step(role, Step::AwaitSignal, Outcome::Received(Signal::Offer(sdp))) == Step::ParseOffer(sdp),
        next_step(role, Step::AwaitSignal, Outcome::Received(Signal::Answer(sdp))) == Step::ParseAnswer(sdp),
        next_step(role, Step::AwaitSignal, Outcome::Received(Signal::IceCandidate(Some(candidate))))
            == Step::AddIceCandidate(candidate),
        next_step(role, Step::AwaitSignal, Outcome::SignalsClosed) == Step::TakeDataChannel,
{
}

} // verus!
