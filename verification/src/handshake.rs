//! The server's side of one connection request: the offer arrives as the
//! body of an HTTP request, the answering peer's signals are collected, and
//! the reply carries its answer and ICE candidates back.
use crate::types::{Error, Signal, SignalView};
use crate::wire::{encode_reply, encoded_reply, reply_fields_ok, reply_signals, lemma_reply_round_trip};
use vstd::prelude::*;

verus! {

/// The status of a reply that the server could not make: the request's body
/// could not be read, or the reply's header could not be built.
pub const STATUS_SERVER_ERROR: u16 = 500;

/// The status of a reply to an offer that the answering peer failed on.
pub const STATUS_FAILED: u16 = 400;

/// What the server does next for one request.
pub enum HandshakeAction {
    /// Nothing new yet: wait a moment and poll the answering peer again.
    Poll,
    /// Reply with this status and an empty body.
    Reject(u16),
    /// Reply with this body, which carries the answer and the candidates.
    Reply(String),
}

/// The view of a [`HandshakeAction`].
pub enum HandshakeActionView {
    Poll,
    Reject(u16),
    Reply(Seq<char>),
}

impl View for HandshakeAction {
    type V = HandshakeActionView;

    open spec fn view(&self) -> HandshakeActionView {
        match self {
            HandshakeAction::Poll => HandshakeActionView::Poll,
            HandshakeAction::Reject(s) => HandshakeActionView::Reject(*s),
            HandshakeAction::Reply(b) => HandshakeActionView::Reply(b@),
        }
    }
}

/// What the server knows of one request: the answer, once it has come, and
/// the candidates that came after it.
pub struct HandshakeState {
    pub answer: Option<Seq<char>>,
    pub candidates: Seq<Seq<char>>,
}

/// The state of a request whose answer has not come yet.
pub open spec fn initial_handshake() -> HandshakeState {
    HandshakeState { answer: None, candidates: Seq::empty() }
}

/// Whether a poll of the answering peer can bring `polled` in state `s`: a
/// signal is the answer while there is none yet, and a candidate after it.
pub open spec fn handshake_expects(s: HandshakeState, polled: Result<Option<SignalView>, Error>) -> bool {
    match polled {
        Ok(Some(SignalView::Answer(_))) => s.answer is None,
        Ok(Some(SignalView::IceCandidate(_))) => s.answer is Some,
        Ok(Some(SignalView::Offer(_))) => false,
        _ => true,
    }
}

/// The state after a poll that brought `polled`.
pub open spec fn handshake_next(s: HandshakeState, polled: Result<Option<SignalView>, Error>) -> HandshakeState {
    match polled {
        Ok(Some(SignalView::Answer(a))) => HandshakeState { answer: Some(a), ..s },
        Ok(Some(SignalView::IceCandidate(Some(c)))) => HandshakeState {
            candidates: s.candidates.push(c),
            ..s
        },
        _ => s,
    }
}

/// What the server does after a poll that brought `polled` in state `s`: a
/// failure of the peer rejects the request, the end of the candidates
/// replies with the answer and the candidates, anything else polls again.
pub open spec fn handshake_action(s: HandshakeState, polled: Result<Option<SignalView>, Error>) -> HandshakeActionView {
    match polled {
        Err(_) => HandshakeActionView::Reject(STATUS_FAILED),
        Ok(Some(SignalView::IceCandidate(None))) => HandshakeActionView::Reply(
            encoded_reply(s.answer.unwrap(), s.candidates),
        ),
        _ => HandshakeActionView::Poll,
    }
}

/// The view of a poll's result.
pub open spec fn polled_view(polled: Result<Option<Signal>, Error>) -> Result<Option<SignalView>, Error> {
    match polled {
        Ok(Some(s)) => Ok(Some(s@)),
        Ok(None) => Ok(None),
        Err(e) => Err(e),
    }
}

/// One request in progress.
pub struct Handshake {
    answer: Option<String>,
    candidates: Vec<String>,
}

impl View for Handshake {
    type V = HandshakeState;

    closed spec fn view(&self) -> HandshakeState {
        HandshakeState {
            answer: match self.answer {
                Some(a) => Some(a@),
                None => None,
            },
            candidates: self.candidates@.map_values(|c: String| c@),
        }
    }
}

/// The signal that a request's body hands the answering peer: the body is
/// the offer. A body that could not be read is rejected as unreadable.
pub fn offer_from_body(body: Option<String>) -> (r: Result<Signal, u16>)
    ensures
        match body {
            Some(b) => r == Ok::<Signal, u16>(Signal::Offer(b)),
            None => r == Err::<Signal, u16>(STATUS_SERVER_ERROR),
        },
{
    match body {
        Some(b) => Ok(Signal::Offer(b)),
        None => Err(STATUS_SERVER_ERROR),
    }
}

impl Handshake {
    /// A request whose answer has not come yet.
    pub fn new() -> (h: Handshake)
        ensures
            h@ == initial_handshake(),
    {
        let h = Handshake { answer: None, candidates: Vec::new() };
        proof {
            assert(h@.candidates == Seq::<Seq<char>>::empty());
        }
        h
    }

    /// Whether a poll of the answering peer can bring `polled` now: a signal
    /// is the answer while there is none yet, and a candidate after it. An
    /// answering peer emits nothing else.
    pub fn expects(&self, polled: &Result<Option<Signal>, Error>) -> (b: bool)
        ensures
            b == handshake_expects(self@, polled_view(*polled)),
    {
        match polled {
            Ok(Some(Signal::Answer(_))) => self.answer.is_none(),
            Ok(Some(Signal::IceCandidate(_))) => self.answer.is_some(),
            Ok(Some(Signal::Offer(_))) => false,
            _ => true,
        }
    }

    /// Takes in what a poll of the answering peer brought, and says what to
    /// do next.
    pub fn on_poll(&mut self, polled: Result<Option<Signal>, Error>) -> (act: HandshakeAction)
        requires
            handshake_expects(old(self)@, polled_view(polled)),
        ensures
            final(self)@ == handshake_next(old(self)@, polled_view(polled)),
            act@ == handshake_action(old(self)@, polled_view(polled)),
    {
        match polled {
            Err(_) => HandshakeAction::Reject(STATUS_FAILED),
            Ok(None) => HandshakeAction::Poll,
            Ok(Some(Signal::Answer(a))) => {
                let ghost before = self@;
                self.answer = Some(a);
                proof {
                    assert(self@.candidates == before.candidates);
                }
                HandshakeAction::Poll
            },
            Ok(Some(Signal::IceCandidate(Some(c)))) => {
                let ghost before = self@;
                self.candidates.push(c);
                proof {
                    assert(self@.candidates == before.candidates.push(c@));
                }
                HandshakeAction::Poll
            },
            Ok(Some(Signal::IceCandidate(None))) => {
                let answer = match &self.answer {
                    Some(a) => a.as_str(),
                    None => "",
                };
                HandshakeAction::Reply(encode_reply(answer, &self.candidates))
            },
            Ok(Some(Signal::Offer(_))) => HandshakeAction::Poll,
        }
    }
}

/// The signals an answering peer emits for a request: its answer, each of
/// its candidates, and the end of the candidates.
pub open spec fn answer_signals(answer: Seq<char>, candidates: Seq<Seq<char>>) -> Seq<SignalView> {
    seq![SignalView::Answer(answer)] + candidates.map_values(
        |c: Seq<char>| SignalView::IceCandidate(Some(c)),
    ) + seq![SignalView::IceCandidate(None)]
}

/// The state after the polls bring `signals`, one after the other.
pub open spec fn handshake_after(s: HandshakeState, signals: Seq<SignalView>) -> HandshakeState
    decreases signals.len(),
{
    if signals.len() == 0 {
        s
    } else {
        handshake_after(handshake_next(s, Ok(Some(signals[0]))), signals.drop_first())
    }
}

proof fn lemma_collect_candidates(s: HandshakeState, candidates: Seq<Seq<char>>)
    ensures
        handshake_after(
            s,
            candidates.map_values(|c: Seq<char>| SignalView::IceCandidate(Some(c))),
        ) == (HandshakeState { candidates: s.candidates + candidates, ..s }),
    decreases candidates.len(),
{
    let sigs = candidates.map_values(|c: Seq<char>| SignalView::IceCandidate(Some(c)));
    if candidates.len() == 0 {
        assert(s.candidates + candidates == s.candidates);
    } else {
        let rest = candidates.drop_first();
        assert(sigs.drop_first() == rest.map_values(|c: Seq<char>| SignalView::IceCandidate(Some(c))));
        let s1 = handshake_next(s, Ok(Some(sigs[0])));
        assert(s1 == HandshakeState { candidates: s.candidates.push(candidates[0]), ..s });
        lemma_collect_candidates(s1, rest);
        assert(s.candidates.push(candidates[0]) + rest == s.candidates + candidates);
    }
}

/// Whether serving the signals of an answering peer that emits `answer` and
/// `candidates` goes as it should: each poll brings what the server expects
/// at that point, the end of the candidates replies with the body that
/// carries them, and the client reads that body back as the very signals
/// that the answering peer emitted.
pub open spec fn delivers(answer: Seq<char>, candidates: Seq<Seq<char>>) -> bool {
    let sigs = answer_signals(answer, candidates);
    let before_end = handshake_after(initial_handshake(), sigs.drop_last());
    &&& forall|i: int|
        0 <= i < sigs.len() ==> handshake_expects(
            handshake_after(initial_handshake(), sigs.take(i)),
            Ok(Some(#[trigger] sigs[i])),
        )
    &&& handshake_action(before_end, Ok(Some(sigs.last())))
        == HandshakeActionView::Reply(encoded_reply(answer, candidates))
    &&& reply_signals(encoded_reply(answer, candidates)) == sigs
}

/// What the answering peer signals for a request reaches the client intact,
/// whenever its answer and candidates fit the reply format.
pub proof fn lemma_handshake_delivers(answer: Seq<char>, candidates: Seq<Seq<char>>)
    requires
        reply_fields_ok(answer, candidates),
    ensures
        delivers(answer, candidates),
{
    let sigs = answer_signals(answer, candidates);
    let cand_sigs = candidates.map_values(|c: Seq<char>| SignalView::IceCandidate(Some(c)));
    let s0 = initial_handshake();
    let s1 = HandshakeState { answer: Some(answer), candidates: Seq::empty() };
    assert(sigs.drop_last() == seq![SignalView::Answer(answer)] + cand_sigs);
    assert forall|i: int|
        0 <= i < sigs.len() implies handshake_expects(
            handshake_after(s0, sigs.take(i)),
            Ok(Some(#[trigger] sigs[i])),
        ) by {
        if i == 0 {
            assert(sigs.take(0) == Seq::<SignalView>::empty());
        } else {
            let done = candidates.take(i - 1);
            assert(sigs.take(i) == seq![SignalView::Answer(answer)] + done.map_values(
                |c: Seq<char>| SignalView::IceCandidate(Some(c)),
            ));
            assert((seq![SignalView::Answer(answer)] + done.map_values(
                |c: Seq<char>| SignalView::IceCandidate(Some(c)),
            )).drop_first() == done.map_values(|c: Seq<char>| SignalView::IceCandidate(Some(c))));
            lemma_collect_candidates(s1, done);
        }
    }
    assert((seq![SignalView::Answer(answer)] + cand_sigs).drop_first() == cand_sigs);
    lemma_collect_candidates(s1, candidates);
    assert(Seq::<Seq<char>>::empty() + candidates == candidates);
    lemma_reply_round_trip(answer, candidates);
}

} // verus!
