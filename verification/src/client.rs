//! A client that opens a data channel to a server: its offer goes to the
//! server in an HTTP request, and the reply brings the server's answer and
//! ICE candidates.
use crate::config::{Configuration, SignalerKind};
use crate::peer::{check_status, DataChannel, Signaler};
use crate::pool::PollStatus;
use crate::runtime::{channel, try_receive};
use crate::types::{from_webrtc, spec_from_webrtc, CheckConnectionError, Error, Signal, SignalView};
use crate::wire::{reply_signals, reply_to_signals, signal_views};
use vstd::prelude::*;
use vstd::utf8::{decode_utf8, valid_utf8};

verus! {

/// The offer that a poll of the client's peer brought, which is to be sent
/// to the server; a failure of the peer is the client's error.
pub open spec fn spec_offer_to_post(polled: Result<Option<Signal>, Error>) -> Result<Option<String>, CheckConnectionError> {
    match polled {
        Err(e) => Err(spec_from_webrtc(e)),
        Ok(Some(Signal::Offer(offer))) => Ok(Some(offer)),
        Ok(_) => Ok(None),
    }
}

/// Picks, out of a poll of the client's peer, the offer to send to the
/// server. Other signals are not sent: the server's reply carries all that
/// the client needs.
pub fn offer_to_post(polled: Result<Option<Signal>, Error>) -> (r: Result<Option<String>, CheckConnectionError>)
    ensures
        r == spec_offer_to_post(polled),
{
    match polled {
        Err(e) => Err(from_webrtc(e)),
        Ok(Some(Signal::Offer(offer))) => Ok(Some(offer)),
        Ok(_) => Ok(None),
    }
}

/// Reads `bytes` as UTF-8 text (`std::str::from_utf8`, then `to_owned`): it
/// succeeds exactly on valid UTF-8, and the text is what the bytes encode.
#[verifier::external_body]
fn utf8_text(bytes: &[u8]) -> (r: Option<String>)
    ensures
        r is Some <==> valid_utf8(bytes@),
        r matches Some(s) ==> s@ == decode_utf8(bytes@),
{
    std::str::from_utf8(bytes).ok().map(|s| s.to_owned())
}

/// What a client makes of the server's reply: `fetched` holds the body's
/// bytes, or nothing when the request failed. A failed request, and a body
/// that is not UTF-8, are bad responses.
pub open spec fn spec_reply_text(fetched: Option<Seq<u8>>) -> Option<Seq<char>> {
    match fetched {
        Some(bytes) => if valid_utf8(bytes) {
            Some(decode_utf8(bytes))
        } else {
            None
        },
        None => None,
    }
}

/// Reads the server's reply as text; a failed request or a body that is not
/// UTF-8 is a bad response.
pub fn reply_text(fetched: Option<Vec<u8>>) -> (r: Result<String, CheckConnectionError>)
    ensures
        match spec_reply_text(
            match fetched {
                Some(b) => Some(b@),
                None => None,
            },
        ) {
            Some(text) => r matches Ok(s) && s@ == text,
            None => r == Err::<String, CheckConnectionError>(CheckConnectionError::BadResponse),
        },
{
    match fetched {
        Some(bytes) => match utf8_text(bytes.as_slice()) {
            Some(text) => Ok(text),
            None => Err(CheckConnectionError::BadResponse),
        },
        None => Err(CheckConnectionError::BadResponse),
    }
}

/// Whether `after` is `before` with one more signal, which is not an offer:
/// a signal that the client takes from its peer and does not send.
pub open spec fn passed_over(before: Seq<SignalView>, after: Seq<SignalView>) -> bool {
    &&& after.len() == before.len() + 1
    &&& after.drop_last() == before
    &&& !(after.last() is Offer)
}

/// Whether `after` is `before` with one more reply read.
pub open spec fn reply_read(
    before: Seq<Result<Seq<char>, CheckConnectionError>>,
    after: Seq<Result<Seq<char>, CheckConnectionError>>,
) -> bool {
    &&& after.len() == before.len() + 1
    &&& after.drop_last() == before
}

/// The signals that a reply's text hands the client's peer: those it
/// carries while the peer negotiates, none once it stopped.
pub open spec fn fed_signals(negotiating: bool, text: Seq<char>) -> Seq<SignalView> {
    if negotiating {
        reply_signals(text)
    } else {
        Seq::<SignalView>::empty()
    }
}

/// What reading one more reply did, from `before` to `after` with result
/// `r`: a reply's text was handed to the peer; an error that stood in its
/// place is the result, and nothing was handed over.
pub open spec fn reply_effect(
    before: Client,
    after: Client,
    r: Result<Option<DataChannel>, CheckConnectionError>,
) -> bool {
    match after.replies().last() {
        Ok(text) => after.forwarded() == before.forwarded() + fed_signals(before.negotiating(), text),
        Err(e) => {
            &&& r == Err::<Option<DataChannel>, CheckConnectionError>(e)
            &&& after.forwarded() == before.forwarded()
            &&& after.negotiating() == before.negotiating()
        },
    }
}

/// Whether, from `before` to `after`, the client read an error in place of
/// the server's reply.
pub open spec fn reply_failed(before: Client, after: Client) -> bool {
    reply_read(before.replies(), after.replies()) && after.replies().last() is Err
}

/// A client connecting to a server through its peer.
pub struct Client {
    server_url: String,
    signaler: Signaler,
    http_response_receiver: Option<std::sync::mpsc::Receiver<Result<String, CheckConnectionError>>>,
    replies: Ghost<Seq<Result<Seq<char>, CheckConnectionError>>>,
}

impl Client {
    /// The address of the server.
    pub closed spec fn url(&self) -> Seq<char> {
        self.server_url@
    }

    /// The signals that the client handed its peer, in order.
    pub closed spec fn forwarded(&self) -> Seq<SignalView> {
        self.signaler.forwarded()
    }

    /// The signals of the client's peer that the client took, in order.
    pub closed spec fn emitted(&self) -> Seq<SignalView> {
        self.signaler.emitted()
    }

    /// What the client read of the server's replies, oldest first: the text
    /// of a reply, or the error that stood in its place.
    pub closed spec fn replies(&self) -> Seq<Result<Seq<char>, CheckConnectionError>> {
        self.replies@
    }

    /// The kind of the client's peer and the configuration it was set up
    /// with.
    pub closed spec fn peer_setup(&self) -> (SignalerKind, Configuration) {
        self.signaler.setup()
    }

    /// What each check of the client's peer for its data channel gave.
    pub closed spec fn peer_checks(&self) -> Seq<PollStatus> {
        self.signaler.checks()
    }

    /// The error that the client's peer reported, once it reported one.
    pub closed spec fn peer_reported(&self) -> Option<Error> {
        self.signaler.reported()
    }

    /// What each read of the peer's error slot found, oldest first.
    pub closed spec fn peer_reads(&self) -> Seq<Option<Error>> {
        self.signaler.slot_reads()
    }

    /// Whether the client's peer is still negotiating.
    pub closed spec fn negotiating(&self) -> bool {
        self.signaler.is_negotiating()
    }

    /// Whether a request was sent to the server, whose reply the client
    /// waits for (or has read).
    pub closed spec fn requested(&self) -> bool {
        self.http_response_receiver is Some
    }

    /// A client of the server at `server_url`, connecting through the
    /// offering peer `signaler`.
    pub fn with_signaler(server_url: &str, signaler: Signaler) -> (c: Client)
        requires
            signaler.setup().0 is Offer,
        ensures
            c.peer_setup() == signaler.setup(),
            c.peer_checks() == signaler.checks(),
            c.url() == server_url@,
            !c.requested(),
            c.forwarded() == signaler.forwarded(),
            c.emitted() == signaler.emitted(),
            c.negotiating() == signaler.is_negotiating(),
            c.peer_reported() == signaler.reported(),
            c.peer_reads() == signaler.slot_reads(),
            c.replies() == Seq::<Result<Seq<char>, CheckConnectionError>>::empty(),
    {
        Client {
            server_url: server_url.to_owned(),
            signaler,
            http_response_receiver: None,
            replies: Ghost(Seq::empty()),
        }
    }

    /// The address of the server.
    pub fn server_url(&self) -> (s: &str)
        ensures
            s@ == self.url(),
    {
        self.server_url.as_str()
    }

    /// Polls the client's peer: an offer that it produced is returned, to be
    /// sent to the server; a failure of the peer is returned as the client's
    /// error.
    pub fn poll_offer(&mut self) -> (r: Result<Option<String>, CheckConnectionError>)
        ensures
            final(self).url() == old(self).url(),
            final(self).peer_setup() == old(self).peer_setup(),
            final(self).peer_checks() == old(self).peer_checks(),
            final(self).requested() == old(self).requested(),
            final(self).forwarded() == old(self).forwarded(),
            final(self).negotiating() == old(self).negotiating(),
            final(self).replies() == old(self).replies(),
            r matches Err(e) ==> e is WebRtcError,
            (r is Err) == (final(self).peer_reported() is Some),
            r matches Err(e) ==> e == CheckConnectionError::WebRtcError(final(self).peer_reported()->0),
            old(self).peer_reported() is Some ==> final(self).peer_reported() == old(self).peer_reported(),
            final(self).peer_reads() == (if old(self).peer_reported() is None {
                old(self).peer_reads().push(final(self).peer_reported())
            } else {
                old(self).peer_reads()
            }),
            r matches Err(_) ==> final(self).emitted() == old(self).emitted(),
            r matches Ok(Some(offer)) ==> final(self).emitted() == old(self).emitted().push(
                SignalView::Offer(offer@),
            ),
            r matches Ok(None) ==> final(self).emitted() == old(self).emitted()
                || passed_over(old(self).emitted(), final(self).emitted()),
    {
        let polled = self.signaler.signal();
        proof {
            if polled is Ok && polled->Ok_0 is Some {
                assert(self.emitted().drop_last() == old(self).emitted());
            }
        }
        offer_to_post(polled)
    }

    /// Starts waiting for the reply to a request that is about to be sent
    /// to the server: the reply, once read with [`reply_text`], goes into
    /// the returned sender. A reply that an earlier request may still bring
    /// is no longer waited for.
    pub fn begin_request(&mut self) -> (reply: std::sync::mpsc::Sender<Result<String, CheckConnectionError>>)
        ensures
            final(self).url() == old(self).url(),
            final(self).peer_setup() == old(self).peer_setup(),
            final(self).peer_checks() == old(self).peer_checks(),
            final(self).requested(),
            final(self).peer_reported() == old(self).peer_reported(),
            final(self).peer_reads() == old(self).peer_reads(),
            final(self).forwarded() == old(self).forwarded(),
            final(self).emitted() == old(self).emitted(),
            final(self).negotiating() == old(self).negotiating(),
            final(self).replies() == old(self).replies(),
    {
        let (sender, receiver) = channel();
        self.http_response_receiver = Some(receiver);
        sender
    }

    /// Hands the client's peer the answer and the candidates that the reply
    /// text `text` carries, in order, then the end of the candidates. Once
    /// the peer stopped negotiating it takes no more signals.
    pub fn feed_reply(&mut self, text: &str)
        ensures
            final(self).url() == old(self).url(),
            final(self).peer_setup() == old(self).peer_setup(),
            final(self).peer_checks() == old(self).peer_checks(),
            final(self).requested() == old(self).requested(),
            final(self).negotiating() == old(self).negotiating(),
            final(self).emitted() == old(self).emitted(),
            final(self).replies() == old(self).replies(),
            final(self).peer_reported() == old(self).peer_reported(),
            final(self).peer_reads() == old(self).peer_reads(),
            final(self).forwarded() == old(self).forwarded() + fed_signals(old(self).negotiating(), text@),
    {
        let mut signals = reply_to_signals(text);
        let ghost all = signal_views(signals@);
        let ghost start = self.forwarded();
        let ghost negotiating = self.negotiating();
        let ghost mut fed: int = 0;
        while signals.len() > 0
            invariant
                0 <= fed,
                fed + signals.len() == all.len(),
                signal_views(signals@) == all.skip(fed),
                all == reply_signals(text@),
                self.url() == old(self).url(),
                self.peer_setup() == old(self).peer_setup(),
                self.peer_checks() == old(self).peer_checks(),
                self.requested() == old(self).requested(),
                self.negotiating() == negotiating,
                negotiating == old(self).negotiating(),
                self.emitted() == old(self).emitted(),
                self.replies() == old(self).replies(),
                self.peer_reported() == old(self).peer_reported(),
                self.peer_reads() == old(self).peer_reads(),
                start == old(self).forwarded(),
                self.forwarded() == start + (if negotiating {
                    all.take(fed)
                } else {
                    Seq::<SignalView>::empty()
                }),
            decreases signals.len(),
        {
            let ghost before = signals@;
            let s = signals.remove(0);
            proof {
                assert(signal_views(before)[0] == before[0]@);
                assert(all.skip(fed)[0] == all[fed]);
                assert(s@ == all[fed]);
                assert(signals@ == before.drop_first());
                assert(signal_views(before.drop_first()) == signal_views(before).drop_first());
                assert(all.skip(fed).drop_first() == all.skip(fed + 1));
                assert(signal_views(signals@) == all.skip(fed + 1));
                assert(all.take(fed + 1) == all.take(fed).push(all[fed]));
            }
            self.signaler.receive(s);
            proof {
                fed = fed + 1;
            }
        }
        proof {
            assert(all.take(all.len() as int) == all);
            assert(start + Seq::<SignalView>::empty() == start);
        }
    }

    /// Reads the server's reply, if it has arrived, and hands its answer and
    /// candidates to the client's peer; then returns the data channel once
    /// it is open. A reply that the request could not get, or that was not
    /// text, is returned as the error it is (a bad response); a failure of
    /// the peer is returned as the client's error. What was read is recorded
    /// in [`Client::replies`].
    pub fn finish_check(&mut self) -> (r: Result<Option<DataChannel>, CheckConnectionError>)
        ensures
            final(self).url() == old(self).url(),
            final(self).peer_setup() == old(self).peer_setup(),
            reply_failed(*old(self), *final(self)) ==> final(self).peer_checks() == old(self).peer_checks(),
            !reply_failed(*old(self), *final(self)) ==> final(self).peer_checks() == old(self).peer_checks().push(check_status(r)),
            final(self).requested() == old(self).requested(),
            final(self).emitted() == old(self).emitted(),
            !old(self).requested() ==> final(self).replies() == old(self).replies(),
            final(self).replies() == old(self).replies() || reply_read(
                old(self).replies(),
                final(self).replies(),
            ),
            final(self).replies() == old(self).replies() ==> final(self).forwarded() == old(self).forwarded(),
            reply_read(old(self).replies(), final(self).replies()) ==> reply_effect(*old(self), *final(self), r),
            r matches Err(CheckConnectionError::BadResponse) ==> reply_failed(*old(self), *final(self)),
            reply_failed(*old(self), *final(self)) ==> final(self).peer_reported() == old(self).peer_reported()
                && final(self).peer_reads() == old(self).peer_reads(),
            !reply_failed(*old(self), *final(self)) ==> final(self).peer_reads() == (if old(self).negotiating()
                && old(self).peer_reported() is None {
                old(self).peer_reads().push(final(self).peer_reported())
            } else {
                old(self).peer_reads()
            }),
            !reply_failed(*old(self), *final(self)) && old(self).negotiating() ==> (r is Err) == (
            final(self).peer_reported() is Some),
            !reply_failed(*old(self), *final(self)) ==> (r matches Err(e) ==> e
                == CheckConnectionError::WebRtcError(final(self).peer_reported()->0)),
            old(self).peer_reported() is Some ==> final(self).peer_reported() == old(self).peer_reported(),
            r matches Ok(Some(_)) ==> old(self).negotiating() && !final(self).negotiating(),
            !(r matches Ok(Some(_))) ==> final(self).negotiating() == old(self).negotiating(),
            (!old(self).requested() && !old(self).negotiating()) ==> r matches Ok(None),
    {
        let reply = match &self.http_response_receiver {
            Some(receiver) => try_receive(receiver),
            None => None,
        };
        match reply {
            Some(Ok(text)) => {
                proof {
                    let before = self.replies@;
                    self.replies@ = self.replies@.push(Ok(text@));
                    assert(self.replies@.drop_last() == before);
                }
                self.feed_reply(text.as_str());
            },
            Some(Err(e)) => {
                proof {
                    let before = self.replies@;
                    self.replies@ = self.replies@.push(Err(e));
                    assert(self.replies@.drop_last() == before);
                }
                return Err(e);
            },
            None => {},
        }
        match self.signaler.data_channel() {
            Ok(channel) => Ok(channel),
            Err(e) => Err(from_webrtc(e)),
        }
    }
}

} // verus!
