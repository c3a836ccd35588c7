//! The handles that the application polls: a [`Signaler`] for the
//! negotiation of one peer connection, and the [`DataChannel`] it yields.
//! Both talk to the task that drives the peer connection through channels,
//! and read the error that the task recorded, if any.
use crate::runtime::{async_send_blocking, read_error, took, ErrorSlot, Inbox};
use crate::config::{Configuration, SignalerKind};
use crate::pool::PollStatus;
use crate::types::{Error, Signal, SignalView};
use vstd::prelude::*;

verus! {

/// An open data channel to the other peer.
pub struct DataChannel {
    error: ErrorSlot,
    message_sender: tokio::sync::mpsc::Sender<Vec<u8>>,
    message_inbox: Inbox<Vec<u8>>,
    sent: Ghost<Seq<Seq<u8>>>,
    reported: Option<Error>,
    reads: Ghost<Seq<Option<Error>>>,
}

impl DataChannel {
    /// A handle on a data channel that the peer's task opened: `error` is the
    /// task's error slot, `message_sender` queues the messages that the task
    /// sends to the other peer, and `message_receiver` yields the messages
    /// that arrive from it.
    pub fn from_parts(
        error: ErrorSlot,
        message_sender: tokio::sync::mpsc::Sender<Vec<u8>>,
        message_receiver: tokio::sync::mpsc::Receiver<Vec<u8>>,
    ) -> (c: DataChannel)
        ensures
            c.error_slot() == error,
            c.outgoing() == message_sender,
            c.incoming() == message_receiver,
            c.sent() == Seq::<Seq<u8>>::empty(),
            c.received() == Seq::<Seq<u8>>::empty(),
            c.reported() is None,
            c.slot_reads() == Seq::<Option<Error>>::empty(),
    {
        DataChannel {
            error,
            message_sender,
            message_inbox: Inbox::new(message_receiver),
            sent: Ghost(Seq::empty()),
            reported: None,
            reads: Ghost(Seq::empty()),
        }
    }

    /// The error that this channel reported, once it reported one; it reports
    /// the same error from then on.
    pub closed spec fn reported(&self) -> Option<Error> {
        self.reported
    }

    /// What each read of the error slot found, oldest first. The slot is
    /// read only while no error has been reported.
    pub closed spec fn slot_reads(&self) -> Seq<Option<Error>> {
        self.reads@
    }

    /// The error of the peer's task: the one reported before, or else the
    /// one the task recorded, if any, which is kept from then on.
    fn task_error(&mut self) -> (e: Option<Error>)
        ensures
            final(self).reported() == e,
            old(self).reported() is Some ==> e == old(self).reported(),
            final(self).slot_reads() == (if old(self).reported() is None {
                old(self).slot_reads().push(e)
            } else {
                old(self).slot_reads()
            }),
            final(self).error_slot() == old(self).error_slot(),
            final(self).outgoing() == old(self).outgoing(),
            final(self).incoming() == old(self).incoming(),
            final(self).sent() == old(self).sent(),
            final(self).received() == old(self).received(),
    {
        if self.reported.is_none() {
            let read = read_error(&self.error);
            proof {
                self.reads@ = self.reads@.push(read);
            }
            self.reported = read;
        }
        self.reported
    }

    /// The messages from the other peer taken off the queue they arrive
    /// on, in order; each of them was handed to the application.
    pub closed spec fn received(&self) -> Seq<Seq<u8>> {
        self.message_inbox.taken().map_values(|m: Vec<u8>| m@)
    }

    /// The error slot that this channel reads.
    pub closed spec fn error_slot(&self) -> ErrorSlot {
        self.error
    }

    /// The queue that takes the messages for the other peer.
    pub closed spec fn outgoing(&self) -> tokio::sync::mpsc::Sender<Vec<u8>> {
        self.message_sender
    }

    /// The queue that the messages from the other peer arrive on.
    pub closed spec fn incoming(&self) -> tokio::sync::mpsc::Receiver<Vec<u8>> {
        self.message_inbox.receiver()
    }

    /// The messages handed to the peer's task for sending, in order.
    pub closed spec fn sent(&self) -> Seq<Seq<u8>> {
        self.sent@
    }

    /// Queues `message` to be sent to the other peer; the message is lost if
    /// the peer's task has ended.
    pub fn send(&mut self, message: Vec<u8>)
        ensures
            final(self).error_slot() == old(self).error_slot(),
            final(self).outgoing() == old(self).outgoing(),
            final(self).incoming() == old(self).incoming(),
            final(self).sent() == old(self).sent().push(message@),
            final(self).slot_reads() == old(self).slot_reads(),
            final(self).received() == old(self).received(),
            final(self).reported() == old(self).reported(),
    {
        let handed = async_send_blocking(&self.message_sender, message);
        proof {
            self.sent@ = self.sent@.push(handed@@);
        }
    }

    /// The next message from the other peer, if one has arrived; an error
    /// that the peer's task recorded is returned in its place, and is
    /// returned by every later call.
    pub fn receive(&mut self) -> (r: Result<Option<Vec<u8>>, Error>)
        ensures
            message_checked(*old(self), *final(self), r),
            final(self).slot_reads() == (if old(self).reported() is None {
                old(self).slot_reads().push(final(self).reported())
            } else {
                old(self).slot_reads()
            }),
            final(self).error_slot() == old(self).error_slot(),
            final(self).outgoing() == old(self).outgoing(),
            r is Err ==> final(self).incoming() == old(self).incoming(),
            final(self).sent() == old(self).sent(),
            final(self).received() == (match r {
                Ok(Some(message)) => old(self).received().push(message@),
                _ => old(self).received(),
            }),
            final(self).reported() == (match r {
                Err(e) => Some(e),
                _ => old(self).reported(),
            }),
            old(self).reported() matches Some(e) ==> r == Err::<Option<Vec<u8>>, Error>(e),
    {
        if let Some(error) = self.task_error() {
            return Err(error);
        }
        let ghost before = self.message_inbox.taken();
        let message = self.message_inbox.take();
        proof {
            if message is Some {
                assert(self.message_inbox.taken().map_values(|m: Vec<u8>| m@) =~= before.map_values(
                    |m: Vec<u8>| m@,
                ).push(message->0@));
                assert(before.map_values(|m: Vec<u8>| m@).push(message->0@) =~= before.map_values(
                    |m: Vec<u8>| m@,
                ) + seq![message->0@]);
            } else {
                assert(self.message_inbox.taken() =~= before);
            }
        }
        Ok(message)
    }
}

/// Whether `after` and `r` are what a call of [`DataChannel::receive`] on
/// `before` may give: an error once reported is returned again and kept,
/// and an error returned is the one reported from then on.
pub open spec fn message_checked(
    before: DataChannel,
    after: DataChannel,
    r: Result<Option<Vec<u8>>, Error>,
) -> bool {
    &&& after.reported() == (match r {
        Err(e) => Some(e),
        _ => before.reported(),
    })
    &&& (before.reported() matches Some(e) ==> r == Err::<Option<Vec<u8>>, Error>(e))
    &&& after.received() == before.received() + message_returned(r)
}

/// The message a receive returned, as a sequence of zero or one messages.
pub open spec fn message_returned(r: Result<Option<Vec<u8>>, Error>) -> Seq<Seq<u8>> {
    match r {
        Ok(Some(m)) => seq![m@],
        _ => Seq::<Seq<u8>>::empty(),
    }
}

/// The messages that the receives among `calls` returned, in order.
pub open spec fn messages_returned(calls: Seq<Option<Result<Option<Vec<u8>>, Error>>>) -> Seq<Seq<u8>>
    decreases calls.len(),
{
    if calls.len() == 0 {
        Seq::<Seq<u8>>::empty()
    } else {
        messages_returned(calls.drop_last()) + match calls.last() {
            Some(r) => message_returned(r),
            None => Seq::<Seq<u8>>::empty(),
        }
    }
}

/// Messages arrive without loss and in order: over any run of calls on a
/// data channel, the messages taken off the queue they arrive on are
/// exactly those that the receives returned, in the order of the calls.
pub proof fn lemma_messages_received_in_order(
    states: Seq<DataChannel>,
    calls: Seq<Option<Result<Option<Vec<u8>>, Error>>>,
)
    requires
        states.len() == calls.len() + 1,
        forall|j: int| 0 <= j < calls.len() ==> #[trigger] message_call(states[j], states[j + 1], calls[j]),
    ensures
        states.last().received() == states[0].received() + messages_returned(calls),
    decreases calls.len(),
{
    if calls.len() == 0 {
        assert(states[0].received() + Seq::<Seq<u8>>::empty() =~= states[0].received());
    } else {
        let k = calls.len() - 1;
        let fewer = states.drop_last();
        assert forall|j: int| 0 <= j < calls.drop_last().len() implies #[trigger] message_call(
            fewer[j],
            fewer[j + 1],
            calls.drop_last()[j],
        ) by {
            assert(message_call(states[j], states[j + 1], calls[j]));
        }
        lemma_messages_received_in_order(fewer, calls.drop_last());
        assert(message_call(states[k], states[k + 1], calls[k]));
        match calls[k] {
            Some(r) => {
                assert(states[0].received() + messages_returned(calls) =~= states[0].received()
                    + messages_returned(calls.drop_last()) + message_returned(r));
            },
            None => {
                assert(states[0].received() + messages_returned(calls) =~= states[0].received()
                    + messages_returned(calls.drop_last()));
            },
        }
    }
}

/// Whether `after` follows `before` by one call on a data channel: a
/// receive that gave `r` when `call` is `Some(r)`, a send when it is `None`.
pub open spec fn message_call(
    before: DataChannel,
    after: DataChannel,
    call: Option<Result<Option<Vec<u8>>, Error>>,
) -> bool {
    match call {
        Some(r) => message_checked(before, after, r),
        None => after.reported() == before.reported() && after.received() == before.received(),
    }
}

/// After the calls before index `i`, a data channel that returned `e` at
/// call `a` (before `i`) still reports `e`.
proof fn lemma_message_error_held(
    states: Seq<DataChannel>,
    calls: Seq<Option<Result<Option<Vec<u8>>, Error>>>,
    a: int,
    i: int,
    e: Error,
)
    requires
        states.len() == calls.len() + 1,
        forall|j: int| 0 <= j < calls.len() ==> #[trigger] message_call(states[j], states[j + 1], calls[j]),
        0 <= a < i <= calls.len(),
        calls[a] == Some(Err::<Option<Vec<u8>>, Error>(e)),
    ensures
        states[i].reported() == Some(e),
    decreases i,
{
    let j = i - 1;
    assert(message_call(states[j], states[j + 1], calls[j]));
    if j > a {
        lemma_message_error_held(states, calls, a, j, e);
    }
}

/// Once a data channel returned an error, every later receive returns that
/// same error, and none a message, whatever is sent in between.
pub proof fn lemma_message_error_kept(
    states: Seq<DataChannel>,
    calls: Seq<Option<Result<Option<Vec<u8>>, Error>>>,
    a: int,
    b: int,
    e: Error,
)
    requires
        states.len() == calls.len() + 1,
        forall|j: int| 0 <= j < calls.len() ==> #[trigger] message_call(states[j], states[j + 1], calls[j]),
        0 <= a < b < calls.len(),
        calls[a] == Some(Err::<Option<Vec<u8>>, Error>(e)),
        calls[b] is Some,
    ensures
        calls[b] == Some(Err::<Option<Vec<u8>>, Error>(e)),
{
    lemma_message_error_held(states, calls, a, b, e);
    assert(message_call(states[b], states[b + 1], calls[b]));
}

/// The negotiation of one peer connection, seen from the application: the
/// signals that the peer sends to the other peer come out of it, the signals
/// from the other peer go into it, and once connected it yields a
/// [`DataChannel`].
pub struct Signaler {
    error: ErrorSlot,
    signal_inbox: Inbox<Signal>,
    signal_sender: Option<tokio::sync::mpsc::Sender<Signal>>,
    channel_inbox: Inbox<DataChannel>,
    forwarded: Ghost<Seq<SignalView>>,
    kind: SignalerKind,
    configuration: Ghost<Configuration>,
    checks: Ghost<Seq<PollStatus>>,
    reported: Option<Error>,
    reads: Ghost<Seq<Option<Error>>>,
}

/// Whether `after` is `before` handed the signal `signal` from the other
/// peer: the signal joins those forwarded to the peer's task while the
/// negotiation is on, and nothing else changes.
pub open spec fn took_signal(before: Signaler, after: Signaler, signal: SignalView) -> bool {
    &&& after.is_negotiating() == before.is_negotiating()
    &&& after.error_slot() == before.error_slot()
    &&& after.emitted() == before.emitted()
    &&& after.checks() == before.checks()
    &&& after.reported() == before.reported()
    &&& after.setup() == before.setup()
    &&& after.forwarded() == (if before.is_negotiating() {
        before.forwarded().push(signal)
    } else {
        before.forwarded()
    })
}

/// Signals handed to a negotiating peer one call after the other reach its
/// task in the order of the calls, each once: after the calls, the
/// forwarded signals are those from before followed by the new ones.
pub proof fn lemma_signals_forwarded_in_order(states: Seq<Signaler>, signals: Seq<SignalView>)
    requires
        states.len() == signals.len() + 1,
        states[0].is_negotiating(),
        forall|i: int| 0 <= i < signals.len() ==> #[trigger] took_signal(states[i], states[i + 1], signals[i]),
    ensures
        states.last().forwarded() == states[0].forwarded() + signals,
    decreases signals.len(),
{
    if signals.len() == 0 {
        assert(states[0].forwarded() + signals =~= states[0].forwarded());
    } else {
        let k = signals.len() - 1;
        let fewer = states.drop_last();
        assert forall|i: int| 0 <= i < signals.drop_last().len() implies #[trigger] took_signal(
            fewer[i],
            fewer[i + 1],
            signals.drop_last()[i],
        ) by {
            assert(took_signal(states[i], states[i + 1], signals[i]));
        }
        lemma_signals_forwarded_in_order(fewer, signals.drop_last());
        assert(took_signal(states[k], states[k + 1], signals[k]));
        lemma_negotiating_kept(states, signals, k);
        assert(states[0].forwarded() + signals =~= (states[0].forwarded() + signals.drop_last()).push(
            signals[k],
        ));
    }
}

/// Handing signals over keeps a peer negotiating.
proof fn lemma_negotiating_kept(states: Seq<Signaler>, signals: Seq<SignalView>, k: int)
    requires
        states.len() == signals.len() + 1,
        states[0].is_negotiating(),
        forall|i: int| 0 <= i < signals.len() ==> #[trigger] took_signal(states[i], states[i + 1], signals[i]),
        0 <= k <= signals.len(),
    ensures
        states[k].is_negotiating(),
    decreases k,
{
    if k > 0 {
        lemma_negotiating_kept(states, signals, k - 1);
        assert(took_signal(states[k - 1], states[k - 1 + 1], signals[k - 1]));
    }
}

/// The signal a call of `signal` returned, as a sequence of zero or one
/// signals.
pub open spec fn signal_returned(r: Result<Option<Signal>, Error>) -> Seq<SignalView> {
    match r {
        Ok(Some(s)) => seq![s@],
        _ => Seq::<SignalView>::empty(),
    }
}

/// Whether `after` and `r` are what a call of [`Signaler::signal`] on
/// `before` may give as far as the peer's signals go: at most one signal is
/// taken off their queue, and it is the one returned.
pub open spec fn signal_taken(before: Signaler, after: Signaler, r: Result<Option<Signal>, Error>) -> bool {
    after.emitted() == before.emitted() + signal_returned(r)
}

/// Whether `after` follows `before` by one call on a signaler, as far as
/// the peer's signals go: a call of `signal` that gave `r` when `call` is
/// `Some(r)`, a call of `receive` or `data_channel` when it is `None`.
pub open spec fn signal_call(
    before: Signaler,
    after: Signaler,
    call: Option<Result<Option<Signal>, Error>>,
) -> bool {
    match call {
        Some(r) => signal_taken(before, after, r),
        None => after.emitted() == before.emitted(),
    }
}

/// The signals that the calls of `signal` among `calls` returned, in order.
pub open spec fn signals_returned(calls: Seq<Option<Result<Option<Signal>, Error>>>) -> Seq<SignalView>
    decreases calls.len(),
{
    if calls.len() == 0 {
        Seq::<SignalView>::empty()
    } else {
        signals_returned(calls.drop_last()) + match calls.last() {
            Some(r) => signal_returned(r),
            None => Seq::<SignalView>::empty(),
        }
    }
}

/// The peer's signals reach the application without loss and in order:
/// over any run of calls on a signaler, the signals taken off the queue
/// they arrive on are exactly those that the calls of `signal` returned, in
/// the order of the calls.
pub proof fn lemma_signals_emitted_in_order(
    states: Seq<Signaler>,
    calls: Seq<Option<Result<Option<Signal>, Error>>>,
)
    requires
        states.len() == calls.len() + 1,
        forall|j: int| 0 <= j < calls.len() ==> #[trigger] signal_call(states[j], states[j + 1], calls[j]),
    ensures
        states.last().emitted() == states[0].emitted() + signals_returned(calls),
    decreases calls.len(),
{
    if calls.len() == 0 {
        assert(states[0].emitted() + Seq::<SignalView>::empty() =~= states[0].emitted());
    } else {
        let k = calls.len() - 1;
        let fewer = states.drop_last();
        assert forall|j: int| 0 <= j < calls.drop_last().len() implies #[trigger] signal_call(
            fewer[j],
            fewer[j + 1],
            calls.drop_last()[j],
        ) by {
            assert(signal_call(states[j], states[j + 1], calls[j]));
        }
        lemma_signals_emitted_in_order(fewer, calls.drop_last());
        assert(signal_call(states[k], states[k + 1], calls[k]));
        match calls[k] {
            Some(r) => {
                assert(states[0].emitted() + signals_returned(calls) =~= states[0].emitted()
                    + signals_returned(calls.drop_last()) + signal_returned(r));
            },
            None => {
                assert(states[0].emitted() + signals_returned(calls) =~= states[0].emitted()
                    + signals_returned(calls.drop_last()));
            },
        }
    }
}

/// Whether `after` follows `before` by a call of [`Signaler::signal`] or
/// [`Signaler::receive`]: a reported error is kept, and whether the
/// negotiation is on does not change.
pub open spec fn handle_step(before: Signaler, after: Signaler) -> bool {
    &&& (before.reported() is Some ==> after.reported() == before.reported())
    &&& after.is_negotiating() == before.is_negotiating()
}

/// Whether `after` and `r` are what a call of [`Signaler::data_channel`] on
/// `before` may give: nothing once the negotiation is over; while it is on,
/// the reported error, if any; the negotiation ends exactly when a channel
/// is handed out; an error returned is the one reported from then on.
pub open spec fn channel_checked(
    before: Signaler,
    after: Signaler,
    r: Result<Option<DataChannel>, Error>,
) -> bool {
    &&& after.reported() == (match r {
        Err(e) => Some(e),
        _ => before.reported(),
    })
    &&& ((before.is_negotiating() && before.reported() is Some) ==> r == Err::<
        Option<DataChannel>,
        Error,
    >(before.reported()->0))
    &&& (!before.is_negotiating() ==> r matches Ok(None))
    &&& (!before.is_negotiating() ==> !after.is_negotiating())
    &&& (r matches Ok(Some(_)) ==> before.is_negotiating() && !after.is_negotiating())
    &&& (!(r matches Ok(Some(_))) ==> after.is_negotiating() == before.is_negotiating())
}

/// Whether `after` follows `before` by one call on a signaler: a check for
/// the data channel that gave `r` when `call` is `Some(r)`, a call of
/// `signal` or `receive` when it is `None`.
pub open spec fn channel_call(
    before: Signaler,
    after: Signaler,
    call: Option<Result<Option<DataChannel>, Error>>,
) -> bool {
    match call {
        Some(r) => channel_checked(before, after, r),
        None => handle_step(before, after),
    }
}

/// After a check for the data channel handed one out, the negotiation stays
/// over.
proof fn lemma_negotiation_stays_over(
    states: Seq<Signaler>,
    calls: Seq<Option<Result<Option<DataChannel>, Error>>>,
    a: int,
    i: int,
)
    requires
        states.len() == calls.len() + 1,
        forall|j: int| 0 <= j < calls.len() ==> #[trigger] channel_call(states[j], states[j + 1], calls[j]),
        0 <= a < i <= calls.len(),
        calls[a] matches Some(Ok(Some(_))),
    ensures
        !states[i].is_negotiating(),
    decreases i,
{
    let j = i - 1;
    assert(channel_call(states[j], states[j + 1], calls[j]));
    if j > a {
        lemma_negotiation_stays_over(states, calls, a, j);
    }
}

/// A signaler hands out at most one data channel: once a check handed one
/// out, every later check gives nothing, whatever happens in between
/// (signals, or an error recorded afterwards).
pub proof fn lemma_channel_handed_once(
    states: Seq<Signaler>,
    calls: Seq<Option<Result<Option<DataChannel>, Error>>>,
    a: int,
    b: int,
)
    requires
        states.len() == calls.len() + 1,
        forall|j: int| 0 <= j < calls.len() ==> #[trigger] channel_call(states[j], states[j + 1], calls[j]),
        0 <= a < b < calls.len(),
        calls[a] matches Some(Ok(Some(_))),
        calls[b] is Some,
    ensures
        calls[b] matches Some(Ok(None)),
{
    lemma_negotiation_stays_over(states, calls, a, b);
    assert(channel_call(states[b], states[b + 1], calls[b]));
}

/// After a check for the data channel returned `e` at call `a` (before
/// `i`), the negotiation is still on and `e` is still reported.
proof fn lemma_channel_error_held(
    states: Seq<Signaler>,
    calls: Seq<Option<Result<Option<DataChannel>, Error>>>,
    a: int,
    i: int,
    e: Error,
)
    requires
        states.len() == calls.len() + 1,
        forall|j: int| 0 <= j < calls.len() ==> #[trigger] channel_call(states[j], states[j + 1], calls[j]),
        0 <= a < i <= calls.len(),
        calls[a] == Some(Err::<Option<DataChannel>, Error>(e)),
    ensures
        states[i].reported() == Some(e),
        states[i].is_negotiating(),
    decreases i,
{
    let j = i - 1;
    assert(channel_call(states[j], states[j + 1], calls[j]));
    if j > a {
        lemma_channel_error_held(states, calls, a, j, e);
    }
}

/// The first error a check for the data channel returned is kept: every
/// later check returns that same error, whatever happens in between.
pub proof fn lemma_channel_error_kept(
    states: Seq<Signaler>,
    calls: Seq<Option<Result<Option<DataChannel>, Error>>>,
    a: int,
    b: int,
    e: Error,
)
    requires
        states.len() == calls.len() + 1,
        forall|j: int| 0 <= j < calls.len() ==> #[trigger] channel_call(states[j], states[j + 1], calls[j]),
        0 <= a < b < calls.len(),
        calls[a] == Some(Err::<Option<DataChannel>, Error>(e)),
        calls[b] is Some,
    ensures
        calls[b] == Some(Err::<Option<DataChannel>, Error>(e)),
{
    lemma_channel_error_held(states, calls, a, b, e);
    assert(channel_call(states[b], states[b + 1], calls[b]));
}

/// What a check for the data channel gave: ready when the channel came,
/// pending when nothing came, failed on an error.
pub open spec fn check_status<E>(r: Result<Option<DataChannel>, E>) -> PollStatus {
    match r {
        Ok(Some(_)) => PollStatus::Ready,
        Ok(None) => PollStatus::Pending,
        Err(_) => PollStatus::Failed,
    }
}

impl Signaler {
    /// A handle on the task of a peer of kind `kind` set up with
    /// `configuration`: `error` is the task's error slot, `signal_receiver`
    /// yields the signals the task produces, `signal_sender` takes the
    /// signals meant for the task, and `channel_receiver` yields the data
    /// channel once it is open.
    pub fn from_parts(
        kind: SignalerKind,
        configuration: &Configuration,
        error: ErrorSlot,
        signal_receiver: tokio::sync::mpsc::Receiver<Signal>,
        signal_sender: tokio::sync::mpsc::Sender<Signal>,
        channel_receiver: tokio::sync::mpsc::Receiver<DataChannel>,
    ) -> (s: Signaler)
        ensures
            s.is_negotiating(),
            s.error_slot() == error,
            s.signal_source() == signal_receiver,
            s.signal_sink() == Some(signal_sender),
            s.channel_source() == channel_receiver,
            s.forwarded() == Seq::<SignalView>::empty(),
            s.emitted() == Seq::<SignalView>::empty(),
            s.channels_taken() == Seq::<DataChannel>::empty(),
            s.setup() == (kind, *configuration),
            s.checks() == Seq::<PollStatus>::empty(),
            s.reported() is None,
            s.slot_reads() == Seq::<Option<Error>>::empty(),
    {
        Signaler {
            checks: Ghost(Seq::empty()),
            reported: None,
            reads: Ghost(Seq::empty()),
            kind,
            configuration: Ghost(*configuration),
            error,
            signal_inbox: Inbox::new(signal_receiver),
            signal_sender: Some(signal_sender),
            channel_inbox: Inbox::new(channel_receiver),
            forwarded: Ghost(Seq::empty()),
        }
    }

    /// The kind of the peer and the configuration it was set up with.
    pub closed spec fn setup(&self) -> (SignalerKind, Configuration) {
        (self.kind, self.configuration@)
    }

    /// The error that this handle reported, once it reported one; it reports
    /// the same error from then on.
    pub closed spec fn reported(&self) -> Option<Error> {
        self.reported
    }

    /// What each read of the error slot found, oldest first. The slot is
    /// read only while no error has been reported.
    pub closed spec fn slot_reads(&self) -> Seq<Option<Error>> {
        self.reads@
    }

    /// The error of the peer's task: the one reported before, or else the
    /// one the task recorded, if any, which is kept from then on.
    fn task_error(&mut self) -> (e: Option<Error>)
        ensures
            final(self).reported() == e,
            old(self).reported() is Some ==> e == old(self).reported(),
            final(self).slot_reads() == (if old(self).reported() is None {
                old(self).slot_reads().push(e)
            } else {
                old(self).slot_reads()
            }),
            final(self).error_slot() == old(self).error_slot(),
            final(self).signal_source() == old(self).signal_source(),
            final(self).signal_sink() == old(self).signal_sink(),
            final(self).channel_source() == old(self).channel_source(),
            final(self).is_negotiating() == old(self).is_negotiating(),
            final(self).setup() == old(self).setup(),
            final(self).checks() == old(self).checks(),
            final(self).forwarded() == old(self).forwarded(),
            final(self).emitted() == old(self).emitted(),
            final(self).channels_taken() == old(self).channels_taken(),
    {
        if self.reported.is_none() {
            let read = read_error(&self.error);
            proof {
                self.reads@ = self.reads@.push(read);
            }
            self.reported = read;
        }
        self.reported
    }

    /// What each check for the data channel gave, oldest first.
    pub closed spec fn checks(&self) -> Seq<PollStatus> {
        self.checks@
    }

    /// The kind of the peer: which side of the negotiation it plays.
    pub fn kind(&self) -> (k: SignalerKind)
        ensures
            k == self.setup().0,
    {
        self.kind
    }

    /// The signals of the peer taken off the queue they arrive on, in
    /// order; each of them was handed to the application, to be delivered
    /// to the other peer.
    pub closed spec fn emitted(&self) -> Seq<SignalView> {
        self.signal_inbox.taken().map_values(|s: Signal| s@)
    }

    /// The signals from the other peer that were handed to the peer's task,
    /// in order.
    pub closed spec fn forwarded(&self) -> Seq<SignalView> {
        self.forwarded@
    }

    /// Whether the negotiation is still on: no data channel has been handed
    /// out yet.
    pub closed spec fn is_negotiating(&self) -> bool {
        self.signal_sender is Some
    }

    /// The error slot that this handle reads.
    pub closed spec fn error_slot(&self) -> ErrorSlot {
        self.error
    }

    /// The queue that the peer's signals for the other peer arrive on.
    pub closed spec fn signal_source(&self) -> tokio::sync::mpsc::Receiver<Signal> {
        self.signal_inbox.receiver()
    }

    /// The queue that takes the signals from the other peer, while the
    /// negotiation is on.
    pub closed spec fn signal_sink(&self) -> Option<tokio::sync::mpsc::Sender<Signal>> {
        self.signal_sender
    }

    /// The queue that the data channel arrives on once it is open.
    pub closed spec fn channel_source(&self) -> tokio::sync::mpsc::Receiver<DataChannel> {
        self.channel_inbox.receiver()
    }

    /// The data channels taken off the queue they arrive on, in order; each
    /// of them was handed to the application.
    pub closed spec fn channels_taken(&self) -> Seq<DataChannel> {
        self.channel_inbox.taken()
    }

    /// The next signal that the peer wants delivered to the other peer, if
    /// one is ready; an error that the peer's task recorded is returned in
    /// its place, and is returned by every later call.
    pub fn signal(&mut self) -> (r: Result<Option<Signal>, Error>)
        ensures
            handle_step(*old(self), *final(self)),
            signal_taken(*old(self), *final(self), r),
            final(self).channels_taken() == old(self).channels_taken(),
            (r is Err) == (final(self).reported() is Some),
            final(self).slot_reads() == (if old(self).reported() is None {
                old(self).slot_reads().push(final(self).reported())
            } else {
                old(self).slot_reads()
            }),
            final(self).is_negotiating() == old(self).is_negotiating(),
            final(self).error_slot() == old(self).error_slot(),
            final(self).signal_sink() == old(self).signal_sink(),
            final(self).channel_source() == old(self).channel_source(),
            r is Err ==> final(self).signal_source() == old(self).signal_source(),
            final(self).setup() == old(self).setup(),
            final(self).checks() == old(self).checks(),
            final(self).forwarded() == old(self).forwarded(),
            final(self).emitted() == (match r {
                Ok(Some(signal)) => old(self).emitted().push(signal@),
                _ => old(self).emitted(),
            }),
            final(self).reported() == (match r {
                Err(e) => Some(e),
                _ => old(self).reported(),
            }),
            old(self).reported() matches Some(e) ==> r == Err::<Option<Signal>, Error>(e),
    {
        if let Some(error) = self.task_error() {
            return Err(error);
        }
        let ghost before = self.signal_inbox.taken();
        let signal = self.signal_inbox.take();
        proof {
            if signal is Some {
                assert(self.signal_inbox.taken().map_values(|s: Signal| s@) =~= before.map_values(
                    |s: Signal| s@,
                ).push(signal->0@));
                assert(before.map_values(|s: Signal| s@).push(signal->0@) =~= before.map_values(
                    |s: Signal| s@,
                ) + seq![signal->0@]);
            } else {
                assert(self.signal_inbox.taken() =~= before);
            }
        }
        Ok(signal)
    }

    /// Hands the peer a signal from the other peer. Once the data channel
    /// has been handed out, signals are no longer taken.
    pub fn receive(&mut self, signal: Signal)
        ensures
            took_signal(*old(self), *final(self), signal@),
            handle_step(*old(self), *final(self)),
            final(self).channels_taken() == old(self).channels_taken(),
            final(self).slot_reads() == old(self).slot_reads(),
            final(self).is_negotiating() == old(self).is_negotiating(),
            final(self).error_slot() == old(self).error_slot(),
            final(self).signal_source() == old(self).signal_source(),
            final(self).signal_sink() == old(self).signal_sink(),
            final(self).channel_source() == old(self).channel_source(),
            final(self).emitted() == old(self).emitted(),
            final(self).setup() == old(self).setup(),
            final(self).checks() == old(self).checks(),
            final(self).reported() == old(self).reported(),
            final(self).forwarded() == (if old(self).is_negotiating() {
                old(self).forwarded().push(signal@)
            } else {
                old(self).forwarded()
            }),
    {
        if let Some(signal_sender) = &self.signal_sender {
            let handed = async_send_blocking(signal_sender, signal);
            proof {
                self.forwarded@ = self.forwarded@.push(handed@@);
            }
        }
    }

    /// The data channel, once it is open. It is handed out once: after
    /// that, and after the negotiation ended, this returns `Ok(None)`. An
    /// error that the peer's task recorded during the negotiation is
    /// returned in its place, and is returned by every later call while the
    /// negotiation is on. What each call gave is recorded in
    /// [`Signaler::checks`].
    pub fn data_channel(&mut self) -> (r: Result<Option<DataChannel>, Error>)
        ensures
            channel_checked(*old(self), *final(self), r),
            final(self).channels_taken() == (match r {
                Ok(Some(c)) => old(self).channels_taken().push(c),
                _ => old(self).channels_taken(),
            }),
            old(self).is_negotiating() ==> (r is Err) == (final(self).reported() is Some),
            final(self).slot_reads() == (if old(self).is_negotiating() && old(self).reported() is None {
                old(self).slot_reads().push(final(self).reported())
            } else {
                old(self).slot_reads()
            }),
            final(self).error_slot() == old(self).error_slot(),
            final(self).signal_source() == old(self).signal_source(),
            final(self).signal_sink() == (if r matches Ok(Some(_)) {
                None
            } else {
                old(self).signal_sink()
            }),
            (r is Err || !old(self).is_negotiating()) ==> final(self).channel_source()
                == old(self).channel_source(),
            final(self).forwarded() == old(self).forwarded(),
            final(self).emitted() == old(self).emitted(),
            final(self).setup() == old(self).setup(),
            final(self).checks() == old(self).checks().push(check_status(r)),
            final(self).reported() == (match r {
                Err(e) => Some(e),
                _ => old(self).reported(),
            }),
            (old(self).is_negotiating() && old(self).reported() is Some) ==> r == Err::<
                Option<DataChannel>,
                Error,
            >(old(self).reported()->0),
            !old(self).is_negotiating() ==> r matches Ok(None),
            !old(self).is_negotiating() ==> !final(self).is_negotiating(),
            r matches Ok(Some(_)) ==> old(self).is_negotiating() && !final(self).is_negotiating(),
            !(r matches Ok(Some(_))) ==> final(self).is_negotiating() == old(self).is_negotiating(),
    {
        let r = if self.signal_sender.is_none() {
            Ok(None)
        } else if let Some(error) = self.task_error() {
            Err(error)
        } else {
            let ghost before = self.channel_inbox.taken();
            match self.channel_inbox.take() {
                Some(data_channel) => {
                    self.signal_sender = None;
                    proof {
                        assert(self.channel_inbox.taken() =~= before.push(data_channel));
                    }
                    Ok(Some(data_channel))
                },
                None => {
                    proof {
                        assert(self.channel_inbox.taken() =~= before);
                    }
                    Ok(None)
                },
            }
        };
        proof {
            self.checks@ = self.checks@.push(check_status(r));
        }
        r
    }
}

} // verus!
