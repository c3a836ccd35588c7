//! The channels, locks and clocks that the handles of this library hold, and
//! the few operations on them that the library performs. What any of them
//! returns depends on other threads or on the time, so their contracts
//! state nothing of it.
use crate::types::Error;
use std::sync::Arc;
use vstd::prelude::*;

verus! {

/// `tokio::sync::mpsc::Receiver`, carried through as an opaque value.
#[verifier::external_type_specification]
#[verifier::external_body]
#[verifier::reject_recursive_types(T)]
pub struct ExAsyncReceiver<T>(tokio::sync::mpsc::Receiver<T>);

/// `tokio::sync::mpsc::Sender`, carried through as an opaque value.
#[verifier::external_type_specification]
#[verifier::external_body]
#[verifier::reject_recursive_types(T)]
pub struct ExAsyncSender<T>(tokio::sync::mpsc::Sender<T>);

/// `tokio::sync::RwLock`, carried through as an opaque value.
#[verifier::external_type_specification]
#[verifier::external_body]
#[verifier::reject_recursive_types(T)]
pub struct ExAsyncRwLock<T: ?Sized>(tokio::sync::RwLock<T>);

/// `std::sync::mpsc::Receiver`, carried through as an opaque value.
#[verifier::external_type_specification]
#[verifier::external_body]
#[verifier::reject_recursive_types(T)]
pub struct ExReceiver<T>(std::sync::mpsc::Receiver<T>);

/// `std::sync::mpsc::Sender`, carried through as an opaque value.
#[verifier::external_type_specification]
#[verifier::external_body]
#[verifier::reject_recursive_types(T)]
pub struct ExSender<T>(std::sync::mpsc::Sender<T>);

/// `std::time::Instant`, carried through as an opaque value.
#[verifier::external_type_specification]
#[verifier::external_body]
pub struct ExInstant(std::time::Instant);

/// The error slot that a peer's task and its handles share.
pub type ErrorSlot = Arc<tokio::sync::RwLock<Option<Error>>>;

/// Takes the next value queued in a `tokio::sync::mpsc::Receiver`, without
/// waiting (`try_recv`, with any error read as "nothing"). What it takes
/// depends on other threads: nothing is stated of it.
#[verifier::external_body]
pub(crate) fn async_try_receive<T>(receiver: &mut tokio::sync::mpsc::Receiver<T>) -> Option<T> {
    receiver.try_recv().ok()
}

/// The receiving end of a `tokio::sync::mpsc` queue, with every value taken
/// off it so far, oldest first. Values leave the queue only through
/// [`Inbox::take`], which records each of them.
#[verifier::reject_recursive_types(T)]
pub struct Inbox<T> {
    receiver: tokio::sync::mpsc::Receiver<T>,
    taken: Ghost<Seq<T>>,
}

/// The value an attempt to take from a queue took, as a sequence of zero
/// or one values.
pub open spec fn took<T>(r: Option<T>) -> Seq<T> {
    match r {
        Some(v) => seq![v],
        None => Seq::<T>::empty(),
    }
}

impl<T> Inbox<T> {
    /// The queue's receiving end.
    pub closed spec fn receiver(&self) -> tokio::sync::mpsc::Receiver<T> {
        self.receiver
    }

    /// The values taken off the queue so far, oldest first.
    pub closed spec fn taken(&self) -> Seq<T> {
        self.taken@
    }

    /// An inbox on `receiver`, from which nothing has been taken yet.
    pub fn new(receiver: tokio::sync::mpsc::Receiver<T>) -> (inbox: Inbox<T>)
        ensures
            inbox.receiver() == receiver,
            inbox.taken() == Seq::<T>::empty(),
    {
        Inbox { receiver, taken: Ghost(Seq::empty()) }
    }

    /// Takes the next value off the queue, if one is there, without
    /// waiting: at most one value leaves the queue, and it is the one
    /// returned.
    pub fn take(&mut self) -> (r: Option<T>)
        ensures
            final(self).taken() == old(self).taken() + took(r),
    {
        let r = async_try_receive(&mut self.receiver);
        proof {
            self.taken@ = self.taken@ + took(r);
        }
        r
    }
}

/// Queues `value` on a `tokio::sync::mpsc::Sender` from synchronous code:
/// `blocking_send` inside `tokio::task::block_in_place`, which waits while
/// the channel is full and drops the value if the receiver is gone. As with
/// `block_in_place`, it must not be called from a current-thread runtime.
/// It gives back a ghost copy of the value it handed to `blocking_send`.
#[verifier::external_body]
pub(crate) fn async_send_blocking<T>(sender: &tokio::sync::mpsc::Sender<T>, value: T) -> (handed: Ghost<T>)
    ensures
        handed@ == value,
{
    let handed = Ghost(value);
    tokio::task::block_in_place(|| {
        _ = sender.blocking_send(value);
    });
    handed
}

/// Reads the error slot from synchronous code: `blocking_read` inside
/// `tokio::task::block_in_place`. What it holds depends on the peer's task:
/// nothing is stated of it.
#[verifier::external_body]
pub(crate) fn read_error(slot: &ErrorSlot) -> Option<Error> {
    tokio::task::block_in_place(|| *slot.blocking_read())
}

/// Creates a `std::sync::mpsc` channel (`std::sync::mpsc::channel`).
#[verifier::external_body]
pub(crate) fn channel<T>() -> (std::sync::mpsc::Sender<T>, std::sync::mpsc::Receiver<T>) {
    std::sync::mpsc::channel()
}

/// Takes the next value queued in a `std::sync::mpsc::Receiver`, without
/// waiting (`try_recv`, with any error read as "nothing"). What it takes
/// depends on other threads: nothing is stated of it.
#[verifier::external_body]
pub(crate) fn try_receive<T>(receiver: &std::sync::mpsc::Receiver<T>) -> Option<T> {
    receiver.try_recv().ok()
}

/// The current instant (`std::time::Instant::now`).
#[verifier::external_body]
pub(crate) fn now() -> std::time::Instant {
    std::time::Instant::now()
}

/// The time elapsed since `instant` (`std::time::Instant::elapsed`). It
/// depends on the clock: nothing is stated of it.
#[verifier::external_body]
pub(crate) fn elapsed(instant: &std::time::Instant) -> core::time::Duration {
    instant.elapsed()
}

/// The whole milliseconds that `Duration::as_millis` counts in a duration.
/// It depends on the duration alone.
pub uninterp spec fn whole_millis(duration: core::time::Duration) -> u128;

/// The whole milliseconds in `duration` (`Duration::as_millis`): what
/// [`whole_millis`] names for it.
#[verifier::external_body]
pub(crate) fn millis(duration: &core::time::Duration) -> (r: u128)
    ensures
        r == whole_millis(*duration),
{
    duration.as_millis()
}

} // verus!
