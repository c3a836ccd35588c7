//! The fixed choices of this library: where peers learn their public
//! address, what kind of data channel they open, and how often and how much
//! they queue.
use vstd::prelude::*;

verus! {

/// The STUN server through which a peer learns its public address.
pub const STUN_SERVER_URL: &'static str = "stun:stun.l.google.com:19302";

/// The label of the data channel that the offering peer opens.
pub const DATA_CHANNEL_LABEL: &'static str = "data";

/// Whether the data channel delivers messages in the order they were sent:
/// it does not, so that a lost message never holds up the ones after it.
pub const DATA_CHANNEL_ORDERED: bool = false;

/// How many times the data channel resends a message that was not
/// acknowledged: never, so that messages arrive late or not at all.
pub const DATA_CHANNEL_MAX_RETRANSMITS: u16 = 0;

/// How many signals, channels or messages a queue between the application
/// and a peer's task holds before a sender waits.
pub const QUEUE_CAPACITY: usize = 100;

/// How long, in milliseconds, the server waits before polling an answering
/// peer again.
pub const POLL_INTERVAL_MILLIS: u64 = 1;

} // verus!
