//! How a peer connection is set up: the ICE servers it asks for its public
//! address, which side of the negotiation it plays, and what kind of data
//! channel the offering side opens.
use crate::negotiation::Role;
use crate::settings::{DATA_CHANNEL_MAX_RETRANSMITS, DATA_CHANNEL_ORDERED, STUN_SERVER_URL};
use vstd::prelude::*;

verus! {

/// A STUN or TURN server, with the credentials it asks for (empty for STUN).
#[derive(Debug, Clone)]
pub struct IceServer {
    pub urls: Vec<String>,
    pub username: String,
    pub credential: String,
}

impl Default for IceServer {
    /// A server with no address and no credentials.
    fn default() -> (s: IceServer)
        ensures
            s.urls@.len() == 0,
            s.username@.len() == 0,
            s.credential@.len() == 0,
    {
        IceServer { urls: Vec::new(), username: String::new(), credential: String::new() }
    }
}

/// How a peer connection is set up.
#[derive(Debug, Clone)]
pub struct Configuration {
    /// The servers that the peer asks for its public address, in order.
    pub ice_servers: Vec<IceServer>,
}

impl Default for Configuration {
    /// A configuration with no ICE server.
    fn default() -> (c: Configuration)
        ensures
            c.ice_servers@.len() == 0,
    {
        Configuration { ice_servers: Vec::new() }
    }
}

/// The configuration a peer uses when none is given: one STUN server,
/// [`STUN_SERVER_URL`], with no credentials.
pub fn standard_configuration() -> (c: Configuration)
    ensures
        c.ice_servers@.len() == 1,
        c.ice_servers@[0].urls@.len() == 1,
        c.ice_servers@[0].urls@[0]@ == STUN_SERVER_URL@,
        c.ice_servers@[0].username@.len() == 0,
        c.ice_servers@[0].credential@.len() == 0,
{
    let mut urls: Vec<String> = Vec::new();
    urls.push(STUN_SERVER_URL.to_owned());
    let mut ice_servers: Vec<IceServer> = Vec::new();
    ice_servers.push(IceServer { urls, username: String::new(), credential: String::new() });
    Configuration { ice_servers }
}

/// What kind of data channel the offering peer opens.
#[derive(Debug, Clone, Copy, PartialEq, Eq, Structural)]
pub enum DataChannelConfiguration {
    /// Every message arrives, in the order it was sent.
    Reliable,
    /// Messages may arrive out of order, or not at all: none is resent.
    Unreliable,
}

/// Whether a data channel of this kind delivers in order, and how many times
/// it resends a message (`None`: until it arrives).
pub open spec fn spec_data_channel_options(c: DataChannelConfiguration) -> (bool, Option<u16>) {
    match c {
        DataChannelConfiguration::Reliable => (true, None),
        DataChannelConfiguration::Unreliable => (DATA_CHANNEL_ORDERED, Some(DATA_CHANNEL_MAX_RETRANSMITS)),
    }
}

/// Whether a data channel of this kind delivers in order, and how many times
/// it resends a message (`None`: until it arrives).
pub fn data_channel_options(c: DataChannelConfiguration) -> (r: (bool, Option<u16>))
    ensures
        r == spec_data_channel_options(c),
{
    match c {
        DataChannelConfiguration::Reliable => (true, None),
        DataChannelConfiguration::Unreliable => (DATA_CHANNEL_ORDERED, Some(DATA_CHANNEL_MAX_RETRANSMITS)),
    }
}

/// Which side of the negotiation a peer plays, and, for the offering side,
/// the data channel it opens.
#[derive(Debug, Clone, Copy, PartialEq, Eq, Structural)]
pub enum SignalerKind {
    /// Opens a data channel of this kind and sends the offer.
    Offer { data_channel_configuration: DataChannelConfiguration },
    /// Waits for an offer and answers it.
    Answer,
}

/// The role that a peer of this kind plays in the negotiation.
pub open spec fn spec_role_of(kind: SignalerKind) -> Role {
    match kind {
        SignalerKind::Offer { .. } => Role::Offerer,
        SignalerKind::Answer => Role::Answerer,
    }
}

/// The role that a peer of this kind plays in the negotiation.
pub fn role_of(kind: SignalerKind) -> (r: Role)
    ensures
        r == spec_role_of(kind),
{
    match kind {
        SignalerKind::Offer { .. } => Role::Offerer,
        SignalerKind::Answer => Role::Answerer,
    }
}

/// The kind of peer that `offer` asks for when no more is said: an offering
/// peer opens an unreliable channel.
pub fn kind_for(offer: bool) -> (k: SignalerKind)
    ensures
        k == (if offer {
            SignalerKind::Offer { data_channel_configuration: DataChannelConfiguration::Unreliable }
        } else {
            SignalerKind::Answer
        }),
{
    if offer {
        SignalerKind::Offer { data_channel_configuration: DataChannelConfiguration::Unreliable }
    } else {
        SignalerKind::Answer
    }
}

/// A peer of an offering kind is the offerer, whatever data channel it
/// opens, and a peer of the answering kind is the answerer.
pub proof fn lemma_kind_decides_role(c: DataChannelConfiguration)
    ensures
        spec_role_of(SignalerKind::Offer { data_channel_configuration: c }) == Role::Offerer,
        spec_role_of(SignalerKind::Answer) == Role::Answerer,
{
}

/// A reliable channel delivers every message, in order; an unreliable one
/// gives up order and never resends.
pub proof fn lemma_channel_options(c: DataChannelConfiguration)
    ensures
        c == DataChannelConfiguration::Reliable ==> spec_data_channel_options(c) == (true, None::<u16>),
        c == DataChannelConfiguration::Unreliable ==> spec_data_channel_options(c) == (false, Some(0u16)),
{
}

} // verus!
