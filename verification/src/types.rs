use vstd::prelude::*;

verus! {

/// A message exchanged between two peers while they negotiate a connection.
pub enum Signal {
    /// The session description of the peer that opens the data channel.
    Offer(String),
    /// The session description of the peer that accepts it.
    Answer(String),
    /// One ICE candidate; `None` marks the end of the candidates.
    IceCandidate(Option<String>),
}

/// The mathematical view of a [`Signal`]: its strings as character sequences.
pub enum SignalView {
    Offer(Seq<char>),
    Answer(Seq<char>),
    IceCandidate(Option<Seq<char>>),
}

impl View for Signal {
    type V = SignalView;

    open spec fn view(&self) -> SignalView {
        match self {
            Signal::Offer(s) => SignalView::Offer(s@),
            Signal::Answer(s) => SignalView::Answer(s@),
            Signal::IceCandidate(Some(s)) => SignalView::IceCandidate(Some(s@)),
            Signal::IceCandidate(None) => SignalView::IceCandidate(None),
        }
    }
}

/// What can go wrong while a peer connection is set up or used.
#[derive(Debug, Clone, Copy, PartialEq, Eq, Structural)]
pub enum Error {
    FailedToStartRuntime,
    FailedToCreatePeer,
    FailedToCreateDataChannel,
    FailedToCreateOffer,
    FailedToCreateOfferDescription,
    FailedToCreateAnswer,
    FailedToCreateAnswerDescription,
    FailedToSetLocalDescription,
    FailedToSetRemoteDescription,
    FailedToAddIceCandidate,
    Disconnected,
}

/// The name of an error variant, as its `Debug` form prints it.
pub open spec fn error_name(e: Error) -> Seq<char> {
    match e {
        Error::FailedToStartRuntime => "FailedToStartRuntime"@,
        Error::FailedToCreatePeer => "FailedToCreatePeer"@,
        Error::FailedToCreateDataChannel => "FailedToCreateDataChannel"@,
        Error::FailedToCreateOffer => "FailedToCreateOffer"@,
        Error::FailedToCreateOfferDescription => "FailedToCreateOfferDescription"@,
        Error::FailedToCreateAnswer => "FailedToCreateAnswer"@,
        Error::FailedToCreateAnswerDescription => "FailedToCreateAnswerDescription"@,
        Error::FailedToSetLocalDescription => "FailedToSetLocalDescription"@,
        Error::FailedToSetRemoteDescription => "FailedToSetRemoteDescription"@,
        Error::FailedToAddIceCandidate => "FailedToAddIceCandidate"@,
        Error::Disconnected => "Disconnected"@,
    }
}

impl Error {
    /// The variant's name, which is also how the error describes itself.
    pub fn name(&self) -> (s: &'static str)
        ensures
            s@ == error_name(*self),
    {
        match self {
            Error::FailedToStartRuntime => "FailedToStartRuntime",
            Error::FailedToCreatePeer => "FailedToCreatePeer",
            Error::FailedToCreateDataChannel => "FailedToCreateDataChannel",
            Error::FailedToCreateOffer => "FailedToCreateOffer",
            Error::FailedToCreateOfferDescription => "FailedToCreateOfferDescription",
            Error::FailedToCreateAnswer => "FailedToCreateAnswer",
            Error::FailedToCreateAnswerDescription => "FailedToCreateAnswerDescription",
            Error::FailedToSetLocalDescription => "FailedToSetLocalDescription",
            Error::FailedToSetRemoteDescription => "FailedToSetRemoteDescription",
            Error::FailedToAddIceCandidate => "FailedToAddIceCandidate",
            Error::Disconnected => "Disconnected",
        }
    }
}

/// Why a client could not (yet) connect to its server.
#[derive(Debug, Clone, Copy, PartialEq, Eq, Structural)]
pub enum CheckConnectionError {
    /// The server's reply was missing, not UTF-8, or otherwise unusable.
    BadResponse,
    /// The local peer connection failed.
    WebRtcError(Error),
}

/// The text that describes a [`CheckConnectionError`].
pub open spec fn check_connection_message(e: CheckConnectionError) -> Seq<char> {
    match e {
        CheckConnectionError::BadResponse => "Bad response from server."@,
        CheckConnectionError::WebRtcError(err) => error_name(err),
    }
}

impl CheckConnectionError {
    /// Describes the error: a fixed sentence for a bad response, the name of
    /// the WebRTC error otherwise.
    pub fn message(&self) -> (s: &'static str)
        ensures
            s@ == check_connection_message(*self),
    {
        match self {
            CheckConnectionError::BadResponse => "Bad response from server.",
            CheckConnectionError::WebRtcError(err) => err.name(),
        }
    }
}

/// Every failure of the local peer connection surfaces to a client as a
/// WebRTC error carrying the same error.
pub open spec fn spec_from_webrtc(e: Error) -> CheckConnectionError {
    CheckConnectionError::WebRtcError(e)
}

/// Wraps a failure of the local peer connection for a client's caller.
pub fn from_webrtc(e: Error) -> (r: CheckConnectionError)
    ensures
        r == spec_from_webrtc(e),
{
    match e {
        Error::Disconnected => CheckConnectionError::WebRtcError(Error::Disconnected),
        err => CheckConnectionError::WebRtcError(err),
    }
}

} // verus!
