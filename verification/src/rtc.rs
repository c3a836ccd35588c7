//! The parts of a peer connection's work that only compute: building the
//! remote session description that a signal carries, and turning a gathered
//! ICE candidate into the signal that announces it.
use crate::negotiation::{candidate_signal, spec_candidate_signal, Step};
use crate::types::Signal;
use vstd::prelude::*;

verus! {

/// `webrtc::peer_connection::sdp::session_description::RTCSessionDescription`,
/// carried through as an opaque value.
#[verifier::external_type_specification]
#[verifier::external_body]
pub struct ExSessionDescription(webrtc::peer_connection::sdp::session_description::RTCSessionDescription);

/// `webrtc::ice_transport::ice_candidate::RTCIceCandidate`, carried through
/// as an opaque value.
#[verifier::external_type_specification]
#[verifier::external_body]
pub struct ExIceCandidate(webrtc::ice_transport::ice_candidate::RTCIceCandidate);

/// What `RTCSessionDescription::offer` makes of this SDP, with its error read
/// as "none": a remote offer when the SDP parses as a session description.
/// It depends on the SDP alone.
pub uninterp spec fn offer_from_sdp(sdp: Seq<char>) -> Option<
    webrtc::peer_connection::sdp::session_description::RTCSessionDescription,
>;

/// What `RTCSessionDescription::answer` makes of this SDP, with its error
/// read as "none": a remote answer when the SDP parses as a session
/// description. It depends on the SDP alone.
pub uninterp spec fn answer_from_sdp(sdp: Seq<char>) -> Option<
    webrtc::peer_connection::sdp::session_description::RTCSessionDescription,
>;

/// The candidate line that `RTCIceCandidate::to_json` puts in the
/// `candidate` field, with its error read as "none". It depends on the
/// candidate's fields alone.
pub uninterp spec fn candidate_json_line(
    candidate: webrtc::ice_transport::ice_candidate::RTCIceCandidate,
) -> Option<Seq<char>>;

/// A remote offer built from its SDP (`RTCSessionDescription::offer`): what
/// [`offer_from_sdp`] names for that SDP.
#[verifier::external_body]
fn offer_description(sdp: String) -> (r: Option<
    webrtc::peer_connection::sdp::session_description::RTCSessionDescription,
>)
    ensures
        r == offer_from_sdp(sdp@),
{
    webrtc::peer_connection::sdp::session_description::RTCSessionDescription::offer(sdp).ok()
}

/// A remote answer built from its SDP (`RTCSessionDescription::answer`):
/// what [`answer_from_sdp`] names for that SDP.
#[verifier::external_body]
fn answer_description(sdp: String) -> (r: Option<
    webrtc::peer_connection::sdp::session_description::RTCSessionDescription,
>)
    ensures
        r == answer_from_sdp(sdp@),
{
    webrtc::peer_connection::sdp::session_description::RTCSessionDescription::answer(sdp).ok()
}

/// The candidate line of a gathered ICE candidate, as `to_json` gives it in
/// the `candidate` field: what [`candidate_json_line`] names for the
/// candidate, and, when there is one, a line that starts with `candidate:`.
#[verifier::external_body]
fn candidate_line(candidate: &webrtc::ice_transport::ice_candidate::RTCIceCandidate) -> (r: Option<String>)
    ensures
        match r {
            Some(line) => candidate_json_line(*candidate) == Some(line@),
            None => candidate_json_line(*candidate) is None,
        },
        r matches Some(line) ==> "candidate:"@.is_prefix_of(line@),
{
    candidate.to_json().ok().map(|json| json.candidate)
}

/// Builds the remote description that a step of the negotiation asks for:
/// an offer for [`Step::ParseOffer`], an answer for [`Step::ParseAnswer`],
/// each from the SDP that the step holds, or none when that SDP does not
/// parse; other steps build none.
pub fn remote_description(step: &Step) -> (r: Option<
    webrtc::peer_connection::sdp::session_description::RTCSessionDescription,
>)
    ensures
        match *step {
            Step::ParseOffer(sdp) => r == offer_from_sdp(sdp@),
            Step::ParseAnswer(sdp) => r == answer_from_sdp(sdp@),
            _ => r is None,
        },
{
    match step {
        Step::ParseOffer(sdp) => offer_description(sdp.clone()),
        Step::ParseAnswer(sdp) => answer_description(sdp.clone()),
        _ => None,
    }
}

/// The signal that a gathered ICE candidate is announced with: its
/// candidate line (which starts with `candidate:`), or nothing when it
/// cannot be serialized; the end of gathering (`None`) is announced as the
/// end of the candidates.
pub fn gathered_signal(
    candidate: Option<webrtc::ice_transport::ice_candidate::RTCIceCandidate>,
) -> (r: Option<Signal>)
    ensures
        candidate is None ==> r == Some(Signal::IceCandidate(None)),
        candidate matches Some(c) ==> match candidate_json_line(c) {
            Some(l) => r matches Some(Signal::IceCandidate(Some(s))) && s@ == l,
            None => r is None,
        },
        r matches Some(Signal::IceCandidate(Some(line))) ==> "candidate:"@.is_prefix_of(line@),
{
    let gathered = match &candidate {
        Some(c) => Some(candidate_line(c)),
        None => None,
    };
    candidate_signal(gathered)
}

} // verus!
