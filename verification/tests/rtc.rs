use simple_webrtc_channel::{gathered_signal, remote_description, Signal, Step};
use webrtc::ice_transport::ice_candidate::RTCIceCandidate;
use webrtc::ice_transport::ice_candidate_type::RTCIceCandidateType;
use webrtc::ice_transport::ice_protocol::RTCIceProtocol;

const SDP: &str = "v=0\r\no=- 0 0 IN IP4 127.0.0.1\r\ns=-\r\nt=0 0\r\n";

#[test]
fn remote_description_builds_offer_and_answer() {
    let offer = remote_description(&Step::ParseOffer(SDP.to_string())).expect("valid SDP");
    assert_eq!(offer.sdp, SDP);
    assert_eq!(offer.sdp_type.to_string(), "offer");
    let answer = remote_description(&Step::ParseAnswer(SDP.to_string())).expect("valid SDP");
    assert_eq!(answer.sdp_type.to_string(), "answer");
    assert_eq!(answer.sdp, SDP);
}

#[test]
fn remote_description_rejects_bad_sdp() {
    assert!(remote_description(&Step::ParseOffer("not sdp".to_string())).is_none());
    assert!(remote_description(&Step::ParseAnswer("not sdp".to_string())).is_none());
}

#[test]
fn remote_description_only_for_parse_steps() {
    assert!(remote_description(&Step::AwaitSignal).is_none());
    assert!(remote_description(&Step::SendOffer(SDP.to_string())).is_none());
}

#[test]
fn host_candidate_is_announced_with_its_line() {
    let candidate = RTCIceCandidate {
        foundation: "1".to_string(),
        priority: 2130706431,
        address: "192.168.1.2".to_string(),
        protocol: RTCIceProtocol::Udp,
        port: 50000,
        typ: RTCIceCandidateType::Host,
        component: 1,
        ..Default::default()
    };
    let expected = candidate.to_json().unwrap().candidate;
    match gathered_signal(Some(candidate)) {
        Some(Signal::IceCandidate(Some(line))) => {
            assert_eq!(line, expected);
            assert!(line.starts_with("candidate:"));
            assert!(line.contains("192.168.1.2"));
            assert!(line.contains("50000"));
        }
        _ => panic!("expected a candidate line"),
    }
}

#[test]
fn unserializable_candidate_is_not_announced() {
    assert!(gathered_signal(Some(RTCIceCandidate::default())).is_none());
}

#[test]
fn end_of_gathering_is_announced() {
    assert!(matches!(gathered_signal(None), Some(Signal::IceCandidate(None))));
}
