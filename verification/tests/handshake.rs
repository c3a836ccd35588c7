use simple_webrtc_channel::{
    cors_header, offer_from_body, Error, Handshake, HandshakeAction, Signal, STATUS_FAILED,
    STATUS_SERVER_ERROR,
};

fn describe(action: &HandshakeAction) -> String {
    match action {
        HandshakeAction::Poll => "poll".to_string(),
        HandshakeAction::Reject(status) => format!("reject:{}", status),
        HandshakeAction::Reply(body) => format!("reply:{:?}", body),
    }
}

#[test]
fn body_is_the_offer() {
    match offer_from_body(Some("offer sdp".to_string())) {
        Ok(Signal::Offer(sdp)) => assert_eq!(sdp, "offer sdp"),
        _ => panic!("expected the offer"),
    }
    assert!(matches!(offer_from_body(None), Err(500)));
    assert_eq!(STATUS_SERVER_ERROR, 500);
}

#[test]
fn handshake_replies_with_answer_and_candidates() {
    let mut h = Handshake::new();
    assert_eq!(describe(&h.on_poll(Ok(None))), "poll");
    assert_eq!(describe(&h.on_poll(Ok(Some(Signal::Answer("ans".into()))))), "poll");
    assert_eq!(describe(&h.on_poll(Ok(None))), "poll");
    assert_eq!(
        describe(&h.on_poll(Ok(Some(Signal::IceCandidate(Some("c1".into())))))),
        "poll"
    );
    assert_eq!(
        describe(&h.on_poll(Ok(Some(Signal::IceCandidate(Some("c2".into())))))),
        "poll"
    );
    assert_eq!(
        describe(&h.on_poll(Ok(Some(Signal::IceCandidate(None))))),
        "reply:\"ans\\0c1\\0c2\\0\""
    );
}

#[test]
fn handshake_rejects_failed_peer() {
    let mut h = Handshake::new();
    assert_eq!(describe(&h.on_poll(Err(Error::FailedToCreateAnswer))), "reject:400");
    let mut h = Handshake::new();
    h.on_poll(Ok(Some(Signal::Answer("ans".into()))));
    assert_eq!(describe(&h.on_poll(Err(Error::Disconnected))), "reject:400");
    assert_eq!(STATUS_FAILED, 400);
}

#[test]
fn handshake_reply_without_candidates() {
    let mut h = Handshake::new();
    h.on_poll(Ok(Some(Signal::Answer("only".into()))));
    assert_eq!(describe(&h.on_poll(Ok(Some(Signal::IceCandidate(None))))), "reply:\"only\\0\"");
}

#[test]
fn cors_header_allows_any_origin() {
    let header = cors_header().expect("the header is ASCII");
    assert_eq!(header.field.as_str().as_str(), "Access-Control-Allow-Origin");
    assert_eq!(header.value.as_str(), "*");
}

#[test]
fn handshake_expects_answer_then_candidates() {
    let mut h = Handshake::new();
    assert!(h.expects(&Ok(None)));
    assert!(h.expects(&Err(Error::Disconnected)));
    assert!(h.expects(&Ok(Some(Signal::Answer("a".into())))));
    assert!(!h.expects(&Ok(Some(Signal::IceCandidate(None)))));
    assert!(!h.expects(&Ok(Some(Signal::Offer("o".into())))));
    h.on_poll(Ok(Some(Signal::Answer("a".into()))));
    assert!(!h.expects(&Ok(Some(Signal::Answer("b".into())))));
    assert!(h.expects(&Ok(Some(Signal::IceCandidate(Some("c".into()))))));
    assert!(h.expects(&Ok(Some(Signal::IceCandidate(None)))));
}
