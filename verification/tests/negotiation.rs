use simple_webrtc_channel::{
    candidate_signal, record_error, state_change_error, Error, Negotiation, Outcome, Role, Signal,
    Step,
};

fn name(step: &Step) -> String {
    match step {
        Step::StartRuntime => "start".into(),
        Step::RegisterCodecs => "codecs".into(),
        Step::RegisterInterceptors => "interceptors".into(),
        Step::CreatePeer => "peer".into(),
        Step::WatchConnectionState => "watch-state".into(),
        Step::CreateDataChannel => "data-channel".into(),
        Step::CreateOffer => "create-offer".into(),
        Step::SetLocalOffer(s) => format!("local-offer:{}", s),
        Step::SendOffer(s) => format!("send-offer:{}", s),
        Step::WatchIncomingChannels => "watch-channels".into(),
        Step::WatchIceCandidates => "watch-candidates".into(),
        Step::AwaitSignal => "await".into(),
        Step::ParseOffer(s) => format!("parse-offer:{}", s),
        Step::ApplyRemoteOffer => "remote-offer".into(),
        Step::CreateAnswer => "create-answer".into(),
        Step::SetLocalAnswer(s) => format!("local-answer:{}", s),
        Step::SendAnswer(s) => format!("send-answer:{}", s),
        Step::ParseAnswer(s) => format!("parse-answer:{}", s),
        Step::ApplyRemoteAnswer => "remote-answer".into(),
        Step::AddIceCandidate(c) => format!("add-candidate:{}", c),
        Step::TakeDataChannel => "take-channel".into(),
        Step::ForwardMessages => "forward".into(),
        Step::ClosePeer => "close".into(),
        Step::Stop => "stop".into(),
        Step::Fail(e) => format!("fail:{:?}", e),
    }
}

fn drive(role: Role, outcomes: Vec<Outcome>) -> Vec<String> {
    let mut n = Negotiation::new(role);
    let mut seen = vec![name(n.step())];
    for o in outcomes {
        n.advance(o);
        seen.push(name(n.step()));
    }
    seen
}

#[test]
fn offerer_setup_sends_created_offer() {
    let seen = drive(
        Role::Offerer,
        vec![
            Outcome::Done,
            Outcome::Done,
            Outcome::Done,
            Outcome::Done,
            Outcome::Done,
            Outcome::Done,
            Outcome::Created("o-sdp".into()),
            Outcome::Done,
            Outcome::Done,
            Outcome::Done,
        ],
    );
    assert_eq!(
        seen,
        vec![
            "start",
            "codecs",
            "interceptors",
            "peer",
            "watch-state",
            "data-channel",
            "create-offer",
            "local-offer:o-sdp",
            "send-offer:o-sdp",
            "watch-candidates",
            "await"
        ]
    );
}

#[test]
fn answerer_setup_waits_for_channel() {
    let seen = drive(Role::Answerer, (0..7).map(|_| Outcome::Done).collect());
    assert_eq!(
        seen,
        vec![
            "start",
            "codecs",
            "interceptors",
            "peer",
            "watch-state",
            "watch-channels",
            "watch-candidates",
            "await"
        ]
    );
}

fn listening(role: Role) -> Negotiation {
    let mut n = Negotiation::new(role);
    for _ in 0..5 {
        n.advance(Outcome::Done);
    }
    n.advance(Outcome::Done);
    if role == Role::Offerer {
        n.advance(Outcome::Created("x".into()));
        n.advance(Outcome::Done);
        n.advance(Outcome::Done);
    }
    n.advance(Outcome::Done);
    assert_eq!(name(n.step()), "await");
    n
}

#[test]
fn offer_received_is_answered() {
    let mut n = listening(Role::Answerer);
    n.advance(Outcome::Received(Signal::Offer("remote".into())));
    assert_eq!(name(n.step()), "parse-offer:remote");
    n.advance(Outcome::Done);
    assert_eq!(name(n.step()), "remote-offer");
    n.advance(Outcome::Done);
    assert_eq!(name(n.step()), "create-answer");
    n.advance(Outcome::Created("mine".into()));
    assert_eq!(name(n.step()), "local-answer:mine");
    n.advance(Outcome::Done);
    assert_eq!(name(n.step()), "send-answer:mine");
    n.advance(Outcome::Done);
    assert_eq!(name(n.step()), "await");
}

#[test]
fn answer_and_candidates_received() {
    let mut n = listening(Role::Offerer);
    n.advance(Outcome::Received(Signal::Answer("a".into())));
    assert_eq!(name(n.step()), "parse-answer:a");
    n.advance(Outcome::Done);
    assert_eq!(name(n.step()), "remote-answer");
    n.advance(Outcome::Done);
    assert_eq!(name(n.step()), "await");
    n.advance(Outcome::Received(Signal::IceCandidate(Some("c".into()))));
    assert_eq!(name(n.step()), "add-candidate:c");
    n.advance(Outcome::Done);
    n.advance(Outcome::Received(Signal::IceCandidate(None)));
    assert_eq!(name(n.step()), "await");
}

#[test]
fn signals_closed_forwards_then_closes() {
    let mut n = listening(Role::Offerer);
    n.advance(Outcome::SignalsClosed);
    assert_eq!(name(n.step()), "take-channel");
    n.advance(Outcome::Done);
    assert_eq!(name(n.step()), "forward");
    n.advance(Outcome::Done);
    assert_eq!(name(n.step()), "close");
    n.advance(Outcome::Done);
    assert_eq!(name(n.step()), "stop");
    assert!(n.is_over());
}

#[test]
fn signals_closed_without_channel_stops() {
    let mut n = listening(Role::Answerer);
    n.advance(Outcome::SignalsClosed);
    n.advance(Outcome::NoChannel);
    assert_eq!(name(n.step()), "stop");
}

#[test]
fn each_failure_has_its_error() {
    let fail_at = |done: usize, role: Role| {
        let mut n = Negotiation::new(role);
        for _ in 0..done {
            n.advance(Outcome::Done);
        }
        n.advance(Outcome::Failed);
        assert!(n.is_over());
        name(n.step())
    };
    assert_eq!(fail_at(0, Role::Offerer), "fail:FailedToStartRuntime");
    assert_eq!(fail_at(1, Role::Offerer), "fail:FailedToStartRuntime");
    assert_eq!(fail_at(2, Role::Offerer), "fail:FailedToStartRuntime");
    assert_eq!(fail_at(3, Role::Offerer), "fail:FailedToCreatePeer");
    assert_eq!(fail_at(5, Role::Offerer), "fail:FailedToCreateDataChannel");
    assert_eq!(fail_at(6, Role::Offerer), "fail:FailedToCreateOffer");

    let mut n = listening(Role::Answerer);
    n.advance(Outcome::Received(Signal::Offer("o".into())));
    n.advance(Outcome::Failed);
    assert_eq!(name(n.step()), "fail:FailedToCreateOfferDescription");

    let mut n = listening(Role::Answerer);
    n.advance(Outcome::Received(Signal::Offer("o".into())));
    n.advance(Outcome::Done);
    n.advance(Outcome::Failed);
    assert_eq!(name(n.step()), "fail:FailedToSetRemoteDescription");

    let mut n = listening(Role::Answerer);
    n.advance(Outcome::Received(Signal::Offer("o".into())));
    n.advance(Outcome::Done);
    n.advance(Outcome::Done);
    n.advance(Outcome::Failed);
    assert_eq!(name(n.step()), "fail:FailedToCreateAnswer");

    let mut n = listening(Role::Answerer);
    n.advance(Outcome::Received(Signal::Offer("o".into())));
    n.advance(Outcome::Done);
    n.advance(Outcome::Done);
    n.advance(Outcome::Created("a".into()));
    n.advance(Outcome::Failed);
    assert_eq!(name(n.step()), "fail:FailedToSetLocalDescription");

    let mut n = listening(Role::Offerer);
    n.advance(Outcome::Received(Signal::Answer("a".into())));
    n.advance(Outcome::Failed);
    assert_eq!(name(n.step()), "fail:FailedToCreateAnswerDescription");

    let mut n = listening(Role::Offerer);
    n.advance(Outcome::Received(Signal::IceCandidate(Some("c".into()))));
    n.advance(Outcome::Failed);
    assert_eq!(name(n.step()), "fail:FailedToAddIceCandidate");
}

#[test]
fn first_recorded_error_is_kept() {
    let mut slot = None;
    record_error(&mut slot, Error::FailedToCreatePeer);
    assert_eq!(slot, Some(Error::FailedToCreatePeer));
    record_error(&mut slot, Error::Disconnected);
    assert_eq!(slot, Some(Error::FailedToCreatePeer));
}

#[test]
fn disconnection_is_reported() {
    assert_eq!(state_change_error(true), Some(Error::Disconnected));
    assert_eq!(state_change_error(false), None);
}

#[test]
fn gathered_candidates_become_signals() {
    match candidate_signal(Some(Some("cand".into()))) {
        Some(Signal::IceCandidate(Some(c))) => assert_eq!(c, "cand"),
        _ => panic!("expected a candidate signal"),
    }
    assert!(matches!(candidate_signal(None), Some(Signal::IceCandidate(None))));
    assert!(candidate_signal(Some(None)).is_none());
}

#[test]
fn role_is_kept() {
    assert_eq!(Negotiation::new(Role::Answerer).role(), Role::Answerer);
    assert_eq!(Negotiation::new(Role::Offerer).role(), Role::Offerer);
}

#[test]
fn accepts_only_possible_outcomes() {
    let mut n = Negotiation::new(Role::Offerer);
    assert!(n.accepts(&Outcome::Done));
    assert!(n.accepts(&Outcome::Failed));
    assert!(!n.accepts(&Outcome::SignalsClosed));
    assert!(!n.accepts(&Outcome::Created("x".into())));
    for _ in 0..6 {
        n.advance(Outcome::Done);
    }
    assert_eq!(name(n.step()), "create-offer");
    assert!(n.accepts(&Outcome::Created("x".into())));
    assert!(!n.accepts(&Outcome::Done));
    n.advance(Outcome::Failed);
    assert!(!n.accepts(&Outcome::Done));
    assert!(!n.accepts(&Outcome::Failed));
    let mut n = listening(Role::Answerer);
    assert!(n.accepts(&Outcome::Received(Signal::IceCandidate(None))));
    assert!(n.accepts(&Outcome::SignalsClosed));
    assert!(!n.accepts(&Outcome::Done));
    n.advance(Outcome::SignalsClosed);
    assert!(n.accepts(&Outcome::NoChannel));
    assert!(!n.accepts(&Outcome::Failed));
}

#[test]
fn offerer_without_offer_sends_only_its_offer() {
    let mut outcomes: Vec<Outcome> = (0..6).map(|_| Outcome::Done).collect();
    outcomes.push(Outcome::Created("o".into()));
    outcomes.extend((0..3).map(|_| Outcome::Done));
    outcomes.push(Outcome::Received(Signal::Answer("a".into())));
    outcomes.push(Outcome::Done);
    outcomes.push(Outcome::Done);
    outcomes.push(Outcome::Received(Signal::IceCandidate(Some("c".into()))));
    outcomes.push(Outcome::Done);
    outcomes.push(Outcome::SignalsClosed);
    let seen = drive(Role::Offerer, outcomes);
    let sends: Vec<&String> = seen.iter().filter(|s| s.starts_with("send-")).collect();
    assert_eq!(sends, vec!["send-offer:o"]);
    let offer_at = seen.iter().position(|s| s == "send-offer:o").unwrap();
    let first_wait = seen.iter().position(|s| s == "watch-candidates").unwrap();
    assert!(offer_at < first_wait);
}

fn answerer_until_offer() -> Vec<Outcome> {
    let mut outcomes: Vec<Outcome> = (0..7).map(|_| Outcome::Done).collect();
    outcomes.push(Outcome::Received(Signal::IceCandidate(Some("c".into()))));
    outcomes.push(Outcome::Done);
    outcomes
}

#[test]
fn answerer_is_silent_until_an_offer_then_answers_first() {
    let before_offer = drive(Role::Answerer, answerer_until_offer());
    assert!(before_offer.iter().all(|s| !s.starts_with("send-")));
    let mut outcomes = answerer_until_offer();
    outcomes.push(Outcome::Received(Signal::Offer("remote".into())));
    outcomes.push(Outcome::Done);
    outcomes.push(Outcome::Done);
    outcomes.push(Outcome::Created("mine".into()));
    outcomes.push(Outcome::Done);
    outcomes.push(Outcome::Done);
    let seen = drive(Role::Answerer, outcomes);
    let sends: Vec<&String> = seen.iter().filter(|s| s.starts_with("send-")).collect();
    assert_eq!(sends, vec!["send-answer:mine"]);
    let parse_at = seen.iter().position(|s| s == "parse-offer:remote").unwrap();
    let send_at = seen.iter().position(|s| s == "send-answer:mine").unwrap();
    assert_eq!(send_at, parse_at + 4);
    assert_eq!(seen.last().unwrap(), "await");
}
