use simple_webrtc_channel::{
    Client, Configuration, Connection, DataChannel, DataChannelConfiguration, Error, PollStatus,
    Server, Signal, Signaler, SignalerKind,
};
use std::sync::Arc;

struct Task {
    error: Arc<tokio::sync::RwLock<Option<Error>>>,
    signals_out: tokio::sync::mpsc::Sender<Signal>,
    signals_in: tokio::sync::mpsc::Receiver<Signal>,
    channels: tokio::sync::mpsc::Sender<DataChannel>,
}

fn signaler() -> (Signaler, Task) {
    signaler_of(SignalerKind::Offer { data_channel_configuration: DataChannelConfiguration::Unreliable })
}

fn signaler_of(kind: SignalerKind) -> (Signaler, Task) {
    let error = Arc::new(tokio::sync::RwLock::new(None));
    let (signals_out, signal_receiver) = tokio::sync::mpsc::channel(100);
    let (signal_sender, signals_in) = tokio::sync::mpsc::channel(100);
    let (channels, channel_receiver) = tokio::sync::mpsc::channel(100);
    let s = Signaler::from_parts(
        kind,
        &Configuration::default(),
        error.clone(),
        signal_receiver,
        signal_sender,
        channel_receiver,
    );
    (s, Task { error, signals_out, signals_in, channels })
}

fn data_channel(error: &Arc<tokio::sync::RwLock<Option<Error>>>) -> (DataChannel, tokio::sync::mpsc::Receiver<Vec<u8>>, tokio::sync::mpsc::Sender<Vec<u8>>) {
    let (to_peer, from_app) = tokio::sync::mpsc::channel(100);
    let (to_app, from_peer) = tokio::sync::mpsc::channel(100);
    (DataChannel::from_parts(error.clone(), to_peer, from_peer), from_app, to_app)
}

#[test]
fn signaler_passes_signals_both_ways() {
    let (mut s, mut task) = signaler();
    assert!(matches!(s.signal(), Ok(None)));
    task.signals_out.try_send(Signal::Offer("o".into())).unwrap();
    match s.signal() {
        Ok(Some(Signal::Offer(o))) => assert_eq!(o, "o"),
        _ => panic!("expected the offer"),
    }
    s.receive(Signal::Answer("a".into()));
    match task.signals_in.try_recv() {
        Ok(Signal::Answer(a)) => assert_eq!(a, "a"),
        _ => panic!("expected the answer"),
    }
}

#[test]
fn signaler_reports_recorded_error() {
    let (mut s, task) = signaler();
    *task.error.blocking_write() = Some(Error::FailedToCreatePeer);
    assert!(matches!(s.signal(), Err(Error::FailedToCreatePeer)));
    assert!(matches!(s.data_channel(), Err(Error::FailedToCreatePeer)));
}

#[test]
fn data_channel_is_handed_out_once() {
    let (mut s, mut task) = signaler();
    assert!(matches!(s.data_channel(), Ok(None)));
    let (channel, _a, _b) = data_channel(&task.error);
    task.channels.try_send(channel).ok().unwrap();
    assert!(matches!(s.data_channel(), Ok(Some(_))));
    assert!(matches!(s.data_channel(), Ok(None)));
    s.receive(Signal::IceCandidate(None));
    assert!(task.signals_in.try_recv().is_err());
    *task.error.blocking_write() = Some(Error::Disconnected);
    assert!(matches!(s.data_channel(), Ok(None)));
}

#[test]
fn data_channel_sends_and_receives() {
    let error = Arc::new(tokio::sync::RwLock::new(None));
    let (mut channel, mut from_app, to_app) = data_channel(&error);
    channel.send(b"hello".to_vec());
    assert_eq!(from_app.try_recv().unwrap(), b"hello".to_vec());
    assert!(matches!(channel.receive(), Ok(None)));
    to_app.try_send(b"world".to_vec()).unwrap();
    assert_eq!(channel.receive().unwrap(), Some(b"world".to_vec()));
    *error.blocking_write() = Some(Error::Disconnected);
    assert!(matches!(channel.receive(), Err(Error::Disconnected)));
}

#[test]
fn server_accepts_ready_connection() {
    let (sender, receiver) = std::sync::mpsc::channel();
    let mut server = Server::from_receiver(receiver);
    assert!(server.accept().is_none());
    let (s1, t1) = signaler();
    let (s2, t2) = signaler();
    sender.send(Connection::new(s1)).unwrap();
    sender.send(Connection::new(s2)).unwrap();
    assert!(server.accept().is_none());
    *t1.error.blocking_write() = Some(Error::Disconnected);
    let (channel, _a, _b) = data_channel(&t2.error);
    t2.channels.try_send(channel).ok().unwrap();
    assert!(server.accept().is_some());
    assert!(server.accept().is_none());
}

#[test]
fn client_reads_reply_into_its_peer() {
    let (s, mut task) = signaler();
    let mut client = Client::with_signaler("http://127.0.0.1:3000", s);
    assert_eq!(client.server_url(), "http://127.0.0.1:3000");
    task.signals_out.try_send(Signal::Offer("my offer".into())).unwrap();
    assert_eq!(client.poll_offer(), Ok(Some("my offer".to_string())));
    let reply = client.begin_request();
    reply.send(Ok("ans\0c1\0".to_string())).unwrap();
    assert!(matches!(client.finish_check(), Ok(None)));
    let mut got = vec![];
    while let Ok(signal) = task.signals_in.try_recv() {
        got.push(match signal {
            Signal::Answer(a) => format!("answer:{}", a),
            Signal::IceCandidate(Some(c)) => format!("candidate:{}", c),
            Signal::IceCandidate(None) => "end".to_string(),
            Signal::Offer(o) => format!("offer:{}", o),
        });
    }
    assert_eq!(got, vec!["answer:ans", "candidate:c1", "end"]);
}

#[test]
fn client_reports_bad_response() {
    let (s, _task) = signaler();
    let mut client = Client::with_signaler("http://x", s);
    let reply = client.begin_request();
    reply.send(Err(simple_webrtc_channel::CheckConnectionError::BadResponse)).unwrap();
    assert_eq!(
        client.finish_check().err(),
        Some(simple_webrtc_channel::CheckConnectionError::BadResponse)
    );
}

#[test]
fn signaler_keeps_its_kind() {
    let (s, _task) = signaler_of(SignalerKind::Answer);
    assert_eq!(s.kind(), SignalerKind::Answer);
    let (s, _task) = signaler();
    assert!(matches!(s.kind(), SignalerKind::Offer { .. }));
}

#[test]
fn client_feeds_reply_text() {
    let (s, mut task) = signaler();
    let mut client = Client::with_signaler("http://x", s);
    client.feed_reply("a\0c\0");
    let mut got = vec![];
    while let Ok(signal) = task.signals_in.try_recv() {
        got.push(match signal {
            Signal::Answer(a) => format!("answer:{}", a),
            Signal::IceCandidate(Some(c)) => format!("candidate:{}", c),
            Signal::IceCandidate(None) => "end".to_string(),
            Signal::Offer(o) => format!("offer:{}", o),
        });
    }
    assert_eq!(got, vec!["answer:a", "candidate:c", "end"]);
}

#[test]
fn connection_poll_reports_status() {
    let (s, task) = signaler();
    let mut connection = Connection::new(s);
    let (status, channel) = connection.poll();
    assert_eq!(status, PollStatus::Pending);
    assert!(channel.is_none());
    assert!(!connection.measure_age());
    let (c, _a, _b) = data_channel(&task.error);
    task.channels.try_send(c).ok().unwrap();
    let (status, channel) = connection.poll();
    assert_eq!(status, PollStatus::Ready);
    assert!(channel.is_some());
    let (status, _) = connection.poll();
    assert_eq!(status, PollStatus::Pending);
    let (s, task) = signaler();
    let mut connection = Connection::new(s);
    *task.error.blocking_write() = Some(Error::Disconnected);
    assert_eq!(connection.poll().0, PollStatus::Failed);
}

#[test]
fn reported_error_is_kept() {
    let (mut s, task) = signaler();
    *task.error.blocking_write() = Some(Error::FailedToCreateOffer);
    assert!(matches!(s.signal(), Err(Error::FailedToCreateOffer)));
    *task.error.blocking_write() = Some(Error::Disconnected);
    assert!(matches!(s.signal(), Err(Error::FailedToCreateOffer)));
    assert!(matches!(s.data_channel(), Err(Error::FailedToCreateOffer)));
    let error = Arc::new(tokio::sync::RwLock::new(Some(Error::Disconnected)));
    let (mut channel, _a, _b) = data_channel(&error);
    assert!(matches!(channel.receive(), Err(Error::Disconnected)));
    *error.blocking_write() = None;
    assert!(matches!(channel.receive(), Err(Error::Disconnected)));
}

#[test]
fn signals_reach_the_task_in_order() {
    let (mut s, mut task) = signaler();
    s.receive(Signal::Answer("a".into()));
    s.receive(Signal::IceCandidate(Some("c1".into())));
    s.receive(Signal::IceCandidate(Some("c2".into())));
    s.receive(Signal::IceCandidate(None));
    let mut got = vec![];
    while let Ok(signal) = task.signals_in.try_recv() {
        got.push(match signal {
            Signal::Answer(a) => format!("answer:{}", a),
            Signal::IceCandidate(Some(c)) => format!("candidate:{}", c),
            Signal::IceCandidate(None) => "end".to_string(),
            Signal::Offer(o) => format!("offer:{}", o),
        });
    }
    assert_eq!(got, vec!["answer:a", "candidate:c1", "candidate:c2", "end"]);
}

#[test]
fn signal_and_receive_leave_a_waiting_channel() {
    let (mut s, task) = signaler();
    let (channel, _a, _b) = data_channel(&task.error);
    task.channels.try_send(channel).ok().unwrap();
    assert!(matches!(s.signal(), Ok(None)));
    s.receive(Signal::IceCandidate(None));
    assert!(matches!(s.data_channel(), Ok(Some(_))));
}

#[test]
fn send_leaves_arrived_messages() {
    let error = Arc::new(tokio::sync::RwLock::new(None));
    let (mut channel, mut from_app, to_app) = data_channel(&error);
    to_app.try_send(b"first".to_vec()).unwrap();
    channel.send(b"out".to_vec());
    assert_eq!(from_app.try_recv().unwrap(), b"out".to_vec());
    assert_eq!(channel.receive().unwrap(), Some(b"first".to_vec()));
}

#[test]
fn connection_hands_out_one_channel_in_its_life() {
    let (s, task) = signaler();
    let mut connection = Connection::new(s);
    let (c1, _a, _b) = data_channel(&task.error);
    let (c2, _c, _d) = data_channel(&task.error);
    task.channels.try_send(c1).ok().unwrap();
    task.channels.try_send(c2).ok().unwrap();
    let mut ready = 0;
    for _ in 0..4 {
        let (status, channel) = connection.poll();
        assert_eq!(status == PollStatus::Ready, channel.is_some());
        if status == PollStatus::Ready {
            ready += 1;
        }
        assert!(!connection.measure_age());
    }
    assert_eq!(ready, 1);
}

#[test]
fn read_error_comes_before_a_queued_channel() {
    let (mut s, task) = signaler();
    let (channel, _a, _b) = data_channel(&task.error);
    task.channels.try_send(channel).ok().unwrap();
    *task.error.blocking_write() = Some(Error::FailedToSetRemoteDescription);
    assert!(matches!(s.data_channel(), Err(Error::FailedToSetRemoteDescription)));
    *task.error.blocking_write() = Some(Error::Disconnected);
    assert!(matches!(s.signal(), Err(Error::FailedToSetRemoteDescription)));
    assert!(matches!(s.data_channel(), Err(Error::FailedToSetRemoteDescription)));
}

#[test]
fn read_error_comes_before_a_queued_message() {
    let error = Arc::new(tokio::sync::RwLock::new(None));
    let (mut channel, _from_app, to_app) = data_channel(&error);
    to_app.try_send(b"late".to_vec()).unwrap();
    *error.blocking_write() = Some(Error::Disconnected);
    assert!(matches!(channel.receive(), Err(Error::Disconnected)));
    channel.send(b"x".to_vec());
    assert!(matches!(channel.receive(), Err(Error::Disconnected)));
}

#[test]
fn client_returns_its_peers_own_error() {
    let (s, task) = signaler();
    let mut client = Client::with_signaler("http://x", s);
    *task.error.blocking_write() = Some(Error::FailedToCreateOffer);
    assert_eq!(
        client.poll_offer(),
        Err(simple_webrtc_channel::CheckConnectionError::WebRtcError(Error::FailedToCreateOffer))
    );
    let (s, task) = signaler();
    let mut client = Client::with_signaler("http://x", s);
    *task.error.blocking_write() = Some(Error::FailedToAddIceCandidate);
    assert_eq!(
        client.finish_check().err(),
        Some(simple_webrtc_channel::CheckConnectionError::WebRtcError(Error::FailedToAddIceCandidate))
    );
}
