use simple_webrtc_channel::{
    data_channel_options, kind_for, role_of, standard_configuration, Configuration,
    DataChannelConfiguration, IceServer, Role, SignalerKind, STUN_SERVER_URL,
    from_webrtc, offer_to_post, reply_text, CheckConnectionError, Error, Signal,
};

#[test]
fn offer_is_posted() {
    assert_eq!(
        offer_to_post(Ok(Some(Signal::Offer("sdp".into())))),
        Ok(Some("sdp".to_string()))
    );
    assert_eq!(offer_to_post(Ok(Some(Signal::IceCandidate(Some("c".into()))))), Ok(None));
    assert_eq!(offer_to_post(Ok(Some(Signal::IceCandidate(None)))), Ok(None));
    assert_eq!(offer_to_post(Ok(None)), Ok(None));
    assert_eq!(
        offer_to_post(Err(Error::FailedToCreateOffer)),
        Err(CheckConnectionError::WebRtcError(Error::FailedToCreateOffer))
    );
}

#[test]
fn reply_is_read_as_text() {
    assert_eq!(reply_text(Some(b"ans\0c\0".to_vec())), Ok("ans\0c\0".to_string()));
    assert_eq!(reply_text(Some("é".as_bytes().to_vec())), Ok("é".to_string()));
    assert_eq!(reply_text(Some(vec![0xff, 0xfe])), Err(CheckConnectionError::BadResponse));
    assert_eq!(reply_text(None), Err(CheckConnectionError::BadResponse));
}

#[test]
fn webrtc_errors_are_wrapped() {
    assert_eq!(from_webrtc(Error::Disconnected), CheckConnectionError::WebRtcError(Error::Disconnected));
    assert_eq!(
        from_webrtc(Error::FailedToCreatePeer),
        CheckConnectionError::WebRtcError(Error::FailedToCreatePeer)
    );
}

#[test]
fn error_messages() {
    assert_eq!(CheckConnectionError::BadResponse.message(), "Bad response from server.");
    assert_eq!(CheckConnectionError::WebRtcError(Error::Disconnected).message(), "Disconnected");
    assert_eq!(Error::FailedToSetRemoteDescription.name(), "FailedToSetRemoteDescription");
    assert_eq!(format!("{:?}", Error::FailedToAddIceCandidate), Error::FailedToAddIceCandidate.name());
}

#[test]
fn configurations() {
    assert_eq!(data_channel_options(DataChannelConfiguration::Reliable), (true, None));
    assert_eq!(data_channel_options(DataChannelConfiguration::Unreliable), (false, Some(0)));
    assert_eq!(
        kind_for(true),
        SignalerKind::Offer { data_channel_configuration: DataChannelConfiguration::Unreliable }
    );
    assert_eq!(kind_for(false), SignalerKind::Answer);
    assert_eq!(role_of(kind_for(true)), Role::Offerer);
    assert_eq!(role_of(SignalerKind::Answer), Role::Answerer);
    let c = standard_configuration();
    assert_eq!(c.ice_servers.len(), 1);
    assert_eq!(c.ice_servers[0].urls, vec![STUN_SERVER_URL.to_string()]);
    assert!(Configuration::default().ice_servers.is_empty());
    let s = IceServer::default();
    assert!(s.urls.is_empty() && s.username.is_empty() && s.credential.is_empty());
}
