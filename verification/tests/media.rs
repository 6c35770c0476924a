use radio::media::{
    codec_parameters, connection_media, media_engine, rtc_config, IceCredentialType,
};
use webrtc::api::media_engine::{
    MIME_TYPE_G722, MIME_TYPE_OPUS, MIME_TYPE_PCMA, MIME_TYPE_PCMU,
};
use webrtc::api::APIBuilder;
use webrtc::ice_transport::ice_credential_type::RTCIceCredentialType;
use webrtc::ice_transport::ice_server::RTCIceServer;
use webrtc::peer_connection::configuration::RTCConfiguration;
use webrtc::rtp_transceiver::rtp_codec::RTPCodecType;

fn offer_of(
    engine: webrtc::api::media_engine::MediaEngine,
    registry: Option<webrtc::interceptor::registry::Registry>,
) -> String {
    let mut builder = APIBuilder::new().with_media_engine(engine);
    if let Some(registry) = registry {
        builder = builder.with_interceptor_registry(registry);
    }
    let api = builder.build();
    let runtime = tokio::runtime::Builder::new_current_thread().enable_all().build().unwrap();
    runtime.block_on(async move {
        let pc = api.new_peer_connection(RTCConfiguration::default()).await.unwrap();
        pc.add_transceiver_from_kind(RTPCodecType::Audio, &[]).await.unwrap();
        let offer = pc.create_offer(None).await.unwrap();
        pc.close().await.unwrap();
        offer.sdp
    })
}

#[test]
fn codecs_are_on_offer_in_order() {
    let codecs = codec_parameters();
    let names: Vec<&str> = codecs.iter().map(|c| c.mime_type.as_str()).collect();
    assert_eq!(names, vec![MIME_TYPE_OPUS, MIME_TYPE_G722, MIME_TYPE_PCMU, MIME_TYPE_PCMA]);
    let types: Vec<u8> = codecs.iter().map(|c| c.payload_type).collect();
    assert_eq!(types, vec![111, 9, 0, 8]);
    let rates: Vec<u32> = codecs.iter().map(|c| c.clock_rate).collect();
    assert_eq!(rates, vec![48000, 8000, 8000, 8000]);
    let channels: Vec<u16> = codecs.iter().map(|c| c.channels).collect();
    assert_eq!(channels, vec![2, 0, 0, 0]);
    assert_eq!(codecs[0].sdp_fmtp_line, "minptime=10;useinbandfec=1");
    assert_eq!(codecs[1].sdp_fmtp_line, "");
    assert!(codecs.iter().all(|c| c.rtcp_feedback.is_empty()));
}

#[test]
fn payload_types_differ() {
    let codecs = codec_parameters();
    for i in 0..codecs.len() {
        for j in 0..i {
            assert_ne!(codecs[i].payload_type, codecs[j].payload_type);
        }
    }
}

#[test]
fn engine_offers_all_codecs_in_order() {
    let sdp = offer_of(media_engine(&codec_parameters()).unwrap(), None);
    assert!(sdp.contains("m=audio 9 UDP/TLS/RTP/SAVPF 111 9 0 8\r\n"), "{}", sdp);
    assert!(sdp.contains("a=rtpmap:111 opus/48000/2\r\n"), "{}", sdp);
    assert!(sdp.contains("a=fmtp:111 minptime=10;useinbandfec=1\r\n"), "{}", sdp);
    assert!(sdp.contains("a=rtpmap:9 G722/8000\r\n"), "{}", sdp);
    assert!(!sdp.contains("transport-cc"), "{}", sdp);
}

#[test]
fn engine_holds_a_repeated_codec_once() {
    let mut codecs = codec_parameters();
    codecs.extend(codec_parameters());
    let sdp = offer_of(media_engine(&codecs).unwrap(), None);
    assert!(sdp.contains("m=audio 9 UDP/TLS/RTP/SAVPF 111 9 0 8\r\n"), "{}", sdp);
}

#[test]
fn codecs_with_one_payload_type_and_different_names_are_both_held() {
    let mut codecs = codec_parameters();
    codecs.truncate(2);
    codecs[1].payload_type = 111;
    let sdp = offer_of(media_engine(&codecs).unwrap(), None);
    assert!(sdp.contains("opus/48000/2"), "{}", sdp);
    assert!(sdp.contains("G722/8000"), "{}", sdp);
}

#[test]
fn connection_reports_congestion() {
    let (engine, registry) = connection_media().unwrap();
    let sdp = offer_of(engine, Some(registry));
    assert!(sdp.contains("m=audio 9 UDP/TLS/RTP/SAVPF 111 9 0 8\r\n"), "{}", sdp);
    assert!(
        sdp.contains("http://www.ietf.org/id/draft-holmer-rmcat-transport-wide-cc-extensions-01"),
        "{}",
        sdp
    );
    assert_eq!(sdp.matches("a=extmap:").count(), 1, "{}", sdp);
    for payload_type in ["111", "9", "0", "8"] {
        assert!(sdp.contains(&format!("a=rtcp-fb:{} transport-cc", payload_type)), "{}", sdp);
    }
}

#[test]
fn ice_servers_are_as_configured() {
    let config = rtc_config();
    assert_eq!(config.ice_servers.len(), 2);
    let stun = &config.ice_servers[0];
    assert_eq!(
        stun.urls,
        vec![
            "stun:stun.1.google.com:19302",
            "stun:stun.2.google.com:19302",
            "stun:stun.3.google.com:19302",
            "stun:stun.4.google.com:19302",
        ]
    );
    let default = RTCIceServer::default();
    assert_eq!(stun.username, default.username);
    assert_eq!(stun.credential, default.credential);
    assert_eq!(default.credential_type, RTCIceCredentialType::Password);
    assert_eq!(stun.credential_type, IceCredentialType::Password);
    let turn = &config.ice_servers[1];
    assert_eq!(turn.urls, vec!["turn:turn.abhisheksarkar.me:3478"]);
    assert_eq!(turn.username, "azureturn");
    assert_eq!(turn.credential, "azureturn");
    assert_eq!(turn.credential_type, IceCredentialType::Password);
}
