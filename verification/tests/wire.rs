use radio::wire::{
    description_message, frame_msg, handle_ice_candidate, outbound, read_candidate,
    read_description, Failure, IceCandidate, IceCandidateType, IceProtocol, Msg, Outbound, SdpType,
    SessionDescription,
};

fn text(s: &str) -> String {
    s.to_owned()
}

fn description(sdp_type: SdpType, sdp: &str) -> SessionDescription {
    SessionDescription { sdp_type, sdp: text(sdp) }
}

fn candidate() -> IceCandidate {
    IceCandidate {
        stats_id: text("candidate:1"),
        foundation: text("f\"oo"),
        priority: 4294967295,
        address: text("1.0.0.1"),
        protocol: IceProtocol::Udp,
        port: 1234,
        typ: IceCandidateType::Srflx,
        component: 1,
        related_address: text("0.0.0.0"),
        related_port: 0,
        tcp_type: text(""),
    }
}

#[test]
fn message_is_framed_in_order() {
    let m = Msg { ev: text("offer"), id: text("a\"b"), data: text("x\ny") };
    assert_eq!(m.to_json(), "{\"ev\":\"offer\",\"id\":\"a\\\"b\",\"data\":\"x\\ny\"}");
}

#[test]
fn frame_takes_its_members_as_they_are() {
    assert_eq!(frame_msg("1", "null", "[]"), "{\"ev\":1,\"id\":null,\"data\":[]}");
}

#[test]
fn message_is_what_serde_json_reads() {
    let m = Msg { ev: text("\u{1}\u{7f}/\\"), id: text("é☃"), data: text("{\"a\":1}") };
    let read: serde_json::Value = serde_json::from_str(&m.to_json()).unwrap();
    assert_eq!(read["ev"], "\u{1}\u{7f}/\\");
    assert_eq!(read["id"], "é☃");
    assert_eq!(read["data"], "{\"a\":1}");
    assert_eq!(read.as_object().unwrap().len(), 3);
}

#[test]
fn outbound_words() {
    assert_eq!(outbound(Outbound::Offer, text("a"), text("d")).ev, "offer");
    assert_eq!(outbound(Outbound::Answer, text("a"), text("d")).ev, "answer");
    let m = outbound(Outbound::IceCandidate, text("a"), text("d"));
    assert_eq!(m, Msg { ev: text("ice-candidate"), id: text("a"), data: text("d") });
}

#[test]
fn description_goes_out_as_json_in_json() {
    let d = description(SdpType::Answer, "v=0\r\n");
    assert_eq!(
        description_message(Outbound::Answer, text("alice"), &d),
        "{\"ev\":\"answer\",\"id\":\"alice\",\"data\":\"{\\\"type\\\":\\\"answer\\\",\
         \\\"sdp\\\":\\\"v=0\\\\r\\\\n\\\"}\"}"
    );
}

#[test]
fn description_of_each_type_is_read_back() {
    for (t, word) in [
        (SdpType::Unspecified, "Unspecified"),
        (SdpType::Offer, "offer"),
        (SdpType::Pranswer, "pranswer"),
        (SdpType::Answer, "answer"),
        (SdpType::Rollback, "rollback"),
    ] {
        let sent = description_message(Outbound::Offer, text("a"), &description(t, "s\"dp"));
        let msg: serde_json::Value = serde_json::from_str(&sent).unwrap();
        let data = msg["data"].as_str().unwrap();
        assert_eq!(data, format!("{{\"type\":\"{}\",\"sdp\":\"s\\\"dp\"}}", word));
        assert_eq!(read_description(data).unwrap(), description(t, "s\"dp"));
    }
}

#[test]
fn description_that_does_not_read() {
    let e = read_description("").unwrap_err();
    assert_eq!(e.cause.to_string(), "EOF while parsing a value at line 1 column 0");
    let e = read_description("{\"type\":\"offer\"}").unwrap_err();
    assert_eq!(e.cause.to_string(), "missing field `sdp` at line 1 column 16");
    assert!(read_description("{\"type\":\"bye\",\"sdp\":\"\"}").is_err());
    assert_eq!(
        read_description("{\"sdp\":\"x\",\"type\":\"offer\",\"more\":1}").unwrap(),
        description(SdpType::Offer, "x")
    );
}

#[test]
fn gathered_candidate_goes_out() {
    let sent = handle_ice_candidate(text("bob"), Some(candidate())).unwrap();
    let msg: serde_json::Value = serde_json::from_str(&sent).unwrap();
    assert_eq!(msg["ev"], "ice-candidate");
    assert_eq!(msg["id"], "bob");
    assert_eq!(
        msg["data"].as_str().unwrap(),
        "{\"stats_id\":\"candidate:1\",\"foundation\":\"f\\\"oo\",\"priority\":4294967295,\
         \"address\":\"1.0.0.1\",\"protocol\":\"udp\",\"port\":1234,\"typ\":\"srflx\",\
         \"component\":1,\"related_address\":\"0.0.0.0\",\"related_port\":0,\"tcp_type\":\"\"}"
    );
}

#[test]
fn candidate_words() {
    for (p, word) in [
        (IceProtocol::Unspecified, "Unspecified"),
        (IceProtocol::Udp, "udp"),
        (IceProtocol::Tcp, "tcp"),
    ] {
        let mut c = candidate();
        c.protocol = p;
        let sent = handle_ice_candidate(text("b"), Some(c)).unwrap();
        assert!(sent.contains(&format!("\\\"protocol\\\":\\\"{}\\\"", word)));
    }
    for (t, word) in [
        (IceCandidateType::Unspecified, "Unspecified"),
        (IceCandidateType::Host, "host"),
        (IceCandidateType::Srflx, "srflx"),
        (IceCandidateType::Prflx, "prflx"),
        (IceCandidateType::Relay, "relay"),
    ] {
        let mut c = candidate();
        c.typ = t;
        let sent = handle_ice_candidate(text("b"), Some(c)).unwrap();
        assert!(sent.contains(&format!("\\\"typ\\\":\\\"{}\\\"", word)));
    }
}

#[test]
fn end_of_gathering_is_not_told() {
    assert_eq!(handle_ice_candidate(text("a"), None), None);
}

#[test]
fn announced_candidate_is_read() {
    let c = read_candidate(
        "{\"candidate\":\"candidate:1 1 udp\",\"sdpMid\":\"0\",\"sdpMLineIndex\":2,\
         \"usernameFragment\":null}",
    )
    .unwrap();
    assert_eq!(c.candidate, "candidate:1 1 udp");
    assert_eq!(c.sdp_mid, Some(text("0")));
    assert_eq!(c.sdp_mline_index, Some(2));
    assert_eq!(c.username_fragment, None);
    let c = read_candidate("{\"candidate\":\"\",\"usernameFragment\":\"u\"}").unwrap();
    assert_eq!(c.sdp_mid, None);
    assert_eq!(c.sdp_mline_index, None);
    assert_eq!(c.username_fragment, Some(text("u")));
}

#[test]
fn candidate_that_does_not_read() {
    let e = read_candidate("candidate:1").unwrap_err();
    assert_eq!(e.cause.to_string(), "expected value at line 1 column 1");
    assert!(read_candidate("{\"sdpMid\":\"0\"}").is_err());
}

#[test]
fn failures_in_words() {
    let own = |f: Failure<u8>| f.message();
    assert_eq!(own(Failure::SpeakersExceeded), Some(text("num speakers exceeded")));
    assert_eq!(own(Failure::NoLocalDescription), Some(text("local description failed")));
    assert_eq!(own(Failure::Outside(3)), None);
    assert_eq!(own(Failure::Unexpected), Some(text("unexpected outcome")));
}

#[test]
fn escapes_of_a_string() {
    let mut all = String::new();
    for n in 0u8..128 {
        all.push(n as char);
    }
    all.push_str("é☃😀\u{2028}");
    let m = Msg { ev: text(""), id: text(""), data: all };
    let mut expected = text("{\"ev\":\"\",\"id\":\"\",\"data\":\"");
    for n in 0u8..128 {
        match n {
            8 => expected.push_str("\\b"),
            9 => expected.push_str("\\t"),
            10 => expected.push_str("\\n"),
            12 => expected.push_str("\\f"),
            13 => expected.push_str("\\r"),
            0..=31 => expected.push_str(&format!("\\u{:04x}", n)),
            34 => expected.push_str("\\\""),
            92 => expected.push_str("\\\\"),
            _ => expected.push(n as char),
        }
    }
    expected.push_str("é☃😀\u{2028}\"}");
    assert_eq!(m.to_json(), expected);
}

#[test]
fn different_messages_have_different_texts() {
    let texts: Vec<String> = [("a", "b", "c"), ("a\",\"id\":\"b", "", "c"), ("a", "b\\", "c"), ("", "ab", "c")]
        .iter()
        .map(|(ev, id, data)| Msg { ev: text(ev), id: text(id), data: text(data) }.to_json())
        .collect();
    for i in 0..texts.len() {
        for j in 0..i {
            assert_ne!(texts[i], texts[j]);
        }
    }
    let one = description_message(Outbound::Offer, text("a"), &description(SdpType::Offer, "s"));
    let two = description_message(Outbound::Answer, text("a"), &description(SdpType::Offer, "s"));
    let three = description_message(Outbound::Offer, text("a"), &description(SdpType::Answer, "s"));
    assert_ne!(one, two);
    assert_ne!(one, three);
}
