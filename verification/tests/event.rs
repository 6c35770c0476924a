use radio::event::{
    answer_event, listener_answer, listener_offer, new_ice_candidate, offer_event, on_frame, route, speaker_answer,
    speaker_offer, Action, AppStateEv, AppStateEvKind, Frame, SocketStep,
};
use radio::wire::{Msg, SdpType, SessionDescription, Unreadable};

type Ev = AppStateEv<u8, u8, u32, u8>;

const OFFER: &str = "{\"type\":\"offer\",\"sdp\":\"o\"}";
const ANSWER: &str = "{\"type\":\"answer\",\"sdp\":\"a\"}";

fn msg(ev: &str, data: &str) -> Msg {
    Msg { ev: ev.to_owned(), id: "alice".to_owned(), data: data.to_owned() }
}

fn alice() -> String {
    "alice".to_owned()
}

fn offered() -> SessionDescription {
    SessionDescription { sdp_type: SdpType::Offer, sdp: "o".to_owned() }
}

fn answered() -> SessionDescription {
    SessionDescription { sdp_type: SdpType::Answer, sdp: "a".to_owned() }
}

fn ev(action: &str, data: AppStateEvKind<u8, u8, u32, u8>) -> Ev {
    AppStateEv { action: action.to_owned(), data }
}

#[test]
fn actions_have_words() {
    for (a, word) in [
        (Action::NewSpeaker, "new-speaker"),
        (Action::SpeakerOffer, "speaker-offer"),
        (Action::SpeakerAnswer, "speaker-answer"),
        (Action::AddSpeakerTrack, "add-speaker-track"),
        (Action::IceCandidate, "ice-candidate"),
        (Action::RemoveSpeaker, "remove-speaker"),
        (Action::ListenerOffer, "listener-offer"),
        (Action::NewListener, "new-listener"),
        (Action::RemoveListener, "remove-listener"),
        (Action::ListenerAnswer, "listener-answer"),
        (Action::SignalSender, "signal-sender"),
    ] {
        assert_eq!(a.word(), word);
        assert_eq!(Action::parse(&word.to_owned()), Some(a));
    }
    assert_eq!(Action::parse(&"".to_owned()), None);
    assert_eq!(Action::parse(&"New-Speaker".to_owned()), None);
}

#[test]
fn offers_become_events() {
    let speaker: Result<Ev, Unreadable> = speaker_offer(&msg("x", OFFER), 7);
    assert_eq!(speaker.unwrap(), ev("speaker-offer", AppStateEvKind::StrSDPTx(alice(), offered(), 7)));
    let listener: Result<Ev, Unreadable> = listener_offer(&msg("x", OFFER), 8);
    assert_eq!(listener.unwrap(), ev("listener-offer", AppStateEvKind::StrSDPTx(alice(), offered(), 8)));
    let bad: Result<Ev, Unreadable> = speaker_offer(&msg("x", "o"), 7);
    assert!(bad.is_err());
    let bad: Result<Ev, Unreadable> = listener_offer(&msg("x", ""), 7);
    assert!(bad.is_err());
}

#[test]
fn answers_become_events() {
    let speaker: Result<Ev, Unreadable> = speaker_answer(&msg("x", ANSWER));
    assert_eq!(speaker.unwrap(), ev("speaker-answer", AppStateEvKind::StrSDP(alice(), answered())));
    let listener: Result<Ev, Unreadable> = listener_answer(&msg("x", ANSWER));
    assert_eq!(listener.unwrap(), ev("listener-answer", AppStateEvKind::StrSDP(alice(), answered())));
    let bad: Result<Ev, Unreadable> = speaker_answer(&msg("x", "{}"));
    assert!(bad.is_err());
    let bad: Result<Ev, Unreadable> = listener_answer(&msg("x", "null"));
    assert!(bad.is_err());
}

#[test]
fn cause_of_an_unread_description_is_kept() {
    let offer: Result<Ev, u8> = offer_event(Action::SpeakerOffer, alice(), Err(4), 7);
    assert_eq!(offer, Err(4));
    let answer: Result<Ev, u8> = answer_event(Action::SpeakerAnswer, alice(), Err(5));
    assert_eq!(answer, Err(5));
    let offer: Result<Ev, u8> = offer_event(Action::ListenerOffer, alice(), Ok(offered()), 7);
    assert_eq!(offer, Ok(ev("listener-offer", AppStateEvKind::StrSDPTx(alice(), offered(), 7))));
}

#[test]
fn candidate_is_kept_as_it_came() {
    let e: Ev = new_ice_candidate(&msg("x", "not json"));
    assert_eq!(e, ev("ice-candidate", AppStateEvKind::Str2(alice(), "not json".to_owned())));
}

#[test]
fn messages_are_routed_by_their_name() {
    for name in ["speaker-offer", "listener-offer"] {
        let e: Result<Option<Ev>, Unreadable> = route(&msg(name, OFFER), 7);
        assert_eq!(e.unwrap(), Some(ev(name, AppStateEvKind::StrSDPTx(alice(), offered(), 7))));
        let e: Result<Option<Ev>, Unreadable> = route(&msg(name, "?"), 7);
        assert!(e.is_err());
    }
    for name in ["speaker-answer", "listener-answer"] {
        let e: Result<Option<Ev>, Unreadable> = route(&msg(name, ANSWER), 7);
        assert_eq!(e.unwrap(), Some(ev(name, AppStateEvKind::StrSDP(alice(), answered()))));
        let e: Result<Option<Ev>, Unreadable> = route(&msg(name, "?"), 7);
        assert!(e.is_err());
    }
    let e: Result<Option<Ev>, Unreadable> = route(&msg("ice-candidate", "c"), 7);
    assert_eq!(e.unwrap(), Some(ev("ice-candidate", AppStateEvKind::Str2(alice(), "c".to_owned()))));
}

#[test]
fn peers_cannot_admit_or_remove() {
    for name in [
        "new-speaker",
        "add-speaker-track",
        "remove-speaker",
        "new-listener",
        "remove-listener",
        "signal-sender",
        "offer",
        "",
    ] {
        let e: Result<Option<Ev>, Unreadable> = route(&msg(name, OFFER), 7);
        assert_eq!(e.unwrap(), None);
    }
}

#[test]
fn socket_is_read_until_something_else_than_text() {
    let s: SocketStep<u8, u8, u32, u8> = on_frame(Frame::Message(msg("ice-candidate", "c")), 7);
    match s {
        SocketStep::Forward(e) => {
            assert_eq!(e, ev("ice-candidate", AppStateEvKind::Str2(alice(), "c".to_owned())));
        }
        _ => panic!("{:?}", s),
    }
    let s: SocketStep<u8, u8, u32, u8> = on_frame(Frame::Message(msg("speaker-offer", "?")), 7);
    match s {
        SocketStep::Note(u) => assert_eq!(u.cause.to_string(), "expected value at line 1 column 1"),
        _ => panic!("{:?}", s),
    }
    let s: SocketStep<u8, u8, u32, u8> = on_frame(Frame::Message(msg("hello", "")), 7);
    assert!(matches!(s, SocketStep::Skip));
    let s: SocketStep<u8, u8, u32, u8> = on_frame(Frame::Malformed, 7);
    assert!(matches!(s, SocketStep::Skip));
    let s: SocketStep<u8, u8, u32, u8> = on_frame(Frame::Other, 7);
    assert!(matches!(s, SocketStep::Stop));
}
