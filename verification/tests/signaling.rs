use radio::signaling::{
    applies_answer, handle_negotiation_needed, set_offer, Call, Negotiation, Next, Outcome,
    SetOffer, SignalingState,
};
use radio::wire::{Failure, SdpType, SessionDescription};

fn description(sdp_type: SdpType, sdp: &str) -> SessionDescription {
    SessionDescription { sdp_type, sdp: sdp.to_owned() }
}

fn offer() -> SessionDescription {
    description(SdpType::Offer, "o")
}

fn answer() -> SessionDescription {
    description(SdpType::Answer, "a")
}

fn local() -> SessionDescription {
    description(SdpType::Answer, "l")
}

fn answer_text() -> String {
    "{\"ev\":\"answer\",\"id\":\"al\",\"data\":\"{\\\"type\\\":\\\"answer\\\",\\\"sdp\\\":\\\"l\\\"}\"}"
        .to_owned()
}

fn run(outcomes: Vec<Outcome<u8>>) -> Vec<Next<u8>> {
    let (mut state, next) = set_offer("al".to_owned(), offer());
    let mut asked = vec![next];
    for o in outcomes {
        let (s, next) = state.advance(o);
        state = s;
        asked.push(next);
    }
    asked
}

fn negotiate(outcomes: Vec<Outcome<u8>>) -> Vec<Option<Call>> {
    let (mut state, call) = handle_negotiation_needed("al".to_owned());
    let mut asked = vec![call];
    for o in outcomes {
        let (s, call) = state.advance(o);
        state = s;
        asked.push(call);
    }
    asked
}

fn went_well() -> Vec<Outcome<u8>> {
    vec![
        Outcome::Signaling(SignalingState::Stable),
        Outcome::Done(Ok(())),
        Outcome::Created(Ok(answer())),
        Outcome::Done(Ok(())),
        Outcome::Local(Some(local())),
        Outcome::Done(Ok(())),
    ]
}

#[test]
fn offer_is_answered_on_a_stable_connection() {
    assert_eq!(
        run(went_well()),
        vec![
            Next::Call(Call::ReadSignalingState),
            Next::Call(Call::SetRemote(offer())),
            Next::Call(Call::CreateAnswer),
            Next::Call(Call::SetLocal(answer())),
            Next::Call(Call::ReadLocal),
            Next::Call(Call::Send(answer_text())),
            Next::Finished(Ok(())),
        ]
    );
}

#[test]
fn other_states_are_rolled_back_first() {
    for state in [
        SignalingState::Unspecified,
        SignalingState::HaveLocalOffer,
        SignalingState::HaveRemoteOffer,
        SignalingState::HaveLocalPranswer,
        SignalingState::HaveRemotePranswer,
        SignalingState::Closed,
    ] {
        let asked = run(vec![Outcome::Signaling(state), Outcome::Done(Ok(())), Outcome::Done(Ok(()))]);
        assert_eq!(
            asked,
            vec![
                Next::Call(Call::ReadSignalingState),
                Next::Call(Call::SetLocal(description(SdpType::Rollback, ""))),
                Next::Call(Call::SetRemote(offer())),
                Next::Call(Call::CreateAnswer),
            ]
        );
    }
}

#[test]
fn rolled_back_connection_answers_too() {
    let mut outcomes = vec![Outcome::Signaling(SignalingState::HaveLocalOffer), Outcome::Done(Ok(()))];
    outcomes.extend(went_well().into_iter().skip(1));
    let asked = run(outcomes);
    assert_eq!(asked[6], Next::Call(Call::Send(answer_text())));
    assert_eq!(asked[7], Next::Finished(Ok(())));
}

#[test]
fn any_failed_call_ends_the_answering() {
    for n in 1..6 {
        let mut outcomes: Vec<Outcome<u8>> = went_well().into_iter().take(n).collect();
        let failed = match n {
            2 => Outcome::Created(Err(6)),
            4 => Outcome::Local(None),
            _ => Outcome::Done(Err(6)),
        };
        outcomes.push(failed);
        let expected = if n == 4 { Failure::NoLocalDescription } else { Failure::Outside(6) };
        assert_eq!(run(outcomes).pop(), Some(Next::Finished(Err(expected))));
    }
    let rollback = vec![Outcome::Signaling(SignalingState::Closed), Outcome::Done(Err(6))];
    assert_eq!(run(rollback).pop(), Some(Next::Finished(Err(Failure::Outside(6)))));
}

#[test]
fn unexpected_outcome_ends_the_answering() {
    assert_eq!(
        SetOffer::Sending.advance::<u8>(Outcome::Local(None)),
        (SetOffer::Finished, Next::Finished(Err(Failure::Unexpected)))
    );
    assert_eq!(
        SetOffer::Finished.advance::<u8>(Outcome::Done(Ok(()))),
        (SetOffer::Finished, Next::Finished(Err(Failure::Unexpected)))
    );
}

#[test]
fn own_offer_is_sent_from_a_stable_connection() {
    let made = description(SdpType::Offer, "m");
    let here = description(SdpType::Offer, "h");
    assert_eq!(
        negotiate(vec![
            Outcome::Created(Ok(description(SdpType::Offer, "m"))),
            Outcome::Signaling(SignalingState::Stable),
            Outcome::Done(Ok(())),
            Outcome::Local(Some(here)),
            Outcome::Done(Err(6)),
        ]),
        vec![
            Some(Call::CreateOffer),
            Some(Call::ReadSignalingState),
            Some(Call::SetLocal(made)),
            Some(Call::ReadLocal),
            Some(Call::Send(
                "{\"ev\":\"offer\",\"id\":\"al\",\"data\":\"{\\\"type\\\":\\\"offer\\\",\
                 \\\"sdp\\\":\\\"h\\\"}\"}"
                    .to_owned()
            )),
            None,
        ]
    );
}

#[test]
fn own_offer_is_dropped_silently() {
    assert_eq!(negotiate(vec![Outcome::Created(Err(6))]).pop(), Some(None));
    for state in [SignalingState::HaveLocalOffer, SignalingState::Closed] {
        let asked = negotiate(vec![Outcome::Created(Ok(offer())), Outcome::Signaling(state)]);
        assert_eq!(asked.len(), 3);
        assert_eq!(asked[2], None);
    }
    let (n, call) = Negotiation::SettingLocal { id: "al".to_owned() }.advance(Outcome::Done(Err(6)));
    assert_eq!((n, call), (Negotiation::Finished, None));
    let (n, call) = Negotiation::ReadingLocal { id: "al".to_owned() }.advance::<u8>(Outcome::Local(None));
    assert_eq!((n, call), (Negotiation::Finished, None));
}

#[test]
fn answer_is_for_a_connection_that_waits() {
    assert!(!applies_answer(SignalingState::Stable));
    assert!(applies_answer(SignalingState::HaveLocalOffer));
    assert!(applies_answer(SignalingState::Closed));
    assert!(applies_answer(SignalingState::Unspecified));
}
