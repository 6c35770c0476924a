use radio::event::{AppStateEv, AppStateEvKind};
use radio::join::{
    announcement, leave_event, new_listener_event, new_listener_with_offer, new_peer_conn_with_offer,
    new_speaker_event, on_peer_connection_state_change, signal_sender_event, speaker_track_event,
    watches_tracks, Join, JoinCall, JoinNext, JoinOutcome, PeerState, Reaction,
};
use radio::room::Role;
use radio::track::LocalTrack;
use radio::wire::{Failure, SdpType, SessionDescription};

type Ev = AppStateEv<u8, u8, u32, u16>;

fn al() -> String {
    "al".to_owned()
}

fn offer() -> SessionDescription {
    SessionDescription { sdp_type: SdpType::Offer, sdp: "o".to_owned() }
}

fn run(role: Role, outcomes: Vec<JoinOutcome<u8>>) -> Vec<JoinNext<u8>> {
    let (mut state, next) = match role {
        Role::Speaker => new_peer_conn_with_offer(al(), offer()),
        Role::Listener => new_listener_with_offer(al(), offer()),
    };
    let mut asked = vec![next];
    for o in outcomes {
        let (s, next) = state.advance(o);
        state = s;
        asked.push(next);
    }
    asked
}

const DONE: JoinOutcome<u8> = JoinOutcome::Done(Ok(()));
const ANSWERED: JoinOutcome<u8> = JoinOutcome::OfferSet(Ok(()));

#[test]
fn speaker_comes_in() {
    let outcomes =
        vec![DONE, DONE, JoinOutcome::Admission(Some(true)), ANSWERED, DONE, JoinOutcome::Track(true), DONE];
    assert_eq!(
        run(Role::Speaker, outcomes),
        vec![
            JoinNext::Call(JoinCall::Build),
            JoinNext::Call(JoinCall::Announce { role: Role::Speaker, id: al() }),
            JoinNext::Call(JoinCall::AskAdmission),
            JoinNext::Call(JoinCall::SetOffer { id: al(), offer: offer() }),
            JoinNext::Call(JoinCall::InstallHandlers { role: Role::Speaker, id: al() }),
            JoinNext::Call(JoinCall::AwaitTrack),
            JoinNext::Call(JoinCall::Publish { id: al() }),
            JoinNext::Finished(Ok(())),
        ]
    );
}

#[test]
fn speaker_is_in_without_a_track_and_whatever_the_announcement() {
    let before = || vec![DONE, DONE, JoinOutcome::Admission(None), ANSWERED, DONE];
    let mut silent = before();
    silent.push(JoinOutcome::Track(false));
    assert_eq!(run(Role::Speaker, silent).pop(), Some(JoinNext::Finished(Ok(()))));
    let mut unheard = before();
    unheard.push(JoinOutcome::Track(true));
    unheard.push(JoinOutcome::Done(Err(6)));
    assert_eq!(run(Role::Speaker, unheard).pop(), Some(JoinNext::Finished(Ok(()))));
}

#[test]
fn refused_speaker_stays_out() {
    let asked = run(Role::Speaker, vec![DONE, DONE, JoinOutcome::Admission(Some(false))]);
    assert_eq!(asked.len(), 4);
    assert_eq!(asked[3], JoinNext::Finished(Err(Failure::SpeakersExceeded)));
}

#[test]
fn listener_comes_in() {
    assert_eq!(
        run(Role::Listener, vec![DONE, DONE, ANSWERED, DONE]),
        vec![
            JoinNext::Call(JoinCall::Build),
            JoinNext::Call(JoinCall::Announce { role: Role::Listener, id: al() }),
            JoinNext::Call(JoinCall::SetOffer { id: al(), offer: offer() }),
            JoinNext::Call(JoinCall::InstallHandlers { role: Role::Listener, id: al() }),
            JoinNext::Finished(Ok(())),
        ]
    );
}

#[test]
fn failed_work_ends_the_joining() {
    for role in [Role::Speaker, Role::Listener] {
        assert_eq!(
            run(role, vec![JoinOutcome::Done(Err(6))]),
            vec![
                JoinNext::Call(JoinCall::Build),
                JoinNext::Finished(Err(Failure::Outside(6))),
            ]
        );
        assert_eq!(
            run(role, vec![DONE, JoinOutcome::Done(Err(7))]).pop(),
            Some(JoinNext::Finished(Err(Failure::Outside(7))))
        );
    }
    let f = JoinOutcome::OfferSet(Err(Failure::Outside(8)));
    assert_eq!(
        run(Role::Speaker, vec![DONE, DONE, JoinOutcome::Admission(None), f]).pop(),
        Some(JoinNext::Finished(Err(Failure::Outside(8))))
    );
    let f = JoinOutcome::OfferSet(Err(Failure::NoLocalDescription));
    assert_eq!(
        run(Role::Listener, vec![DONE, DONE, f]).pop(),
        Some(JoinNext::Finished(Err(Failure::NoLocalDescription)))
    );
    assert_eq!(
        Join::Finished.advance(DONE),
        (Join::Finished, JoinNext::Finished(Err(Failure::Unexpected)))
    );
}

#[test]
fn events_of_the_server() {
    let e: Ev = new_speaker_event(al(), 1, 2);
    assert_eq!(
        e,
        AppStateEv { action: "new-speaker".to_owned(), data: AppStateEvKind::StrConnTx(al(), 1, 2) }
    );
    let e: Ev = new_listener_event(al(), 1);
    assert_eq!(
        e,
        AppStateEv { action: "new-listener".to_owned(), data: AppStateEvKind::StrConn(al(), 1) }
    );
    let e: Ev = speaker_track_event(al(), LocalTrack { id: "al-1".to_owned(), handle: 9 });
    assert_eq!(
        e,
        AppStateEv {
            action: "add-speaker-track".to_owned(),
            data: AppStateEvKind::StrTrack(al(), LocalTrack { id: "al-1".to_owned(), handle: 9 }),
        }
    );
    let e: Ev = signal_sender_event(5);
    assert_eq!(e, AppStateEv { action: "signal-sender".to_owned(), data: AppStateEvKind::Tx(5) });
    let e: Ev = leave_event(Role::Speaker, al());
    assert_eq!(e, AppStateEv { action: "remove-speaker".to_owned(), data: AppStateEvKind::Str(al()) });
    let e: Ev = leave_event(Role::Listener, al());
    assert_eq!(e, AppStateEv { action: "remove-listener".to_owned(), data: AppStateEvKind::Str(al()) });
}

#[test]
fn announcement_and_watching_go_by_role() {
    let e: Ev = announcement(Role::Speaker, al(), 1, 2);
    assert_eq!(e, new_speaker_event(al(), 1, 2));
    let e: Ev = announcement(Role::Listener, al(), 1, 2);
    assert_eq!(e, new_listener_event(al(), 1));
    assert!(watches_tracks(Role::Speaker));
    assert!(!watches_tracks(Role::Listener));
}

#[test]
fn reactions_to_the_connection() {
    for (state, reaction) in [
        (PeerState::Unspecified, Reaction::Nothing),
        (PeerState::New, Reaction::Nothing),
        (PeerState::Connecting, Reaction::Nothing),
        (PeerState::Connected, Reaction::Nothing),
        (PeerState::Disconnected, Reaction::Leave),
        (PeerState::Failed, Reaction::Renegotiate),
        (PeerState::Closed, Reaction::Leave),
    ] {
        assert_eq!(on_peer_connection_state_change(state), reaction);
    }
}
