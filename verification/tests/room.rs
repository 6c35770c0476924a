use radio::event::{AppStateEv, AppStateEvKind};
use radio::join::{
    leave_event, new_listener_event, new_speaker_event, signal_sender_event, speaker_track_event,
};
use radio::room::{keep_candidate, read_candidates, AppState, Attach, Role, Step, MAX_SPEAKERS};
use radio::roster::Roster;
use radio::track::LocalTrack;
use radio::wire::{IceCandidateInit, SdpType, SessionDescription};

type Room = AppState<u8, u8, u32>;
type Ev = AppStateEv<u8, u8, u32, u16>;
type Work = Step<u8, u32, u16>;

fn s(t: &str) -> String {
    t.to_owned()
}

fn track(id: &str) -> LocalTrack<u8> {
    LocalTrack { id: s(id), handle: 0 }
}

fn offer() -> SessionDescription {
    SessionDescription { sdp_type: SdpType::Offer, sdp: s("o") }
}

fn event(action: &str, data: AppStateEvKind<u8, u8, u32, u16>) -> Ev {
    AppStateEv { action: s(action), data }
}

fn speak(room: &mut Room, id: &str, conn: u8) -> Work {
    let ev: Ev = new_speaker_event(s(id), conn, 0);
    room.handle(ev)
}

fn listen(room: &mut Room, id: &str, conn: u8) -> Work {
    let ev: Ev = new_listener_event(s(id), conn);
    room.handle(ev)
}

fn add_track(room: &mut Room, id: &str, name: &str) -> Work {
    let ev: Ev = speaker_track_event(s(id), track(name));
    room.handle(ev)
}

fn leave(room: &mut Room, role: Role, id: &str) -> Work {
    let ev: Ev = leave_event(role, s(id));
    room.handle(ev)
}

fn announce(room: &mut Room, id: &str, candidate: &str) -> Work {
    room.handle(event("ice-candidate", AppStateEvKind::Str2(s(id), s(candidate))))
}

fn reachable() -> Room {
    let mut room = Room::new();
    let ev: Ev = signal_sender_event(7);
    assert_eq!(room.handle(ev), Step::Nothing);
    room
}

fn plan(attaches: Vec<Attach<u8, u8>>) -> Vec<(String, u8, String)> {
    attaches.iter().map(|a| (a.peer.clone(), *a.conn, a.track.id.clone())).collect()
}

#[test]
fn roster_keeps_the_order_of_entry() {
    let mut r: Roster<u8> = Roster::new();
    assert_eq!(r.len(), 0);
    r.insert(s("b"), 1);
    r.insert(s("a"), 2);
    r.insert(s("b"), 3);
    assert_eq!(r.len(), 2);
    assert_eq!((r.key_at(0).as_str(), *r.value_at(0)), ("b", 3));
    assert_eq!((r.key_at(1).as_str(), *r.value_at(1)), ("a", 2));
    assert_eq!(r.get(&s("a")), Some(&2));
    assert_eq!(r.get(&s("c")), None);
    assert!(r.contains_key(&s("b")));
    *r.get_mut(&s("a")).unwrap() = 5;
    assert_eq!(r.get_mut(&s("c")), None);
    assert_eq!(r.remove(&s("b")), Some(3));
    assert_eq!(r.remove(&s("b")), None);
    assert_eq!((r.len(), r.key_at(0).as_str(), *r.value_at(0)), (1, "a", 5));
}

#[test]
fn new_room_is_empty() {
    let room = Room::new();
    assert_eq!(room.max_speakers, 5);
    assert_eq!(MAX_SPEAKERS, 5);
    assert_eq!(room.all_conns().len(), 0);
    assert_eq!(room.tx, None);
}

#[test]
fn sixth_speaker_is_refused() {
    let mut room = Room::new();
    for (i, id) in ["a", "b", "c", "d", "e"].iter().enumerate() {
        assert_eq!(speak(&mut room, id, i as u8), Step::AdmitSpeaker { id: s(id), reply: 0 });
    }
    let work = speak(&mut room, "f", 9);
    assert_eq!(work, Step::RefuseSpeaker { reply: 0 });
    assert!(work.ends_room());
    assert_eq!(room.conn(Role::Speaker, &s("f")), None);
    assert_eq!(room.speaker_conns.len(), 5);
    assert!(room.over);
}

fn full_room() -> Room {
    let mut room = reachable();
    for (i, id) in ["a", "b", "c", "d", "e"].iter().enumerate() {
        speak(&mut room, id, i as u8);
    }
    room
}

#[test]
fn known_speaker_of_a_full_room_is_refused_too() {
    let mut room = full_room();
    assert_eq!(speak(&mut room, "a", 9), Step::RefuseSpeaker { reply: 0 });
    assert_eq!(room.conn(Role::Speaker, &s("a")), Some(&0));
}

#[test]
fn full_room_takes_listeners_and_whoever_follows_one_who_left() {
    let mut room = full_room();
    assert!(!listen(&mut room, "f", 9).ends_room());
    assert_eq!(room.conn(Role::Listener, &s("f")), Some(&9));
    leave(&mut room, Role::Speaker, "c");
    assert_eq!(speak(&mut room, "f", 9), Step::AdmitSpeaker { id: s("f"), reply: 0 });
    assert!(!room.over);
}

#[test]
fn nothing_happens_behind_a_refusal() {
    let mut room = full_room();
    listen(&mut room, "l", 8);
    speak(&mut room, "f", 9);
    assert_eq!(leave(&mut room, Role::Listener, "l"), Step::Nothing);
    assert_eq!(leave(&mut room, Role::Speaker, "a"), Step::Nothing);
    assert_eq!(speak(&mut room, "g", 9), Step::Nothing);
    assert_eq!(add_track(&mut room, "a", "a-1"), Step::Nothing);
    assert_eq!(announce(&mut room, "a", "1"), Step::Nothing);
    assert_eq!(room.conn(Role::Listener, &s("l")), Some(&8));
    assert_eq!(room.all_conns(), vec![&0, &1, &2, &3, &4, &8]);
    assert_eq!(room.take_ice_candidates(Role::Speaker, &s("a")), Vec::<String>::new());
    assert_eq!(room.newest_track(&s("a")), None);
}

#[test]
fn candidates_that_wait_are_taken_from_a_room_that_is_over() {
    let mut room = full_room();
    announce(&mut room, "a", "1");
    speak(&mut room, "f", 9);
    assert_eq!(room.take_ice_candidates(Role::Speaker, &s("a")), vec![s("1")]);
}

#[test]
fn replaced_connection_is_not_in_the_room() {
    let mut room = reachable();
    listen(&mut room, "l", 1);
    listen(&mut room, "l", 2);
    assert_eq!(room.all_conns(), vec![&2]);
}

#[test]
fn known_speaker_with_a_seat_left_gets_the_new_connection() {
    let mut room = Room::new();
    speak(&mut room, "a", 1);
    speak(&mut room, "a", 2);
    assert_eq!(room.speaker_conns.len(), 1);
    assert_eq!(room.conn(Role::Speaker, &s("a")), Some(&2));
}

#[test]
fn offers_meet_the_connection() {
    let mut room = Room::new();
    for (role, action) in [(Role::Speaker, "speaker-offer"), (Role::Listener, "listener-offer")] {
        let first = room.handle(event(action, AppStateEvKind::StrSDPTx(s("a"), offer(), 3)));
        assert_eq!(first, Step::Connect { role, id: s("a"), offer: offer(), tx: 3 });
        match role {
            Role::Speaker => speak(&mut room, "a", 1),
            Role::Listener => listen(&mut room, "a", 1),
        };
        speak(&mut room, "b", 2);
        announce(&mut room, "a", "1");
        leave(&mut room, role, "b");
        let second = room.handle(event(action, AppStateEvKind::StrSDPTx(s("a"), offer(), 3)));
        assert_eq!(second, Step::SetOffer { role, id: s("a"), offer: offer(), tx: 3 });
    }
}

#[test]
fn answers_are_for_known_peers() {
    let mut room = Room::new();
    for (role, action) in [(Role::Speaker, "speaker-answer"), (Role::Listener, "listener-answer")] {
        let early = room.handle(event(action, AppStateEvKind::StrSDP(s("a"), offer())));
        assert_eq!(early, Step::Nothing);
        match role {
            Role::Speaker => speak(&mut room, "a", 1),
            Role::Listener => listen(&mut room, "a", 1),
        };
        let late = room.handle(event(action, AppStateEvKind::StrSDP(s("a"), offer())));
        assert_eq!(late, Step::SetAnswer { role, id: s("a"), answer: offer() });
    }
}

#[test]
fn what_is_not_understood_is_ignored() {
    let mut room = reachable();
    speak(&mut room, "a", 1);
    assert_eq!(room.handle(event("hello", AppStateEvKind::Str(s("a")))), Step::Nothing);
    assert_eq!(room.handle(event("remove-speaker", AppStateEvKind::Tx(1))), Step::Nothing);
    assert_eq!(room.handle(event("new-speaker", AppStateEvKind::StrConn(s("b"), 2))), Step::Nothing);
    assert_eq!(room.speaker_conns.len(), 1);
    assert_eq!(room.tx, Some(7));
}

#[test]
fn everyone_hears_everyone_else() {
    let mut room = reachable();
    speak(&mut room, "a", 1);
    speak(&mut room, "b", 2);
    listen(&mut room, "l", 3);
    assert_eq!(add_track(&mut room, "a", "a-1"), Step::ShareTrack { id: s("a") });
    assert_eq!(room.newest_track(&s("a")), Some(&track("a-1")));
    assert_eq!(
        plan(room.distribute_track_speakers(&s("a"), &track("a-1"))),
        vec![(s("b"), 2, s("a-1"))]
    );
    assert_eq!(plan(room.add_track_to_listeners(&track("a-1"))), vec![(s("l"), 3, s("a-1"))]);
    assert_eq!(
        plan(room.share_track(&s("a"))),
        vec![(s("b"), 2, s("a-1")), (s("l"), 3, s("a-1"))]
    );
    add_track(&mut room, "b", "b-1");
    add_track(&mut room, "a", "a-2");
    assert_eq!(room.newest_track(&s("a")), Some(&track("a-2")));
    assert_eq!(listen(&mut room, "m", 4), Step::AdmitListener { id: s("m") });
    assert_eq!(
        plan(room.add_tracks_to_listener(&s("m"))),
        vec![(s("m"), 4, s("a-1")), (s("m"), 4, s("a-2")), (s("m"), 4, s("b-1"))]
    );
    speak(&mut room, "c", 5);
    assert_eq!(
        plan(room.distribute_tracks_speaker(&s("c"))),
        vec![(s("c"), 5, s("a-1")), (s("c"), 5, s("a-2")), (s("c"), 5, s("b-1"))]
    );
    assert_eq!(plan(room.distribute_tracks_speaker(&s("a"))), vec![(s("a"), 1, s("b-1"))]);
}

#[test]
fn tracks_that_count_as_a_speakers_own_are_left_out() {
    let mut room = reachable();
    add_track(&mut room, "ab", "ab-1");
    add_track(&mut room, "b", "b-1");
    speak(&mut room, "a", 1);
    assert_eq!(plan(room.distribute_tracks_speaker(&s("a"))), vec![(s("a"), 1, s("b-1"))]);
}

#[test]
fn nothing_is_planned_while_nobody_can_be_reached() {
    let mut room = Room::new();
    speak(&mut room, "a", 1);
    speak(&mut room, "b", 2);
    listen(&mut room, "l", 3);
    room.add_speaker_track(s("a"), track("a-1"));
    assert_eq!(plan(room.distribute_track_speakers(&s("a"), &track("a-1"))), vec![]);
    assert_eq!(plan(room.add_track_to_listeners(&track("a-1"))), vec![]);
    assert_eq!(plan(room.add_tracks_to_listener(&s("l"))), vec![]);
    assert_eq!(plan(room.distribute_tracks_speaker(&s("b"))), vec![]);
    assert_eq!(plan(room.share_track(&s("a"))), vec![]);
}

#[test]
fn nothing_is_planned_for_the_unknown() {
    let mut room = reachable();
    add_track(&mut room, "a", "a-1");
    assert_eq!(plan(room.add_tracks_to_listener(&s("l"))), vec![]);
    assert_eq!(plan(room.distribute_tracks_speaker(&s("b"))), vec![]);
    assert_eq!(plan(room.share_track(&s("b"))), vec![]);
    assert_eq!(room.newest_track(&s("b")), None);
}

#[test]
fn one_who_leaves_takes_the_own_tracks_along() {
    let mut room = reachable();
    speak(&mut room, "a", 1);
    speak(&mut room, "b", 2);
    listen(&mut room, "l", 3);
    add_track(&mut room, "a", "a-1");
    add_track(&mut room, "b", "b-1");
    assert_eq!(
        leave(&mut room, Role::Speaker, "a"),
        Step::RemoveSpeaker { id: s("a"), closing: Some(1) }
    );
    assert_eq!(room.conn(Role::Speaker, &s("a")), None);
    assert_eq!(room.newest_track(&s("a")), None);
    assert_eq!(room.all_conns(), vec![&2, &3]);
    assert_eq!(plan(room.add_tracks_to_listener(&s("l"))), vec![(s("l"), 3, s("b-1"))]);
    assert_eq!(
        leave(&mut room, Role::Speaker, "a"),
        Step::RemoveSpeaker { id: s("a"), closing: None }
    );
    assert_eq!(leave(&mut room, Role::Listener, "l"), Step::CloseListener { conn: 3 });
    assert_eq!(leave(&mut room, Role::Listener, "l"), Step::Nothing);
    assert_eq!(room.all_conns(), vec![&2]);
}

#[test]
fn candidates_reach_the_connection_in_order_once() {
    let mut room = Room::new();
    assert_eq!(announce(&mut room, "a", "1"), Step::Nothing);
    announce(&mut room, "b", "x");
    announce(&mut room, "a", "2");
    assert_eq!(room.take_ice_candidates(Role::Speaker, &s("a")), Vec::<String>::new());
    speak(&mut room, "a", 1);
    assert_eq!(room.take_ice_candidates(Role::Listener, &s("a")), Vec::<String>::new());
    announce(&mut room, "a", "3");
    assert_eq!(room.take_ice_candidates(Role::Speaker, &s("a")), vec![s("1"), s("2"), s("3")]);
    assert_eq!(room.take_ice_candidates(Role::Speaker, &s("a")), Vec::<String>::new());
    announce(&mut room, "a", "4");
    assert_eq!(room.take_ice_candidates(Role::Speaker, &s("a")), vec![s("4")]);
    listen(&mut room, "b", 2);
    assert_eq!(room.take_ice_candidates(Role::Listener, &s("b")), vec![s("x")]);
    assert_eq!(room.take_ice_candidates(Role::Listener, &s("c")), Vec::<String>::new());
}

#[test]
fn candidates_wait_for_one_who_left() {
    let mut room = Room::new();
    speak(&mut room, "a", 1);
    leave(&mut room, Role::Speaker, "a");
    announce(&mut room, "a", "1");
    assert_eq!(room.take_ice_candidates(Role::Speaker, &s("a")), Vec::<String>::new());
    speak(&mut room, "a", 2);
    assert_eq!(room.take_ice_candidates(Role::Speaker, &s("a")), vec![s("1")]);
}

fn init(candidate: &str) -> IceCandidateInit {
    IceCandidateInit {
        candidate: s(candidate),
        sdp_mid: None,
        sdp_mline_index: None,
        username_fragment: None,
    }
}

#[test]
fn unreadable_candidates_are_dropped() {
    let queue = vec![s("{\"candidate\":\"1\"}"), s("?"), s("{\"candidate\":\"2\"}")];
    assert_eq!(read_candidates(queue), vec![init("1"), init("2")]);
    let mut kept = vec![init("1")];
    keep_candidate(&mut kept, Err(1u8));
    assert_eq!(kept, vec![init("1")]);
    keep_candidate::<u8>(&mut kept, Ok(init("2")));
    assert_eq!(kept, vec![init("1"), init("2")]);
}

#[test]
fn candidates_are_read_for_either_side() {
    let mut room = Room::new();
    speak(&mut room, "a", 1);
    announce(&mut room, "a", "{\"candidate\":\"1\"}");
    announce(&mut room, "a", "?");
    assert_eq!(room.add_listener_ice_candidates(&s("a")), vec![]);
    assert_eq!(room.add_ice_candidates(&s("a")), vec![init("1")]);
    assert_eq!(room.add_ice_candidates(&s("a")), vec![]);
    listen(&mut room, "l", 2);
    announce(&mut room, "l", "{\"candidate\":\"3\"}");
    assert_eq!(room.add_ice_candidates(&s("l")), vec![]);
    assert_eq!(room.add_listener_ice_candidates(&s("l")), vec![init("3")]);
}
