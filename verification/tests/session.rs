use radio::event::{AppStateEv, AppStateEvKind, Frame, SocketStep};
use radio::join::signal_sender_event;
use radio::session::{stopped_with, Half, Session};
use radio::wire::Msg;

type Ev = AppStateEv<u8, u8, u32, u8>;
type Done = SocketStep<u8, u8, u32, u8>;

fn candidate() -> Frame {
    Frame::Message(Msg {
        ev: "ice-candidate".to_owned(),
        id: "al".to_owned(),
        data: "c".to_owned(),
    })
}

#[test]
fn session_opens_with_the_way_to_its_peer() {
    let (_, opening): (Session, Ev) = Session::open(7);
    assert_eq!(opening, signal_sender_event(7));
    assert_eq!(
        opening,
        AppStateEv { action: "signal-sender".to_owned(), data: AppStateEvKind::Tx(7) }
    );
}

#[test]
fn session_hands_on_until_it_stops() {
    let (mut session, _): (Session, Ev) = Session::open(7);
    let step: Done = session.receive(candidate(), 7);
    match step {
        SocketStep::Forward(e) => assert_eq!(
            e.data,
            AppStateEvKind::Str2("al".to_owned(), "c".to_owned())
        ),
        _ => panic!("{:?}", step),
    }
    let step: Done = session.receive(Frame::Malformed, 7);
    assert!(matches!(step, SocketStep::Skip));
    let step: Done = session.receive(candidate(), 7);
    assert!(matches!(step, SocketStep::Forward(_)));
    let step: Done = session.receive(Frame::Other, 7);
    assert!(matches!(step, SocketStep::Stop));
    let step: Done = session.receive(candidate(), 7);
    assert!(matches!(step, SocketStep::Stop));
}

#[test]
fn session_ignores_a_second_opening() {
    let (mut session, _): (Session, Ev) = Session::open(7);
    let again = Msg { ev: "signal-sender".to_owned(), id: "al".to_owned(), data: String::new() };
    let step: Done = session.receive(Frame::Message(again), 7);
    assert!(matches!(step, SocketStep::Skip));
}

#[test]
fn halves_end_together() {
    assert_eq!(stopped_with(Half::Reading), Half::Writing);
    assert_eq!(stopped_with(Half::Writing), Half::Reading);
}
