//! A peer's socket from its opening to its end.
//!
//! Opening it tells the room how the peer is reached; only then are frames
//! read. Whichever half of the socket ends first takes the other one along.
use vstd::prelude::*;

use crate::event::{
    action_of, event_of, frame_becomes, law_action_read_back, law_peers_send_peer_events, on_frame,
    particulars, peer_action, Action, AppStateEv, EvKindModel, EvModel, Frame, SocketStep,
};
use crate::join::signal_sender_event;
use crate::wire::parsed_description;

verus! {

/// An open socket, and whether frames are still read from it.
#[derive(Debug, PartialEq, Eq)]
pub struct Session {
    reading: bool,
}

impl Session {
    pub closed spec fn is_reading(&self) -> bool {
        self.reading
    }

    /// Opens a session: the room is told of the way to the peer, and reading
    /// begins.
    pub fn open<C, T, S, R>(tx: S) -> (r: (Session, AppStateEv<C, T, S, R>))
        ensures
            r.0.is_reading(),
            r.1@ == opening::<C, T, S, R>(tx),
    {
        (Session { reading: true }, signal_sender_event(tx))
    }

    /// Decides what is done about a frame; once the reading has stopped, nothing
    /// is.
    pub fn receive<C, T, S, R>(&mut self, frame: Frame, tx: S) -> (r: SocketStep<C, T, S, R>)
        ensures
            received(old(self).is_reading(), frame, tx, r),
            final(self).is_reading() == (r !is Stop),
    {
        if !self.reading {
            return SocketStep::Stop;
        }
        let step = on_frame(frame, tx);
        if let SocketStep::Stop = &step {
            self.reading = false;
        }
        step
    }
}

/// The event that opens a session.
pub open spec fn opening<C, T, S, R>(tx: S) -> EvModel<C, T, S, R> {
    event_of(Action::SignalSender, EvKindModel::Tx(tx))
}

/// What is done about a frame, by whether frames are still read.
pub open spec fn received<C, T, S, R>(
    reading: bool,
    frame: Frame,
    tx: S,
    r: SocketStep<C, T, S, R>,
) -> bool {
    if reading {
        frame_becomes(frame, parsed_description(particulars(frame)), tx, r)
    } else {
        r is Stop
    }
}

/// Whether frames are still read behind a list of steps.
pub open spec fn reading_after<C, T, S, R>(steps: Seq<SocketStep<C, T, S, R>>) -> bool {
    steps.len() == 0 || steps.last() !is Stop
}

/// Whether a list of steps is what a session does about a list of frames, one
/// after the other.
pub open spec fn is_session<C, T, S, R>(
    frames: Seq<Frame>,
    tx: S,
    steps: Seq<SocketStep<C, T, S, R>>,
) -> bool {
    &&& steps.len() == frames.len()
    &&& forall|i: int|
        0 <= i < frames.len() ==> received(
            reading_after(steps.take(i)),
            #[trigger] frames[i],
            tx,
            steps[i],
        )
}

/// The events that a list of steps hands to the room.
pub open spec fn forwarded_events<C, T, S, R>(steps: Seq<SocketStep<C, T, S, R>>) -> Seq<
    EvModel<C, T, S, R>,
>
    decreases steps.len(),
{
    if steps.len() == 0 {
        Seq::empty()
    } else {
        match steps.last() {
            SocketStep::Forward(ev) => forwarded_events(steps.drop_last()).push(ev@),
            _ => forwarded_events(steps.drop_last()),
        }
    }
}

/// The events that a session hands to the room: its opening, then what its
/// frames become.
pub open spec fn session_events<C, T, S, R>(tx: S, steps: Seq<SocketStep<C, T, S, R>>) -> Seq<
    EvModel<C, T, S, R>,
> {
    seq![opening::<C, T, S, R>(tx)] + forwarded_events(steps)
}

proof fn lemma_session_front<C, T, S, R>(
    frames: Seq<Frame>,
    tx: S,
    steps: Seq<SocketStep<C, T, S, R>>,
)
    requires
        is_session(frames, tx, steps),
        frames.len() > 0,
    ensures
        is_session(frames.drop_last(), tx, steps.drop_last()),
{
    let fs = frames.drop_last();
    let ss = steps.drop_last();
    assert forall|i: int| 0 <= i < fs.len() implies received(
        reading_after(ss.take(i)),
        #[trigger] fs[i],
        tx,
        ss[i],
    ) by {
        assert(ss.take(i) =~= steps.take(i));
        assert(fs[i] == frames[i]);
    }
}

proof fn lemma_forwarded<C, T, S, R>(
    frames: Seq<Frame>,
    tx: S,
    steps: Seq<SocketStep<C, T, S, R>>,
)
    requires
        is_session(frames, tx, steps),
    ensures
        forall|i: int|
            0 <= i < forwarded_events(steps).len() ==> (action_of(
                (#[trigger] forwarded_events(steps)[i]).action,
            ) matches Some(a) && peer_action(a)),
    decreases frames.len(),
{
    if frames.len() > 0 {
        lemma_session_front(frames, tx, steps);
        lemma_forwarded(frames.drop_last(), tx, steps.drop_last());
        let f = frames[frames.len() - 1];
        let s = steps[steps.len() - 1];
        assert(received(reading_after(steps.take(frames.len() - 1)), f, tx, s));
        if let SocketStep::Forward(ev) = s {
            if let Frame::Message(msg) = f {
                law_peers_send_peer_events(
                    msg@,
                    parsed_description(particulars(f)),
                    tx,
                    Ok(Some(ev)),
                );
            }
        }
    }
}

/// The first event of a session tells the room the way to its peer, and no later
/// one does: behind it come only offers, answers and candidates.
pub proof fn law_session_opens_first_and_once<C, T, S, R>(
    frames: Seq<Frame>,
    tx: S,
    steps: Seq<SocketStep<C, T, S, R>>,
)
    requires
        is_session(frames, tx, steps),
    ensures
        session_events(tx, steps).len() > 0,
        session_events(tx, steps)[0] == opening::<C, T, S, R>(tx),
        forall|i: int|
            0 < i < session_events(tx, steps).len() ==> (action_of(
                (#[trigger] session_events(tx, steps)[i]).action,
            ) matches Some(a) && peer_action(a)),
        action_of(opening::<C, T, S, R>(tx).action) == Some(Action::SignalSender),
{
    lemma_forwarded(frames, tx, steps);
    law_action_read_back(Action::SignalSender);
    assert forall|i: int| 0 < i < session_events(tx, steps).len() implies (action_of(
        (#[trigger] session_events(tx, steps)[i]).action,
    ) matches Some(a) && peer_action(a)) by {
        assert(session_events(tx, steps)[i] == forwarded_events(steps)[i - 1]);
    }
}

/// Once a session has stopped reading, it stays so: nothing that comes later
/// reaches the room.
pub proof fn law_stopped_session_stays_stopped<C, T, S, R>(
    frames: Seq<Frame>,
    tx: S,
    steps: Seq<SocketStep<C, T, S, R>>,
    i: int,
    j: int,
)
    requires
        is_session(frames, tx, steps),
        0 <= i <= j < steps.len(),
        steps[i] is Stop,
    ensures
        steps[j] is Stop,
    decreases j,
{
    if i < j {
        law_stopped_session_stays_stopped(frames, tx, steps, i, j - 1);
        assert(steps.take(j).last() == steps[j - 1]);
        assert(received(reading_after(steps.take(j)), frames[j], tx, steps[j]));
    }
}

/// One of the two directions of a socket.
#[derive(Clone, Copy, Debug, PartialEq, Eq, Structural)]
pub enum Half {
    Reading,
    Writing,
}

/// Decides which half is stopped when one has ended: the other.
pub fn stopped_with(ended: Half) -> (r: Half)
    ensures
        r != ended,
{
    match ended {
        Half::Reading => Half::Writing,
        Half::Writing => Half::Reading,
    }
}

/// A session opens with the word for it and the way to its peer, and then deals
/// with frames by what becomes of them until it stops.
pub proof fn law_session_by_its_parts<C, T, S, R>(
    tx: S,
    frame: Frame,
    r: SocketStep<C, T, S, R>,
)
    ensures
        opening::<C, T, S, R>(tx).action == "signal-sender"@,
        opening::<C, T, S, R>(tx).data == EvKindModel::<C, T, S, R>::Tx(tx),
        received(true, frame, tx, r) <==> frame_becomes(
            frame,
            parsed_description(particulars(frame)),
            tx,
            r,
        ),
        received(false, frame, tx, r) <==> r is Stop,
{
}

} // verus!
