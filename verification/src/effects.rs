//! What each event does to the room and what work it brings, event by event.
//!
//! Events are taken by the words that name them, rooms by their maps and orders.
use vstd::prelude::*;

use crate::event::{law_action_of_words, EvKindModel, EvModel};
use crate::room::{
    after_taking, empty_room, lookup, next_room, ordered_with, ordered_without, peers, queue_of,
    step_of, taken, tracks_of, AppState, Attach, Role, RoomModel, Step, StepModel,
    ICE_POLL_MILLIS,
};
use crate::track::{LocalTrack, TrackModel};
use crate::wire::SessionDescriptionModel;

verus! {

/// A new room is open and has nobody and nothing in it, takes five speakers, and
/// is looked at ten times a second for candidates.
pub proof fn law_new_room<C, T, S>(k: Seq<char>)
    ensures
        ({
            let m = empty_room::<C, T, S>();
            &&& !m.over
            &&& m.tx is None
            &&& m.max_speakers == 5
            &&& !m.speakers.contains_key(k) && m.speaker_order.len() == 0
            &&& !m.listeners.contains_key(k) && m.listener_order.len() == 0
            &&& !m.tracks.contains_key(k) && m.track_order.len() == 0
            &&& !m.candidates.contains_key(k)
        }),
        ICE_POLL_MILLIS * 10 == 1000,
{
}

/// A room that is over stays as it is, and no event brings work.
pub proof fn law_room_that_is_over<C, T, S, R>(m: RoomModel<C, T, S>, ev: EvModel<C, T, S, R>)
    requires
        m.over,
    ensures
        next_room(m, ev) == m,
        step_of(m, ev) == StepModel::<C, S, R>::Nothing,
{
}

/// A new speaker is let in while fewer than five speak, under the connection
/// that came along, and replaces an earlier connection of the same name. The
/// sixth is refused, which ends the room. Nothing else in the room changes.
pub proof fn law_new_speaker<C, T, S, R>(
    m: RoomModel<C, T, S>,
    ev: EvModel<C, T, S, R>,
    id: Seq<char>,
    conn: C,
    reply: R,
)
    requires
        !m.over,
        ev.action == "new-speaker"@,
        ev.data == EvKindModel::<C, T, S, R>::StrConnTx(id, conn, reply),
    ensures
        m.speakers.dom().len() < 5 ==> ({
            &&& next_room(m, ev).speakers == m.speakers.insert(id, conn)
            &&& next_room(m, ev).speaker_order == if m.speakers.contains_key(id) {
                m.speaker_order
            } else {
                m.speaker_order.push(id)
            }
            &&& next_room(m, ev) == (RoomModel {
                speakers: next_room(m, ev).speakers,
                speaker_order: next_room(m, ev).speaker_order,
                ..m
            })
            &&& step_of(m, ev) == (StepModel::<C, S, R>::AdmitSpeaker { id, reply })
        }),
        m.speakers.dom().len() >= 5 ==> ({
            &&& next_room(m, ev) == (RoomModel { over: true, ..m })
            &&& step_of(m, ev) == (StepModel::<C, S, R>::RefuseSpeaker { reply })
        }),
{
    law_action_of_words();
}

/// A new listener is always let in, under the connection that came along.
/// Nothing else in the room changes.
pub proof fn law_new_listener<C, T, S, R>(
    m: RoomModel<C, T, S>,
    ev: EvModel<C, T, S, R>,
    id: Seq<char>,
    conn: C,
)
    requires
        !m.over,
        ev.action == "new-listener"@,
        ev.data == EvKindModel::<C, T, S, R>::StrConn(id, conn),
    ensures
        next_room(m, ev).listeners == m.listeners.insert(id, conn),
        next_room(m, ev).listener_order == if m.listeners.contains_key(id) {
            m.listener_order
        } else {
            m.listener_order.push(id)
        },
        next_room(m, ev) == (RoomModel {
            listeners: next_room(m, ev).listeners,
            listener_order: next_room(m, ev).listener_order,
            ..m
        }),
        step_of(m, ev) == (StepModel::<C, S, R>::AdmitListener { id }),
{
    law_action_of_words();
}

/// A speaker's track is put behind the tracks that the speaker has, however many
/// others have tracks, and is to be shared. The others' tracks stay, and so does
/// all else in the room.
pub proof fn law_added_track_is_kept<C, T, S, R>(
    m: RoomModel<C, T, S>,
    ev: EvModel<C, T, S, R>,
    id: Seq<char>,
    track: TrackModel<T>,
)
    requires
        !m.over,
        ev.action == "add-speaker-track"@,
        ev.data == EvKindModel::<C, T, S, R>::StrTrack(id, track),
    ensures
        next_room(m, ev).tracks.contains_key(id),
        m.tracks.contains_key(id) ==> next_room(m, ev).tracks[id] == m.tracks[id].push(track),
        !m.tracks.contains_key(id) ==> next_room(m, ev).tracks[id] == seq![track],
        next_room(m, ev).tracks.remove(id) == m.tracks.remove(id),
        forall|o: Seq<char>|
            o != id ==> (#[trigger] next_room(m, ev).tracks.contains_key(o)
                <==> m.tracks.contains_key(o)),
        forall|o: Seq<char>|
            o != id && m.tracks.contains_key(o) ==> #[trigger] next_room(m, ev).tracks[o]
                == m.tracks[o],
        next_room(m, ev).track_order == if m.tracks.contains_key(id) {
            m.track_order
        } else {
            m.track_order.push(id)
        },
        next_room(m, ev) == (RoomModel {
            tracks: next_room(m, ev).tracks,
            track_order: next_room(m, ev).track_order,
            ..m
        }),
        step_of(m, ev) == (StepModel::<C, S, R>::ShareTrack { id }),
{
    law_action_of_words();
    assert(Seq::<TrackModel<T>>::empty().push(track) =~= seq![track]);
    assert(next_room(m, ev).tracks.remove(id) =~= m.tracks.remove(id));
}

/// A candidate is put behind those that wait for its peer, whether the peer is
/// known or not. Nothing else in the room changes.
pub proof fn law_candidate_joins_the_queue<C, T, S, R>(
    m: RoomModel<C, T, S>,
    ev: EvModel<C, T, S, R>,
    id: Seq<char>,
    candidate: Seq<char>,
)
    requires
        !m.over,
        ev.action == "ice-candidate"@,
        ev.data == EvKindModel::<C, T, S, R>::Str2(id, candidate),
    ensures
        next_room(m, ev).candidates.contains_key(id),
        m.candidates.contains_key(id) ==> next_room(m, ev).candidates[id]
            == m.candidates[id].push(candidate),
        !m.candidates.contains_key(id) ==> next_room(m, ev).candidates[id] == seq![candidate],
        next_room(m, ev).candidates.remove(id) == m.candidates.remove(id),
        next_room(m, ev) == (RoomModel { candidates: next_room(m, ev).candidates, ..m }),
        step_of(m, ev) == StepModel::<C, S, R>::Nothing,
{
    law_action_of_words();
    assert(Seq::<Seq<char>>::empty().push(candidate) =~= seq![candidate]);
    assert(next_room(m, ev).candidates.remove(id) =~= m.candidates.remove(id));
}

/// A speaker who leaves goes with connection and tracks, and the connection, if
/// there was one, is to be closed. Nothing else in the room changes; in
/// particular candidates go on waiting, and a listener of the same name stays.
pub proof fn law_speaker_leaves<C, T, S, R>(
    m: RoomModel<C, T, S>,
    ev: EvModel<C, T, S, R>,
    id: Seq<char>,
)
    requires
        !m.over,
        ev.action == "remove-speaker"@,
        ev.data == EvKindModel::<C, T, S, R>::Str(id),
    ensures
        next_room(m, ev).speakers == m.speakers.remove(id),
        next_room(m, ev).tracks == m.tracks.remove(id),
        next_room(m, ev).speaker_order == ordered_without(m.speaker_order, id),
        next_room(m, ev).track_order == ordered_without(m.track_order, id),
        next_room(m, ev) == (RoomModel {
            speakers: next_room(m, ev).speakers,
            speaker_order: next_room(m, ev).speaker_order,
            tracks: next_room(m, ev).tracks,
            track_order: next_room(m, ev).track_order,
            ..m
        }),
        m.speakers.contains_key(id) ==> step_of(m, ev) == (StepModel::<C, S, R>::RemoveSpeaker {
            id,
            closing: Some(m.speakers[id]),
        }),
        !m.speakers.contains_key(id) ==> step_of(m, ev) == (StepModel::<C, S, R>::RemoveSpeaker {
            id,
            closing: None,
        }),
{
    law_action_of_words();
}

/// A listener who leaves goes, and the connection is to be closed; one who is
/// not there changes nothing. Nothing else in the room changes.
pub proof fn law_listener_leaves<C, T, S, R>(
    m: RoomModel<C, T, S>,
    ev: EvModel<C, T, S, R>,
    id: Seq<char>,
)
    requires
        !m.over,
        ev.action == "remove-listener"@,
        ev.data == EvKindModel::<C, T, S, R>::Str(id),
    ensures
        next_room(m, ev).listeners == m.listeners.remove(id),
        next_room(m, ev).listener_order == ordered_without(m.listener_order, id),
        next_room(m, ev) == (RoomModel {
            listeners: next_room(m, ev).listeners,
            listener_order: next_room(m, ev).listener_order,
            ..m
        }),
        m.listeners.contains_key(id) ==> step_of(m, ev) == (StepModel::<C, S, R>::CloseListener {
            conn: m.listeners[id],
        }),
        !m.listeners.contains_key(id) ==> step_of(m, ev) == StepModel::<C, S, R>::Nothing,
{
    law_action_of_words();
}

/// The way to peers that came last is the one that the room knows. Nothing else
/// in the room changes.
pub proof fn law_last_way_to_peers_counts<C, T, S, R>(
    m: RoomModel<C, T, S>,
    ev: EvModel<C, T, S, R>,
    tx: S,
)
    requires
        !m.over,
        ev.action == "signal-sender"@,
        ev.data == EvKindModel::<C, T, S, R>::Tx(tx),
    ensures
        next_room(m, ev) == (RoomModel { tx: Some(tx), ..m }),
        step_of(m, ev) == StepModel::<C, S, R>::Nothing,
{
    law_action_of_words();
}

/// A peer's offer, whatever it says, goes to the connection that the peer has on
/// its side of the room, and brings a new connection if the peer has none there.
/// The room stays as it is.
pub proof fn law_offer_meets_its_side<C, T, S, R>(
    m: RoomModel<C, T, S>,
    ev: EvModel<C, T, S, R>,
    id: Seq<char>,
    offer: SessionDescriptionModel,
    tx: S,
)
    requires
        !m.over,
        ev.action == "speaker-offer"@ || ev.action == "listener-offer"@,
        ev.data == EvKindModel::<C, T, S, R>::StrSDPTx(id, offer, tx),
    ensures
        next_room(m, ev) == m,
        ev.action == "speaker-offer"@ && m.speakers.contains_key(id) ==> step_of(m, ev)
            == (StepModel::<C, S, R>::SetOffer { role: Role::Speaker, id, offer, tx }),
        ev.action == "speaker-offer"@ && !m.speakers.contains_key(id) ==> step_of(m, ev)
            == (StepModel::<C, S, R>::Connect { role: Role::Speaker, id, offer, tx }),
        ev.action == "listener-offer"@ && m.listeners.contains_key(id) ==> step_of(m, ev)
            == (StepModel::<C, S, R>::SetOffer { role: Role::Listener, id, offer, tx }),
        ev.action == "listener-offer"@ && !m.listeners.contains_key(id) ==> step_of(m, ev)
            == (StepModel::<C, S, R>::Connect { role: Role::Listener, id, offer, tx }),
{
    law_action_of_words();
}

/// A peer's answer, whatever it says, goes to the connection that the peer has on
/// its side of the room, and nowhere if the peer has none there. The room stays
/// as it is.
pub proof fn law_answer_meets_its_side<C, T, S, R>(
    m: RoomModel<C, T, S>,
    ev: EvModel<C, T, S, R>,
    id: Seq<char>,
    answer: SessionDescriptionModel,
)
    requires
        !m.over,
        ev.action == "speaker-answer"@ || ev.action == "listener-answer"@,
        ev.data == EvKindModel::<C, T, S, R>::StrSDP(id, answer),
    ensures
        next_room(m, ev) == m,
        ev.action == "speaker-answer"@ && m.speakers.contains_key(id) ==> step_of(m, ev)
            == (StepModel::<C, S, R>::SetAnswer { role: Role::Speaker, id, answer }),
        ev.action == "speaker-answer"@ && !m.speakers.contains_key(id) ==> step_of(m, ev)
            == StepModel::<C, S, R>::Nothing,
        ev.action == "listener-answer"@ && m.listeners.contains_key(id) ==> step_of(m, ev)
            == (StepModel::<C, S, R>::SetAnswer { role: Role::Listener, id, answer }),
        ev.action == "listener-answer"@ && !m.listeners.contains_key(id) ==> step_of(m, ev)
            == StepModel::<C, S, R>::Nothing,
{
    law_action_of_words();
}

/// An event under a word that nothing goes by, or that does not bring what its
/// word needs, changes nothing and brings no work.
pub proof fn law_what_does_not_fit_is_ignored<C, T, S, R>(
    m: RoomModel<C, T, S>,
    ev: EvModel<C, T, S, R>,
)
    requires
        ev.action == "new-speaker"@ ==> !(ev.data is StrConnTx),
        ev.action == "speaker-offer"@ || ev.action == "listener-offer"@ ==> !(ev.data is StrSDPTx),
        ev.action == "speaker-answer"@ || ev.action == "listener-answer"@ ==> !(ev.data is StrSDP),
        ev.action == "add-speaker-track"@ ==> !(ev.data is StrTrack),
        ev.action == "ice-candidate"@ ==> !(ev.data is Str2),
        ev.action == "remove-speaker"@ || ev.action == "remove-listener"@ ==> !(ev.data is Str),
        ev.action == "new-listener"@ ==> !(ev.data is StrConn),
        ev.action == "signal-sender"@ ==> !(ev.data is Tx),
    ensures
        next_room(m, ev) == m,
        step_of(m, ev) == StepModel::<C, S, R>::Nothing,
{
    law_action_of_words();
}

/// No event but the leaving of a speaker takes one of the speaker's tracks away,
/// or moves one: what the speaker had stays in front.
pub proof fn law_only_leaving_takes_tracks<C, T, S, R>(
    m: RoomModel<C, T, S>,
    ev: EvModel<C, T, S, R>,
    owner: Seq<char>,
)
    requires
        m.tracks.contains_key(owner),
        !(ev.action == "remove-speaker"@ && ev.data == EvKindModel::<C, T, S, R>::Str(owner)),
    ensures
        next_room(m, ev).tracks.contains_key(owner),
        m.tracks[owner].is_prefix_of(next_room(m, ev).tracks[owner]),
{
    law_action_of_words();
    assert(m.tracks[owner].is_prefix_of(m.tracks[owner]));
    if let EvKindModel::StrTrack(id, track) = ev.data {
        let longer = m.tracks[owner].push(track);
        assert(longer.take(m.tracks[owner].len() as int) =~= m.tracks[owner]);
        assert(m.tracks[owner].is_prefix_of(longer));
    }
}

/// No event takes a candidate away from those that wait, or moves one.
pub proof fn law_no_event_takes_candidates<C, T, S, R>(
    m: RoomModel<C, T, S>,
    ev: EvModel<C, T, S, R>,
    peer: Seq<char>,
)
    requires
        m.candidates.contains_key(peer),
    ensures
        next_room(m, ev).candidates.contains_key(peer),
        m.candidates[peer].is_prefix_of(next_room(m, ev).candidates[peer]),
{
    law_action_of_words();
    assert(m.candidates[peer].is_prefix_of(m.candidates[peer]));
    if let EvKindModel::Str2(id, c) = ev.data {
        let longer = m.candidates[peer].push(c);
        assert(longer.take(m.candidates[peer].len() as int) =~= m.candidates[peer]);
        assert(m.candidates[peer].is_prefix_of(longer));
    }
}

/// Looking for a peer's candidates takes all that wait, if the peer has a
/// connection on the side that is looked at, and leaves none; otherwise it takes
/// none and leaves all. Nothing else in the room changes.
pub proof fn law_taking_takes_all_or_none<C, T, S>(
    m: RoomModel<C, T, S>,
    role: Role,
    id: Seq<char>,
)
    ensures
        ({
            let known = (role == Role::Speaker && m.speakers.contains_key(id)) || (role
                == Role::Listener && m.listeners.contains_key(id));
            if known && m.candidates.contains_key(id) {
                &&& taken(m, role, id) == m.candidates[id]
                &&& after_taking(m, role, id).candidates == m.candidates.insert(
                    id,
                    Seq::<Seq<char>>::empty(),
                )
            } else {
                &&& taken(m, role, id) == Seq::<Seq<char>>::empty()
                &&& after_taking(m, role, id).candidates == m.candidates
            }
        }),
        after_taking(m, role, id) == (RoomModel {
            candidates: after_taking(m, role, id).candidates,
            ..m
        }),
{
}

/// What is looked up in a room is what stands there.
pub proof fn law_lookups<C, T, S>(m: RoomModel<C, T, S>, id: Seq<char>)
    ensures
        peers(m, Role::Speaker) == m.speakers,
        peers(m, Role::Listener) == m.listeners,
        forall|conns: Map<Seq<char>, C>|
            #![trigger lookup(conns, id)]
            if conns.contains_key(id) {
                lookup(conns, id) == Some(conns[id])
            } else {
                lookup(conns, id) is None
            },
        m.tracks.contains_key(id) ==> tracks_of(m, id) == m.tracks[id],
        !m.tracks.contains_key(id) ==> tracks_of(m, id).len() == 0,
        m.candidates.contains_key(id) ==> queue_of(m, id) == m.candidates[id],
        !m.candidates.contains_key(id) ==> queue_of(m, id).len() == 0,
{
}

/// A name enters an order at the end unless it is there, and leaves it without
/// moving the others: taking it out of a list with one name more at the end
/// leaves what it leaves of the list, with that name behind it unless it is the
/// one to leave.
pub proof fn law_orders<V>(
    order: Seq<Seq<char>>,
    m: Map<Seq<char>, V>,
    id: Seq<char>,
    last: Seq<char>,
)
    ensures
        m.contains_key(id) ==> ordered_with(order, m, id) == order,
        !m.contains_key(id) ==> ordered_with(order, m, id) == order.push(id),
        ordered_without(Seq::<Seq<char>>::empty(), id) == Seq::<Seq<char>>::empty(),
        ordered_without(order.push(id), id) == ordered_without(order, id),
        last != id ==> ordered_without(order.push(last), id) == ordered_without(order, id).push(
            last,
        ),
{
    reveal(Seq::filter);
    assert(order.push(id).drop_last() =~= order);
    assert(order.push(last).drop_last() =~= order);
}

/// The room as values holds what the state holds, entry by entry.
pub proof fn law_room_model<C, T, S>(s: AppState<C, T, S>)
    ensures
        s@.max_speakers == s.max_speakers,
        s@.speakers == s.speaker_conns@,
        s@.speaker_order == s.speaker_conns.keys(),
        s@.listeners == s.listeners@,
        s@.listener_order == s.listeners.keys(),
        s@.track_order == s.speaker_tracks.keys(),
        s@.tx == s.tx,
        s@.over == s.over,
        s@.tracks.dom() == s.speaker_tracks@.dom(),
        forall|k: Seq<char>|
            s.speaker_tracks@.contains_key(k) ==> (#[trigger] s@.tracks[k]).len()
                == s.speaker_tracks@[k]@.len(),
        forall|k: Seq<char>, i: int|
            s.speaker_tracks@.contains_key(k) && 0 <= i < s.speaker_tracks@[k]@.len()
                ==> #[trigger] s@.tracks[k][i].id == s.speaker_tracks@[k]@[i].id@
                && s@.tracks[k][i].handle == s.speaker_tracks@[k]@[i].handle,
        s@.candidates.dom() == s.ice_candidates@.dom(),
        forall|k: Seq<char>|
            s.ice_candidates@.contains_key(k) ==> (#[trigger] s@.candidates[k]).len()
                == s.ice_candidates@[k]@.len(),
        forall|k: Seq<char>, i: int|
            s.ice_candidates@.contains_key(k) && 0 <= i < s.ice_candidates@[k]@.len()
                ==> #[trigger] s@.candidates[k][i] == s.ice_candidates@[k]@[i]@,
{
    assert(s@.tracks.dom() =~= s.speaker_tracks@.dom());
    assert(s@.candidates.dom() =~= s.ice_candidates@.dom());
}

/// The work that is reported holds what it is said to hold.
pub proof fn law_step_model<C, S, R>(s: Step<C, S, R>)
    ensures
        match s {
            Step::Nothing => s@ == StepModel::<C, S, R>::Nothing,
            Step::AdmitSpeaker { id, reply } => s@ == (StepModel::<C, S, R>::AdmitSpeaker {
                id: id@,
                reply,
            }),
            Step::RefuseSpeaker { reply } => s@ == (StepModel::<C, S, R>::RefuseSpeaker { reply }),
            Step::AdmitListener { id } => s@ == (StepModel::<C, S, R>::AdmitListener { id: id@ }),
            Step::SetOffer { role, id, offer, tx } => s@ == (StepModel::<C, S, R>::SetOffer {
                role,
                id: id@,
                offer: SessionDescriptionModel { sdp_type: offer.sdp_type, sdp: offer.sdp@ },
                tx,
            }),
            Step::Connect { role, id, offer, tx } => s@ == (StepModel::<C, S, R>::Connect {
                role,
                id: id@,
                offer: SessionDescriptionModel { sdp_type: offer.sdp_type, sdp: offer.sdp@ },
                tx,
            }),
            Step::SetAnswer { role, id, answer } => s@ == (StepModel::<C, S, R>::SetAnswer {
                role,
                id: id@,
                answer: SessionDescriptionModel { sdp_type: answer.sdp_type, sdp: answer.sdp@ },
            }),
            Step::ShareTrack { id } => s@ == (StepModel::<C, S, R>::ShareTrack { id: id@ }),
            Step::RemoveSpeaker { id, closing } => s@ == (StepModel::<C, S, R>::RemoveSpeaker {
                id: id@,
                closing,
            }),
            Step::CloseListener { conn } => s@ == (StepModel::<C, S, R>::CloseListener { conn }),
        },
{
}

/// What is planned holds the peer, the connection and the track by their values.
pub proof fn law_attach_model<'a, C, T>(a: Attach<'a, C, T>, t: LocalTrack<T>)
    ensures
        a@.peer == a.peer@,
        a@.conn == *a.conn,
        a@.track.id == a.track.id@,
        a@.track.handle == a.track.handle,
        t@.id == t.id@,
        t@.handle == t.handle,
{
}

} // verus!
