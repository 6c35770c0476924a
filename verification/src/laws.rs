//! What holds of the room over several events.
use vstd::prelude::*;

use crate::event::{
    action_of, action_word, event_of, law_action_read_back, Action, EvKindModel, EvModel,
};
use crate::join::{announced, leave_action, reaction, PeerState, Reaction};
use crate::roster::lemma_filter_absent;
use crate::room::{
    after_taking, all_tracks, conns_in, empty_room, foreign, has_seat, listener_plan, lookup, newest_plan,
    next_room, ordered_with, ordered_without, others_tracks, peers, queue_of, room_ok,
    speaker_plan, speakers_plan, step_of, taken, tracks_of, walks, AttachModel, Role, RoomModel,
    StepModel, MAX_SPEAKERS,
};
use crate::track::{
    belongs_to, carried, cleared, law_attaching_adds_the_track, law_track_belongs_to_its_speaker,
    lemma_cleared, track_name, with_track, TrackModel,
};
use crate::wire::SessionDescriptionModel;

verus! {

proof fn lemma_walks_insert<V>(order: Seq<Seq<char>>, m: Map<Seq<char>, V>, id: Seq<char>, v: V)
    requires
        walks(order, m),
    ensures
        walks(ordered_with(order, m, id), m.insert(id, v)),
{
    let next = ordered_with(order, m, id);
    if m.contains_key(id) {
        assert(m.insert(id, v).dom() =~= m.dom());
    } else {
        assert(!order.contains(id)) by {
            if order.contains(id) {
                assert(order.to_set().contains(id));
            }
        }
        assert(next.no_duplicates());
        assert forall|k: Seq<char>|
            next.to_set().contains(k) <==> m.insert(id, v).dom().contains(k) by {
            if order.contains(k) {
                let j = order.index_of(k);
                assert(next[j] == k);
                assert(order.to_set().contains(k));
            }
            if m.dom().contains(k) {
                assert(order.to_set().contains(k));
            }
            assert(next[order.len() as int] == id);
            if next.contains(k) {
                let j = next.index_of(k);
                if j < order.len() {
                    assert(order[j] == k);
                }
            }
        }
        assert(next.to_set() =~= m.insert(id, v).dom());
    }
}

/// What filtering one name out leaves.
pub proof fn lemma_without(order: Seq<Seq<char>>, id: Seq<char>)
    ensures
        forall|k: Seq<char>|
            #[trigger] ordered_without(order, id).contains(k) <==> order.contains(k) && k != id,
        order.no_duplicates() ==> ordered_without(order, id).no_duplicates(),
    decreases order.len(),
{
    reveal(Seq::filter);
    if order.len() > 0 {
        let front = order.drop_last();
        lemma_without(front, id);
        let rest = ordered_without(front, id);
        let next = ordered_without(order, id);
        assert forall|k: Seq<char>| #[trigger] next.contains(k) <==> order.contains(k) && k
            != id by {
            if front.contains(k) {
                let j = front.index_of(k);
                assert(order[j] == k);
            }
            if order.contains(k) && k != order.last() {
                let j = order.index_of(k);
                assert(front[j] == k);
            }
            if order.last() != id {
                assert(next == rest.push(order.last()));
                assert(next[rest.len() as int] == order.last());
                if rest.contains(k) {
                    let j = rest.index_of(k);
                    assert(next[j] == k);
                }
                if next.contains(k) && k != order.last() {
                    let j = next.index_of(k);
                    assert(rest[j] == k);
                }
            }
            assert(order[order.len() - 1] == order.last());
        }
        if order.no_duplicates() {
            assert(front.no_duplicates());
            if order.last() != id {
                assert(!front.contains(order.last())) by {
                    if front.contains(order.last()) {
                        let j = front.index_of(order.last());
                        assert(order[j] == order[order.len() - 1]);
                    }
                }
                assert(!rest.contains(order.last()));
                assert(next == rest.push(order.last()));
            }
        }
    }
}

proof fn lemma_walks_remove<V>(order: Seq<Seq<char>>, m: Map<Seq<char>, V>, id: Seq<char>)
    requires
        walks(order, m),
    ensures
        walks(ordered_without(order, id), m.remove(id)),
{
    lemma_without(order, id);
    let next = ordered_without(order, id);
    assert forall|k: Seq<char>| next.to_set().contains(k) <==> m.remove(id).dom().contains(k) by {
        if m.dom().contains(k) {
            assert(order.to_set().contains(k));
        }
        if order.contains(k) {
            assert(order.to_set().contains(k));
        }
    }
    assert(next.to_set() =~= m.remove(id).dom());
}

/// Every event leaves a room a room; in particular there are never more
/// speakers than the room takes.
pub proof fn law_room_stays_ok<C, T, S, R>(m: RoomModel<C, T, S>, ev: EvModel<C, T, S, R>)
    requires
        room_ok(m),
    ensures
        room_ok(next_room(m, ev)),
{
    let action = if m.over {
        None
    } else {
        action_of(ev.action)
    };
    match (action, ev.data) {
        (Some(Action::NewSpeaker), EvKindModel::StrConnTx(id, conn, _)) => {
            lemma_walks_insert(m.speaker_order, m.speakers, id, conn);
            assert(m.speakers.insert(id, conn).dom() =~= m.speakers.dom().insert(id));
            m.speaker_order.unique_seq_to_set();
        },
        (Some(Action::AddSpeakerTrack), EvKindModel::StrTrack(id, track)) => {
            lemma_walks_insert(m.track_order, m.tracks, id, tracks_of(m, id).push(track));
        },
        (Some(Action::IceCandidate), EvKindModel::Str2(id, candidate)) => {
            assert(next_room(m, ev).candidates.dom() =~= m.candidates.dom().insert(id));
        },
        (Some(Action::RemoveSpeaker), EvKindModel::Str(id)) => {
            lemma_walks_remove(m.speaker_order, m.speakers, id);
            lemma_walks_remove(m.track_order, m.tracks, id);
            assert(m.speakers.remove(id).dom() =~= m.speakers.dom().remove(id));
            m.speaker_order.unique_seq_to_set();
        },
        (Some(Action::NewListener), EvKindModel::StrConn(id, conn)) => {
            lemma_walks_insert(m.listener_order, m.listeners, id, conn);
        },
        (Some(Action::RemoveListener), EvKindModel::Str(id)) => {
            lemma_walks_remove(m.listener_order, m.listeners, id);
        },
        _ => {},
    }
}

/// The room after a list of events; behind a refusal it is left as it is.
pub open spec fn room_after<C, T, S, R>(
    m: RoomModel<C, T, S>,
    evs: Seq<EvModel<C, T, S, R>>,
) -> RoomModel<C, T, S>
    decreases evs.len(),
{
    if evs.len() == 0 {
        m
    } else {
        next_room(room_after(m, evs.drop_last()), evs.last())
    }
}

/// A list of events is worked in one after the other.
pub proof fn law_events_one_after_the_other<C, T, S, R>(
    m: RoomModel<C, T, S>,
    evs: Seq<EvModel<C, T, S, R>>,
    ev: EvModel<C, T, S, R>,
)
    ensures
        room_after::<C, T, S, R>(m, Seq::empty()) == m,
        room_after(m, evs.push(ev)) == next_room(room_after(m, evs), ev),
{
    assert(evs.push(ev).drop_last() =~= evs);
}

/// Whatever happens to an empty room, it stays a room.
pub proof fn law_every_room_ok<C, T, S, R>(evs: Seq<EvModel<C, T, S, R>>)
    ensures
        room_ok(room_after(empty_room::<C, T, S>(), evs)),
    decreases evs.len(),
{
    if evs.len() == 0 {
        let m = empty_room::<C, T, S>();
        assert(m.speaker_order.to_set() =~= m.speakers.dom());
        assert(m.listener_order.to_set() =~= m.listeners.dom());
        assert(m.track_order.to_set() =~= m.tracks.dom());
    } else {
        law_every_room_ok(evs.drop_last());
        law_room_stays_ok(room_after(empty_room::<C, T, S>(), evs.drop_last()), evs.last());
    }
}

/// A speaker who asks to enter a full room is refused, whoever asks, and the
/// room is over with everyone in it as before; with a seat left the speaker is
/// in.
pub proof fn law_seats_decide<C, T, S, R>(m: RoomModel<C, T, S>, id: Seq<char>, conn: C, reply: R)
    requires
        room_ok(m),
        !m.over,
    ensures
        ({
            let ev = event_of::<C, T, S, R>(
                Action::NewSpeaker,
                EvKindModel::StrConnTx(id, conn, reply),
            );
            if m.speakers.dom().len() == MAX_SPEAKERS {
                &&& next_room(m, ev) == (RoomModel { over: true, ..m })
                &&& step_of(m, ev) == StepModel::<C, S, R>::RefuseSpeaker { reply }
            } else {
                &&& lookup(next_room(m, ev).speakers, id) == Some(conn)
                &&& step_of(m, ev) == StepModel::<C, S, R>::AdmitSpeaker { id, reply }
            }
        }),
{
    law_action_read_back(Action::NewSpeaker);
}

/// A room is over after an event exactly if it was before or the event brought
/// the refusal of a speaker.
pub proof fn law_refusal_ends_the_room<C, T, S, R>(m: RoomModel<C, T, S>, ev: EvModel<C, T, S, R>)
    ensures
        next_room(m, ev).over <==> m.over || step_of(m, ev) is RefuseSpeaker,
{
}

/// Behind a refusal nothing happens any more: whatever events come, the room
/// stays as the refusal left it, and none of them brings work.
pub proof fn law_nothing_behind_a_refusal<C, T, S, R>(
    m: RoomModel<C, T, S>,
    refused: EvModel<C, T, S, R>,
    evs: Seq<EvModel<C, T, S, R>>,
    ev: EvModel<C, T, S, R>,
)
    requires
        step_of(m, refused) is RefuseSpeaker,
    ensures
        ({
            let end = next_room(m, refused);
            &&& end == (RoomModel { over: true, ..m })
            &&& room_after(end, evs) == end
            &&& step_of(room_after(end, evs), ev) == StepModel::<C, S, R>::Nothing
        }),
    decreases evs.len(),
{
    if evs.len() > 0 {
        law_nothing_behind_a_refusal(m, refused, evs.drop_last(), ev);
    }
}

/// An event whose action is unknown changes nothing and brings no work.
pub proof fn law_unknown_action_ignored<C, T, S, R>(
    m: RoomModel<C, T, S>,
    ev: EvModel<C, T, S, R>,
)
    requires
        forall|a: Action| ev.action != action_word(a),
    ensures
        next_room(m, ev) == m,
        step_of(m, ev) == StepModel::<C, S, R>::Nothing,
{
}

/// The action by which a peer offers.
pub open spec fn offer_action(role: Role) -> Action {
    match role {
        Role::Speaker => Action::SpeakerOffer,
        Role::Listener => Action::ListenerOffer,
    }
}

/// In every room that is not over, the offer of a peer that has a connection
/// there goes to that connection, and the offer of one that has none brings a
/// new connection. The room stays as it is.
pub proof fn law_offers_meet_the_connection<C, T, S, R>(
    m: RoomModel<C, T, S>,
    role: Role,
    id: Seq<char>,
    offer: SessionDescriptionModel,
    tx: S,
)
    requires
        !m.over,
    ensures
        ({
            let ev = event_of::<C, T, S, R>(
                offer_action(role),
                EvKindModel::StrSDPTx(id, offer, tx),
            );
            &&& next_room(m, ev) == m
            &&& step_of(m, ev) == if peers(m, role).contains_key(id) {
                StepModel::<C, S, R>::SetOffer { role, id, offer, tx }
            } else {
                StepModel::<C, S, R>::Connect { role, id, offer, tx }
            }
        }),
{
    law_action_read_back(offer_action(role));
}

/// Whether an event takes a peer out.
pub open spec fn takes_out<C, T, S, R>(
    ev: EvModel<C, T, S, R>,
    role: Role,
    id: Seq<char>,
) -> bool {
    action_of(ev.action) == Some(leave_action(role)) && ev.data == EvKindModel::<C, T, S, R>::Str(
        id,
    )
}

proof fn lemma_stays<C, T, S, R>(
    m: RoomModel<C, T, S>,
    evs: Seq<EvModel<C, T, S, R>>,
    role: Role,
    id: Seq<char>,
)
    requires
        peers(m, role).contains_key(id),
        forall|i: int| 0 <= i < evs.len() ==> !takes_out(#[trigger] evs[i], role, id),
    ensures
        peers(room_after(m, evs), role).contains_key(id),
    decreases evs.len(),
{
    if evs.len() > 0 {
        let front = evs.drop_last();
        assert forall|i: int| 0 <= i < front.len() implies !takes_out(
            #[trigger] front[i],
            role,
            id,
        ) by {
            assert(front[i] == evs[i]);
        }
        lemma_stays(m, front, role, id);
        assert(!takes_out(evs[evs.len() - 1], role, id));
    }
}

/// Once a peer has been announced and taken in, it has the connection that it
/// was announced with, and every later offer of the peer goes to the connection
/// that it has, whatever else happens, until it is taken out or the room is
/// over.
pub proof fn law_announced_peer_keeps_its_place<C, T, S, R>(
    m: RoomModel<C, T, S>,
    role: Role,
    id: Seq<char>,
    conn: C,
    reply: R,
    evs: Seq<EvModel<C, T, S, R>>,
    offer: SessionDescriptionModel,
    tx: S,
)
    requires
        !m.over,
        role == Role::Speaker ==> has_seat(m),
        forall|i: int| 0 <= i < evs.len() ==> !takes_out(#[trigger] evs[i], role, id),
    ensures
        ({
            let entered = next_room(m, announced::<C, T, S, R>(role, id, conn, reply));
            let ev = event_of::<C, T, S, R>(
                offer_action(role),
                EvKindModel::StrSDPTx(id, offer, tx),
            );
            &&& lookup(peers(entered, role), id) == Some(conn)
            &&& peers(room_after(entered, evs), role).contains_key(id)
            &&& !room_after(entered, evs).over ==> step_of(room_after(entered, evs), ev)
                == StepModel::<C, S, R>::SetOffer { role, id, offer, tx }
        }),
{
    law_action_read_back(Action::NewSpeaker);
    law_action_read_back(Action::NewListener);
    let entered = next_room(m, announced::<C, T, S, R>(role, id, conn, reply));
    lemma_stays(entered, evs, role, id);
    if !room_after(entered, evs).over {
        law_offers_meet_the_connection::<C, T, S, R>(
            room_after(entered, evs),
            role,
            id,
            offer,
            tx,
        );
    }
}

/// What `all_tracks` holds: each track of each speaker.
pub proof fn lemma_all_tracks<T>(
    order: Seq<Seq<char>>,
    tracks: Map<Seq<char>, Seq<TrackModel<T>>>,
    owner: Seq<char>,
    t: TrackModel<T>,
)
    requires
        order.contains(owner),
        tracks[owner].contains(t),
    ensures
        all_tracks(order, tracks).contains(t),
    decreases order.len(),
{
    let front = order.drop_last();
    let a = all_tracks(front, tracks);
    let b = tracks[order.last()];
    if owner == order.last() {
        let j = b.index_of(t);
        assert((a + b)[a.len() + j] == t);
    } else {
        let k = order.index_of(owner);
        assert(front[k] == owner);
        lemma_all_tracks(front, tracks, owner, t);
        let j = a.index_of(t);
        assert((a + b)[j] == t);
    }
}

/// What `foreign` holds.
proof fn lemma_foreign<T>(tracks: Seq<TrackModel<T>>, id: Seq<char>, t: TrackModel<T>)
    ensures
        foreign(tracks, id).contains(t) <==> tracks.contains(t) && !belongs_to(t.id, id),
    decreases tracks.len(),
{
    reveal(Seq::filter);
    if tracks.len() > 0 {
        let front = tracks.drop_last();
        lemma_foreign(front, id, t);
        let rest = foreign(front, id);
        let next = foreign(tracks, id);
        assert(tracks[tracks.len() - 1] == tracks.last());
        if front.contains(t) {
            let j = front.index_of(t);
            assert(tracks[j] == t);
        }
        if tracks.contains(t) && t != tracks.last() {
            let j = tracks.index_of(t);
            assert(front[j] == t);
        }
        if !belongs_to(tracks.last().id, id) {
            assert(next == rest.push(tracks.last()));
            assert(next[rest.len() as int] == tracks.last());
            if rest.contains(t) {
                let j = rest.index_of(t);
                assert(next[j] == t);
            }
            if next.contains(t) && t != tracks.last() {
                let j = next.index_of(t);
                assert(rest[j] == t);
            }
        } else {
            assert(next == rest);
        }
    }
}

/// What `others_tracks` holds: each track of each other speaker that does not
/// count as the speaker's own.
pub proof fn lemma_others_tracks<T>(
    order: Seq<Seq<char>>,
    tracks: Map<Seq<char>, Seq<TrackModel<T>>>,
    id: Seq<char>,
    owner: Seq<char>,
    t: TrackModel<T>,
)
    requires
        order.contains(owner),
        owner != id,
        tracks[owner].contains(t),
        !belongs_to(t.id, id),
    ensures
        others_tracks(order, tracks, id).contains(t),
    decreases order.len(),
{
    let front = order.drop_last();
    let a = others_tracks(front, tracks, id);
    if owner == order.last() {
        lemma_foreign(tracks[owner], id, t);
        let b = foreign(tracks[owner], id);
        let j = b.index_of(t);
        assert((a + b)[a.len() + j] == t);
    } else {
        let k = order.index_of(owner);
        assert(front[k] == owner);
        lemma_others_tracks(front, tracks, id, owner, t);
        let j = a.index_of(t);
        if order.last() != id {
            let b = foreign(tracks[order.last()], id);
            assert((a + b)[j] == t);
        }
    }
}

/// Where the tracks of `others_tracks` come from.
pub proof fn lemma_others_tracks_origin<T>(
    order: Seq<Seq<char>>,
    tracks: Map<Seq<char>, Seq<TrackModel<T>>>,
    id: Seq<char>,
    t: TrackModel<T>,
)
    requires
        others_tracks(order, tracks, id).contains(t),
    ensures
        !belongs_to(t.id, id),
        exists|owner: Seq<char>|
            owner != id && order.contains(owner) && #[trigger] tracks[owner].contains(t),
    decreases order.len(),
{
    if order.len() > 0 {
        let front = order.drop_last();
        let a = others_tracks(front, tracks, id);
        let all = others_tracks(order, tracks, id);
        let j = all.index_of(t);
        assert(order[order.len() - 1] == order.last());
        if order.last() == id || j < a.len() {
            assert(a[j] == t);
            lemma_others_tracks_origin(front, tracks, id, t);
            let owner = choose|owner: Seq<char>|
                owner != id && front.contains(owner) && #[trigger] tracks[owner].contains(t);
            let k = front.index_of(owner);
            assert(order[k] == owner);
            assert(order.contains(owner) && tracks[owner].contains(t));
        } else {
            let b = foreign(tracks[order.last()], id);
            assert(b[j - a.len()] == t);
            lemma_foreign(tracks[order.last()], id, t);
            assert(order.contains(order.last()) && tracks[order.last()].contains(t));
        }
    }
}

/// No speaker is handed a track that counts as the speaker's own: not on
/// entering, and not when the speaker adds one.
pub proof fn law_no_echo<C, T, S>(m: RoomModel<C, T, S>, id: Seq<char>, track: TrackModel<T>)
    ensures
        forall|i: int|
            0 <= i < speaker_plan(m, id).len() ==> !belongs_to(
                (#[trigger] speaker_plan(m, id)[i]).track.id,
                id,
            ),
        forall|i: int|
            0 <= i < speakers_plan(m, id, track).len() ==> (#[trigger] speakers_plan(
                m,
                id,
                track,
            )[i]).peer != id,
{
    assert forall|i: int| 0 <= i < speaker_plan(m, id).len() implies !belongs_to(
        (#[trigger] speaker_plan(m, id)[i]).track.id,
        id,
    ) by {
        let ts = others_tracks(m.track_order, m.tracks, id);
        assert(ts.contains(ts[i]));
        lemma_others_tracks_origin(m.track_order, m.tracks, id, ts[i]);
    }
    assert forall|i: int|
        0 <= i < speakers_plan(m, id, track).len() implies (#[trigger] speakers_plan(
        m,
        id,
        track,
    )[i]).peer != id by {
        let names = ordered_without(m.speaker_order, id);
        lemma_without(m.speaker_order, id);
        assert(names.contains(names[i]));
    }
}

/// A connection, and the name of a track that it was asked to carry.
pub type Link<C> = (C, Seq<char>);

/// The links that a plan asks for.
pub open spec fn links<C, T>(plan: Seq<AttachModel<C, T>>) -> Set<Link<C>> {
    Set::new(
        |l: Link<C>|
            exists|i: int|
                0 <= i < plan.len() && l == ((#[trigger] plan[i]).conn, plan[i].track.id),
    )
}

/// The links that there are once the work of an event is done on a room: what
/// its plans ask for is there, and the connections in the room carry nothing of
/// one who left.
pub open spec fn linked_after<C, T, S, R>(
    linked: Set<Link<C>>,
    next: RoomModel<C, T, S>,
    step: StepModel<C, S, R>,
) -> Set<Link<C>> {
    match step {
        StepModel::AdmitSpeaker { id, .. } => linked.union(links(speaker_plan(next, id))),
        StepModel::AdmitListener { id } => linked.union(links(listener_plan(next, id))),
        StepModel::ShareTrack { id } => linked.union(links(newest_plan(next, id))),
        StepModel::RemoveSpeaker { id, .. } => linked.filter(
            |l: Link<C>| !(conns_in(next).contains(l.0) && belongs_to(l.1, id)),
        ),
        _ => linked,
    }
}

/// What the senders of each connection carry.
pub type Wiring<C> = spec_fn(C) -> Seq<Option<Seq<char>>>;

/// The links that there are by what the senders carry.
pub open spec fn linked_by<C>(w: Wiring<C>) -> Set<Link<C>> {
    Set::new(|l: Link<C>| carried(w(l.0), l.1))
}

/// The wiring once a plan has been worked through: a connection gets each track
/// that is planned for it and that it does not carry yet.
pub open spec fn attached<C, T>(w: Wiring<C>, plan: Seq<AttachModel<C, T>>) -> Wiring<C>
    decreases plan.len(),
{
    if plan.len() == 0 {
        w
    } else {
        let v = attached(w, plan.drop_last());
        let a = plan.last();
        |c: C|
            if c == a.conn {
                with_track(v(c), a.track.id)
            } else {
                v(c)
            }
    }
}

/// The wiring once a speaker's tracks have been taken off a list of connections.
pub open spec fn detached<C>(w: Wiring<C>, conns: Seq<C>, speaker: Seq<char>) -> Wiring<C> {
    |c: C|
        if conns.contains(c) {
            cleared(w(c), speaker)
        } else {
            w(c)
        }
}

/// The wiring once the work of an event is done on a room.
pub open spec fn wired_after<C, T, S, R>(
    w: Wiring<C>,
    next: RoomModel<C, T, S>,
    step: StepModel<C, S, R>,
) -> Wiring<C> {
    match step {
        StepModel::AdmitSpeaker { id, .. } => attached(w, speaker_plan(next, id)),
        StepModel::AdmitListener { id } => attached(w, listener_plan(next, id)),
        StepModel::ShareTrack { id } => attached(w, newest_plan(next, id)),
        StepModel::RemoveSpeaker { id, .. } => detached(w, conns_in(next), id),
        _ => w,
    }
}

proof fn lemma_attached<C, T>(w: Wiring<C>, plan: Seq<AttachModel<C, T>>)
    ensures
        linked_by(attached(w, plan)) == linked_by(w).union(links(plan)),
    decreases plan.len(),
{
    let now = linked_by(attached(w, plan));
    if plan.len() == 0 {
        assert(now =~= linked_by(w).union(links(plan)));
    } else {
        let front = plan.drop_last();
        let a = plan.last();
        let v = attached(w, front);
        lemma_attached(w, front);
        law_attaching_adds_the_track(v(a.conn), a.track.id);
        assert forall|l: Link<C>| #[trigger] now.contains(l) <==> linked_by(w).union(
            links(plan),
        ).contains(l) by {
            assert(linked_by(v).contains(l) <==> linked_by(w).union(links(front)).contains(l));
            assert(carried(with_track(v(a.conn), a.track.id), l.1) <==> carried(v(a.conn), l.1)
                || l.1 == a.track.id);
            if links(front).contains(l) {
                let i = choose|i: int|
                    0 <= i < front.len() && l == ((#[trigger] front[i]).conn, front[i].track.id);
                assert(plan[i] == front[i]);
            }
            if links(plan).contains(l) {
                let i = choose|i: int|
                    0 <= i < plan.len() && l == ((#[trigger] plan[i]).conn, plan[i].track.id);
                if i < front.len() {
                    assert(front[i] == plan[i]);
                }
            }
            assert(plan[plan.len() - 1] == a);
        }
        assert(now =~= linked_by(w).union(links(plan)));
    }
}

/// The links after the work of an event are those that attaching and detaching
/// make of the senders, connection by connection.
pub proof fn law_links_follow_the_senders<C, T, S, R>(
    w: Wiring<C>,
    next: RoomModel<C, T, S>,
    step: StepModel<C, S, R>,
)
    ensures
        linked_by(wired_after(w, next, step)) == linked_after(linked_by(w), next, step),
{
    match step {
        StepModel::AdmitSpeaker { id, .. } => {
            lemma_attached(w, speaker_plan(next, id));
        },
        StepModel::AdmitListener { id } => {
            lemma_attached(w, listener_plan(next, id));
        },
        StepModel::ShareTrack { id } => {
            lemma_attached(w, newest_plan(next, id));
        },
        StepModel::RemoveSpeaker { id, .. } => {
            let now = linked_by(wired_after(w, next, step));
            let meant = linked_after(linked_by(w), next, step);
            assert forall|l: Link<C>| #[trigger] now.contains(l) <==> meant.contains(l) by {
                lemma_cleared(w(l.0), id);
                assert(carried(cleared(w(l.0), id), l.1) <==> carried(w(l.0), l.1) && !belongs_to(
                    l.1,
                    id,
                ));
            }
            assert(now =~= meant);
        },
        _ => {},
    }
}

/// Whether everyone hears everyone else: each listener's connection carries
/// every track, and each speaker's connection every track of another that does
/// not count as the speaker's own.
pub open spec fn all_heard<C, T, S>(m: RoomModel<C, T, S>, linked: Set<Link<C>>) -> bool {
    &&& forall|l: Seq<char>, o: Seq<char>, t: TrackModel<T>|
        m.listeners.contains_key(l) && m.tracks.contains_key(o) && #[trigger] m.tracks[o].contains(
            t,
        ) ==> linked.contains((#[trigger] m.listeners[l], t.id))
    &&& forall|s: Seq<char>, o: Seq<char>, t: TrackModel<T>|
        m.speakers.contains_key(s) && m.tracks.contains_key(o) && o != s && !belongs_to(t.id, s)
            && #[trigger] m.tracks[o].contains(t) ==> linked.contains(
            (#[trigger] m.speakers[s], t.id),
        )
}

/// Whether an event removes a speaker whose name no other speaker's track
/// begins with; any other event does too.
pub open spec fn leaves_others_tracks<C, T, S, R>(
    m: RoomModel<C, T, S>,
    ev: EvModel<C, T, S, R>,
) -> bool {
    step_of(m, ev) matches StepModel::RemoveSpeaker { id, .. } ==> forall|
        o: Seq<char>,
        t: TrackModel<T>,
    |
        o != id && m.tracks.contains_key(o) && #[trigger] m.tracks[o].contains(t) ==> !belongs_to(
            t.id,
            id,
        )
}

proof fn lemma_link<C, T>(plan: Seq<AttachModel<C, T>>, i: int)
    requires
        0 <= i < plan.len(),
    ensures
        links(plan).contains((plan[i].conn, plan[i].track.id)),
{
}

proof fn lemma_walked<V>(order: Seq<Seq<char>>, m: Map<Seq<char>, V>, k: Seq<char>)
    requires
        walks(order, m),
    ensures
        order.contains(k) <==> m.contains_key(k),
{
    assert(order.contains(k) <==> order.to_set().contains(k));
}

/// Everyone goes on hearing everyone else: if the connections carry all that
/// they should before an event, then they do once the event's work is done,
/// given that peers can be reached and that a speaker who leaves does not take
/// another's tracks along.
pub proof fn law_everyone_stays_heard<C, T, S, R>(
    m: RoomModel<C, T, S>,
    ev: EvModel<C, T, S, R>,
    linked: Set<Link<C>>,
)
    requires
        room_ok(m),
        m.tx is Some,
        all_heard(m, linked),
        leaves_others_tracks(m, ev),
    ensures
        all_heard(next_room(m, ev), linked_after(linked, next_room(m, ev), step_of(m, ev))),
        next_room(m, ev).tx is Some,
{
    let next = next_room(m, ev);
    let step = step_of(m, ev);
    let now = linked_after(linked, next, step);
    law_room_stays_ok(m, ev);
    let action = if m.over {
        None
    } else {
        action_of(ev.action)
    };
    match (action, ev.data) {
        (Some(Action::NewSpeaker), EvKindModel::StrConnTx(id, conn, _)) => {
            if has_seat(m) {
                assert forall|s: Seq<char>, o: Seq<char>, t: TrackModel<T>|
                    next.speakers.contains_key(s) && next.tracks.contains_key(o) && o != s
                        && !belongs_to(t.id, s) && #[trigger] next.tracks[o].contains(
                        t,
                    ) implies now.contains((#[trigger] next.speakers[s], t.id)) by {
                    if s == id {
                        lemma_walked(next.track_order, next.tracks, o);
                        lemma_others_tracks(next.track_order, next.tracks, id, o, t);
                        let ts = others_tracks(next.track_order, next.tracks, id);
                        let j = ts.index_of(t);
                        assert(speaker_plan(next, id)[j].track == t);
                        lemma_link(speaker_plan(next, id), j);
                    } else {
                        assert(m.speakers.contains_key(s));
                        assert(m.tracks[o].contains(t));
                        assert(linked.contains((m.speakers[s], t.id)));
                    }
                }
            }
        },
        (Some(Action::NewListener), EvKindModel::StrConn(id, conn)) => {
            assert forall|l: Seq<char>, o: Seq<char>, t: TrackModel<T>|
                next.listeners.contains_key(l) && next.tracks.contains_key(o)
                    && #[trigger] next.tracks[o].contains(t) implies now.contains(
                (#[trigger] next.listeners[l], t.id),
            ) by {
                if l == id {
                    lemma_walked(next.track_order, next.tracks, o);
                    lemma_all_tracks(next.track_order, next.tracks, o, t);
                    let ts = all_tracks(next.track_order, next.tracks);
                    let j = ts.index_of(t);
                    assert(listener_plan(next, id)[j].track == t);
                    lemma_link(listener_plan(next, id), j);
                } else {
                    assert(m.tracks[o].contains(t));
                    assert(linked.contains((m.listeners[l], t.id)));
                }
            }
        },
        (Some(Action::AddSpeakerTrack), EvKindModel::StrTrack(id, track)) => {
            let mine = tracks_of(m, id).push(track);
            assert(next.tracks[id] == mine);
            assert(tracks_of(next, id).last() == track);
            assert forall|l: Seq<char>, o: Seq<char>, t: TrackModel<T>|
                next.listeners.contains_key(l) && next.tracks.contains_key(o)
                    && #[trigger] next.tracks[o].contains(t) implies now.contains(
                (#[trigger] next.listeners[l], t.id),
            ) by {
                if o == id && t == track {
                    lemma_walked(next.listener_order, next.listeners, l);
                    let j = next.listener_order.index_of(l);
                    let k = speakers_plan(next, id, track).len();
                    let plan = newest_plan(next, id);
                    assert(plan[k + j].conn == next.listeners[l]);
                    lemma_link(plan, k + j);
                } else {
                    if o == id {
                        let j = mine.index_of(t);
                        assert(tracks_of(m, id)[j] == t);
                    }
                    assert(m.tracks[o].contains(t));
                    assert(linked.contains((m.listeners[l], t.id)));
                }
            }
            assert forall|s: Seq<char>, o: Seq<char>, t: TrackModel<T>|
                next.speakers.contains_key(s) && next.tracks.contains_key(o) && o != s
                    && !belongs_to(t.id, s) && #[trigger] next.tracks[o].contains(
                    t,
                ) implies now.contains((#[trigger] next.speakers[s], t.id)) by {
                if o == id && t == track {
                    lemma_walked(next.speaker_order, next.speakers, s);
                    lemma_without(next.speaker_order, id);
                    let names = ordered_without(next.speaker_order, id);
                    assert(names.contains(s));
                    let j = names.index_of(s);
                    let plan = newest_plan(next, id);
                    assert(plan[j].conn == next.speakers[s]);
                    lemma_link(plan, j);
                } else {
                    if o == id {
                        let j = mine.index_of(t);
                        assert(tracks_of(m, id)[j] == t);
                    }
                    assert(m.tracks[o].contains(t));
                    assert(linked.contains((m.speakers[s], t.id)));
                }
            }
        },
        (Some(Action::RemoveSpeaker), EvKindModel::Str(id)) => {
            assert forall|l: Seq<char>, o: Seq<char>, t: TrackModel<T>|
                next.listeners.contains_key(l) && next.tracks.contains_key(o)
                    && #[trigger] next.tracks[o].contains(t) implies now.contains(
                (#[trigger] next.listeners[l], t.id),
            ) by {
                assert(m.tracks[o].contains(t));
                assert(linked.contains((m.listeners[l], t.id)));
            }
            assert forall|s: Seq<char>, o: Seq<char>, t: TrackModel<T>|
                next.speakers.contains_key(s) && next.tracks.contains_key(o) && o != s
                    && !belongs_to(t.id, s) && #[trigger] next.tracks[o].contains(
                    t,
                ) implies now.contains((#[trigger] next.speakers[s], t.id)) by {
                assert(m.tracks[o].contains(t));
                assert(linked.contains((m.speakers[s], t.id)));
            }
        },
        (Some(Action::RemoveListener), EvKindModel::Str(id)) => {
            assert forall|l: Seq<char>, o: Seq<char>, t: TrackModel<T>|
                next.listeners.contains_key(l) && next.tracks.contains_key(o)
                    && #[trigger] next.tracks[o].contains(t) implies now.contains(
                (#[trigger] next.listeners[l], t.id),
            ) by {
                assert(m.tracks[o].contains(t));
                assert(linked.contains((m.listeners[l], t.id)));
            }
        },
        _ => {},
    }
}

/// A room that nobody has entered is heard by everyone in it.
pub proof fn law_empty_room_heard<C, T, S>(linked: Set<Link<C>>)
    ensures
        all_heard(empty_room::<C, T, S>(), linked),
{
}

/// The links that there are once the work of a list of events is done, where
/// there were none before.
pub open spec fn linked_over<C, T, S, R>(
    m: RoomModel<C, T, S>,
    evs: Seq<EvModel<C, T, S, R>>,
) -> Set<Link<C>>
    decreases evs.len(),
{
    if evs.len() == 0 {
        Set::empty()
    } else {
        linked_after(
            linked_over(m, evs.drop_last()),
            room_after(m, evs),
            step_of(room_after(m, evs.drop_last()), evs.last()),
        )
    }
}

/// From an empty room on, everyone hears everyone else after whatever happened,
/// given that the first event tells how peers are reached and that no speaker
/// who leaves takes another's tracks along.
pub proof fn law_everyone_always_heard<C, T, S, R>(evs: Seq<EvModel<C, T, S, R>>, tx: S)
    requires
        evs.len() > 0,
        evs[0] == event_of::<C, T, S, R>(Action::SignalSender, EvKindModel::Tx(tx)),
        forall|i: int|
            0 <= i < evs.len() ==> leaves_others_tracks(
                room_after(empty_room::<C, T, S>(), evs.take(i)),
                #[trigger] evs[i],
            ),
    ensures
        all_heard(
            room_after(empty_room::<C, T, S>(), evs),
            linked_over(empty_room::<C, T, S>(), evs),
        ),
        room_after(empty_room::<C, T, S>(), evs).tx is Some,
    decreases evs.len(),
{
    let m = empty_room::<C, T, S>();
    let front = evs.drop_last();
    assert(front =~= evs.take(evs.len() - 1));
    if evs.len() == 1 {
        law_action_read_back(Action::SignalSender);
        assert(room_after(m, front) == m);
    } else {
        assert forall|i: int| 0 <= i < front.len() implies leaves_others_tracks(
            room_after(m, front.take(i)),
            #[trigger] front[i],
        ) by {
            assert(front.take(i) =~= evs.take(i));
            assert(front[i] == evs[i]);
        }
        law_everyone_always_heard(front, tx);
        law_every_room_ok(front);
        assert(evs.last() == evs[evs.len() - 1]);
        law_everyone_stays_heard(room_after(m, front), evs.last(), linked_over(m, front));
    }
}

/// A peer whose connection is disconnected or closed goes out of the room: the
/// connection that the peer had there is closed, and a second such report finds
/// nothing left to close.
pub proof fn law_broken_peer_leaves<C, T, S, R>(
    m: RoomModel<C, T, S>,
    role: Role,
    id: Seq<char>,
    state: PeerState,
)
    requires
        !m.over,
        state == PeerState::Disconnected || state == PeerState::Closed,
    ensures
        reaction(state) == Reaction::Leave,
        ({
            let ev = event_of::<C, T, S, R>(leave_action(role), EvKindModel::Str(id));
            let next = next_room(m, ev);
            &&& !peers(next, role).contains_key(id)
            &&& closed_by(step_of(m, ev)) == lookup(peers(m, role), id)
            &&& closed_by(step_of(next, ev)) == None::<C>
        }),
{
    law_action_read_back(leave_action(role));
}

/// The connection that a piece of work closes, if any.
pub open spec fn closed_by<C, S, R>(step: StepModel<C, S, R>) -> Option<C> {
    match step {
        StepModel::RemoveSpeaker { closing, .. } => closing,
        StepModel::CloseListener { conn } => Some(conn),
        _ => None,
    }
}

/// Once a speaker has left and the work is done, nothing of the speaker is in
/// the room, and no connection in the room carries a track that was named for
/// the speaker. Leaving a second time changes nothing more.
pub proof fn law_leaving_leaves_nothing<C, T, S, R>(
    m: RoomModel<C, T, S>,
    id: Seq<char>,
    linked: Set<Link<C>>,
)
    requires
        room_ok(m),
        !m.over,
    ensures
        ({
            let ev = event_of::<C, T, S, R>(Action::RemoveSpeaker, EvKindModel::Str(id));
            let next = next_room(m, ev);
            let now = linked_after(linked, next, step_of(m, ev));
            &&& !next.speakers.contains_key(id)
            &&& !next.speaker_order.contains(id)
            &&& tracks_of(next, id) == Seq::<TrackModel<T>>::empty()
            &&& !next.track_order.contains(id)
            &&& forall|conn: C, rest: Seq<char>|
                conns_in(next).contains(conn) ==> !#[trigger] now.contains(
                    (conn, track_name(id, rest)),
                )
            &&& forall|conn: C, t: Seq<char>|
                !conns_in(next).contains(conn) || !belongs_to(t, id) ==> (
                #[trigger] now.contains((conn, t)) <==> linked.contains((conn, t)))
            &&& next_room(next, ev) == next
            &&& step_of(next, ev) == StepModel::<C, S, R>::RemoveSpeaker { id, closing: None }
        }),
{
    let ev = event_of::<C, T, S, R>(Action::RemoveSpeaker, EvKindModel::Str(id));
    law_action_read_back(Action::RemoveSpeaker);
    let next = next_room(m, ev);
    let now = linked_after(linked, next, step_of(m, ev));
    lemma_without(m.speaker_order, id);
    lemma_without(m.track_order, id);
    assert(!ordered_without(m.speaker_order, id).contains(id));
    assert(!ordered_without(m.track_order, id).contains(id));
    assert forall|conn: C, rest: Seq<char>|
        conns_in(next).contains(conn) implies !#[trigger] now.contains(
        (conn, track_name(id, rest)),
    ) by {
        law_track_belongs_to_its_speaker(id, rest);
    }
    lemma_filter_absent(next.speaker_order, id);
    lemma_filter_absent(next.track_order, id);
    assert(next.speakers.remove(id) =~= next.speakers);
    assert(next.tracks.remove(id) =~= next.tracks);
}

/// One who leaves takes nobody along: all other speakers, their tracks and all
/// listeners stay.
pub proof fn law_leaving_keeps_the_others<C, T, S, R>(
    m: RoomModel<C, T, S>,
    id: Seq<char>,
    other: Seq<char>,
)
    requires
        other != id,
        !m.over,
    ensures
        ({
            let speaker = next_room(
                m,
                event_of::<C, T, S, R>(Action::RemoveSpeaker, EvKindModel::Str(id)),
            );
            let listener = next_room(
                m,
                event_of::<C, T, S, R>(Action::RemoveListener, EvKindModel::Str(id)),
            );
            &&& lookup(speaker.speakers, other) == lookup(m.speakers, other)
            &&& tracks_of(speaker, other) == tracks_of(m, other)
            &&& speaker.listeners == m.listeners
            &&& lookup(listener.listeners, other) == lookup(m.listeners, other)
            &&& !listener.listeners.contains_key(id)
            &&& listener.speakers == m.speakers
            &&& listener.tracks == m.tracks
        }),
{
    law_action_read_back(Action::RemoveSpeaker);
    law_action_read_back(Action::RemoveListener);
}

/// The events by which a peer announces candidates, one after the other.
pub open spec fn announcements<C, T, S, R>(id: Seq<char>, texts: Seq<Seq<char>>) -> Seq<
    EvModel<C, T, S, R>,
> {
    texts.map_values(
        |c: Seq<char>| event_of::<C, T, S, R>(Action::IceCandidate, EvKindModel::Str2(id, c)),
    )
}

proof fn lemma_announced<C, T, S, R>(m: RoomModel<C, T, S>, id: Seq<char>, texts: Seq<Seq<char>>)
    requires
        !m.over,
    ensures
        ({
            let next = room_after(m, announcements::<C, T, S, R>(id, texts));
            &&& queue_of(next, id) == queue_of(m, id) + texts
            &&& next.candidates.contains_key(id) <==> m.candidates.contains_key(id) || texts.len()
                > 0
            &&& next == (RoomModel { candidates: next.candidates, ..m })
        }),
    decreases texts.len(),
{
    law_action_read_back(Action::IceCandidate);
    let evs = announcements::<C, T, S, R>(id, texts);
    if texts.len() == 0 {
        assert(queue_of(m, id) + texts =~= queue_of(m, id));
    } else {
        lemma_announced::<C, T, S, R>(m, id, texts.drop_last());
        assert(evs.drop_last() =~= announcements::<C, T, S, R>(id, texts.drop_last()));
        assert(queue_of(m, id) + texts =~= (queue_of(m, id) + texts.drop_last()).push(
            texts.last(),
        ));
    }
}

/// Candidates reach a peer's connection in the order in which they were
/// announced, behind those that waited already, and each of them once.
pub proof fn law_candidates_in_order_once<C, T, S, R>(
    m: RoomModel<C, T, S>,
    role: Role,
    id: Seq<char>,
    texts: Seq<Seq<char>>,
)
    requires
        peers(m, role).contains_key(id),
        !m.over,
    ensures
        ({
            let next = room_after(m, announcements::<C, T, S, R>(id, texts));
            &&& taken(next, role, id) == queue_of(m, id) + texts
            &&& taken(after_taking(next, role, id), role, id) == Seq::<Seq<char>>::empty()
        }),
{
    lemma_announced::<C, T, S, R>(m, id, texts);
    let next = room_after(m, announcements::<C, T, S, R>(id, texts));
    if !next.candidates.contains_key(id) {
        assert(queue_of(m, id) + texts =~= Seq::empty());
    }
}

/// Candidates of a peer without a connection wait: looking for them takes none
/// and loses none.
pub proof fn law_candidates_wait<C, T, S>(m: RoomModel<C, T, S>, role: Role, id: Seq<char>)
    requires
        !peers(m, role).contains_key(id),
    ensures
        taken(m, role, id) == Seq::<Seq<char>>::empty(),
        after_taking(m, role, id) == m,
{
}

/// Only an announcement of its own or a taking of its own changes what waits
/// for a peer.
pub proof fn law_candidates_are_the_peers<C, T, S, R>(
    m: RoomModel<C, T, S>,
    ev: EvModel<C, T, S, R>,
    role: Role,
    id: Seq<char>,
    other: Seq<char>,
)
    requires
        other != id,
    ensures
        !(exists|c: Seq<char>|
            ev == #[trigger] event_of::<C, T, S, R>(
                Action::IceCandidate,
                EvKindModel::Str2(id, c),
            )) ==> queue_of(next_room(m, ev), id) == queue_of(m, id),
        queue_of(after_taking(m, role, other), id) == queue_of(m, id),
{
    match (action_of(ev.action), ev.data) {
        (Some(Action::IceCandidate), EvKindModel::Str2(whom, c)) => {
            if whom == id {
                assert(ev.action == action_word(Action::IceCandidate));
                assert(ev == event_of::<C, T, S, R>(
                    Action::IceCandidate,
                    EvKindModel::Str2(id, c),
                ));
            }
        },
        _ => {},
    }
}

} // verus!
