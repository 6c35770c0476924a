//! What is handed to whom: every plan, connection by connection and track by
//! track, and what is read of the candidates that wait.
use vstd::prelude::*;

use crate::laws::{
    lemma_all_tracks, lemma_others_tracks, lemma_others_tracks_origin, lemma_without,
};
use crate::room::{
    all_tracks, attach_models, candidate_models, conns_in, foreign, listener_plan, listeners_plan,
    newest_plan, ordered_without, others_tracks, readable, speaker_plan, speakers_plan, texts,
    Attach, AttachModel, RoomModel,
};
use crate::track::{track_models, LocalTrack, TrackModel};
use crate::wire::{parsed_candidate, IceCandidateInit, IceCandidateInitModel};

verus! {

/// While no way to peers is known, nothing is planned.
pub proof fn law_nothing_planned_for_the_unreachable<C, T, S>(
    m: RoomModel<C, T, S>,
    id: Seq<char>,
    track: TrackModel<T>,
)
    requires
        m.tx is None,
    ensures
        listener_plan(m, id).len() == 0,
        speaker_plan(m, id).len() == 0,
        speakers_plan(m, id, track).len() == 0,
        listeners_plan(m, track).len() == 0,
        newest_plan(m, id).len() == 0,
{
}

/// A track for the listeners is planned for each of them, in their order, on the
/// connection that the listener has.
pub proof fn law_track_for_every_listener<C, T, S>(m: RoomModel<C, T, S>, track: TrackModel<T>)
    requires
        m.tx is Some,
    ensures
        listeners_plan(m, track).len() == m.listener_order.len(),
        forall|i: int|
            0 <= i < m.listener_order.len() ==> {
                let a = #[trigger] listeners_plan(m, track)[i];
                &&& a.peer == m.listener_order[i]
                &&& a.conn == m.listeners[m.listener_order[i]]
                &&& a.track == track
            },
{
}

/// A speaker's track for the speakers is planned for each of the others on the
/// connection that the other has, for nobody else and for nobody twice.
pub proof fn law_track_for_every_other_speaker<C, T, S>(
    m: RoomModel<C, T, S>,
    id: Seq<char>,
    track: TrackModel<T>,
    s: Seq<char>,
)
    requires
        m.tx is Some,
        m.speaker_order.no_duplicates(),
    ensures
        m.speaker_order.contains(s) && s != id <==> exists|i: int|
            0 <= i < speakers_plan(m, id, track).len() && (#[trigger] speakers_plan(
                m,
                id,
                track,
            )[i]).peer == s,
        forall|i: int|
            0 <= i < speakers_plan(m, id, track).len() ==> {
                let a = #[trigger] speakers_plan(m, id, track)[i];
                a.conn == m.speakers[a.peer] && a.track == track && a.peer != id
            },
        forall|i: int, j: int|
            0 <= i < j < speakers_plan(m, id, track).len() ==> (#[trigger] speakers_plan(
                m,
                id,
                track,
            )[i]).peer != (#[trigger] speakers_plan(m, id, track)[j]).peer,
{
    let names = ordered_without(m.speaker_order, id);
    let plan = speakers_plan(m, id, track);
    lemma_without(m.speaker_order, id);
    assert(plan.len() == names.len());
    assert(forall|i: int| 0 <= i < names.len() ==> (#[trigger] plan[i]).peer == names[i]);
    assert(names.contains(s) <==> m.speaker_order.contains(s) && s != id);
    if names.contains(s) {
        let i = names.index_of(s);
        assert(plan[i].peer == s);
    }
    assert forall|i: int| 0 <= i < plan.len() implies {
        let a = #[trigger] plan[i];
        a.conn == m.speakers[a.peer] && a.track == track && a.peer != id
    } by {
        assert(names.contains(names[i]));
    }
}

/// A speaker's newest track is planned for each other speaker, then for each
/// listener; a speaker without tracks has nothing planned.
pub proof fn law_newest_track_for_everyone_else<C, T, S>(m: RoomModel<C, T, S>, id: Seq<char>)
    ensures
        m.tracks.contains_key(id) && m.tracks[id].len() > 0 ==> newest_plan(m, id)
            == speakers_plan(m, id, m.tracks[id].last()) + listeners_plan(m, m.tracks[id].last()),
        !m.tracks.contains_key(id) || m.tracks[id].len() == 0 ==> newest_plan(m, id).len() == 0,
{
}

/// What `all_tracks` holds comes from someone.
proof fn lemma_all_tracks_origin<T>(
    order: Seq<Seq<char>>,
    tracks: Map<Seq<char>, Seq<TrackModel<T>>>,
    t: TrackModel<T>,
)
    requires
        all_tracks(order, tracks).contains(t),
    ensures
        exists|o: Seq<char>| order.contains(o) && #[trigger] tracks[o].contains(t),
    decreases order.len(),
{
    if order.len() > 0 {
        let front = order.drop_last();
        let a = all_tracks(front, tracks);
        let b = tracks[order.last()];
        let j = (a + b).index_of(t);
        assert(order[order.len() - 1] == order.last());
        if j < a.len() {
            assert(a[j] == t);
            lemma_all_tracks_origin(front, tracks, t);
            let o = choose|o: Seq<char>| front.contains(o) && #[trigger] tracks[o].contains(t);
            assert(order[front.index_of(o)] == o);
            assert(order.contains(o) && tracks[o].contains(t));
        } else {
            assert(b[j - a.len()] == t);
            assert(order.contains(order.last()) && tracks[order.last()].contains(t));
        }
    }
}

/// A listener who is in the room gets every track that anyone has, on the own
/// connection, and nothing else; one who is not gets nothing.
pub proof fn law_listener_gets_every_track<C, T, S>(
    m: RoomModel<C, T, S>,
    id: Seq<char>,
    a: AttachModel<C, T>,
)
    requires
        m.tx is Some,
    ensures
        listener_plan(m, id).contains(a) <==> {
            &&& m.listeners.contains_key(id)
            &&& a.peer == id
            &&& a.conn == m.listeners[id]
            &&& exists|o: Seq<char>|
                m.track_order.contains(o) && #[trigger] m.tracks[o].contains(a.track)
        },
{
    let plan = listener_plan(m, id);
    let ts = all_tracks(m.track_order, m.tracks);
    if m.listeners.contains_key(id) {
        assert(plan.len() == ts.len());
        assert(forall|i: int|
            0 <= i < ts.len() ==> #[trigger] plan[i] == (AttachModel {
                peer: id,
                conn: m.listeners[id],
                track: ts[i],
            }));
        if plan.contains(a) {
            let i = plan.index_of(a);
            assert(ts[i] == a.track);
            lemma_all_tracks_origin(m.track_order, m.tracks, a.track);
        }
        if a.peer == id && a.conn == m.listeners[id] && exists|o: Seq<char>|
            m.track_order.contains(o) && #[trigger] m.tracks[o].contains(a.track) {
            let o = choose|o: Seq<char>|
                m.track_order.contains(o) && #[trigger] m.tracks[o].contains(a.track);
            lemma_all_tracks(m.track_order, m.tracks, o, a.track);
            let i = ts.index_of(a.track);
            assert(plan[i] == a);
        }
    }
}

/// A speaker who is in the room gets every track of every other whose name does
/// not begin with the speaker's, on the own connection, and nothing else; one
/// who is not gets nothing.
pub proof fn law_speaker_gets_the_others_tracks<C, T, S>(
    m: RoomModel<C, T, S>,
    id: Seq<char>,
    a: AttachModel<C, T>,
)
    requires
        m.tx is Some,
    ensures
        speaker_plan(m, id).contains(a) <==> {
            &&& m.speakers.contains_key(id)
            &&& a.peer == id
            &&& a.conn == m.speakers[id]
            &&& !id.is_prefix_of(a.track.id)
            &&& exists|o: Seq<char>|
                o != id && m.track_order.contains(o) && #[trigger] m.tracks[o].contains(a.track)
        },
{
    let plan = speaker_plan(m, id);
    let ts = others_tracks(m.track_order, m.tracks, id);
    if m.speakers.contains_key(id) {
        assert(plan.len() == ts.len());
        assert(forall|i: int|
            0 <= i < ts.len() ==> #[trigger] plan[i] == (AttachModel {
                peer: id,
                conn: m.speakers[id],
                track: ts[i],
            }));
        if plan.contains(a) {
            let i = plan.index_of(a);
            assert(ts[i] == a.track);
            lemma_others_tracks_origin(m.track_order, m.tracks, id, a.track);
        }
        if a.peer == id && a.conn == m.speakers[id] && !id.is_prefix_of(a.track.id) && exists|
            o: Seq<char>,
        |
            o != id && m.track_order.contains(o) && #[trigger] m.tracks[o].contains(a.track) {
            let o = choose|o: Seq<char>|
                o != id && m.track_order.contains(o) && #[trigger] m.tracks[o].contains(a.track);
            lemma_others_tracks(m.track_order, m.tracks, id, o, a.track);
            let i = ts.index_of(a.track);
            assert(plan[i] == a);
        }
    }
}

/// One more owner at the end of the order puts that owner's tracks, in their
/// order, behind all others.
pub proof fn law_tracks_come_owner_by_owner<T>(
    order: Seq<Seq<char>>,
    tracks: Map<Seq<char>, Seq<TrackModel<T>>>,
    owner: Seq<char>,
    id: Seq<char>,
    mine: Seq<TrackModel<T>>,
    t: TrackModel<T>,
)
    ensures
        all_tracks(Seq::<Seq<char>>::empty(), tracks).len() == 0,
        all_tracks(order.push(owner), tracks) == all_tracks(order, tracks) + tracks[owner],
        others_tracks(Seq::<Seq<char>>::empty(), tracks, id).len() == 0,
        others_tracks(order.push(id), tracks, id) == others_tracks(order, tracks, id),
        owner != id ==> others_tracks(order.push(owner), tracks, id) == others_tracks(
            order,
            tracks,
            id,
        ) + foreign(tracks[owner], id),
        foreign(Seq::<TrackModel<T>>::empty(), id).len() == 0,
        id.is_prefix_of(t.id) ==> foreign(mine.push(t), id) == foreign(mine, id),
        !id.is_prefix_of(t.id) ==> foreign(mine.push(t), id) == foreign(mine, id).push(t),
{
    reveal(Seq::filter);
    assert(order.push(owner).drop_last() =~= order);
    assert(order.push(id).drop_last() =~= order);
    assert(mine.push(t).drop_last() =~= mine);
}

/// All connections are the speakers', in their order, and then the listeners'.
pub proof fn law_all_connections<C, T, S>(m: RoomModel<C, T, S>)
    ensures
        conns_in(m).len() == m.speaker_order.len() + m.listener_order.len(),
        forall|i: int|
            0 <= i < m.speaker_order.len() ==> #[trigger] conns_in(m)[i]
                == m.speakers[m.speaker_order[i]],
        forall|i: int|
            0 <= i < m.listener_order.len() ==> #[trigger] conns_in(m)[m.speaker_order.len() + i]
                == m.listeners[m.listener_order[i]],
{
}

/// How many texts of a list read as candidates.
pub open spec fn readable_count(q: Seq<Seq<char>>) -> nat
    decreases q.len(),
{
    if q.len() == 0 {
        0
    } else if parsed_candidate(q.last()) is Some {
        readable_count(q.drop_last()) + 1
    } else {
        readable_count(q.drop_last())
    }
}

/// Every text of a list that reads as a candidate is read, and stands behind as
/// many candidates as texts before it read: nothing that reads is left out,
/// nothing is added, and the order is kept.
pub proof fn law_every_readable_candidate_is_read(q: Seq<Seq<char>>, i: int)
    requires
        0 <= i < q.len(),
    ensures
        readable(q).len() == readable_count(q),
        parsed_candidate(q[i]) is Some ==> {
            &&& readable_count(q.take(i)) < readable(q).len()
            &&& readable(q)[readable_count(q.take(i)) as int] == parsed_candidate(q[i])->0
        },
    decreases q.len(),
{
    lemma_readable_len(q);
    let front = q.drop_last();
    lemma_readable_len(front);
    if i < q.len() - 1 {
        law_every_readable_candidate_is_read(front, i);
        assert(front.take(i) =~= q.take(i));
    } else {
        assert(q.take(i) =~= front);
    }
}

proof fn lemma_readable_len(q: Seq<Seq<char>>)
    ensures
        readable(q).len() == readable_count(q),
    decreases q.len(),
{
    if q.len() > 0 {
        lemma_readable_len(q.drop_last());
    }
}

/// If every text of a list reads as a candidate, there are as many candidates as
/// texts, and each is what the text in its place reads as.
pub proof fn law_all_readable_all_read(q: Seq<Seq<char>>)
    requires
        forall|i: int| 0 <= i < q.len() ==> parsed_candidate(#[trigger] q[i]) is Some,
    ensures
        readable(q).len() == q.len(),
        forall|i: int|
            0 <= i < q.len() ==> #[trigger] readable(q)[i] == parsed_candidate(q[i])->0,
    decreases q.len(),
{
    if q.len() > 0 {
        let front = q.drop_last();
        assert forall|i: int| 0 <= i < front.len() implies parsed_candidate(
            #[trigger] front[i],
        ) is Some by {
            assert(front[i] == q[i]);
        }
        law_all_readable_all_read(front);
        assert(q[q.len() - 1] == q.last());
        assert forall|i: int| 0 <= i < q.len() implies #[trigger] readable(q)[i]
            == parsed_candidate(q[i])->0 by {
            if i < front.len() {
                assert(readable(q)[i] == readable(front)[i]);
                assert(front[i] == q[i]);
            }
        }
    }
}

/// What is read of two lists, one behind the other, is what is read of each, one
/// behind the other; and of a single text, what it reads as, if it does.
pub proof fn law_reading_goes_text_by_text(
    a: Seq<Seq<char>>,
    b: Seq<Seq<char>>,
    text: Seq<char>,
)
    ensures
        readable(a + b) == readable(a) + readable(b),
        readable(Seq::<Seq<char>>::empty()).len() == 0,
        match parsed_candidate(text) {
            Some(c) => readable(seq![text]) == seq![c],
            None => readable(seq![text]) == Seq::<IceCandidateInitModel>::empty(),
        },
    decreases b.len(),
{
    reveal_with_fuel(readable, 2);
    assert(seq![text].drop_last() =~= Seq::<Seq<char>>::empty());
    assert(Seq::<IceCandidateInitModel>::empty().push(parsed_candidate(text)->0)
        =~= seq![parsed_candidate(text)->0]);
    if b.len() == 0 {
        assert(a + b =~= a);
        assert(readable(a) + readable(b) =~= readable(a));
    } else {
        law_reading_goes_text_by_text(a, b.drop_last(), text);
        assert((a + b).drop_last() =~= a + b.drop_last());
        assert((a + b).last() == b.last());
        assert(readable(a + b) =~= readable(a) + readable(b));
    }
}

/// Lists of texts, tracks, candidates and plans stand for their elements, one
/// for one.
pub proof fn law_lists_one_for_one<'a, C, T>(
    q: Seq<String>,
    tracks: Seq<LocalTrack<T>>,
    cs: Seq<IceCandidateInit>,
    plan: Seq<Attach<'a, C, T>>,
)
    ensures
        texts(q).len() == q.len(),
        forall|i: int| 0 <= i < q.len() ==> #[trigger] texts(q)[i] == q[i]@,
        track_models(tracks).len() == tracks.len(),
        forall|i: int|
            0 <= i < tracks.len() ==> (#[trigger] track_models(tracks)[i]).id == tracks[i].id@,
        forall|i: int|
            0 <= i < tracks.len() ==> (#[trigger] track_models(tracks)[i]).handle
                == tracks[i].handle,
        candidate_models(cs).len() == cs.len(),
        forall|i: int| 0 <= i < cs.len() ==> #[trigger] candidate_models(cs)[i] == cs[i]@,
        attach_models(plan).len() == plan.len(),
        forall|i: int| 0 <= i < plan.len() ==> #[trigger] attach_models(plan)[i] == plan[i]@,
{
}

} // verus!
