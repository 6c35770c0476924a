//! The room: who speaks, who listens, what is handed to whom.
//!
//! An event changes the room and yields the work that the change brings: calls
//! into connections, which the room only names. Which track is to be attached
//! to which connection is planned from the room as the event left it.
use std::collections::VecDeque;

use vstd::prelude::*;

use crate::event::{action_of, Action, AppStateEv, AppStateEvKind, EvKindModel, EvModel};
use crate::roster::Roster;
use crate::track::{belongs_to, starts_with, track_models, LocalTrack, TrackModel};
use crate::wire::{
    parsed_candidate, read_candidate, IceCandidateInit, IceCandidateInitModel, SessionDescription,
    SessionDescriptionModel,
};

verus! {

/// The speakers that a room takes.
pub const MAX_SPEAKERS: usize = 5;

/// The milliseconds between two looks at a peer's queue of candidates.
pub const ICE_POLL_MILLIS: u64 = 100;

/// On which side of the room a peer is.
#[derive(Clone, Copy, Debug, PartialEq, Eq, Structural)]
pub enum Role {
    Speaker,
    Listener,
}

/// The state of the room. Connections, track handles and the way to a peer's
/// socket are kept and not looked into: `C`, `T` and `S`. A room is over once it
/// has refused a speaker: no event is worked into it after that.
pub struct AppState<C, T, S> {
    pub max_speakers: usize,
    pub speaker_tracks: Roster<Vec<LocalTrack<T>>>,
    pub speaker_conns: Roster<C>,
    pub listeners: Roster<C>,
    pub ice_candidates: Roster<VecDeque<String>>,
    pub tx: Option<S>,
    pub over: bool,
}

/// The room as values: the maps, and the order in which each is walked.
pub struct RoomModel<C, T, S> {
    pub max_speakers: usize,
    pub speakers: Map<Seq<char>, C>,
    pub speaker_order: Seq<Seq<char>>,
    pub listeners: Map<Seq<char>, C>,
    pub listener_order: Seq<Seq<char>>,
    pub tracks: Map<Seq<char>, Seq<TrackModel<T>>>,
    pub track_order: Seq<Seq<char>>,
    pub candidates: Map<Seq<char>, Seq<Seq<char>>>,
    pub tx: Option<S>,
    pub over: bool,
}

pub open spec fn texts(q: Seq<String>) -> Seq<Seq<char>> {
    q.map_values(|s: String| s@)
}

impl<C, T, S> View for AppState<C, T, S> {
    type V = RoomModel<C, T, S>;

    open spec fn view(&self) -> RoomModel<C, T, S> {
        RoomModel {
            max_speakers: self.max_speakers,
            speakers: self.speaker_conns@,
            speaker_order: self.speaker_conns.keys(),
            listeners: self.listeners@,
            listener_order: self.listeners.keys(),
            tracks: self.speaker_tracks@.map_values(|v: Vec<LocalTrack<T>>| track_models(v@)),
            track_order: self.speaker_tracks.keys(),
            candidates: self.ice_candidates@.map_values(|q: VecDeque<String>| texts(q@)),
            tx: self.tx,
            over: self.over,
        }
    }
}

/// An order of names walks a map: it holds each of the map's names once.
pub open spec fn walks<V>(order: Seq<Seq<char>>, m: Map<Seq<char>, V>) -> bool {
    &&& order.no_duplicates()
    &&& order.to_set() == m.dom()
}

/// What holds of every room: the orders walk their maps, and no more speak than
/// the room takes.
pub open spec fn room_ok<C, T, S>(m: RoomModel<C, T, S>) -> bool {
    &&& walks(m.speaker_order, m.speakers)
    &&& walks(m.listener_order, m.listeners)
    &&& walks(m.track_order, m.tracks)
    &&& m.candidates.dom().finite()
    &&& m.max_speakers == MAX_SPEAKERS
    &&& m.speakers.dom().len() <= m.max_speakers
}

pub open spec fn empty_room<C, T, S>() -> RoomModel<C, T, S> {
    RoomModel {
        max_speakers: MAX_SPEAKERS,
        speakers: Map::empty(),
        speaker_order: Seq::empty(),
        listeners: Map::empty(),
        listener_order: Seq::empty(),
        tracks: Map::empty(),
        track_order: Seq::empty(),
        candidates: Map::empty(),
        tx: None,
        over: false,
    }
}

/// The order after a name has been put into a map.
pub open spec fn ordered_with<V>(
    order: Seq<Seq<char>>,
    m: Map<Seq<char>, V>,
    id: Seq<char>,
) -> Seq<Seq<char>> {
    if m.contains_key(id) {
        order
    } else {
        order.push(id)
    }
}

/// The order after a name has been taken out.
pub open spec fn ordered_without(order: Seq<Seq<char>>, id: Seq<char>) -> Seq<Seq<char>> {
    order.filter(|k: Seq<char>| k != id)
}

/// A speaker's tracks.
pub open spec fn tracks_of<C, T, S>(m: RoomModel<C, T, S>, id: Seq<char>) -> Seq<TrackModel<T>> {
    if m.tracks.contains_key(id) {
        m.tracks[id]
    } else {
        Seq::empty()
    }
}

/// The candidates that wait for a peer, the first to come first.
pub open spec fn queue_of<C, T, S>(m: RoomModel<C, T, S>, id: Seq<char>) -> Seq<Seq<char>> {
    if m.candidates.contains_key(id) {
        m.candidates[id]
    } else {
        Seq::empty()
    }
}

/// The peers on one side of the room.
pub open spec fn peers<C, T, S>(m: RoomModel<C, T, S>, role: Role) -> Map<Seq<char>, C> {
    match role {
        Role::Speaker => m.speakers,
        Role::Listener => m.listeners,
    }
}

/// Whether the room takes one more speaker.
pub open spec fn has_seat<C, T, S>(m: RoomModel<C, T, S>) -> bool {
    m.speakers.dom().len() < MAX_SPEAKERS
}

/// The room after an event. A room that is over stays as it is. An event whose
/// action is unknown, or that does not bring what its action needs, changes
/// nothing.
pub open spec fn next_room<C, T, S, R>(m: RoomModel<C, T, S>, ev: EvModel<C, T, S, R>) -> RoomModel<
    C,
    T,
    S,
> {
    if m.over {
        m
    } else {
        worked_in(m, ev)
    }
}

/// What an event makes of a room that is not over.
pub open spec fn worked_in<C, T, S, R>(m: RoomModel<C, T, S>, ev: EvModel<C, T, S, R>) -> RoomModel<
    C,
    T,
    S,
> {
    match (action_of(ev.action), ev.data) {
        (Some(Action::NewSpeaker), EvKindModel::StrConnTx(id, conn, _)) => if has_seat(m) {
            RoomModel {
                speakers: m.speakers.insert(id, conn),
                speaker_order: ordered_with(m.speaker_order, m.speakers, id),
                ..m
            }
        } else {
            RoomModel { over: true, ..m }
        },
        (Some(Action::AddSpeakerTrack), EvKindModel::StrTrack(id, track)) => RoomModel {
            tracks: m.tracks.insert(id, tracks_of(m, id).push(track)),
            track_order: ordered_with(m.track_order, m.tracks, id),
            ..m
        },
        (Some(Action::IceCandidate), EvKindModel::Str2(id, candidate)) => RoomModel {
            candidates: m.candidates.insert(id, queue_of(m, id).push(candidate)),
            ..m
        },
        (Some(Action::RemoveSpeaker), EvKindModel::Str(id)) => RoomModel {
            speakers: m.speakers.remove(id),
            speaker_order: ordered_without(m.speaker_order, id),
            tracks: m.tracks.remove(id),
            track_order: ordered_without(m.track_order, id),
            ..m
        },
        (Some(Action::NewListener), EvKindModel::StrConn(id, conn)) => RoomModel {
            listeners: m.listeners.insert(id, conn),
            listener_order: ordered_with(m.listener_order, m.listeners, id),
            ..m
        },
        (Some(Action::RemoveListener), EvKindModel::Str(id)) => RoomModel {
            listeners: m.listeners.remove(id),
            listener_order: ordered_without(m.listener_order, id),
            ..m
        },
        (Some(Action::SignalSender), EvKindModel::Tx(tx)) => RoomModel { tx: Some(tx), ..m },
        _ => m,
    }
}

/// The work that an event brings.
#[derive(Debug, PartialEq, Eq)]
pub enum Step<C, S, R> {
    /// None.
    Nothing,
    /// Tell the asker that the speaker is in, attach the others' tracks to the
    /// speaker's connection, and look after the speaker's candidates from now
    /// on.
    AdmitSpeaker { id: String, reply: R },
    /// Tell the asker that the room is full, and end the room.
    RefuseSpeaker { reply: R },
    /// Attach all tracks to the listener's connection, and look after the
    /// listener's candidates from now on.
    AdmitListener { id: String },
    /// Answer an offer on the connection that the peer has.
    SetOffer { role: Role, id: String, offer: SessionDescription, tx: S },
    /// Make the peer a connection, and answer the offer on it.
    Connect { role: Role, id: String, offer: SessionDescription, tx: S },
    /// Put the peer's answer to the connection that the peer has.
    SetAnswer { role: Role, id: String, answer: SessionDescription },
    /// Attach the speaker's newest track to the others' connections.
    ShareTrack { id: String },
    /// Close the connection of the speaker who left, if there is one, and take
    /// the speaker's tracks off all others.
    RemoveSpeaker { id: String, closing: Option<C> },
    /// Close the connection of the listener who left.
    CloseListener { conn: C },
}

pub enum StepModel<C, S, R> {
    Nothing,
    AdmitSpeaker { id: Seq<char>, reply: R },
    RefuseSpeaker { reply: R },
    AdmitListener { id: Seq<char> },
    SetOffer { role: Role, id: Seq<char>, offer: SessionDescriptionModel, tx: S },
    Connect { role: Role, id: Seq<char>, offer: SessionDescriptionModel, tx: S },
    SetAnswer { role: Role, id: Seq<char>, answer: SessionDescriptionModel },
    ShareTrack { id: Seq<char> },
    RemoveSpeaker { id: Seq<char>, closing: Option<C> },
    CloseListener { conn: C },
}

impl<C, S, R> View for Step<C, S, R> {
    type V = StepModel<C, S, R>;

    open spec fn view(&self) -> StepModel<C, S, R> {
        match *self {
            Step::Nothing => StepModel::Nothing,
            Step::AdmitSpeaker { id, reply } => StepModel::AdmitSpeaker { id: id@, reply },
            Step::RefuseSpeaker { reply } => StepModel::RefuseSpeaker { reply },
            Step::AdmitListener { id } => StepModel::AdmitListener { id: id@ },
            Step::SetOffer { role, id, offer, tx } => StepModel::SetOffer {
                role,
                id: id@,
                offer: offer@,
                tx,
            },
            Step::Connect { role, id, offer, tx } => StepModel::Connect {
                role,
                id: id@,
                offer: offer@,
                tx,
            },
            Step::SetAnswer { role, id, answer } => StepModel::SetAnswer {
                role,
                id: id@,
                answer: answer@,
            },
            Step::ShareTrack { id } => StepModel::ShareTrack { id: id@ },
            Step::RemoveSpeaker { id, closing } => StepModel::RemoveSpeaker { id: id@, closing },
            Step::CloseListener { conn } => StepModel::CloseListener { conn },
        }
    }
}

impl<C, S, R> Step<C, S, R> {
    /// Whether the room ends with this work: it does once a speaker has been
    /// refused.
    pub fn ends_room(&self) -> (r: bool)
        ensures
            r == (self@ is RefuseSpeaker),
    {
        match self {
            Step::RefuseSpeaker { .. } => true,
            _ => false,
        }
    }
}

/// What becomes of an offer: a known peer's connection answers it, an unknown
/// peer gets a connection.
pub open spec fn offer_step<C, T, S, R>(
    m: RoomModel<C, T, S>,
    role: Role,
    id: Seq<char>,
    offer: SessionDescriptionModel,
    tx: S,
) -> StepModel<C, S, R> {
    if peers(m, role).contains_key(id) {
        StepModel::SetOffer { role, id, offer, tx }
    } else {
        StepModel::Connect { role, id, offer, tx }
    }
}

/// What becomes of an answer: it is for a known peer's connection.
pub open spec fn answer_step<C, T, S, R>(
    m: RoomModel<C, T, S>,
    role: Role,
    id: Seq<char>,
    answer: SessionDescriptionModel,
) -> StepModel<C, S, R> {
    if peers(m, role).contains_key(id) {
        StepModel::SetAnswer { role, id, answer }
    } else {
        StepModel::Nothing
    }
}

/// The value that a map has under a name.
pub open spec fn lookup<V>(m: Map<Seq<char>, V>, id: Seq<char>) -> Option<V> {
    if m.contains_key(id) {
        Some(m[id])
    } else {
        None
    }
}

/// The work that an event brings to a room: none to one that is over.
pub open spec fn step_of<C, T, S, R>(m: RoomModel<C, T, S>, ev: EvModel<C, T, S, R>) -> StepModel<
    C,
    S,
    R,
> {
    if m.over {
        StepModel::Nothing
    } else {
        work_of(m, ev)
    }
}

/// The work that an event brings to a room that is not over.
pub open spec fn work_of<C, T, S, R>(m: RoomModel<C, T, S>, ev: EvModel<C, T, S, R>) -> StepModel<
    C,
    S,
    R,
> {
    match (action_of(ev.action), ev.data) {
        (Some(Action::NewSpeaker), EvKindModel::StrConnTx(id, _, reply)) => if has_seat(m) {
            StepModel::AdmitSpeaker { id, reply }
        } else {
            StepModel::RefuseSpeaker { reply }
        },
        (Some(Action::SpeakerOffer), EvKindModel::StrSDPTx(id, offer, tx)) => offer_step(
            m,
            Role::Speaker,
            id,
            offer,
            tx,
        ),
        (Some(Action::ListenerOffer), EvKindModel::StrSDPTx(id, offer, tx)) => offer_step(
            m,
            Role::Listener,
            id,
            offer,
            tx,
        ),
        (Some(Action::SpeakerAnswer), EvKindModel::StrSDP(id, answer)) => answer_step(
            m,
            Role::Speaker,
            id,
            answer,
        ),
        (Some(Action::ListenerAnswer), EvKindModel::StrSDP(id, answer)) => answer_step(
            m,
            Role::Listener,
            id,
            answer,
        ),
        (Some(Action::AddSpeakerTrack), EvKindModel::StrTrack(id, _)) => StepModel::ShareTrack {
            id,
        },
        (Some(Action::RemoveSpeaker), EvKindModel::Str(id)) => StepModel::RemoveSpeaker {
            id,
            closing: lookup(m.speakers, id),
        },
        (Some(Action::NewListener), EvKindModel::StrConn(id, _)) => StepModel::AdmitListener {
            id,
        },
        (Some(Action::RemoveListener), EvKindModel::Str(id)) => match lookup(m.listeners, id) {
            Some(conn) => StepModel::CloseListener { conn },
            None => StepModel::Nothing,
        },
        _ => StepModel::Nothing,
    }
}

proof fn lemma_map_values_insert<V, W>(m: Map<Seq<char>, V>, k: Seq<char>, v: V, f: spec_fn(V) -> W)
    ensures
        m.insert(k, v).map_values(f) == m.map_values(f).insert(k, f(v)),
{
    assert(m.insert(k, v).map_values(f) =~= m.map_values(f).insert(k, f(v)));
}

proof fn lemma_map_values_remove<V, W>(m: Map<Seq<char>, V>, k: Seq<char>, f: spec_fn(V) -> W)
    ensures
        m.remove(k).map_values(f) == m.map_values(f).remove(k),
{
    assert(m.remove(k).map_values(f) =~= m.map_values(f).remove(k));
}

impl<C, T, S> AppState<C, T, S> {
    /// The rosters are well-formed, and no more speak than the room takes.
    pub open spec fn wf(&self) -> bool {
        &&& self.speaker_tracks.wf()
        &&& self.speaker_conns.wf()
        &&& self.listeners.wf()
        &&& self.ice_candidates.wf()
        &&& self.max_speakers == MAX_SPEAKERS
        &&& self.speaker_conns@.dom().len() <= self.max_speakers
    }

    /// A well-formed state is a room.
    pub proof fn lemma_room_ok(&self)
        requires
            self.wf(),
        ensures
            room_ok(self@),
    {
        self.speaker_tracks.lemma_wf();
        self.speaker_conns.lemma_wf();
        self.listeners.lemma_wf();
        self.ice_candidates.lemma_wf();
        assert(self@.tracks.dom() =~= self.speaker_tracks@.dom());
        assert(self@.candidates.dom() =~= self.ice_candidates@.dom());
    }

    /// An empty room.
    pub fn new() -> (r: Self)
        ensures
            r.wf(),
            r@ == empty_room::<C, T, S>(),
    {
        let r = AppState {
            max_speakers: MAX_SPEAKERS,
            speaker_tracks: Roster::new(),
            speaker_conns: Roster::new(),
            listeners: Roster::new(),
            ice_candidates: Roster::new(),
            tx: None,
            over: false,
        };
        assert(r@.tracks =~= Map::empty());
        assert(r@.candidates =~= Map::empty());
        r
    }

    /// Records a speaker's track as the speaker's newest.
    pub fn add_speaker_track(&mut self, id: String, track: LocalTrack<T>)
        requires
            old(self).wf(),
        ensures
            final(self).wf(),
            final(self)@ == (RoomModel {
                tracks: old(self)@.tracks.insert(id@, tracks_of(old(self)@, id@).push(track@)),
                track_order: ordered_with(old(self)@.track_order, old(self)@.tracks, id@),
                ..old(self)@
            }),
    {
        let ghost before = *self;
        let ghost f = |v: Vec<LocalTrack<T>>| track_models(v@);
        if self.speaker_tracks.contains_key(&id) {
            if let Some(tracks) = self.speaker_tracks.get_mut(&id) {
                tracks.push(track);
            }
            proof {
                let v = self.speaker_tracks@[id@];
                lemma_map_values_insert(before.speaker_tracks@, id@, v, f);
                assert(track_models(v@) =~= tracks_of(before@, id@).push(track@));
                assert(self@.tracks =~= before@.tracks.insert(
                    id@,
                    tracks_of(before@, id@).push(track@),
                ));
            }
        } else {
            let mut v: Vec<LocalTrack<T>> = Vec::new();
            v.push(track);
            proof {
                lemma_map_values_insert(before.speaker_tracks@, id@, v, f);
                assert(track_models(v@) =~= tracks_of(before@, id@).push(track@));
            }
            self.speaker_tracks.insert(id, v);
        }
    }

    /// Puts a candidate at the end of a peer's queue.
    fn queue_candidate(&mut self, id: String, candidate: String)
        requires
            old(self).wf(),
        ensures
            final(self).wf(),
            final(self)@ == (RoomModel {
                candidates: old(self)@.candidates.insert(
                    id@,
                    queue_of(old(self)@, id@).push(candidate@),
                ),
                ..old(self)@
            }),
    {
        let ghost before = *self;
        let ghost f = |q: VecDeque<String>| texts(q@);
        if !self.ice_candidates.contains_key(&id) {
            self.ice_candidates.insert(id.clone(), VecDeque::new());
        }
        if let Some(q) = self.ice_candidates.get_mut(&id) {
            q.push_back(candidate);
        }
        proof {
            let q = self.ice_candidates@[id@];
            assert(self.ice_candidates@ =~= before.ice_candidates@.insert(id@, q));
            lemma_map_values_insert(before.ice_candidates@, id@, q, f);
            assert(texts(q@) =~= queue_of(before@, id@).push(candidate@));
        }
    }

    /// Works one event into the room, and says what work it brings.
    pub fn handle<R>(&mut self, ev: AppStateEv<C, T, S, R>) -> (r: Step<C, S, R>)
        requires
            old(self).wf(),
        ensures
            final(self).wf(),
            final(self)@ == next_room(old(self)@, ev@),
            r@ == step_of(old(self)@, ev@),
    {
        let ghost before = *self;
        proof {
            self.lemma_room_ok();
        }
        if self.over {
            return Step::Nothing;
        }
        match (Action::parse(&ev.action), ev.data) {
            (Some(Action::NewSpeaker), AppStateEvKind::StrConnTx(id, conn, reply)) => {
                if self.speaker_conns.len() >= MAX_SPEAKERS {
                    self.over = true;
                    return Step::RefuseSpeaker { reply };
                }
                self.speaker_conns.insert(id.clone(), conn);
                Step::AdmitSpeaker { id, reply }
            },
            (Some(Action::SpeakerOffer), AppStateEvKind::StrSDPTx(id, offer, tx)) => {
                if self.speaker_conns.contains_key(&id) {
                    Step::SetOffer { role: Role::Speaker, id, offer, tx }
                } else {
                    Step::Connect { role: Role::Speaker, id, offer, tx }
                }
            },
            (Some(Action::SpeakerAnswer), AppStateEvKind::StrSDP(id, answer)) => {
                if self.speaker_conns.contains_key(&id) {
                    Step::SetAnswer { role: Role::Speaker, id, answer }
                } else {
                    Step::Nothing
                }
            },
            (Some(Action::AddSpeakerTrack), AppStateEvKind::StrTrack(id, track)) => {
                self.add_speaker_track(id.clone(), track);
                Step::ShareTrack { id }
            },
            (Some(Action::IceCandidate), AppStateEvKind::Str2(id, candidate)) => {
                self.queue_candidate(id, candidate);
                Step::Nothing
            },
            (Some(Action::RemoveSpeaker), AppStateEvKind::Str(id)) => {
                let closing = self.speaker_conns.remove(&id);
                let _ = self.speaker_tracks.remove(&id);
                proof {
                    lemma_map_values_remove(
                        before.speaker_tracks@,
                        id@,
                        |v: Vec<LocalTrack<T>>| track_models(v@),
                    );
                }
                Step::RemoveSpeaker { id, closing }
            },
            (Some(Action::ListenerOffer), AppStateEvKind::StrSDPTx(id, offer, tx)) => {
                if self.listeners.contains_key(&id) {
                    Step::SetOffer { role: Role::Listener, id, offer, tx }
                } else {
                    Step::Connect { role: Role::Listener, id, offer, tx }
                }
            },
            (Some(Action::NewListener), AppStateEvKind::StrConn(id, conn)) => {
                self.listeners.insert(id.clone(), conn);
                Step::AdmitListener { id }
            },
            (Some(Action::RemoveListener), AppStateEvKind::Str(id)) => {
                match self.listeners.remove(&id) {
                    Some(conn) => Step::CloseListener { conn },
                    None => Step::Nothing,
                }
            },
            (Some(Action::ListenerAnswer), AppStateEvKind::StrSDP(id, answer)) => {
                if self.listeners.contains_key(&id) {
                    Step::SetAnswer { role: Role::Listener, id, answer }
                } else {
                    Step::Nothing
                }
            },
            (Some(Action::SignalSender), AppStateEvKind::Tx(tx)) => {
                self.tx = Some(tx);
                Step::Nothing
            },
            _ => Step::Nothing,
        }
    }
}

/// A track that is to be attached to a peer's connection, unless the
/// connection carries it already.
#[derive(Debug, PartialEq, Eq)]
pub struct Attach<'a, C, T> {
    pub peer: &'a String,
    pub conn: &'a C,
    pub track: &'a LocalTrack<T>,
}

pub struct AttachModel<C, T> {
    pub peer: Seq<char>,
    pub conn: C,
    pub track: TrackModel<T>,
}

impl<'a, C, T> View for Attach<'a, C, T> {
    type V = AttachModel<C, T>;

    open spec fn view(&self) -> AttachModel<C, T> {
        AttachModel { peer: self.peer@, conn: *self.conn, track: self.track@ }
    }
}

pub open spec fn attach_models<'a, C, T>(plan: Seq<Attach<'a, C, T>>) -> Seq<AttachModel<C, T>> {
    plan.map_values(|a: Attach<'a, C, T>| a@)
}

/// One track for each of several peers.
pub open spec fn track_to_peers<C, T>(
    names: Seq<Seq<char>>,
    conns: Map<Seq<char>, C>,
    track: TrackModel<T>,
) -> Seq<AttachModel<C, T>> {
    names.map_values(|k: Seq<char>| AttachModel { peer: k, conn: conns[k], track })
}

/// Several tracks for one peer.
pub open spec fn tracks_to_peer<C, T>(
    peer: Seq<char>,
    conn: C,
    tracks: Seq<TrackModel<T>>,
) -> Seq<AttachModel<C, T>> {
    tracks.map_values(|t: TrackModel<T>| AttachModel { peer, conn, track: t })
}

/// All tracks, speaker by speaker.
pub open spec fn all_tracks<T>(
    order: Seq<Seq<char>>,
    tracks: Map<Seq<char>, Seq<TrackModel<T>>>,
) -> Seq<TrackModel<T>>
    decreases order.len(),
{
    if order.len() == 0 {
        Seq::empty()
    } else {
        all_tracks(order.drop_last(), tracks) + tracks[order.last()]
    }
}

/// Those of a list of tracks that do not count as a speaker's.
pub open spec fn foreign<T>(tracks: Seq<TrackModel<T>>, speaker: Seq<char>) -> Seq<TrackModel<T>> {
    tracks.filter(|t: TrackModel<T>| !belongs_to(t.id, speaker))
}

/// The tracks of all others, speaker by speaker, without any that counts as the
/// speaker's own.
pub open spec fn others_tracks<T>(
    order: Seq<Seq<char>>,
    tracks: Map<Seq<char>, Seq<TrackModel<T>>>,
    speaker: Seq<char>,
) -> Seq<TrackModel<T>>
    decreases order.len(),
{
    if order.len() == 0 {
        Seq::empty()
    } else if order.last() == speaker {
        others_tracks(order.drop_last(), tracks, speaker)
    } else {
        others_tracks(order.drop_last(), tracks, speaker) + foreign(tracks[order.last()], speaker)
    }
}

/// What a speaker's new track is attached to among the speakers: everyone's
/// connection but the speaker's own.
pub open spec fn speakers_plan<C, T, S>(
    m: RoomModel<C, T, S>,
    id: Seq<char>,
    track: TrackModel<T>,
) -> Seq<AttachModel<C, T>> {
    if m.tx is Some {
        track_to_peers(ordered_without(m.speaker_order, id), m.speakers, track)
    } else {
        Seq::empty()
    }
}

/// What a new track is attached to among the listeners: everyone's connection.
pub open spec fn listeners_plan<C, T, S>(
    m: RoomModel<C, T, S>,
    track: TrackModel<T>,
) -> Seq<AttachModel<C, T>> {
    if m.tx is Some {
        track_to_peers(m.listener_order, m.listeners, track)
    } else {
        Seq::empty()
    }
}

/// What a speaker's newest track is attached to: everyone else's connection.
pub open spec fn newest_plan<C, T, S>(m: RoomModel<C, T, S>, id: Seq<char>) -> Seq<
    AttachModel<C, T>,
> {
    let tracks = tracks_of(m, id);
    if tracks.len() > 0 {
        speakers_plan(m, id, tracks.last()) + listeners_plan(m, tracks.last())
    } else {
        Seq::empty()
    }
}

/// What is attached to a new listener's connection: every track.
pub open spec fn listener_plan<C, T, S>(m: RoomModel<C, T, S>, id: Seq<char>) -> Seq<
    AttachModel<C, T>,
> {
    if m.tx is Some && m.listeners.contains_key(id) {
        tracks_to_peer(id, m.listeners[id], all_tracks(m.track_order, m.tracks))
    } else {
        Seq::empty()
    }
}

/// What is attached to a new speaker's connection: every track but the
/// speaker's own.
pub open spec fn speaker_plan<C, T, S>(m: RoomModel<C, T, S>, id: Seq<char>) -> Seq<
    AttachModel<C, T>,
> {
    if m.tx is Some && m.speakers.contains_key(id) {
        tracks_to_peer(id, m.speakers[id], others_tracks(m.track_order, m.tracks, id))
    } else {
        Seq::empty()
    }
}

proof fn lemma_filter_step<A>(s: Seq<A>, i: int, p: spec_fn(A) -> bool)
    requires
        0 <= i < s.len(),
    ensures
        s.take(i + 1).filter(p) == if p(s[i]) {
            s.take(i).filter(p).push(s[i])
        } else {
            s.take(i).filter(p)
        },
{
    reveal(Seq::filter);
    assert(s.take(i + 1).drop_last() =~= s.take(i));
    assert(s.take(i + 1).last() == s[i]);
}

/// Plans a list of tracks for one connection, leaving out those that count as
/// the peer's own if the peer is a speaker.
fn attach_tracks<'a, C, T>(
    plan: &mut Vec<Attach<'a, C, T>>,
    role: Role,
    peer: &'a String,
    conn: &'a C,
    tracks: &'a Vec<LocalTrack<T>>,
)
    ensures
        attach_models(final(plan)@) == attach_models(old(plan)@) + tracks_to_peer(
            peer@,
            *conn,
            match role {
                Role::Speaker => foreign(track_models(tracks@), peer@),
                Role::Listener => track_models(tracks@),
            },
        ),
{
    let ghost before = attach_models(plan@);
    let ghost all = track_models(tracks@);
    let ghost p = |t: TrackModel<T>| role == Role::Listener || !belongs_to(t.id, peer@);
    let mut i: usize = 0;
    assert(all.take(0).filter(p) =~= Seq::empty()) by {
        reveal(Seq::filter);
    }
    assert(before + tracks_to_peer(peer@, *conn, Seq::<TrackModel<T>>::empty()) =~= before);
    while i < tracks.len()
        invariant
            i <= tracks.len(),
            all == track_models(tracks@),
            p == (|t: TrackModel<T>| role == Role::Listener || !belongs_to(t.id, peer@)),
            attach_models(plan@) == before + tracks_to_peer(
                peer@,
                *conn,
                all.take(i as int).filter(p),
            ),
        decreases tracks.len() - i,
    {
        let ghost so_far = plan@;
        let ghost kept = all.take(i as int).filter(p);
        proof {
            lemma_filter_step(all, i as int, p);
            assert(all[i as int] == tracks[i as int]@);
        }
        let own = match role {
            Role::Speaker => starts_with(&tracks[i].id, peer),
            Role::Listener => false,
        };
        if !own {
            plan.push(Attach { peer, conn, track: &tracks[i] });
            proof {
                assert(attach_models(plan@) =~= attach_models(so_far).push(
                    AttachModel { peer: peer@, conn: *conn, track: all[i as int] },
                ));
                assert(tracks_to_peer(peer@, *conn, kept.push(all[i as int])) =~= tracks_to_peer(
                    peer@,
                    *conn,
                    kept,
                ).push(AttachModel { peer: peer@, conn: *conn, track: all[i as int] }));
                assert(attach_models(plan@) =~= before + tracks_to_peer(
                    peer@,
                    *conn,
                    kept.push(all[i as int]),
                ));
            }
        }
        i = i + 1;
    }
    proof {
        assert(all.take(tracks.len() as int) =~= all);
        match role {
            Role::Speaker => {
                lemma_filter_same(all, p, |t: TrackModel<T>| !belongs_to(t.id, peer@));
            },
            Role::Listener => {
                lemma_filter_all(all, p);
            },
        }
    }
}

proof fn lemma_filter_same<A>(s: Seq<A>, p: spec_fn(A) -> bool, q: spec_fn(A) -> bool)
    requires
        forall|a: A| #[trigger] p(a) == q(a),
    ensures
        s.filter(p) == s.filter(q),
    decreases s.len(),
{
    reveal(Seq::filter);
    if s.len() > 0 {
        lemma_filter_same(s.drop_last(), p, q);
    }
}

proof fn lemma_filter_all<A>(s: Seq<A>, p: spec_fn(A) -> bool)
    requires
        forall|a: A| #[trigger] p(a),
    ensures
        s.filter(p) == s,
    decreases s.len(),
{
    reveal(Seq::filter);
    if s.len() > 0 {
        lemma_filter_all(s.drop_last(), p);
        assert(s.drop_last().push(s.last()) =~= s);
    }
}

proof fn lemma_plan_push<'a, C, T>(
    plan: Seq<Attach<'a, C, T>>,
    a: Attach<'a, C, T>,
    names: Seq<Seq<char>>,
    conns: Map<Seq<char>, C>,
    track: TrackModel<T>,
)
    requires
        attach_models(plan) == track_to_peers(names, conns, track),
        a@.conn == conns[a@.peer],
        a@.track == track,
    ensures
        attach_models(plan.push(a)) == track_to_peers(names.push(a@.peer), conns, track),
{
    assert(attach_models(plan.push(a)) =~= attach_models(plan).push(a@));
    assert(track_to_peers(names.push(a@.peer), conns, track) =~= track_to_peers(
        names,
        conns,
        track,
    ).push(a@));
}

proof fn lemma_conns_push<C>(
    found: Seq<&C>,
    c: &C,
    names: Seq<Seq<char>>,
    name: Seq<char>,
    conns: Map<Seq<char>, C>,
)
    requires
        *c == conns[name],
    ensures
        found.push(c).map_values(|c: &C| *c) == found.map_values(|c: &C| *c).push(conns[name]),
        conns_by(names.push(name), conns) == conns_by(names, conns).push(conns[name]),
{
    assert(found.push(c).map_values(|c: &C| *c) =~= found.map_values(|c: &C| *c).push(
        conns[name],
    ));
    assert(conns_by(names.push(name), conns) =~= conns_by(names, conns).push(conns[name]));
}

impl<C, T, S> AppState<C, T, S> {
    /// The connection that a peer has on one side of the room.
    pub fn conn(&self, role: Role, id: &String) -> (r: Option<&C>)
        requires
            self.wf(),
        ensures
            match r {
                Some(c) => lookup(peers(self@, role), id@) == Some(*c),
                None => !peers(self@, role).contains_key(id@),
            },
    {
        match role {
            Role::Speaker => self.speaker_conns.get(id),
            Role::Listener => self.listeners.get(id),
        }
    }

    /// The track that a speaker added last.
    pub fn newest_track(&self, id: &String) -> (r: Option<&LocalTrack<T>>)
        requires
            self.wf(),
        ensures
            match r {
                Some(t) => tracks_of(self@, id@).len() > 0 && t@ == tracks_of(self@, id@).last(),
                None => tracks_of(self@, id@).len() == 0,
            },
    {
        match self.speaker_tracks.get(id) {
            Some(tracks) => {
                let n: usize = tracks.len();
                if n == 0 {
                    None
                } else {
                    Some(&tracks[n - 1])
                }
            },
            None => None,
        }
    }

    /// Plans a speaker's new track for the other speakers' connections.
    pub fn distribute_track_speakers<'a>(
        &'a self,
        id: &String,
        track: &'a LocalTrack<T>,
    ) -> (r: Vec<Attach<'a, C, T>>)
        requires
            self.wf(),
        ensures
            attach_models(r@) == speakers_plan(self@, id@, track@),
    {
        let mut plan: Vec<Attach<'a, C, T>> = Vec::new();
        assert(attach_models(plan@) =~= Seq::empty());
        if self.tx.is_none() {
            return plan;
        }
        let n: usize = self.speaker_conns.len();
        let ghost order = self.speaker_conns.keys();
        let ghost p = |k: Seq<char>| k != id@;
        assert(order.take(0).filter(p) =~= Seq::empty()) by {
            reveal(Seq::filter);
        }
        let mut i: usize = 0;
        while i < n
            invariant
                self.wf(),
                n == order.len(),
                i <= n,
                order == self.speaker_conns.keys(),
                p == (|k: Seq<char>| k != id@),
                attach_models(plan@) =~= track_to_peers(
                    order.take(i as int).filter(p),
                    self.speaker_conns@,
                    track@,
                ),
            decreases n - i,
        {
            let ghost so_far = plan@;
            let ghost kept = order.take(i as int).filter(p);
            proof {
                lemma_filter_step(order, i as int, p);
            }
            let peer = self.speaker_conns.key_at(i);
            if *peer != *id {
                plan.push(Attach { peer, conn: self.speaker_conns.value_at(i), track });
                proof {
                    lemma_plan_push(so_far, plan@.last(), kept, self.speaker_conns@, track@);
                }
            }
            i = i + 1;
        }
        assert(order.take(n as int) =~= order);
        plan
    }

    /// Plans a new track for the listeners' connections.
    pub fn add_track_to_listeners<'a>(&'a self, track: &'a LocalTrack<T>) -> (r: Vec<
        Attach<'a, C, T>,
    >)
        requires
            self.wf(),
        ensures
            attach_models(r@) == listeners_plan(self@, track@),
    {
        let mut plan: Vec<Attach<'a, C, T>> = Vec::new();
        assert(attach_models(plan@) =~= Seq::empty());
        if self.tx.is_none() {
            return plan;
        }
        let n: usize = self.listeners.len();
        let ghost order = self.listeners.keys();
        let mut i: usize = 0;
        while i < n
            invariant
                self.wf(),
                n == order.len(),
                i <= n,
                order == self.listeners.keys(),
                attach_models(plan@) =~= track_to_peers(
                    order.take(i as int),
                    self.listeners@,
                    track@,
                ),
            decreases n - i,
        {
            let ghost so_far = plan@;
            plan.push(
                Attach { peer: self.listeners.key_at(i), conn: self.listeners.value_at(i), track },
            );
            proof {
                assert(order.take(i + 1) =~= order.take(i as int).push(order[i as int]));
                lemma_plan_push(
                    so_far,
                    plan@.last(),
                    order.take(i as int),
                    self.listeners@,
                    track@,
                );
            }
            i = i + 1;
        }
        assert(order.take(n as int) =~= order);
        plan
    }

    /// Plans a speaker's newest track for everyone else's connection: the
    /// speakers', then the listeners'.
    pub fn share_track<'a>(&'a self, id: &String) -> (r: Vec<Attach<'a, C, T>>)
        requires
            self.wf(),
        ensures
            attach_models(r@) == newest_plan(self@, id@),
    {
        match self.newest_track(id) {
            Some(track) => {
                let mut plan = self.distribute_track_speakers(id, track);
                let mut rest = self.add_track_to_listeners(track);
                let ghost a = plan@;
                let ghost b = rest@;
                plan.append(&mut rest);
                assert(attach_models(a + b) =~= attach_models(a) + attach_models(b));
                plan
            },
            None => {
                let plan: Vec<Attach<'a, C, T>> = Vec::new();
                assert(attach_models(plan@) =~= Seq::empty());
                plan
            },
        }
    }

    /// Plans all tracks for a listener's connection.
    pub fn add_tracks_to_listener<'a>(&'a self, id: &'a String) -> (r: Vec<Attach<'a, C, T>>)
        requires
            self.wf(),
        ensures
            attach_models(r@) == listener_plan(self@, id@),
    {
        let mut plan: Vec<Attach<'a, C, T>> = Vec::new();
        assert(attach_models(plan@) =~= Seq::empty());
        if self.tx.is_none() {
            return plan;
        }
        match self.listeners.get(id) {
            Some(conn) => {
                let n: usize = self.speaker_tracks.len();
                let ghost order = self.speaker_tracks.keys();
                let ghost m = self@;
                assert(tracks_to_peer(id@, *conn, all_tracks(order.take(0), m.tracks))
                    =~= Seq::empty());
                let mut i: usize = 0;
                while i < n
                    invariant
                        self.wf(),
                        n == order.len(),
                        i <= n,
                        m == self@,
                        order == self.speaker_tracks.keys(),
                        attach_models(plan@) == tracks_to_peer(
                            id@,
                            *conn,
                            all_tracks(order.take(i as int), m.tracks),
                        ),
                    decreases n - i,
                {
                    let tracks = self.speaker_tracks.value_at(i);
                    attach_tracks(&mut plan, Role::Listener, id, conn, tracks);
                    proof {
                        assert(order.take(i + 1).drop_last() =~= order.take(i as int));
                        assert(order.take(i + 1).last() == order[i as int]);
                        assert(m.tracks[order[i as int]] == track_models(tracks@));
                        assert(attach_models(plan@) =~= tracks_to_peer(
                            id@,
                            *conn,
                            all_tracks(order.take(i + 1), m.tracks),
                        ));
                    }
                    i = i + 1;
                }
                assert(order.take(n as int) =~= order);
                plan
            },
            None => plan,
        }
    }

    /// Plans the others' tracks for a speaker's connection.
    pub fn distribute_tracks_speaker<'a>(&'a self, id: &'a String) -> (r: Vec<Attach<'a, C, T>>)
        requires
            self.wf(),
        ensures
            attach_models(r@) == speaker_plan(self@, id@),
    {
        let mut plan: Vec<Attach<'a, C, T>> = Vec::new();
        assert(attach_models(plan@) =~= Seq::empty());
        if self.tx.is_none() {
            return plan;
        }
        match self.speaker_conns.get(id) {
            Some(conn) => {
                let n: usize = self.speaker_tracks.len();
                let ghost order = self.speaker_tracks.keys();
                let ghost m = self@;
                assert(tracks_to_peer(id@, *conn, others_tracks(order.take(0), m.tracks, id@))
                    =~= Seq::empty());
                let mut i: usize = 0;
                while i < n
                    invariant
                        self.wf(),
                        n == order.len(),
                        i <= n,
                        m == self@,
                        order == self.speaker_tracks.keys(),
                        attach_models(plan@) == tracks_to_peer(
                            id@,
                            *conn,
                            others_tracks(order.take(i as int), m.tracks, id@),
                        ),
                    decreases n - i,
                {
                    proof {
                        assert(order.take(i + 1).drop_last() =~= order.take(i as int));
                        assert(order.take(i + 1).last() == order[i as int]);
                    }
                    let owner = self.speaker_tracks.key_at(i);
                    if *owner != *id {
                        let tracks = self.speaker_tracks.value_at(i);
                        attach_tracks(&mut plan, Role::Speaker, id, conn, tracks);
                        proof {
                            assert(m.tracks[order[i as int]] == track_models(tracks@));
                            assert(attach_models(plan@) =~= tracks_to_peer(
                                id@,
                                *conn,
                                others_tracks(order.take(i + 1), m.tracks, id@),
                            ));
                        }
                    }
                    i = i + 1;
                }
                assert(order.take(n as int) =~= order);
                plan
            },
            None => plan,
        }
    }

    /// All connections: the speakers', then the listeners'.
    pub fn all_conns(&self) -> (r: Vec<&C>)
        requires
            self.wf(),
        ensures
            r@.map_values(|c: &C| *c) == conns_in(self@),
    {
        let mut conns: Vec<&C> = Vec::new();
        let n: usize = self.speaker_conns.len();
        let k: usize = self.listeners.len();
        let ghost so = self.speaker_conns.keys();
        let ghost lo = self.listeners.keys();
        let mut i: usize = 0;
        while i < n
            invariant
                self.wf(),
                i <= n,
                n == so.len(),
                so == self.speaker_conns.keys(),
                conns@.map_values(|c: &C| *c) =~= conns_by(so.take(i as int), self.speaker_conns@),
            decreases n - i,
        {
            let ghost so_far = conns@;
            conns.push(self.speaker_conns.value_at(i));
            proof {
                assert(so.take(i + 1) =~= so.take(i as int).push(so[i as int]));
                lemma_conns_push(
                    so_far,
                    conns@.last(),
                    so.take(i as int),
                    so[i as int],
                    self.speaker_conns@,
                );
            }
            i = i + 1;
        }
        assert(so.take(n as int) =~= so);
        let mut j: usize = 0;
        while j < k
            invariant
                self.wf(),
                j <= k,
                k == lo.len(),
                so == self.speaker_conns.keys(),
                lo == self.listeners.keys(),
                conns@.map_values(|c: &C| *c) =~= conns_by(so, self.speaker_conns@) + conns_by(
                    lo.take(j as int),
                    self.listeners@,
                ),
            decreases k - j,
        {
            let ghost so_far = conns@;
            conns.push(self.listeners.value_at(j));
            proof {
                assert(lo.take(j + 1) =~= lo.take(j as int).push(lo[j as int]));
                lemma_conns_push(
                    so_far,
                    conns@.last(),
                    lo.take(j as int),
                    lo[j as int],
                    self.listeners@,
                );
            }
            j = j + 1;
        }
        assert(lo.take(k as int) =~= lo);
        conns
    }
}

/// The connections of a list of peers.
pub open spec fn conns_by<C>(order: Seq<Seq<char>>, conns: Map<Seq<char>, C>) -> Seq<C> {
    order.map_values(|k: Seq<char>| conns[k])
}

/// All connections of a room: the speakers', then the listeners'.
pub open spec fn conns_in<C, T, S>(m: RoomModel<C, T, S>) -> Seq<C> {
    conns_by(m.speaker_order, m.speakers) + conns_by(m.listener_order, m.listeners)
}

/// Whether a peer's waiting candidates can be put to its connection.
pub open spec fn can_take<C, T, S>(m: RoomModel<C, T, S>, role: Role, id: Seq<char>) -> bool {
    peers(m, role).contains_key(id) && m.candidates.contains_key(id)
}

/// The candidates that are taken for a peer: all that wait, if the peer has a
/// connection on this side of the room.
pub open spec fn taken<C, T, S>(m: RoomModel<C, T, S>, role: Role, id: Seq<char>) -> Seq<
    Seq<char>,
> {
    if can_take(m, role, id) {
        m.candidates[id]
    } else {
        Seq::empty()
    }
}

/// The room after a peer's candidates have been taken.
pub open spec fn after_taking<C, T, S>(
    m: RoomModel<C, T, S>,
    role: Role,
    id: Seq<char>,
) -> RoomModel<C, T, S> {
    if can_take(m, role, id) {
        RoomModel { candidates: m.candidates.insert(id, Seq::empty()), ..m }
    } else {
        m
    }
}

/// Those of a list of texts that read as candidates, read, in their order.
pub open spec fn readable(q: Seq<Seq<char>>) -> Seq<IceCandidateInitModel>
    decreases q.len(),
{
    if q.len() == 0 {
        Seq::empty()
    } else {
        match parsed_candidate(q.last()) {
            Some(c) => readable(q.drop_last()).push(c),
            None => readable(q.drop_last()),
        }
    }
}

pub open spec fn candidate_models(cs: Seq<IceCandidateInit>) -> Seq<IceCandidateInitModel> {
    cs.map_values(|c: IceCandidateInit| c@)
}

/// Keeps a candidate that could be read, and drops one that could not.
pub fn keep_candidate<F>(kept: &mut Vec<IceCandidateInit>, read: Result<IceCandidateInit, F>)
    ensures
        final(kept)@ == match read {
            Ok(c) => old(kept)@.push(c),
            Err(_) => old(kept)@,
        },
{
    match read {
        Ok(c) => {
            kept.push(c);
        },
        Err(_) => {},
    }
}

/// Reads a list of candidates, dropping what cannot be read.
pub fn read_candidates(queue: Vec<String>) -> (r: Vec<IceCandidateInit>)
    ensures
        candidate_models(r@) == readable(texts(queue@)),
{
    let mut kept: Vec<IceCandidateInit> = Vec::new();
    let ghost q = texts(queue@);
    assert(candidate_models(kept@) =~= readable(q.take(0)));
    let mut i: usize = 0;
    while i < queue.len()
        invariant
            i <= queue.len(),
            q == texts(queue@),
            candidate_models(kept@) == readable(q.take(i as int)),
        decreases queue.len() - i,
    {
        let ghost before = kept@;
        let read = read_candidate(&queue[i]);
        keep_candidate(&mut kept, read);
        proof {
            assert(q.take(i + 1).drop_last() =~= q.take(i as int));
            assert(q.take(i + 1).last() == queue[i as int]@);
            if kept@.len() > before.len() {
                assert(candidate_models(kept@) =~= candidate_models(before).push(kept@.last()@));
            }
        }
        i = i + 1;
    }
    assert(q.take(queue.len() as int) =~= q);
    kept
}

impl<C, T, S> AppState<C, T, S> {
    /// Takes the candidates that wait for a peer, if the peer has a connection
    /// on the given side of the room to put them to.
    pub fn take_ice_candidates(&mut self, role: Role, id: &String) -> (r: Vec<String>)
        requires
            old(self).wf(),
        ensures
            final(self).wf(),
            final(self)@ == after_taking(old(self)@, role, id@),
            texts(r@) == taken(old(self)@, role, id@),
    {
        let ghost before = *self;
        let ghost f = |q: VecDeque<String>| texts(q@);
        let mut found: Vec<String> = Vec::new();
        assert(texts(found@) =~= Seq::empty());
        if self.conn(role, id).is_none() {
            return found;
        }
        match self.ice_candidates.get_mut(id) {
            Some(q) => {
                let ghost all = q@;
                while q.len() > 0
                    invariant
                        found@ + q@ =~= all,
                    decreases q@.len(),
                {
                    match q.pop_front() {
                        Some(v) => {
                            found.push(v);
                        },
                        None => {},
                    }
                }
            },
            None => {
                return found;
            },
        }
        proof {
            let q = self.ice_candidates@[id@];
            lemma_map_values_insert(before.ice_candidates@, id@, q, f);
            assert(texts(q@) =~= Seq::empty());
        }
        found
    }

    /// Takes what waits for a speaker and reads it, for the speaker's
    /// connection.
    pub fn add_ice_candidates(&mut self, id: &String) -> (r: Vec<IceCandidateInit>)
        requires
            old(self).wf(),
        ensures
            final(self).wf(),
            final(self)@ == after_taking(old(self)@, Role::Speaker, id@),
            candidate_models(r@) == readable(taken(old(self)@, Role::Speaker, id@)),
    {
        read_candidates(self.take_ice_candidates(Role::Speaker, id))
    }

    /// Takes what waits for a listener and reads it, for the listener's
    /// connection.
    pub fn add_listener_ice_candidates(&mut self, id: &String) -> (r: Vec<IceCandidateInit>)
        requires
            old(self).wf(),
        ensures
            final(self).wf(),
            final(self)@ == after_taking(old(self)@, Role::Listener, id@),
            candidate_models(r@) == readable(taken(old(self)@, Role::Listener, id@)),
    {
        read_candidates(self.take_ice_candidates(Role::Listener, id))
    }
}

} // verus!
