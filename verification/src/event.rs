//! The events that the room works through, one after the other.
use vstd::prelude::*;

use crate::track::{LocalTrack, TrackModel};
use crate::wire::{
    parsed_description, read_description, Msg, MsgModel, SessionDescription,
    SessionDescriptionModel, Unreadable,
};

verus! {

/// What an event asks of the room.
#[derive(Clone, Copy, Debug, PartialEq, Eq, Structural)]
pub enum Action {
    NewSpeaker,
    SpeakerOffer,
    SpeakerAnswer,
    AddSpeakerTrack,
    IceCandidate,
    RemoveSpeaker,
    ListenerOffer,
    NewListener,
    RemoveListener,
    ListenerAnswer,
    SignalSender,
}

/// The word by which an event names its action.
pub open spec fn action_word(a: Action) -> Seq<char> {
    match a {
        Action::NewSpeaker => "new-speaker"@,
        Action::SpeakerOffer => "speaker-offer"@,
        Action::SpeakerAnswer => "speaker-answer"@,
        Action::AddSpeakerTrack => "add-speaker-track"@,
        Action::IceCandidate => "ice-candidate"@,
        Action::RemoveSpeaker => "remove-speaker"@,
        Action::ListenerOffer => "listener-offer"@,
        Action::NewListener => "new-listener"@,
        Action::RemoveListener => "remove-listener"@,
        Action::ListenerAnswer => "listener-answer"@,
        Action::SignalSender => "signal-sender"@,
    }
}

/// The action that a word names, where it names one.
pub open spec fn action_of(word: Seq<char>) -> Option<Action> {
    if exists|a: Action| word == action_word(a) {
        Some(choose|a: Action| word == action_word(a))
    } else {
        None
    }
}

/// Every action has a word of its own.
pub proof fn law_action_words_differ(a: Action, b: Action)
    requires
        action_word(a) == action_word(b),
    ensures
        a == b,
{
    reveal_strlit("new-speaker");
    reveal_strlit("speaker-offer");
    reveal_strlit("speaker-answer");
    reveal_strlit("add-speaker-track");
    reveal_strlit("ice-candidate");
    reveal_strlit("remove-speaker");
    reveal_strlit("listener-offer");
    reveal_strlit("new-listener");
    reveal_strlit("remove-listener");
    reveal_strlit("listener-answer");
    reveal_strlit("signal-sender");
    let x = action_word(a);
    let y = action_word(b);
    assert(x.len() == y.len());
    assert(x[0] == y[0]);
    assert(x[4] == y[4]);
    assert(x[9] == y[9]);
}

/// An action is read back from its word.
pub proof fn law_action_read_back(a: Action)
    ensures
        action_of(action_word(a)) == Some(a),
{
    let w = action_word(a);
    let b = choose|b: Action| w == action_word(b);
    law_action_words_differ(a, b);
}

/// A word names an action exactly if it is the action's own, and these are the
/// words.
pub proof fn law_action_of_words()
    ensures
        forall|w: Seq<char>, a: Action|
            #![trigger action_of(w), action_word(a)]
            action_of(w) == Some(a) <==> w == action_word(a),
        forall|w: Seq<char>|
            action_of(w) is None <==> forall|a: Action| w != #[trigger] action_word(a),
        action_of("new-speaker"@) == Some(Action::NewSpeaker),
        action_of("speaker-offer"@) == Some(Action::SpeakerOffer),
        action_of("speaker-answer"@) == Some(Action::SpeakerAnswer),
        action_of("add-speaker-track"@) == Some(Action::AddSpeakerTrack),
        action_of("ice-candidate"@) == Some(Action::IceCandidate),
        action_of("remove-speaker"@) == Some(Action::RemoveSpeaker),
        action_of("listener-offer"@) == Some(Action::ListenerOffer),
        action_of("new-listener"@) == Some(Action::NewListener),
        action_of("remove-listener"@) == Some(Action::RemoveListener),
        action_of("listener-answer"@) == Some(Action::ListenerAnswer),
        action_of("signal-sender"@) == Some(Action::SignalSender),
        forall|w: Seq<char>|
            #[trigger] action_of(w) is Some ==> w == "new-speaker"@ || w == "speaker-offer"@ || w
                == "speaker-answer"@ || w == "add-speaker-track"@ || w == "ice-candidate"@ || w
                == "remove-speaker"@ || w == "listener-offer"@ || w == "new-listener"@ || w
                == "remove-listener"@ || w == "listener-answer"@ || w == "signal-sender"@,
{
    law_action_read_back(Action::NewSpeaker);
    law_action_read_back(Action::SpeakerOffer);
    law_action_read_back(Action::SpeakerAnswer);
    law_action_read_back(Action::AddSpeakerTrack);
    law_action_read_back(Action::IceCandidate);
    law_action_read_back(Action::RemoveSpeaker);
    law_action_read_back(Action::ListenerOffer);
    law_action_read_back(Action::NewListener);
    law_action_read_back(Action::RemoveListener);
    law_action_read_back(Action::ListenerAnswer);
    law_action_read_back(Action::SignalSender);
    assert forall|w: Seq<char>, a: Action|
        #![trigger action_of(w), action_word(a)]
        action_of(w) == Some(a) <==> w == action_word(a) by {
        law_action_read_back(a);
    }
    assert forall|w: Seq<char>|
        action_of(w) is None <==> forall|a: Action| w != #[trigger] action_word(a) by {
        if action_of(w) is None {
            assert forall|a: Action| w != #[trigger] action_word(a) by {
                law_action_read_back(a);
            }
        }
    }
}

impl Action {
    pub fn word(self) -> (r: String)
        ensures
            r@ == action_word(self),
    {
        match self {
            Action::NewSpeaker => "new-speaker".to_owned(),
            Action::SpeakerOffer => "speaker-offer".to_owned(),
            Action::SpeakerAnswer => "speaker-answer".to_owned(),
            Action::AddSpeakerTrack => "add-speaker-track".to_owned(),
            Action::IceCandidate => "ice-candidate".to_owned(),
            Action::RemoveSpeaker => "remove-speaker".to_owned(),
            Action::ListenerOffer => "listener-offer".to_owned(),
            Action::NewListener => "new-listener".to_owned(),
            Action::RemoveListener => "remove-listener".to_owned(),
            Action::ListenerAnswer => "listener-answer".to_owned(),
            Action::SignalSender => "signal-sender".to_owned(),
        }
    }

    /// Reads the action that a word names.
    pub fn parse(word: &String) -> (r: Option<Action>)
        ensures
            r == action_of(word@),
    {
        let all = [
            Action::NewSpeaker,
            Action::SpeakerOffer,
            Action::SpeakerAnswer,
            Action::AddSpeakerTrack,
            Action::IceCandidate,
            Action::RemoveSpeaker,
            Action::ListenerOffer,
            Action::NewListener,
            Action::RemoveListener,
            Action::ListenerAnswer,
            Action::SignalSender,
        ];
        let mut i: usize = 0;
        while i < 11
            invariant
                i <= 11,
                all@.len() == 11,
                forall|a: Action| #[trigger] all@.contains(a),
                forall|j: int| 0 <= j < i ==> word@ != action_word(#[trigger] all@[j]),
            decreases 11 - i,
        {
            if *word == all[i].word() {
                proof {
                    law_action_read_back(all[i as int]);
                }
                return Some(all[i]);
            }
            i = i + 1;
        }
        proof {
            assert forall|a: Action| word@ != action_word(a) by {
                assert(all@.contains(a));
                let j = all@.index_of(a);
                assert(all@[j] == a);
            }
        }
        None
    }
}

/// What an event brings along. A connection, a track's handle, the way to a
/// peer's socket and the way to answer an asker are carried and not looked
/// into: `C`, `T`, `S` and `R`.
#[derive(Debug, PartialEq, Eq)]
pub enum AppStateEvKind<C, T, S, R> {
    Tx(S),
    Str(String),
    StrTrack(String, LocalTrack<T>),
    StrConn(String, C),
    StrConnTx(String, C, R),
    StrSDP(String, SessionDescription),
    StrSDPTx(String, SessionDescription, S),
    Str2(String, String),
}

/// An event: what it asks, and what it brings along.
#[derive(Debug, PartialEq, Eq)]
pub struct AppStateEv<C, T, S, R> {
    pub action: String,
    pub data: AppStateEvKind<C, T, S, R>,
}

pub enum EvKindModel<C, T, S, R> {
    Tx(S),
    Str(Seq<char>),
    StrTrack(Seq<char>, TrackModel<T>),
    StrConn(Seq<char>, C),
    StrConnTx(Seq<char>, C, R),
    StrSDP(Seq<char>, SessionDescriptionModel),
    StrSDPTx(Seq<char>, SessionDescriptionModel, S),
    Str2(Seq<char>, Seq<char>),
}

pub struct EvModel<C, T, S, R> {
    pub action: Seq<char>,
    pub data: EvKindModel<C, T, S, R>,
}

impl<C, T, S, R> View for AppStateEvKind<C, T, S, R> {
    type V = EvKindModel<C, T, S, R>;

    open spec fn view(&self) -> EvKindModel<C, T, S, R> {
        match self {
            AppStateEvKind::Tx(s) => EvKindModel::Tx(*s),
            AppStateEvKind::Str(id) => EvKindModel::Str(id@),
            AppStateEvKind::StrTrack(id, t) => EvKindModel::StrTrack(id@, t@),
            AppStateEvKind::StrConn(id, c) => EvKindModel::StrConn(id@, *c),
            AppStateEvKind::StrConnTx(id, c, r) => EvKindModel::StrConnTx(id@, *c, *r),
            AppStateEvKind::StrSDP(id, d) => EvKindModel::StrSDP(id@, d@),
            AppStateEvKind::StrSDPTx(id, d, s) => EvKindModel::StrSDPTx(id@, d@, *s),
            AppStateEvKind::Str2(id, x) => EvKindModel::Str2(id@, x@),
        }
    }
}

impl<C, T, S, R> View for AppStateEv<C, T, S, R> {
    type V = EvModel<C, T, S, R>;

    open spec fn view(&self) -> EvModel<C, T, S, R> {
        EvModel { action: self.action@, data: self.data@ }
    }
}

/// The event of an action.
pub open spec fn event_of<C, T, S, R>(a: Action, data: EvKindModel<C, T, S, R>) -> EvModel<
    C,
    T,
    S,
    R,
> {
    EvModel { action: action_word(a), data }
}

impl<C, T, S, R> AppStateEv<C, T, S, R> {
    /// Makes the event of an action.
    pub fn of(a: Action, data: AppStateEvKind<C, T, S, R>) -> (r: Self)
        ensures
            r@ == event_of(a, data@),
    {
        AppStateEv { action: a.word(), data }
    }
}

/// The event that a peer's offer becomes, once its description is read.
pub fn offer_event<C, T, S, R, F>(
    a: Action,
    id: String,
    offer: Result<SessionDescription, F>,
    tx: S,
) -> (r: Result<AppStateEv<C, T, S, R>, F>)
    ensures
        match offer {
            Ok(d) => r matches Ok(ev) && ev@ == event_of::<C, T, S, R>(
                a,
                EvKindModel::StrSDPTx(id@, d@, tx),
            ),
            Err(f) => r == Err::<AppStateEv<C, T, S, R>, F>(f),
        },
{
    match offer {
        Ok(d) => Ok(AppStateEv::of(a, AppStateEvKind::StrSDPTx(id, d, tx))),
        Err(f) => Err(f),
    }
}

/// The event that a peer's answer becomes, once its description is read.
pub fn answer_event<C, T, S, R, F>(
    a: Action,
    id: String,
    answer: Result<SessionDescription, F>,
) -> (r: Result<AppStateEv<C, T, S, R>, F>)
    ensures
        match answer {
            Ok(d) => r matches Ok(ev) && ev@ == event_of::<C, T, S, R>(
                a,
                EvKindModel::StrSDP(id@, d@),
            ),
            Err(f) => r == Err::<AppStateEv<C, T, S, R>, F>(f),
        },
{
    match answer {
        Ok(d) => Ok(AppStateEv::of(a, AppStateEvKind::StrSDP(id, d))),
        Err(f) => Err(f),
    }
}

/// A speaker offers to connect.
pub fn speaker_offer<C, T, S, R>(msg: &Msg, tx: S) -> (r: Result<
    AppStateEv<C, T, S, R>,
    Unreadable,
>)
    ensures
        offer_becomes(Action::SpeakerOffer, msg@.id, parsed_description(msg@.data), tx, r),
{
    offer_event(Action::SpeakerOffer, msg.id.clone(), read_description(&msg.data), tx)
}

/// A listener offers to connect.
pub fn listener_offer<C, T, S, R>(msg: &Msg, tx: S) -> (r: Result<
    AppStateEv<C, T, S, R>,
    Unreadable,
>)
    ensures
        offer_becomes(Action::ListenerOffer, msg@.id, parsed_description(msg@.data), tx, r),
{
    offer_event(Action::ListenerOffer, msg.id.clone(), read_description(&msg.data), tx)
}

/// A speaker answers an offer.
pub fn speaker_answer<C, T, S, R>(msg: &Msg) -> (r: Result<
    AppStateEv<C, T, S, R>,
    Unreadable,
>)
    ensures
        answer_becomes(Action::SpeakerAnswer, msg@.id, parsed_description(msg@.data), r),
{
    answer_event(Action::SpeakerAnswer, msg.id.clone(), read_description(&msg.data))
}

/// A listener answers an offer.
pub fn listener_answer<C, T, S, R>(msg: &Msg) -> (r: Result<
    AppStateEv<C, T, S, R>,
    Unreadable,
>)
    ensures
        answer_becomes(Action::ListenerAnswer, msg@.id, parsed_description(msg@.data), r),
{
    answer_event(Action::ListenerAnswer, msg.id.clone(), read_description(&msg.data))
}

/// A peer announces a candidate, which is kept as it came.
pub fn new_ice_candidate<C, T, S, R>(data: &Msg) -> (r: AppStateEv<C, T, S, R>)
    ensures
        r@ == event_of::<C, T, S, R>(Action::IceCandidate, EvKindModel::Str2(data@.id, data@.data)),
{
    AppStateEv::of(
        Action::IceCandidate,
        AppStateEvKind::Str2(data.id.clone(), data.data.clone()),
    )
}

/// What comes of an offer whose description reads as given: its event, or, if
/// it does not read, an error.
pub open spec fn offer_becomes<C, T, S, R>(
    a: Action,
    id: Seq<char>,
    offer: Option<SessionDescriptionModel>,
    tx: S,
    r: Result<AppStateEv<C, T, S, R>, Unreadable>,
) -> bool {
    match offer {
        Some(d) => r matches Ok(ev) && ev@ == event_of::<C, T, S, R>(
            a,
            EvKindModel::StrSDPTx(id, d, tx),
        ),
        None => r is Err,
    }
}

/// What comes of an answer whose description reads as given.
pub open spec fn answer_becomes<C, T, S, R>(
    a: Action,
    id: Seq<char>,
    answer: Option<SessionDescriptionModel>,
    r: Result<AppStateEv<C, T, S, R>, Unreadable>,
) -> bool {
    match answer {
        Some(d) => r matches Ok(ev) && ev@ == event_of::<C, T, S, R>(
            a,
            EvKindModel::StrSDP(id, d),
        ),
        None => r is Err,
    }
}

/// What comes of a message from a peer's socket: the event of the same name,
/// for the names that peers use, and nothing for any other.
pub open spec fn message_becomes<C, T, S, R>(
    msg: MsgModel,
    description: Option<SessionDescriptionModel>,
    tx: S,
    r: Result<Option<AppStateEv<C, T, S, R>>, Unreadable>,
) -> bool {
    match action_of(msg.ev) {
        Some(Action::SpeakerOffer) | Some(Action::ListenerOffer) => match description {
            Some(d) => r matches Ok(Some(ev)) && ev@ == event_of::<C, T, S, R>(
                action_of(msg.ev)->0,
                EvKindModel::StrSDPTx(msg.id, d, tx),
            ),
            None => r is Err,
        },
        Some(Action::SpeakerAnswer) | Some(Action::ListenerAnswer) => match description {
            Some(d) => r matches Ok(Some(ev)) && ev@ == event_of::<C, T, S, R>(
                action_of(msg.ev)->0,
                EvKindModel::StrSDP(msg.id, d),
            ),
            None => r is Err,
        },
        Some(Action::IceCandidate) => r matches Ok(Some(ev)) && ev@ == event_of::<C, T, S, R>(
            Action::IceCandidate,
            EvKindModel::Str2(msg.id, msg.data),
        ),
        _ => r == Ok::<Option<AppStateEv<C, T, S, R>>, Unreadable>(None),
    }
}

fn forwarded<E, F>(r: Result<E, F>) -> (s: Result<Option<E>, F>)
    ensures
        match r {
            Ok(e) => s == Ok::<Option<E>, F>(Some(e)),
            Err(f) => s == Err::<Option<E>, F>(f),
        },
{
    match r {
        Ok(e) => Ok(Some(e)),
        Err(f) => Err(f),
    }
}

/// Decides what a message from a peer's socket asks of the room.
pub fn route<C, T, S, R>(msg: &Msg, tx: S) -> (r: Result<
    Option<AppStateEv<C, T, S, R>>,
    Unreadable,
>)
    ensures
        message_becomes(msg@, parsed_description(msg@.data), tx, r),
{
    match Action::parse(&msg.ev) {
        Some(Action::SpeakerOffer) => forwarded(speaker_offer(msg, tx)),
        Some(Action::SpeakerAnswer) => forwarded(speaker_answer(msg)),
        Some(Action::ListenerOffer) => forwarded(listener_offer(msg, tx)),
        Some(Action::ListenerAnswer) => forwarded(listener_answer(msg)),
        Some(Action::IceCandidate) => Ok(Some(new_ice_candidate(msg))),
        _ => Ok(None),
    }
}

/// Whether an event may come from a peer's socket.
pub open spec fn peer_action(a: Action) -> bool {
    a == Action::SpeakerOffer || a == Action::SpeakerAnswer || a == Action::ListenerOffer || a
        == Action::ListenerAnswer || a == Action::IceCandidate
}

/// Whom an event is about.
pub open spec fn subject<C, T, S, R>(data: EvKindModel<C, T, S, R>) -> Option<Seq<char>> {
    match data {
        EvKindModel::Tx(_) => None,
        EvKindModel::Str(id) => Some(id),
        EvKindModel::StrTrack(id, _) => Some(id),
        EvKindModel::StrConn(id, _) => Some(id),
        EvKindModel::StrConnTx(id, _, _) => Some(id),
        EvKindModel::StrSDP(id, _) => Some(id),
        EvKindModel::StrSDPTx(id, _, _) => Some(id),
        EvKindModel::Str2(id, _) => Some(id),
    }
}

/// Whatever a peer sends over its socket, the room gets at most an offer, an
/// answer or a candidate, under the message's own name and about the message's
/// own subject: no peer can admit or remove anyone by a message.
pub proof fn law_peers_send_peer_events<C, T, S, R>(
    msg: MsgModel,
    description: Option<SessionDescriptionModel>,
    tx: S,
    r: Result<Option<AppStateEv<C, T, S, R>>, Unreadable>,
)
    requires
        message_becomes(msg, description, tx, r),
    ensures
        r matches Ok(Some(ev)) ==> ev@.action == msg.ev && subject(ev@.data) == Some(msg.id) && (
        action_of(msg.ev) matches Some(a) && peer_action(a)),
{
}

/// What came over a peer's socket.
#[derive(Debug, PartialEq, Eq)]
pub enum Frame {
    /// A text that reads as a message.
    Message(Msg),
    /// A text that does not.
    Malformed,
    /// Anything but a text: the socket's end, an error, a frame of another
    /// kind.
    Other,
}

/// What is done about it.
#[derive(Debug)]
pub enum SocketStep<C, T, S, R> {
    /// Hand the event to the room, and read on.
    Forward(AppStateEv<C, T, S, R>),
    /// Read on.
    Skip,
    /// Note that the message could not be read, and read on.
    Note(Unreadable),
    /// Stop reading.
    Stop,
}

/// What is done about a frame whose particulars read as given: a message goes
/// to the room as the event that it becomes, what cannot be read is passed
/// over, and anything but a text ends the reading.
pub open spec fn frame_becomes<C, T, S, R>(
    frame: Frame,
    description: Option<SessionDescriptionModel>,
    tx: S,
    r: SocketStep<C, T, S, R>,
) -> bool {
    match frame {
        Frame::Message(msg) => message_becomes(
            msg@,
            description,
            tx,
            match r {
                SocketStep::Forward(ev) => Ok(Some(ev)),
                SocketStep::Note(f) => Err(f),
                _ => Ok(None),
            },
        ) && r !is Stop,
        Frame::Malformed => r is Skip,
        Frame::Other => r is Stop,
    }
}

/// The particulars of the message in a frame.
pub open spec fn particulars(frame: Frame) -> Seq<char> {
    match frame {
        Frame::Message(msg) => msg@.data,
        _ => Seq::empty(),
    }
}

/// Decides what is done about a frame from a peer's socket.
pub fn on_frame<C, T, S, R>(frame: Frame, tx: S) -> (r: SocketStep<C, T, S, R>)
    ensures
        frame_becomes(frame, parsed_description(particulars(frame)), tx, r),
{
    match frame {
        Frame::Message(msg) => match route(&msg, tx) {
            Ok(Some(ev)) => SocketStep::Forward(ev),
            Ok(None) => SocketStep::Skip,
            Err(f) => SocketStep::Note(f),
        },
        Frame::Malformed => SocketStep::Skip,
        Frame::Other => SocketStep::Stop,
    }
}

/// Events stand for their action's word and for what they bring, whole.
pub proof fn law_event_models<C, T, S, R>(ev: AppStateEv<C, T, S, R>, a: Action)
    ensures
        ev@.action == ev.action@,
        match ev.data {
            AppStateEvKind::Tx(s) => ev@.data == EvKindModel::<C, T, S, R>::Tx(s),
            AppStateEvKind::Str(id) => ev@.data == EvKindModel::<C, T, S, R>::Str(id@),
            AppStateEvKind::StrTrack(id, t) => ev@.data == EvKindModel::<C, T, S, R>::StrTrack(
                id@,
                TrackModel { id: t.id@, handle: t.handle },
            ),
            AppStateEvKind::StrConn(id, c) => ev@.data == EvKindModel::<C, T, S, R>::StrConn(
                id@,
                c,
            ),
            AppStateEvKind::StrConnTx(id, c, r) => ev@.data == EvKindModel::<
                C,
                T,
                S,
                R,
            >::StrConnTx(id@, c, r),
            AppStateEvKind::StrSDP(id, d) => ev@.data == EvKindModel::<C, T, S, R>::StrSDP(
                id@,
                SessionDescriptionModel { sdp_type: d.sdp_type, sdp: d.sdp@ },
            ),
            AppStateEvKind::StrSDPTx(id, d, s) => ev@.data == EvKindModel::<C, T, S, R>::StrSDPTx(
                id@,
                SessionDescriptionModel { sdp_type: d.sdp_type, sdp: d.sdp@ },
                s,
            ),
            AppStateEvKind::Str2(id, x) => ev@.data == EvKindModel::<C, T, S, R>::Str2(id@, x@),
        },
        event_of(a, ev@.data).data == ev@.data,
        event_of(a, ev@.data).action == action_word(a),
{
}

/// Whether an event is an offer or an answer as it was sent: under the word that
/// it was sent under, from whom it came, and with what was read, whole.
pub open spec fn brings<C, T, S, R>(
    ev: AppStateEv<C, T, S, R>,
    word: Seq<char>,
    data: EvKindModel<C, T, S, R>,
) -> bool {
    ev.action@ == word && ev@.data == data
}

/// An offer that reads reaches the room as it was sent, whatever it says, with
/// the way to the peer; one that does not read reaches it not at all. The same
/// holds of answers, which need no way.
pub proof fn law_offers_and_answers_are_passed_on<C, T, S, R>(
    id: Seq<char>,
    read: Option<SessionDescriptionModel>,
    tx: S,
    r: Result<AppStateEv<C, T, S, R>, Unreadable>,
)
    ensures
        offer_becomes(Action::SpeakerOffer, id, read, tx, r) ==> match read {
            Some(d) => r matches Ok(ev) && brings(
                ev,
                "speaker-offer"@,
                EvKindModel::StrSDPTx(id, d, tx),
            ),
            None => r is Err,
        },
        offer_becomes(Action::ListenerOffer, id, read, tx, r) ==> match read {
            Some(d) => r matches Ok(ev) && brings(
                ev,
                "listener-offer"@,
                EvKindModel::StrSDPTx(id, d, tx),
            ),
            None => r is Err,
        },
        answer_becomes(Action::SpeakerAnswer, id, read, r) ==> match read {
            Some(d) => r matches Ok(ev) && brings(
                ev,
                "speaker-answer"@,
                EvKindModel::StrSDP(id, d),
            ),
            None => r is Err,
        },
        answer_becomes(Action::ListenerAnswer, id, read, r) ==> match read {
            Some(d) => r matches Ok(ev) && brings(
                ev,
                "listener-answer"@,
                EvKindModel::StrSDP(id, d),
            ),
            None => r is Err,
        },
{
}

/// Every message is passed on by its word: offers and answers if they read,
/// candidates as they came, and nothing else.
pub proof fn law_messages_are_passed_on<C, T, S, R>(
    msg: MsgModel,
    read: Option<SessionDescriptionModel>,
    tx: S,
    r: Result<Option<AppStateEv<C, T, S, R>>, Unreadable>,
)
    requires
        message_becomes(msg, read, tx, r),
    ensures
        msg.ev == "speaker-offer"@ || msg.ev == "listener-offer"@ ==> match read {
            Some(d) => r matches Ok(Some(ev)) && brings(
                ev,
                msg.ev,
                EvKindModel::StrSDPTx(msg.id, d, tx),
            ),
            None => r is Err,
        },
        msg.ev == "speaker-answer"@ || msg.ev == "listener-answer"@ ==> match read {
            Some(d) => r matches Ok(Some(ev)) && brings(ev, msg.ev, EvKindModel::StrSDP(msg.id, d)),
            None => r is Err,
        },
        msg.ev == "ice-candidate"@ ==> (r matches Ok(Some(ev)) && brings(
            ev,
            msg.ev,
            EvKindModel::Str2(msg.id, msg.data),
        )),
        msg.ev != "speaker-offer"@ && msg.ev != "listener-offer"@ && msg.ev != "speaker-answer"@
            && msg.ev != "listener-answer"@ && msg.ev != "ice-candidate"@ ==> r matches Ok(None),
{
    law_action_of_words();
}

/// A frame is dealt with by what it is: a message by what becomes of it, a text
/// that is none by passing over it, and anything else by stopping. What is read
/// for a message is its particulars.
pub proof fn law_frames<C, T, S, R>(
    frame: Frame,
    read: Option<SessionDescriptionModel>,
    tx: S,
    r: SocketStep<C, T, S, R>,
)
    requires
        frame_becomes(frame, read, tx, r),
    ensures
        frame is Malformed ==> r is Skip,
        frame is Other ==> r is Stop,
        frame matches Frame::Message(msg) ==> {
            &&& particulars(frame) == msg.data@
            &&& r !is Stop
            &&& r matches SocketStep::Forward(ev) ==> message_becomes(msg@, read, tx, Ok(Some(ev)))
            &&& r matches SocketStep::Note(u) ==> message_becomes::<C, T, S, R>(
                msg@,
                read,
                tx,
                Err(u),
            )
            &&& r is Skip ==> message_becomes::<C, T, S, R>(msg@, read, tx, Ok(None))
        },
{
}

} // verus!
