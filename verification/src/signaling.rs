//! The two conversations that the server holds over a connection: answering a
//! peer's offer, and offering on its own when a connection needs it.
//!
//! A conversation does nothing itself. It names the next call into the
//! connection, is handed the call's outcome, and goes on from there.
use vstd::prelude::*;

use crate::wire::{
    description_json, description_message, msg_json, outbound_msg, Failure, MsgModel, Outbound,
    SdpType, SessionDescription, SessionDescriptionModel,
};

verus! {

/// How far a connection is in exchanging offer and answer.
#[derive(Clone, Copy, Debug, PartialEq, Eq, Structural)]
pub enum SignalingState {
    Unspecified,
    Stable,
    HaveLocalOffer,
    HaveRemoteOffer,
    HaveLocalPranswer,
    HaveRemotePranswer,
    Closed,
}

/// A call into a connection, or the sending of a text to its peer.
#[derive(Debug, PartialEq, Eq)]
pub enum Call {
    ReadSignalingState,
    CreateOffer,
    CreateAnswer,
    SetLocal(SessionDescription),
    SetRemote(SessionDescription),
    ReadLocal,
    Send(String),
}

pub enum CallModel {
    ReadSignalingState,
    CreateOffer,
    CreateAnswer,
    SetLocal(SessionDescriptionModel),
    SetRemote(SessionDescriptionModel),
    ReadLocal,
    Send(Seq<char>),
}

impl View for Call {
    type V = CallModel;

    open spec fn view(&self) -> CallModel {
        match self {
            Call::ReadSignalingState => CallModel::ReadSignalingState,
            Call::CreateOffer => CallModel::CreateOffer,
            Call::CreateAnswer => CallModel::CreateAnswer,
            Call::SetLocal(d) => CallModel::SetLocal(d@),
            Call::SetRemote(d) => CallModel::SetRemote(d@),
            Call::ReadLocal => CallModel::ReadLocal,
            Call::Send(t) => CallModel::Send(t@),
        }
    }
}

/// How a call ended. The error of one that failed is carried and not looked
/// into: `E`.
#[derive(Debug, PartialEq, Eq)]
pub enum Outcome<E> {
    /// The signaling state was read.
    Signaling(SignalingState),
    /// An offer or an answer was made, or could not be made.
    Created(Result<SessionDescription, E>),
    /// A description was set or a text was sent, or could not be.
    Done(Result<(), E>),
    /// The local description was read; there may be none.
    Local(Option<SessionDescription>),
}

pub enum OutcomeModel<E> {
    Signaling(SignalingState),
    Created(Result<SessionDescriptionModel, E>),
    Done(Result<(), E>),
    Local(Option<SessionDescriptionModel>),
}

pub open spec fn optional_description(d: Option<SessionDescription>) -> Option<
    SessionDescriptionModel,
> {
    match d {
        Some(d) => Some(d@),
        None => None,
    }
}

pub open spec fn created_description<E>(d: Result<SessionDescription, E>) -> Result<
    SessionDescriptionModel,
    E,
> {
    match d {
        Ok(d) => Ok(d@),
        Err(e) => Err(e),
    }
}

impl<E> View for Outcome<E> {
    type V = OutcomeModel<E>;

    open spec fn view(&self) -> OutcomeModel<E> {
        match self {
            Outcome::Signaling(s) => OutcomeModel::Signaling(*s),
            Outcome::Created(d) => OutcomeModel::Created(created_description(*d)),
            Outcome::Done(r) => OutcomeModel::Done(*r),
            Outcome::Local(d) => OutcomeModel::Local(optional_description(*d)),
        }
    }
}

/// Whether a description was set or a text was sent.
pub open spec fn done<E>(o: OutcomeModel<E>) -> bool {
    o matches OutcomeModel::Done(Ok(_))
}

/// What a conversation wants next: a call, or its end.
#[derive(Debug, PartialEq, Eq)]
pub enum Next<E> {
    Call(Call),
    Finished(Result<(), Failure<E>>),
}

pub enum NextModel<E> {
    Call(CallModel),
    Finished(Result<(), Failure<E>>),
}

impl<E> View for Next<E> {
    type V = NextModel<E>;

    open spec fn view(&self) -> NextModel<E> {
        match self {
            Next::Call(c) => NextModel::Call(c@),
            Next::Finished(r) => NextModel::Finished(*r),
        }
    }
}

/// The description that takes back an offer that is under way.
pub open spec fn rollback_model() -> SessionDescriptionModel {
    SessionDescriptionModel { sdp_type: SdpType::Rollback, sdp: ""@ }
}

fn rollback() -> (r: SessionDescription)
    ensures
        r@ == rollback_model(),
{
    SessionDescription { sdp_type: SdpType::Rollback, sdp: "".to_owned() }
}

/// The text that carries a description to a peer.
pub open spec fn description_text(
    kind: Outbound,
    id: Seq<char>,
    d: SessionDescriptionModel,
) -> Seq<char> {
    msg_json(outbound_msg(kind, id, description_json(d)))
}

/// Where the answering of an offer stands: what it waits for, and what it still
/// needs.
#[derive(Debug, PartialEq, Eq)]
pub enum SetOffer {
    Checking { id: String, offer: SessionDescription },
    RollingBack { id: String, offer: SessionDescription },
    SettingRemote { id: String },
    CreatingAnswer { id: String },
    SettingLocal { id: String },
    ReadingLocal { id: String },
    Sending,
    Finished,
}

pub enum SetOfferModel {
    Checking { id: Seq<char>, offer: SessionDescriptionModel },
    RollingBack { id: Seq<char>, offer: SessionDescriptionModel },
    SettingRemote { id: Seq<char> },
    CreatingAnswer { id: Seq<char> },
    SettingLocal { id: Seq<char> },
    ReadingLocal { id: Seq<char> },
    Sending,
    Finished,
}

impl View for SetOffer {
    type V = SetOfferModel;

    open spec fn view(&self) -> SetOfferModel {
        match self {
            SetOffer::Checking { id, offer } => SetOfferModel::Checking { id: id@, offer: offer@ },
            SetOffer::RollingBack { id, offer } => SetOfferModel::RollingBack {
                id: id@,
                offer: offer@,
            },
            SetOffer::SettingRemote { id } => SetOfferModel::SettingRemote { id: id@ },
            SetOffer::CreatingAnswer { id } => SetOfferModel::CreatingAnswer { id: id@ },
            SetOffer::SettingLocal { id } => SetOfferModel::SettingLocal { id: id@ },
            SetOffer::ReadingLocal { id } => SetOfferModel::ReadingLocal { id: id@ },
            SetOffer::Sending => SetOfferModel::Sending,
            SetOffer::Finished => SetOfferModel::Finished,
        }
    }
}

pub open spec fn offer_failed<E>(f: Failure<E>) -> (SetOfferModel, NextModel<E>) {
    (SetOfferModel::Finished, NextModel::Finished(Err(f)))
}

/// How the answering of an offer goes on after an outcome. A connection that is
/// not stable is rolled back first; then the offer is set, an answer made and
/// set, and the local description sent. The first call that fails ends it with
/// the call's own error; an outcome that nothing waits for ends it too.
pub open spec fn offer_next<E>(s: SetOfferModel, o: OutcomeModel<E>) -> (
    SetOfferModel,
    NextModel<E>,
) {
    match (s, o) {
        (SetOfferModel::Checking { id, offer }, OutcomeModel::Signaling(state)) => if state
            == SignalingState::Stable {
            (SetOfferModel::SettingRemote { id }, NextModel::Call(CallModel::SetRemote(offer)))
        } else {
            (
                SetOfferModel::RollingBack { id, offer },
                NextModel::Call(CallModel::SetLocal(rollback_model())),
            )
        },
        (SetOfferModel::RollingBack { id, offer }, OutcomeModel::Done(Ok(()))) => (
            SetOfferModel::SettingRemote { id },
            NextModel::Call(CallModel::SetRemote(offer)),
        ),
        (SetOfferModel::SettingRemote { id }, OutcomeModel::Done(Ok(()))) => (
            SetOfferModel::CreatingAnswer { id },
            NextModel::Call(CallModel::CreateAnswer),
        ),
        (SetOfferModel::CreatingAnswer { id }, OutcomeModel::Created(Ok(answer))) => (
            SetOfferModel::SettingLocal { id },
            NextModel::Call(CallModel::SetLocal(answer)),
        ),
        (SetOfferModel::SettingLocal { id }, OutcomeModel::Done(Ok(()))) => (
            SetOfferModel::ReadingLocal { id },
            NextModel::Call(CallModel::ReadLocal),
        ),
        (SetOfferModel::ReadingLocal { id }, OutcomeModel::Local(Some(local))) => (
            SetOfferModel::Sending,
            NextModel::Call(CallModel::Send(description_text(Outbound::Answer, id, local))),
        ),
        (SetOfferModel::ReadingLocal { id }, OutcomeModel::Local(None)) => offer_failed(
            Failure::NoLocalDescription,
        ),
        (SetOfferModel::Sending, OutcomeModel::Done(Ok(()))) => (
            SetOfferModel::Finished,
            NextModel::Finished(Ok(())),
        ),
        (SetOfferModel::RollingBack { .. }, OutcomeModel::Done(Err(e)))
        | (SetOfferModel::SettingRemote { .. }, OutcomeModel::Done(Err(e)))
        | (SetOfferModel::CreatingAnswer { .. }, OutcomeModel::Created(Err(e)))
        | (SetOfferModel::SettingLocal { .. }, OutcomeModel::Done(Err(e)))
        | (SetOfferModel::Sending, OutcomeModel::Done(Err(e))) => offer_failed(Failure::Outside(e)),
        _ => offer_failed(Failure::Unexpected),
    }
}

/// Starts to answer a peer's offer.
pub fn set_offer<E>(id: String, offer: SessionDescription) -> (r: (SetOffer, Next<E>))
    ensures
        r.0@ == (SetOfferModel::Checking { id: id@, offer: offer@ }),
        r.1@ == NextModel::<E>::Call(CallModel::ReadSignalingState),
{
    (SetOffer::Checking { id, offer }, Next::Call(Call::ReadSignalingState))
}

impl SetOffer {
    /// Goes on after the outcome of the last call.
    pub fn advance<E>(self, outcome: Outcome<E>) -> (r: (SetOffer, Next<E>))
        ensures
            (r.0@, r.1@) == offer_next(self@, outcome@),
    {
        match (self, outcome) {
            (SetOffer::Checking { id, offer }, Outcome::Signaling(state)) => {
                match state {
                    SignalingState::Stable => (
                        SetOffer::SettingRemote { id },
                        Next::Call(Call::SetRemote(offer)),
                    ),
                    _ => (
                        SetOffer::RollingBack { id, offer },
                        Next::Call(Call::SetLocal(rollback())),
                    ),
                }
            },
            (SetOffer::RollingBack { id, offer }, Outcome::Done(Ok(()))) => (
                SetOffer::SettingRemote { id },
                Next::Call(Call::SetRemote(offer)),
            ),
            (SetOffer::SettingRemote { id }, Outcome::Done(Ok(()))) => (
                SetOffer::CreatingAnswer { id },
                Next::Call(Call::CreateAnswer),
            ),
            (SetOffer::CreatingAnswer { id }, Outcome::Created(Ok(answer))) => (
                SetOffer::SettingLocal { id },
                Next::Call(Call::SetLocal(answer)),
            ),
            (SetOffer::SettingLocal { id }, Outcome::Done(Ok(()))) => (
                SetOffer::ReadingLocal { id },
                Next::Call(Call::ReadLocal),
            ),
            (SetOffer::ReadingLocal { id }, Outcome::Local(Some(local))) => {
                let text = description_message(Outbound::Answer, id, &local);
                (SetOffer::Sending, Next::Call(Call::Send(text)))
            },
            (SetOffer::ReadingLocal { id: _ }, Outcome::Local(None)) => (
                SetOffer::Finished,
                Next::Finished(Err(Failure::NoLocalDescription)),
            ),
            (SetOffer::Sending, Outcome::Done(Ok(()))) => (
                SetOffer::Finished,
                Next::Finished(Ok(())),
            ),
            (SetOffer::RollingBack { .. }, Outcome::Done(Err(e)))
            | (SetOffer::SettingRemote { .. }, Outcome::Done(Err(e)))
            | (SetOffer::CreatingAnswer { .. }, Outcome::Created(Err(e)))
            | (SetOffer::SettingLocal { .. }, Outcome::Done(Err(e)))
            | (SetOffer::Sending, Outcome::Done(Err(e))) => (
                SetOffer::Finished,
                Next::Finished(Err(Failure::Outside(e))),
            ),
            _ => (SetOffer::Finished, Next::Finished(Err(Failure::Unexpected))),
        }
    }
}

/// Where the answering of an offer stands after a list of outcomes.
pub open spec fn offer_state<E>(
    id: Seq<char>,
    offer: SessionDescriptionModel,
    outs: Seq<OutcomeModel<E>>,
) -> SetOfferModel
    decreases outs.len(),
{
    if outs.len() == 0 {
        SetOfferModel::Checking { id, offer }
    } else {
        offer_next(offer_state(id, offer, outs.drop_last()), outs.last()).0
    }
}

/// What the answering of an offer asks for after a list of outcomes.
pub open spec fn offer_asks<E>(
    id: Seq<char>,
    offer: SessionDescriptionModel,
    outs: Seq<OutcomeModel<E>>,
) -> NextModel<E> {
    if outs.len() == 0 {
        NextModel::Call(CallModel::ReadSignalingState)
    } else {
        offer_next(offer_state(id, offer, outs.drop_last()), outs.last()).1
    }
}

/// The outcomes before the offer is set: one if the connection was stable, and
/// two if it was rolled back.
pub open spec fn outcomes_before_offer<E>(outs: Seq<OutcomeModel<E>>) -> int {
    if outs[0] == OutcomeModel::<E>::Signaling(SignalingState::Stable) {
        1
    } else {
        2
    }
}

/// Whether the connection was ready for the offer: stable, or rolled back.
pub open spec fn ready_for_offer<E>(outs: Seq<OutcomeModel<E>>) -> bool {
    let k = outcomes_before_offer(outs);
    &&& outs.len() >= k
    &&& outs[0] is Signaling
    &&& k == 2 ==> done(outs[1])
}

/// Whether everything before the answer went well, in its order: the connection
/// was ready, the offer was set, an answer was made and set, and the local
/// description was there.
pub open spec fn ready_to_answer<E>(
    outs: Seq<OutcomeModel<E>>,
    local: SessionDescriptionModel,
) -> bool {
    let k = outcomes_before_offer(outs);
    &&& ready_for_offer(outs)
    &&& outs.len() == k + 4
    &&& done(outs[k])
    &&& outs[k + 1] matches OutcomeModel::Created(Ok(_))
    &&& done(outs[k + 2])
    &&& outs[k + 3] == OutcomeModel::<E>::Local(Some(local))
}

/// What the outcomes were, by where the answering stands.
proof fn lemma_offer_stage<E>(
    id: Seq<char>,
    offer: SessionDescriptionModel,
    outs: Seq<OutcomeModel<E>>,
)
    ensures
        ({
            let k = outcomes_before_offer(outs);
            match offer_state(id, offer, outs) {
                SetOfferModel::Checking { id: i, offer: o } => {
                    &&& outs.len() == 0
                    &&& i == id
                    &&& o == offer
                },
                SetOfferModel::RollingBack { id: i, offer: o } => {
                    &&& outs.len() == 1
                    &&& outs[0] is Signaling
                    &&& k == 2
                    &&& i == id
                    &&& o == offer
                },
                SetOfferModel::SettingRemote { id: i } => {
                    &&& ready_for_offer(outs)
                    &&& outs.len() == k
                    &&& i == id
                },
                SetOfferModel::CreatingAnswer { id: i } => {
                    &&& ready_for_offer(outs)
                    &&& outs.len() == k + 1
                    &&& done(outs[k])
                    &&& i == id
                },
                SetOfferModel::SettingLocal { id: i } => {
                    &&& ready_for_offer(outs)
                    &&& outs.len() == k + 2
                    &&& done(outs[k])
                    &&& outs[k + 1] matches OutcomeModel::Created(Ok(_))
                    &&& i == id
                },
                SetOfferModel::ReadingLocal { id: i } => {
                    &&& ready_for_offer(outs)
                    &&& outs.len() == k + 3
                    &&& done(outs[k])
                    &&& outs[k + 1] matches OutcomeModel::Created(Ok(_))
                    &&& done(outs[k + 2])
                    &&& i == id
                },
                SetOfferModel::Sending => {
                    &&& outs[k + 3] matches OutcomeModel::Local(Some(local))
                    &&& ready_to_answer(outs, local)
                },
                SetOfferModel::Finished => outs.len() > 0,
            }
        }),
    decreases outs.len(),
{
    if outs.len() > 0 {
        let front = outs.drop_last();
        lemma_offer_stage(id, offer, front);
        assert(forall|j: int| 0 <= j < front.len() ==> front[j] == outs[j]);
        assert(outs.last() == outs[outs.len() - 1]);
    }
}

/// Where the answering stands while everything goes well.
proof fn lemma_offer_forward<E>(
    id: Seq<char>,
    offer: SessionDescriptionModel,
    outs: Seq<OutcomeModel<E>>,
    local: SessionDescriptionModel,
)
    requires
        ready_to_answer(outs, local),
    ensures
        offer_state(id, offer, outs) == SetOfferModel::Sending,
        offer_asks(id, offer, outs) == NextModel::<E>::Call(
            CallModel::Send(description_text(Outbound::Answer, id, local)),
        ),
{
    let k = outcomes_before_offer(outs);
    assert(outs.take(0) =~= Seq::<OutcomeModel<E>>::empty());
    assert(outs.take(k + 4) =~= outs);
    lemma_take_step(outs, 0);
    lemma_take_step(outs, 1);
    lemma_take_step(outs, k);
    lemma_take_step(outs, k + 1);
    lemma_take_step(outs, k + 2);
    lemma_take_step(outs, k + 3);
    assert(offer_state(id, offer, outs.take(0)) == SetOfferModel::Checking { id, offer });
    assert(k == 2 ==> offer_state(id, offer, outs.take(1)) == SetOfferModel::RollingBack {
        id,
        offer,
    });
    assert(offer_state(id, offer, outs.take(k)) == SetOfferModel::SettingRemote { id });
    assert(offer_state(id, offer, outs.take(k + 1)) == SetOfferModel::CreatingAnswer { id });
    assert(offer_state(id, offer, outs.take(k + 2)) == SetOfferModel::SettingLocal { id });
    assert(offer_state(id, offer, outs.take(k + 3)) == SetOfferModel::ReadingLocal { id });
}

proof fn lemma_take_step<A>(s: Seq<A>, i: int)
    requires
        0 <= i < s.len(),
    ensures
        s.take(i + 1).len() == i + 1,
        s.take(i + 1).drop_last() == s.take(i),
        s.take(i + 1).last() == s[i],
{
    assert(s.take(i + 1).drop_last() =~= s.take(i));
}

/// A peer's offer is answered exactly when everything before the answer went
/// well: then the local description is sent as the answer, and otherwise
/// nothing is ever sent.
pub proof fn law_answer_sent_iff_all_went_well<E>(
    id: Seq<char>,
    offer: SessionDescriptionModel,
    outs: Seq<OutcomeModel<E>>,
    text: Seq<char>,
)
    ensures
        offer_asks(id, offer, outs) == NextModel::<E>::Call(CallModel::Send(text)) <==> exists|
            local: SessionDescriptionModel,
        |
            #[trigger] ready_to_answer(outs, local) && text == description_text(
                Outbound::Answer,
                id,
                local,
            ),
{
    if offer_asks(id, offer, outs) == NextModel::<E>::Call(CallModel::Send(text)) {
        let front = outs.drop_last();
        lemma_offer_stage(id, offer, front);
        lemma_offer_stage(id, offer, outs);
        let k = outcomes_before_offer(outs);
        let local = outs[k + 3]->Local_0->0;
        assert(outs.last() == outs[outs.len() - 1]);
        assert(ready_to_answer(outs, local));
    }
    assert forall|local: SessionDescriptionModel|
        #[trigger] ready_to_answer(outs, local) && text == description_text(
            Outbound::Answer,
            id,
            local,
        ) implies offer_asks(id, offer, outs) == NextModel::<E>::Call(CallModel::Send(text)) by {
        lemma_offer_forward(id, offer, outs, local);
    }
}

/// The answering of an offer ends well exactly when the answer was sent and the
/// sending went well.
pub proof fn law_offer_done_iff_answer_sent<E>(
    id: Seq<char>,
    offer: SessionDescriptionModel,
    outs: Seq<OutcomeModel<E>>,
)
    ensures
        offer_asks(id, offer, outs) == NextModel::<E>::Finished(Ok(())) <==> outs.len() > 0
            && done(outs.last()) && exists|local: SessionDescriptionModel|
            #[trigger] ready_to_answer(outs.drop_last(), local),
{
    if outs.len() > 0 {
        let front = outs.drop_last();
        lemma_offer_stage(id, offer, front);
        if offer_asks(id, offer, outs) == NextModel::<E>::Finished(Ok(())) {
            let k = outcomes_before_offer(front);
            assert(ready_to_answer(front, front[k + 3]->Local_0->0));
        }
        assert forall|local: SessionDescriptionModel| #[trigger]
            ready_to_answer(front, local) implies offer_state(id, offer, front)
            == SetOfferModel::Sending by {
            lemma_offer_forward(id, offer, front, local);
        }
    }
}

/// The remote description that is set is the peer's offer, and it is set only
/// on a connection that was stable or was rolled back.
pub proof fn law_offer_set_when_ready<E>(
    id: Seq<char>,
    offer: SessionDescriptionModel,
    outs: Seq<OutcomeModel<E>>,
    d: SessionDescriptionModel,
)
    requires
        offer_asks(id, offer, outs) == NextModel::<E>::Call(CallModel::SetRemote(d)),
    ensures
        d == offer,
        ready_for_offer(outs),
        outs.len() == outcomes_before_offer(outs),
{
    lemma_offer_stage(id, offer, outs.drop_last());
    lemma_offer_stage(id, offer, outs);
}

/// Whether the answering of an offer waits for a call that may fail with an
/// error of its own, and whether that call makes a description.
pub open spec fn may_fail(s: SetOfferModel, makes: bool) -> bool {
    match s {
        SetOfferModel::RollingBack { .. }
        | SetOfferModel::SettingRemote { .. }
        | SetOfferModel::SettingLocal { .. }
        | SetOfferModel::Sending => !makes,
        SetOfferModel::CreatingAnswer { .. } => makes,
        _ => false,
    }
}

/// The first call that fails, be it the rollback, the setting of the offer, the
/// making or the setting of the answer, or its sending, ends the answering of an
/// offer with that call's own error. Nothing is called after it.
pub proof fn law_failed_call_ends_offer<E>(
    id: Seq<char>,
    offer: SessionDescriptionModel,
    outs: Seq<OutcomeModel<E>>,
    e: E,
)
    requires
        outs.len() > 0,
        ({
            let s = offer_state(id, offer, outs.drop_last());
            ||| may_fail(s, false) && outs.last() == OutcomeModel::<E>::Done(Err(e))
            ||| may_fail(s, true) && outs.last() == OutcomeModel::<E>::Created(Err(e))
        }),
    ensures
        offer_asks(id, offer, outs) == NextModel::<E>::Finished(Err(Failure::Outside(e))),
        offer_state(id, offer, outs) == SetOfferModel::Finished,
        forall|more: Seq<OutcomeModel<E>>| #[trigger]
            offer_asks(id, offer, outs + more) !is Call,
{
    assert forall|more: Seq<OutcomeModel<E>>| #[trigger]
        offer_asks(id, offer, outs + more) !is Call by {
        lemma_offer_over(id, offer, outs, more);
    }
}

/// Once the answering of an offer is over, it asks for nothing more.
proof fn lemma_offer_over<E>(
    id: Seq<char>,
    offer: SessionDescriptionModel,
    outs: Seq<OutcomeModel<E>>,
    more: Seq<OutcomeModel<E>>,
)
    requires
        outs.len() > 0,
        offer_state(id, offer, outs) == SetOfferModel::Finished,
        offer_asks(id, offer, outs) is Finished,
    ensures
        offer_state(id, offer, outs + more) == SetOfferModel::Finished,
        offer_asks(id, offer, outs + more) is Finished,
    decreases more.len(),
{
    if more.len() == 0 {
        assert(outs + more =~= outs);
    } else {
        lemma_offer_over(id, offer, outs, more.drop_last());
        assert((outs + more).drop_last() =~= outs + more.drop_last());
    }
}

/// The error that the answering of an offer ends with is that of the call that
/// failed last, unless no local description was there or something unexpected
/// was reported.
pub proof fn law_offer_error_is_the_calls<E>(
    id: Seq<char>,
    offer: SessionDescriptionModel,
    outs: Seq<OutcomeModel<E>>,
    e: E,
)
    requires
        offer_asks(id, offer, outs) == NextModel::<E>::Finished(Err(Failure::Outside(e))),
    ensures
        outs.len() > 0,
        outs.last() == OutcomeModel::<E>::Done(Err(e)) || outs.last()
            == OutcomeModel::<E>::Created(Err(e)),
{
}

/// A rollback is asked for exactly on a connection that was not stable, before
/// anything else is set.
pub proof fn law_rollback_iff_unstable<E>(
    id: Seq<char>,
    offer: SessionDescriptionModel,
    state: SignalingState,
)
    ensures
        ({
            let outs = seq![OutcomeModel::<E>::Signaling(state)];
            let back = NextModel::<E>::Call(CallModel::SetLocal(rollback_model()));
            if state == SignalingState::Stable {
                offer_asks(id, offer, outs) == NextModel::<E>::Call(CallModel::SetRemote(offer))
            } else {
                offer_asks(id, offer, outs) == back
            }
        }),
{
    let outs = seq![OutcomeModel::<E>::Signaling(state)];
    assert(outs.drop_last() =~= Seq::<OutcomeModel<E>>::empty());
}

/// The answering of an offer is over after at most seven outcomes.
pub proof fn law_offer_ends<E>(
    id: Seq<char>,
    offer: SessionDescriptionModel,
    outs: Seq<OutcomeModel<E>>,
)
    requires
        outs.len() >= 7,
    ensures
        offer_state(id, offer, outs) == SetOfferModel::Finished,
        offer_asks(id, offer, outs) is Finished,
{
    lemma_offer_stage(id, offer, outs);
    lemma_offer_stage(id, offer, outs.drop_last());
}

/// At most one answer is sent to an offer.
pub proof fn law_one_answer<E>(
    id: Seq<char>,
    offer: SessionDescriptionModel,
    outs: Seq<OutcomeModel<E>>,
    i: int,
    j: int,
)
    requires
        0 <= i <= outs.len(),
        0 <= j <= outs.len(),
        offer_asks(id, offer, outs.take(i)) matches NextModel::Call(CallModel::Send(_)),
        offer_asks(id, offer, outs.take(j)) matches NextModel::Call(CallModel::Send(_)),
    ensures
        i == j,
{
    let a = offer_asks(id, offer, outs.take(i))->Call_0->Send_0;
    let b = offer_asks(id, offer, outs.take(j))->Call_0->Send_0;
    law_answer_sent_iff_all_went_well(id, offer, outs.take(i), a);
    law_answer_sent_iff_all_went_well(id, offer, outs.take(j), b);
    assert(outs.take(i)[0] == outs[0]);
    assert(outs.take(j)[0] == outs[0]);
}

/// Where an offer of the server's own stands.
#[derive(Debug, PartialEq, Eq)]
pub enum Negotiation {
    Creating { id: String },
    Checking { id: String, offer: SessionDescription },
    SettingLocal { id: String },
    ReadingLocal { id: String },
    Sending,
    Finished,
}

pub enum NegotiationModel {
    Creating { id: Seq<char> },
    Checking { id: Seq<char>, offer: SessionDescriptionModel },
    SettingLocal { id: Seq<char> },
    ReadingLocal { id: Seq<char> },
    Sending,
    Finished,
}

impl View for Negotiation {
    type V = NegotiationModel;

    open spec fn view(&self) -> NegotiationModel {
        match self {
            Negotiation::Creating { id } => NegotiationModel::Creating { id: id@ },
            Negotiation::Checking { id, offer } => NegotiationModel::Checking {
                id: id@,
                offer: offer@,
            },
            Negotiation::SettingLocal { id } => NegotiationModel::SettingLocal { id: id@ },
            Negotiation::ReadingLocal { id } => NegotiationModel::ReadingLocal { id: id@ },
            Negotiation::Sending => NegotiationModel::Sending,
            Negotiation::Finished => NegotiationModel::Finished,
        }
    }
}

pub open spec fn optional_call(c: Option<Call>) -> Option<CallModel> {
    match c {
        Some(c) => Some(c@),
        None => None,
    }
}

/// How an offer of the server's own goes on after an outcome. The offer is made
/// first; on a connection that is then stable it is set, and the local
/// description is sent. Whatever fails before that ends it silently, and so
/// does a connection that is not stable.
pub open spec fn negotiation_next<E>(s: NegotiationModel, o: OutcomeModel<E>) -> (
    NegotiationModel,
    Option<CallModel>,
) {
    match (s, o) {
        (NegotiationModel::Creating { id }, OutcomeModel::Created(Ok(offer))) => (
            NegotiationModel::Checking { id, offer },
            Some(CallModel::ReadSignalingState),
        ),
        (
            NegotiationModel::Checking { id, offer },
            OutcomeModel::Signaling(SignalingState::Stable),
        ) => (NegotiationModel::SettingLocal { id }, Some(CallModel::SetLocal(offer))),
        (NegotiationModel::SettingLocal { id }, OutcomeModel::Done(Ok(()))) => (
            NegotiationModel::ReadingLocal { id },
            Some(CallModel::ReadLocal),
        ),
        (NegotiationModel::ReadingLocal { id }, OutcomeModel::Local(Some(local))) => (
            NegotiationModel::Sending,
            Some(CallModel::Send(description_text(Outbound::Offer, id, local))),
        ),
        _ => (NegotiationModel::Finished, None),
    }
}

/// Starts an offer of the server's own to a peer whose connection needs one.
pub fn handle_negotiation_needed(id: String) -> (r: (Negotiation, Option<Call>))
    ensures
        r.0@ == (NegotiationModel::Creating { id: id@ }),
        optional_call(r.1) == Some(CallModel::CreateOffer),
{
    (Negotiation::Creating { id }, Some(Call::CreateOffer))
}

impl Negotiation {
    /// Goes on after the outcome of the last call; without a further call it is
    /// over.
    pub fn advance<E>(self, outcome: Outcome<E>) -> (r: (Negotiation, Option<Call>))
        ensures
            (r.0@, optional_call(r.1)) == negotiation_next(self@, outcome@),
    {
        match (self, outcome) {
            (Negotiation::Creating { id }, Outcome::Created(Ok(offer))) => (
                Negotiation::Checking { id, offer },
                Some(Call::ReadSignalingState),
            ),
            (Negotiation::Checking { id, offer }, Outcome::Signaling(SignalingState::Stable)) => (
                Negotiation::SettingLocal { id },
                Some(Call::SetLocal(offer)),
            ),
            (Negotiation::SettingLocal { id }, Outcome::Done(Ok(()))) => (
                Negotiation::ReadingLocal { id },
                Some(Call::ReadLocal),
            ),
            (Negotiation::ReadingLocal { id }, Outcome::Local(Some(local))) => {
                let text = description_message(Outbound::Offer, id, &local);
                (Negotiation::Sending, Some(Call::Send(text)))
            },
            _ => (Negotiation::Finished, None),
        }
    }
}

/// Where an offer of the server's own stands after a list of outcomes.
pub open spec fn negotiation_state<E>(id: Seq<char>, outs: Seq<OutcomeModel<E>>) -> NegotiationModel
    decreases outs.len(),
{
    if outs.len() == 0 {
        NegotiationModel::Creating { id }
    } else {
        negotiation_next(negotiation_state(id, outs.drop_last()), outs.last()).0
    }
}

/// What an offer of the server's own asks for after a list of outcomes.
pub open spec fn negotiation_asks<E>(id: Seq<char>, outs: Seq<OutcomeModel<E>>) -> Option<
    CallModel,
> {
    if outs.len() == 0 {
        Some(CallModel::CreateOffer)
    } else {
        negotiation_next(negotiation_state(id, outs.drop_last()), outs.last()).1
    }
}

/// Whether everything before the sending of the server's offer went well.
pub open spec fn ready_to_offer<E>(
    outs: Seq<OutcomeModel<E>>,
    local: SessionDescriptionModel,
) -> bool {
    &&& outs.len() == 4
    &&& outs[0] matches OutcomeModel::Created(Ok(_))
    &&& outs[1] == OutcomeModel::<E>::Signaling(SignalingState::Stable)
    &&& done(outs[2])
    &&& outs[3] == OutcomeModel::<E>::Local(Some(local))
}

proof fn lemma_negotiation_stage<E>(id: Seq<char>, outs: Seq<OutcomeModel<E>>)
    ensures
        match negotiation_state(id, outs) {
            NegotiationModel::Creating { id: i } => outs.len() == 0 && i == id,
            NegotiationModel::Checking { id: i, offer } => {
                &&& outs.len() == 1
                &&& outs[0] == OutcomeModel::<E>::Created(Ok(offer))
                &&& i == id
            },
            NegotiationModel::SettingLocal { id: i } => {
                &&& outs.len() == 2
                &&& outs[0] matches OutcomeModel::Created(Ok(_))
                &&& outs[1] == OutcomeModel::<E>::Signaling(SignalingState::Stable)
                &&& i == id
            },
            NegotiationModel::ReadingLocal { id: i } => {
                &&& outs.len() == 3
                &&& outs[0] matches OutcomeModel::Created(Ok(_))
                &&& outs[1] == OutcomeModel::<E>::Signaling(SignalingState::Stable)
                &&& done(outs[2])
                &&& i == id
            },
            NegotiationModel::Sending => {
                &&& outs[3] matches OutcomeModel::Local(Some(local))
                &&& ready_to_offer(outs, local)
            },
            NegotiationModel::Finished => outs.len() > 0,
        },
    decreases outs.len(),
{
    if outs.len() > 0 {
        let front = outs.drop_last();
        lemma_negotiation_stage(id, front);
        assert(forall|j: int| 0 <= j < front.len() ==> front[j] == outs[j]);
        assert(outs.last() == outs[outs.len() - 1]);
    }
}

/// The server offers to a peer exactly when the offer could be made, the
/// connection was stable, the offer could be set, and a local description was
/// there, which is what is sent. Nothing else is ever sent.
pub proof fn law_offer_sent_iff_stable<E>(
    id: Seq<char>,
    outs: Seq<OutcomeModel<E>>,
    text: Seq<char>,
)
    ensures
        negotiation_asks(id, outs) == Some(CallModel::Send(text)) <==> exists|
            local: SessionDescriptionModel,
        |
            #[trigger] ready_to_offer(outs, local) && text == description_text(
                Outbound::Offer,
                id,
                local,
            ),
{
    if negotiation_asks(id, outs) == Some(CallModel::Send(text)) {
        lemma_negotiation_stage(id, outs.drop_last());
        lemma_negotiation_stage(id, outs);
        assert(ready_to_offer(outs, outs[3]->Local_0->0));
    }
    assert forall|local: SessionDescriptionModel| #[trigger]
        ready_to_offer(outs, local) implies negotiation_asks(id, outs) == Some(
        CallModel::Send(description_text(Outbound::Offer, id, local)),
    ) by {
        assert(outs.take(0) =~= Seq::<OutcomeModel<E>>::empty());
        assert(outs.take(4) =~= outs);
        lemma_take_step(outs, 0);
        lemma_take_step(outs, 1);
        lemma_take_step(outs, 2);
        lemma_take_step(outs, 3);
        assert(negotiation_state(id, outs.take(0)) == NegotiationModel::Creating { id });
        assert(negotiation_state(id, outs.take(1)) is Checking);
        assert(negotiation_state(id, outs.take(2)) == NegotiationModel::SettingLocal { id });
        assert(negotiation_state(id, outs.take(3)) == NegotiationModel::ReadingLocal { id });
    }
}

/// The description that the server sets of its own accord is the offer that it
/// made, and it is set only on a stable connection.
pub proof fn law_own_offer_set_when_stable<E>(
    id: Seq<char>,
    outs: Seq<OutcomeModel<E>>,
    d: SessionDescriptionModel,
)
    requires
        negotiation_asks(id, outs) == Some(CallModel::SetLocal(d)),
    ensures
        outs.len() == 2,
        outs[0] == OutcomeModel::<E>::Created(Ok(d)),
        outs[1] == OutcomeModel::<E>::Signaling(SignalingState::Stable),
{
    lemma_negotiation_stage(id, outs.drop_last());
    lemma_negotiation_stage(id, outs);
    assert(outs.drop_last()[0] == outs[0]);
}

/// An offer of the server's own is over after at most five outcomes, however
/// the sending went.
pub proof fn law_negotiation_ends<E>(id: Seq<char>, outs: Seq<OutcomeModel<E>>)
    requires
        outs.len() >= 5,
    ensures
        negotiation_asks(id, outs) is None,
{
    lemma_negotiation_stage(id, outs.drop_last());
    lemma_negotiation_stage(id, outs);
}

/// Decides whether a peer's answer is put to its connection: not on a stable
/// one, which waits for none.
pub fn applies_answer(state: SignalingState) -> (r: bool)
    ensures
        r == (state != SignalingState::Stable),
{
    match state {
        SignalingState::Stable => false,
        _ => true,
    }
}

/// The answering of an offer begins with nothing done, and each outcome takes it
/// one step on from where it stood.
pub proof fn law_answering_step_by_step<E>(
    id: Seq<char>,
    offer: SessionDescriptionModel,
    outs: Seq<OutcomeModel<E>>,
    o: OutcomeModel<E>,
)
    ensures
        offer_state::<E>(id, offer, Seq::empty()) == (SetOfferModel::Checking { id, offer }),
        offer_state(id, offer, outs.push(o)) == offer_next(offer_state(id, offer, outs), o).0,
        offer_asks(id, offer, outs.push(o)) == offer_next(offer_state(id, offer, outs), o).1,
{
    assert(outs.push(o).drop_last() =~= outs);
}

/// The outcomes up to where the offer can be set: the signaling state, and the
/// rollback that went well if it was not stable.
pub open spec fn until_ready<E>(state: SignalingState) -> Seq<OutcomeModel<E>> {
    if state == SignalingState::Stable {
        seq![OutcomeModel::Signaling(state)]
    } else {
        seq![OutcomeModel::Signaling(state), OutcomeModel::Done(Ok(()))]
    }
}

/// How an offer is answered while all goes well, call by call: the state is read,
/// an unstable connection is rolled back with an empty description, the peer's
/// offer is set, an answer is made, that very answer is set, the local
/// description is read, and that very description goes to the peer under the
/// peer's name as an answer.
pub proof fn law_answering_call_by_call<E>(
    id: Seq<char>,
    offer: SessionDescriptionModel,
    state: SignalingState,
    answer: SessionDescriptionModel,
    local: SessionDescriptionModel,
)
    ensures
        ({
            let done = OutcomeModel::<E>::Done(Ok(()));
            let a = until_ready::<E>(state);
            let b = a.push(done);
            let c = b.push(OutcomeModel::Created(Ok(answer)));
            let d = c.push(done);
            let f = d.push(OutcomeModel::Local(Some(local)));
            let begin = Seq::<OutcomeModel<E>>::empty();
            &&& offer_asks(id, offer, begin) == NextModel::<E>::Call(CallModel::ReadSignalingState)
            &&& state != SignalingState::Stable ==> offer_asks(
                id,
                offer,
                seq![OutcomeModel::<E>::Signaling(state)],
            ) == NextModel::<E>::Call(
                CallModel::SetLocal(
                    SessionDescriptionModel { sdp_type: SdpType::Rollback, sdp: ""@ },
                ),
            )
            &&& offer_asks(id, offer, a) == NextModel::<E>::Call(CallModel::SetRemote(offer))
            &&& offer_asks(id, offer, b) == NextModel::<E>::Call(CallModel::CreateAnswer)
            &&& offer_asks(id, offer, c) == NextModel::<E>::Call(CallModel::SetLocal(answer))
            &&& offer_asks(id, offer, d) == NextModel::<E>::Call(CallModel::ReadLocal)
            &&& offer_asks(id, offer, f) == NextModel::<E>::Call(
                CallModel::Send(
                    msg_json(MsgModel { ev: "answer"@, id, data: description_json(local) }),
                ),
            )
            &&& offer_asks(id, offer, f.push(done)) == NextModel::<E>::Finished(Ok(()))
        }),
{
    lemma_answering(id, offer, state, answer, local, OutcomeModel::<E>::Done(Ok(())));
}

proof fn lemma_answering<E>(
    id: Seq<char>,
    offer: SessionDescriptionModel,
    state: SignalingState,
    answer: SessionDescriptionModel,
    local: SessionDescriptionModel,
    o: OutcomeModel<E>,
)
    ensures
        ({
            let done = OutcomeModel::<E>::Done(Ok(()));
            let first = seq![OutcomeModel::<E>::Signaling(state)];
            let a = until_ready::<E>(state);
            let b = a.push(done);
            let c = b.push(OutcomeModel::Created(Ok(answer)));
            let d = c.push(done);
            let f = d.push(OutcomeModel::Local(Some(local)));
            let s0 = SetOfferModel::Checking { id, offer };
            let s1 = SetOfferModel::SettingRemote { id };
            let s2 = SetOfferModel::CreatingAnswer { id };
            let s3 = SetOfferModel::SettingLocal { id };
            let s4 = SetOfferModel::ReadingLocal { id };
            let back = SetOfferModel::RollingBack { id, offer };
            &&& offer_asks(id, offer, first) == offer_next(s0, first[0]).1
            &&& state != SignalingState::Stable ==> offer_state(id, offer, first) == back
            &&& state != SignalingState::Stable ==> offer_asks(id, offer, first.push(o))
                == offer_next(back, o).1
            &&& state == SignalingState::Stable ==> offer_asks(id, offer, a) == offer_next(
                s0,
                first[0],
            ).1
            &&& state != SignalingState::Stable ==> offer_asks(id, offer, a) == offer_next(
                back,
                done,
            ).1
            &&& offer_asks(id, offer, a.push(o)) == offer_next(s1, o).1
            &&& offer_asks(id, offer, b) == offer_next(s1, done).1
            &&& offer_asks(id, offer, b.push(o)) == offer_next(s2, o).1
            &&& offer_asks(id, offer, c) == offer_next(
                s2,
                OutcomeModel::<E>::Created(Ok(answer)),
            ).1
            &&& offer_asks(id, offer, c.push(o)) == offer_next(s3, o).1
            &&& offer_asks(id, offer, d) == offer_next(s3, done).1
            &&& offer_asks(id, offer, d.push(o)) == offer_next(s4, o).1
            &&& offer_asks(id, offer, f) == offer_next(
                s4,
                OutcomeModel::<E>::Local(Some(local)),
            ).1
            &&& offer_asks(id, offer, f.push(o)) == offer_next(SetOfferModel::Sending, o).1
        }),
{
    let done = OutcomeModel::<E>::Done(Ok(()));
    let begin = Seq::<OutcomeModel<E>>::empty();
    let first = seq![OutcomeModel::<E>::Signaling(state)];
    let a = until_ready::<E>(state);
    let b = a.push(done);
    let c = b.push(OutcomeModel::Created(Ok(answer)));
    let d = c.push(done);
    let f = d.push(OutcomeModel::Local(Some(local)));
    assert(first =~= begin.push(OutcomeModel::Signaling(state)));
    assert(state != SignalingState::Stable ==> a =~= first.push(done));
    law_answering_step_by_step(id, offer, begin, OutcomeModel::Signaling(state));
    law_answering_step_by_step(id, offer, first, done);
    law_answering_step_by_step(id, offer, first, o);
    law_answering_step_by_step(id, offer, a, done);
    law_answering_step_by_step(id, offer, a, o);
    law_answering_step_by_step(id, offer, b, OutcomeModel::Created(Ok(answer)));
    law_answering_step_by_step(id, offer, b, o);
    law_answering_step_by_step(id, offer, c, done);
    law_answering_step_by_step(id, offer, c, o);
    law_answering_step_by_step(id, offer, d, OutcomeModel::Local(Some(local)));
    law_answering_step_by_step(id, offer, d, o);
    law_answering_step_by_step(id, offer, f, o);
}

/// How the answering of an offer fails, call by call: whichever call fails, its
/// error is the end, and a missing local description is an error of its own.
pub proof fn law_answering_fails_call_by_call<E>(
    id: Seq<char>,
    offer: SessionDescriptionModel,
    state: SignalingState,
    answer: SessionDescriptionModel,
    local: SessionDescriptionModel,
    e: E,
)
    ensures
        ({
            let done = OutcomeModel::<E>::Done(Ok(()));
            let failed = OutcomeModel::<E>::Done(Err(e));
            let end = NextModel::<E>::Finished(Err(Failure::Outside(e)));
            let first = seq![OutcomeModel::<E>::Signaling(state)];
            let a = until_ready::<E>(state);
            let b = a.push(done);
            let c = b.push(OutcomeModel::Created(Ok(answer)));
            let d = c.push(done);
            let f = d.push(OutcomeModel::Local(Some(local)));
            &&& state != SignalingState::Stable ==> offer_asks(id, offer, first.push(failed)) == end
            &&& offer_asks(id, offer, a.push(failed)) == end
            &&& offer_asks(id, offer, b.push(OutcomeModel::Created(Err(e)))) == end
            &&& offer_asks(id, offer, c.push(failed)) == end
            &&& offer_asks(id, offer, d.push(OutcomeModel::Local(None))) == NextModel::<
                E,
            >::Finished(Err(Failure::NoLocalDescription))
            &&& offer_asks(id, offer, f.push(failed)) == end
        }),
{
    lemma_answering(id, offer, state, answer, local, OutcomeModel::<E>::Done(Err(e)));
    lemma_answering(id, offer, state, answer, local, OutcomeModel::<E>::Created(Err(e)));
    lemma_answering(id, offer, state, answer, local, OutcomeModel::<E>::Local(None));
}

/// A description is set on the own side in two places only: the empty rollback,
/// right after the connection turned out not to be stable, and the answer that
/// was just made, whole, behind an offer that was set.
pub proof fn law_local_is_rollback_or_the_answer<E>(
    id: Seq<char>,
    offer: SessionDescriptionModel,
    outs: Seq<OutcomeModel<E>>,
    d: SessionDescriptionModel,
)
    requires
        offer_asks(id, offer, outs) == NextModel::<E>::Call(CallModel::SetLocal(d)),
    ensures
        ({
            ||| {
                &&& outs.len() == 1
                &&& outs[0] matches OutcomeModel::Signaling(s)
                &&& s != SignalingState::Stable
                &&& d.sdp_type == SdpType::Rollback
                &&& d.sdp == ""@
            }
            ||| {
                &&& outs.len() >= 3
                &&& outs.last() == OutcomeModel::<E>::Created(Ok(d))
                &&& outs[outs.len() - 2] matches OutcomeModel::Done(Ok(_))
                &&& outs.len() == outcomes_before_offer(outs) + 2
                &&& ready_for_offer(outs)
            }
        }),
{
    lemma_offer_stage(id, offer, outs.drop_last());
    lemma_offer_stage(id, offer, outs);
    assert(outs.last() == outs[outs.len() - 1]);
}

/// An offer of the server's own begins with nothing done, and each outcome takes
/// it one step on from where it stood.
pub proof fn law_offering_step_by_step<E>(
    id: Seq<char>,
    outs: Seq<OutcomeModel<E>>,
    o: OutcomeModel<E>,
)
    ensures
        negotiation_state::<E>(id, Seq::empty()) == (NegotiationModel::Creating { id }),
        negotiation_state(id, outs.push(o)) == negotiation_next(negotiation_state(id, outs), o).0,
        negotiation_asks(id, outs.push(o)) == negotiation_next(negotiation_state(id, outs), o).1,
{
    assert(outs.push(o).drop_last() =~= outs);
}

/// How the server offers on its own, call by call: an offer is made, the state is
/// read, on a stable connection that very offer is set, the local description is
/// read, and that very description goes to the peer under the peer's name as an
/// offer; then it is over however the sending went. Whatever fails before ends
/// it without a word.
pub proof fn law_offering_call_by_call<E>(
    id: Seq<char>,
    offer: SessionDescriptionModel,
    local: SessionDescriptionModel,
    state: SignalingState,
    e: E,
    sent: Result<(), E>,
)
    ensures
        ({
            let begin = Seq::<OutcomeModel<E>>::empty();
            let a = begin.push(OutcomeModel::Created(Ok(offer)));
            let b = a.push(OutcomeModel::Signaling(SignalingState::Stable));
            let c = b.push(OutcomeModel::Done(Ok(())));
            let d = c.push(OutcomeModel::Local(Some(local)));
            &&& negotiation_asks(id, begin) == Some(CallModel::CreateOffer)
            &&& negotiation_asks(id, begin.push(OutcomeModel::Created(Err(e)))) is None
            &&& negotiation_asks(id, a) == Some(CallModel::ReadSignalingState)
            &&& state != SignalingState::Stable ==> negotiation_asks(
                id,
                a.push(OutcomeModel::Signaling(state)),
            ) is None
            &&& negotiation_asks(id, b) == Some(CallModel::SetLocal(offer))
            &&& negotiation_asks(id, b.push(OutcomeModel::Done(Err(e)))) is None
            &&& negotiation_asks(id, c) == Some(CallModel::ReadLocal)
            &&& negotiation_asks(id, c.push(OutcomeModel::Local(None))) is None
            &&& negotiation_asks(id, d) == Some(
                CallModel::Send(
                    msg_json(MsgModel { ev: "offer"@, id, data: description_json(local) }),
                ),
            )
            &&& negotiation_asks(id, d.push(OutcomeModel::Done(sent))) is None
        }),
{
    let begin = Seq::<OutcomeModel<E>>::empty();
    let a = begin.push(OutcomeModel::Created(Ok(offer)));
    let b = a.push(OutcomeModel::Signaling(SignalingState::Stable));
    let c = b.push(OutcomeModel::Done(Ok(())));
    let d = c.push(OutcomeModel::Local(Some(local)));
    law_offering_step_by_step(id, begin, OutcomeModel::Created(Ok(offer)));
    law_offering_step_by_step(id, begin, OutcomeModel::Created(Err(e)));
    law_offering_step_by_step(id, a, OutcomeModel::Signaling(SignalingState::Stable));
    law_offering_step_by_step(id, a, OutcomeModel::Signaling(state));
    law_offering_step_by_step(id, b, OutcomeModel::Done(Ok(())));
    law_offering_step_by_step(id, b, OutcomeModel::Done(Err(e)));
    law_offering_step_by_step(id, c, OutcomeModel::Local(Some(local)));
    law_offering_step_by_step(id, c, OutcomeModel::Local(None));
    law_offering_step_by_step(id, d, OutcomeModel::Done(sent));
}

/// Calls and outcomes stand for their descriptions and texts, whole.
pub proof fn law_call_models<E>(c: Call, o: Outcome<E>, n: Next<E>, maybe: Option<Call>)
    ensures
        match c {
            Call::ReadSignalingState => c@ is ReadSignalingState,
            Call::CreateOffer => c@ is CreateOffer,
            Call::CreateAnswer => c@ is CreateAnswer,
            Call::SetLocal(d) => c@ == CallModel::SetLocal(d@),
            Call::SetRemote(d) => c@ == CallModel::SetRemote(d@),
            Call::ReadLocal => c@ is ReadLocal,
            Call::Send(t) => c@ == CallModel::Send(t@),
        },
        match o {
            Outcome::Signaling(s) => o@ == OutcomeModel::<E>::Signaling(s),
            Outcome::Created(Ok(d)) => o@ == OutcomeModel::<E>::Created(Ok(d@)),
            Outcome::Created(Err(e)) => o@ == OutcomeModel::<E>::Created(Err(e)),
            Outcome::Done(r) => o@ == OutcomeModel::<E>::Done(r),
            Outcome::Local(Some(d)) => o@ == OutcomeModel::<E>::Local(Some(d@)),
            Outcome::Local(None) => o@ == OutcomeModel::<E>::Local(None),
        },
        match n {
            Next::Call(d) => n@ == NextModel::<E>::Call(d@),
            Next::Finished(r) => n@ == NextModel::<E>::Finished(r),
        },
        match maybe {
            Some(d) => optional_call(maybe) == Some(d@),
            None => optional_call(maybe) is None,
        },
{
}

/// Where a conversation stands is told by what it waits for and what it still
/// needs, whole.
pub proof fn law_conversation_models(s: SetOffer, n: Negotiation)
    ensures
        match s {
            SetOffer::Checking { id, offer } => s@ == (SetOfferModel::Checking {
                id: id@,
                offer: offer@,
            }),
            SetOffer::RollingBack { id, offer } => s@ == (SetOfferModel::RollingBack {
                id: id@,
                offer: offer@,
            }),
            SetOffer::SettingRemote { id } => s@ == (SetOfferModel::SettingRemote { id: id@ }),
            SetOffer::CreatingAnswer { id } => s@ == (SetOfferModel::CreatingAnswer { id: id@ }),
            SetOffer::SettingLocal { id } => s@ == (SetOfferModel::SettingLocal { id: id@ }),
            SetOffer::ReadingLocal { id } => s@ == (SetOfferModel::ReadingLocal { id: id@ }),
            SetOffer::Sending => s@ is Sending,
            SetOffer::Finished => s@ is Finished,
        },
        match n {
            Negotiation::Creating { id } => n@ == (NegotiationModel::Creating { id: id@ }),
            Negotiation::Checking { id, offer } => n@ == (NegotiationModel::Checking {
                id: id@,
                offer: offer@,
            }),
            Negotiation::SettingLocal { id } => n@ == (NegotiationModel::SettingLocal { id: id@ }),
            Negotiation::ReadingLocal { id } => n@ == (NegotiationModel::ReadingLocal { id: id@ }),
            Negotiation::Sending => n@ is Sending,
            Negotiation::Finished => n@ is Finished,
        },
{
}

} // verus!
