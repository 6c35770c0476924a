//! How a peer that offers to connect comes into the room, and how one whose
//! connection breaks goes out of it.
use vstd::prelude::*;

use crate::event::{event_of, Action, AppStateEv, AppStateEvKind, EvKindModel, EvModel};
use crate::room::Role;
use crate::track::LocalTrack;
use crate::wire::{Failure, SessionDescription, SessionDescriptionModel};

verus! {

/// The work that bringing a peer in consists of.
#[derive(Debug, PartialEq, Eq)]
pub enum JoinCall {
    /// Build a connection with the audio codecs and the ICE servers.
    Build,
    /// Tell the room of the peer and the connection.
    Announce { role: Role, id: String },
    /// Look whether the room has answered yet.
    AskAdmission,
    /// Answer the peer's offer on the connection.
    SetOffer { id: String, offer: SessionDescription },
    /// Watch the connection.
    InstallHandlers { role: Role, id: String },
    /// Wait for the speaker's first track.
    AwaitTrack,
    /// Tell the room of the track.
    Publish { id: String },
}

pub enum JoinCallModel {
    Build,
    Announce { role: Role, id: Seq<char> },
    AskAdmission,
    SetOffer { id: Seq<char>, offer: SessionDescriptionModel },
    InstallHandlers { role: Role, id: Seq<char> },
    AwaitTrack,
    Publish { id: Seq<char> },
}

impl View for JoinCall {
    type V = JoinCallModel;

    open spec fn view(&self) -> JoinCallModel {
        match self {
            JoinCall::Build => JoinCallModel::Build,
            JoinCall::Announce { role, id } => JoinCallModel::Announce { role: *role, id: id@ },
            JoinCall::AskAdmission => JoinCallModel::AskAdmission,
            JoinCall::SetOffer { id, offer } => JoinCallModel::SetOffer {
                id: id@,
                offer: offer@,
            },
            JoinCall::InstallHandlers { role, id } => JoinCallModel::InstallHandlers {
                role: *role,
                id: id@,
            },
            JoinCall::AwaitTrack => JoinCallModel::AwaitTrack,
            JoinCall::Publish { id } => JoinCallModel::Publish { id: id@ },
        }
    }
}

/// How a piece of that work ended. The error of one that failed is carried and
/// not looked into: `E`.
#[derive(Debug, PartialEq, Eq)]
pub enum JoinOutcome<E> {
    /// It was done, or could not be.
    Done(Result<(), E>),
    /// What the room has answered; it may not have answered yet.
    Admission(Option<bool>),
    /// How the answering of the offer ended.
    OfferSet(Result<(), Failure<E>>),
    /// A track came, or, if false, none will.
    Track(bool),
}

/// Whether a piece of work was done.
pub open spec fn done<E>(o: JoinOutcome<E>) -> bool {
    o matches JoinOutcome::Done(Ok(_))
}

/// What comes next in bringing a peer in.
#[derive(Debug, PartialEq, Eq)]
pub enum JoinNext<E> {
    Call(JoinCall),
    Finished(Result<(), Failure<E>>),
}

pub enum JoinNextModel<E> {
    Call(JoinCallModel),
    Finished(Result<(), Failure<E>>),
}

impl<E> View for JoinNext<E> {
    type V = JoinNextModel<E>;

    open spec fn view(&self) -> JoinNextModel<E> {
        match self {
            JoinNext::Call(c) => JoinNextModel::Call(c@),
            JoinNext::Finished(r) => JoinNextModel::Finished(*r),
        }
    }
}

/// Where the bringing in of a peer stands.
#[derive(Debug, PartialEq, Eq)]
pub enum Join {
    Building { role: Role, id: String, offer: SessionDescription },
    Announcing { role: Role, id: String, offer: SessionDescription },
    Confirming { id: String, offer: SessionDescription },
    Answering { role: Role, id: String },
    Installing { role: Role, id: String },
    AwaitingTrack { id: String },
    Publishing,
    Finished,
}

pub enum JoinModel {
    Building { role: Role, id: Seq<char>, offer: SessionDescriptionModel },
    Announcing { role: Role, id: Seq<char>, offer: SessionDescriptionModel },
    Confirming { id: Seq<char>, offer: SessionDescriptionModel },
    Answering { role: Role, id: Seq<char> },
    Installing { role: Role, id: Seq<char> },
    AwaitingTrack { id: Seq<char> },
    Publishing,
    Finished,
}

impl View for Join {
    type V = JoinModel;

    open spec fn view(&self) -> JoinModel {
        match self {
            Join::Building { role, id, offer } => JoinModel::Building {
                role: *role,
                id: id@,
                offer: offer@,
            },
            Join::Announcing { role, id, offer } => JoinModel::Announcing {
                role: *role,
                id: id@,
                offer: offer@,
            },
            Join::Confirming { id, offer } => JoinModel::Confirming { id: id@, offer: offer@ },
            Join::Answering { role, id } => JoinModel::Answering { role: *role, id: id@ },
            Join::Installing { role, id } => JoinModel::Installing { role: *role, id: id@ },
            Join::AwaitingTrack { id } => JoinModel::AwaitingTrack { id: id@ },
            Join::Publishing => JoinModel::Publishing,
            Join::Finished => JoinModel::Finished,
        }
    }
}

pub open spec fn joined<E>() -> (JoinModel, JoinNextModel<E>) {
    (JoinModel::Finished, JoinNextModel::Finished(Ok(())))
}

pub open spec fn join_failed<E>(f: Failure<E>) -> (JoinModel, JoinNextModel<E>) {
    (JoinModel::Finished, JoinNextModel::Finished(Err(f)))
}

pub open spec fn answering<E>(role: Role, id: Seq<char>, offer: SessionDescriptionModel) -> (
    JoinModel,
    JoinNextModel<E>,
) {
    (
        JoinModel::Answering { role, id },
        JoinNextModel::Call(JoinCallModel::SetOffer { id, offer }),
    )
}

/// How the bringing in of a peer goes on after an outcome. A connection is
/// built and announced to the room; a speaker who has been told of a refusal by
/// then ends there. Then the offer is answered and the connection is watched. A
/// listener is in; a speaker is once a first track has come and been announced,
/// or will not come. The first piece of work that fails ends it with its own
/// error; only how the track's announcement ended does not matter. An outcome
/// that nothing waits for ends it too.
pub open spec fn join_next<E>(s: JoinModel, o: JoinOutcome<E>) -> (JoinModel, JoinNextModel<E>) {
    match (s, o) {
        (JoinModel::Building { role, id, offer }, JoinOutcome::Done(Ok(()))) => (
            JoinModel::Announcing { role, id, offer },
            JoinNextModel::Call(JoinCallModel::Announce { role, id }),
        ),
        (JoinModel::Announcing { role, id, offer }, JoinOutcome::Done(Ok(()))) => match role {
            Role::Speaker => (
                JoinModel::Confirming { id, offer },
                JoinNextModel::Call(JoinCallModel::AskAdmission),
            ),
            Role::Listener => answering(role, id, offer),
        },
        (JoinModel::Confirming { id, offer }, JoinOutcome::Admission(answer)) => if answer == Some(
            false,
        ) {
            join_failed(Failure::SpeakersExceeded)
        } else {
            answering(Role::Speaker, id, offer)
        },
        (JoinModel::Answering { role, id }, JoinOutcome::OfferSet(Ok(_))) => (
            JoinModel::Installing { role, id },
            JoinNextModel::Call(JoinCallModel::InstallHandlers { role, id }),
        ),
        (JoinModel::Answering { role, id }, JoinOutcome::OfferSet(Err(f))) => join_failed(f),
        (JoinModel::Installing { role, id }, JoinOutcome::Done(Ok(()))) => match role {
            Role::Speaker => (
                JoinModel::AwaitingTrack { id },
                JoinNextModel::Call(JoinCallModel::AwaitTrack),
            ),
            Role::Listener => joined(),
        },
        (JoinModel::AwaitingTrack { id }, JoinOutcome::Track(true)) => (
            JoinModel::Publishing,
            JoinNextModel::Call(JoinCallModel::Publish { id }),
        ),
        (JoinModel::AwaitingTrack { id }, JoinOutcome::Track(false)) => joined(),
        (JoinModel::Publishing, JoinOutcome::Done(_)) => joined(),
        (JoinModel::Building { .. }, JoinOutcome::Done(Err(e)))
        | (JoinModel::Announcing { .. }, JoinOutcome::Done(Err(e)))
        | (JoinModel::Installing { .. }, JoinOutcome::Done(Err(e))) => join_failed(
            Failure::Outside(e),
        ),
        _ => join_failed(Failure::Unexpected),
    }
}

/// Starts to bring in a speaker that offers to connect.
pub fn new_peer_conn_with_offer<E>(id: String, offer: SessionDescription) -> (r: (
    Join,
    JoinNext<E>,
))
    ensures
        r.0@ == (JoinModel::Building { role: Role::Speaker, id: id@, offer: offer@ }),
        r.1@ == JoinNextModel::<E>::Call(JoinCallModel::Build),
{
    (Join::Building { role: Role::Speaker, id, offer }, JoinNext::Call(JoinCall::Build))
}

/// Starts to bring in a listener that offers to connect.
pub fn new_listener_with_offer<E>(id: String, offer: SessionDescription) -> (r: (
    Join,
    JoinNext<E>,
))
    ensures
        r.0@ == (JoinModel::Building { role: Role::Listener, id: id@, offer: offer@ }),
        r.1@ == JoinNextModel::<E>::Call(JoinCallModel::Build),
{
    (Join::Building { role: Role::Listener, id, offer }, JoinNext::Call(JoinCall::Build))
}

impl Join {
    /// Goes on after the outcome of the last piece of work.
    pub fn advance<E>(self, outcome: JoinOutcome<E>) -> (r: (Join, JoinNext<E>))
        ensures
            (r.0@, r.1@) == join_next(self@, outcome),
    {
        match (self, outcome) {
            (Join::Building { role, id, offer }, JoinOutcome::Done(Ok(()))) => {
                let name = id.clone();
                (
                    Join::Announcing { role, id, offer },
                    JoinNext::Call(JoinCall::Announce { role, id: name }),
                )
            },
            (Join::Announcing { role, id, offer }, JoinOutcome::Done(Ok(()))) => match role {
                Role::Speaker => (
                    Join::Confirming { id, offer },
                    JoinNext::Call(JoinCall::AskAdmission),
                ),
                Role::Listener => {
                    let name = id.clone();
                    (
                        Join::Answering { role, id },
                        JoinNext::Call(JoinCall::SetOffer { id: name, offer }),
                    )
                },
            },
            (Join::Confirming { id, offer }, JoinOutcome::Admission(answer)) => match answer {
                Some(false) => (
                    Join::Finished,
                    JoinNext::Finished(Err(Failure::SpeakersExceeded)),
                ),
                _ => {
                    let name = id.clone();
                    (
                        Join::Answering { role: Role::Speaker, id },
                        JoinNext::Call(JoinCall::SetOffer { id: name, offer }),
                    )
                },
            },
            (Join::Answering { role, id }, JoinOutcome::OfferSet(Ok(_))) => {
                let name = id.clone();
                (
                    Join::Installing { role, id },
                    JoinNext::Call(JoinCall::InstallHandlers { role, id: name }),
                )
            },
            (Join::Answering { role: _, id: _ }, JoinOutcome::OfferSet(Err(f))) => (
                Join::Finished,
                JoinNext::Finished(Err(f)),
            ),
            (Join::Installing { role, id }, JoinOutcome::Done(Ok(()))) => match role {
                Role::Speaker => (
                    Join::AwaitingTrack { id },
                    JoinNext::Call(JoinCall::AwaitTrack),
                ),
                Role::Listener => (Join::Finished, JoinNext::Finished(Ok(()))),
            },
            (Join::AwaitingTrack { id }, JoinOutcome::Track(true)) => (
                Join::Publishing,
                JoinNext::Call(JoinCall::Publish { id }),
            ),
            (Join::AwaitingTrack { id: _ }, JoinOutcome::Track(false)) => (
                Join::Finished,
                JoinNext::Finished(Ok(())),
            ),
            (Join::Publishing, JoinOutcome::Done(_)) => (
                Join::Finished,
                JoinNext::Finished(Ok(())),
            ),
            (Join::Building { .. }, JoinOutcome::Done(Err(e)))
            | (Join::Announcing { .. }, JoinOutcome::Done(Err(e)))
            | (Join::Installing { .. }, JoinOutcome::Done(Err(e))) => (
                Join::Finished,
                JoinNext::Finished(Err(Failure::Outside(e))),
            ),
            _ => (Join::Finished, JoinNext::Finished(Err(Failure::Unexpected))),
        }
    }
}

/// Where the bringing in of a peer stands after a list of outcomes.
pub open spec fn join_state<E>(
    role: Role,
    id: Seq<char>,
    offer: SessionDescriptionModel,
    outs: Seq<JoinOutcome<E>>,
) -> JoinModel
    decreases outs.len(),
{
    if outs.len() == 0 {
        JoinModel::Building { role, id, offer }
    } else {
        join_next(join_state(role, id, offer, outs.drop_last()), outs.last()).0
    }
}

/// What the bringing in of a peer asks for after a list of outcomes.
pub open spec fn join_asks<E>(
    role: Role,
    id: Seq<char>,
    offer: SessionDescriptionModel,
    outs: Seq<JoinOutcome<E>>,
) -> JoinNextModel<E> {
    if outs.len() == 0 {
        JoinNextModel::Call(JoinCallModel::Build)
    } else {
        join_next(join_state(role, id, offer, outs.drop_last()), outs.last()).1
    }
}

/// How many outcomes come before the offer is answered: a speaker also asks for
/// admission.
pub open spec fn outcomes_before_answer(role: Role) -> int {
    match role {
        Role::Speaker => 3,
        Role::Listener => 2,
    }
}

/// Whether a peer may have its offer answered: its connection was built and
/// announced, and, if it is a speaker, no refusal had come.
pub open spec fn may_answer<E>(role: Role, outs: Seq<JoinOutcome<E>>) -> bool {
    &&& outs.len() >= outcomes_before_answer(role)
    &&& done(outs[0])
    &&& done(outs[1])
    &&& role == Role::Speaker ==> outs[2] is Admission && outs[2] != JoinOutcome::<E>::Admission(
        Some(false),
    )
}

/// Whether a peer's offer was answered and its connection is watched.
pub open spec fn watched<E>(role: Role, outs: Seq<JoinOutcome<E>>) -> bool {
    let k = outcomes_before_answer(role);
    &&& may_answer(role, outs)
    &&& outs.len() >= k + 2
    &&& outs[k] matches JoinOutcome::OfferSet(Ok(_))
    &&& done(outs[k + 1])
}

proof fn lemma_join_stage<E>(
    role: Role,
    id: Seq<char>,
    offer: SessionDescriptionModel,
    outs: Seq<JoinOutcome<E>>,
)
    ensures
        ({
            let k = outcomes_before_answer(role);
            match join_state(role, id, offer, outs) {
                JoinModel::Building { role: r, id: i, offer: o } => {
                    &&& outs.len() == 0
                    &&& r == role
                    &&& i == id
                    &&& o == offer
                },
                JoinModel::Announcing { role: r, id: i, offer: o } => {
                    &&& outs.len() == 1
                    &&& done(outs[0])
                    &&& r == role
                    &&& i == id
                    &&& o == offer
                },
                JoinModel::Confirming { id: i, offer: o } => {
                    &&& role == Role::Speaker
                    &&& outs.len() == 2
                    &&& done(outs[0])
                    &&& done(outs[1])
                    &&& i == id
                    &&& o == offer
                },
                JoinModel::Answering { role: r, id: i } => {
                    &&& may_answer(role, outs)
                    &&& outs.len() == k
                    &&& r == role
                    &&& i == id
                },
                JoinModel::Installing { role: r, id: i } => {
                    &&& may_answer(role, outs)
                    &&& outs.len() == k + 1
                    &&& outs[k] matches JoinOutcome::OfferSet(Ok(_))
                    &&& r == role
                    &&& i == id
                },
                JoinModel::AwaitingTrack { id: i } => {
                    &&& role == Role::Speaker
                    &&& watched(role, outs)
                    &&& outs.len() == k + 2
                    &&& i == id
                },
                JoinModel::Publishing => {
                    &&& role == Role::Speaker
                    &&& watched(role, outs)
                    &&& outs.len() == k + 3
                    &&& outs[k + 2] == JoinOutcome::<E>::Track(true)
                },
                JoinModel::Finished => outs.len() > 0,
            }
        }),
    decreases outs.len(),
{
    if outs.len() > 0 {
        let front = outs.drop_last();
        lemma_join_stage(role, id, offer, front);
        assert(forall|j: int| 0 <= j < front.len() ==> front[j] == outs[j]);
        assert(outs.last() == outs[outs.len() - 1]);
    }
}

/// A peer's offer is answered only once its connection was built and announced,
/// and a speaker's only if no refusal had come; it is the peer's own offer.
pub proof fn law_answered_only_if_not_refused<E>(
    role: Role,
    id: Seq<char>,
    offer: SessionDescriptionModel,
    outs: Seq<JoinOutcome<E>>,
    whose: Seq<char>,
    d: SessionDescriptionModel,
)
    requires
        join_asks(role, id, offer, outs) == JoinNextModel::<E>::Call(
            JoinCallModel::SetOffer { id: whose, offer: d },
        ),
    ensures
        whose == id,
        d == offer,
        may_answer(role, outs),
        outs.len() == outcomes_before_answer(role),
{
    lemma_join_stage(role, id, offer, outs.drop_last());
    lemma_join_stage(role, id, offer, outs);
}

/// A speaker who is told of a refusal is not brought in, for that reason.
pub proof fn law_refused_speaker_stays_out<E>(
    id: Seq<char>,
    offer: SessionDescriptionModel,
    outs: Seq<JoinOutcome<E>>,
)
    requires
        outs == seq![
            JoinOutcome::<E>::Done(Ok(())),
            JoinOutcome::Done(Ok(())),
            JoinOutcome::Admission(Some(false)),
        ],
    ensures
        join_asks(Role::Speaker, id, offer, outs) == JoinNextModel::<E>::Finished(
            Err(Failure::SpeakersExceeded),
        ),
{
    let one = outs.drop_last().drop_last();
    assert(one.drop_last() =~= Seq::<JoinOutcome<E>>::empty());
    assert(join_state(Role::Speaker, id, offer, one.drop_last()) is Building);
    assert(join_state(Role::Speaker, id, offer, one) is Announcing);
    assert(join_state(Role::Speaker, id, offer, outs.drop_last()) is Confirming);
}

/// A connection is watched only once the offer was answered on it.
pub proof fn law_watched_after_answer<E>(
    role: Role,
    id: Seq<char>,
    offer: SessionDescriptionModel,
    outs: Seq<JoinOutcome<E>>,
    side: Role,
    whose: Seq<char>,
)
    requires
        join_asks(role, id, offer, outs) == JoinNextModel::<E>::Call(
            JoinCallModel::InstallHandlers { role: side, id: whose },
        ),
    ensures
        side == role,
        whose == id,
        may_answer(role, outs),
        outs.last() matches JoinOutcome::OfferSet(Ok(_)),
{
    lemma_join_stage(role, id, offer, outs.drop_last());
    lemma_join_stage(role, id, offer, outs);
}

/// Whether all that brings a peer in went well, and nothing came after it.
pub open spec fn went_well<E>(role: Role, outs: Seq<JoinOutcome<E>>) -> bool {
    let k = outcomes_before_answer(role);
    &&& watched(role, outs)
    &&& match role {
        Role::Listener => outs.len() == k + 2,
        Role::Speaker => {
            ||| outs.len() == k + 3 && outs[k + 2] == JoinOutcome::<E>::Track(false)
            ||| outs.len() == k + 4 && outs[k + 2] == JoinOutcome::<E>::Track(true) && outs[k
                + 3] is Done
        },
    }
}

proof fn lemma_join_take<E>(
    role: Role,
    id: Seq<char>,
    offer: SessionDescriptionModel,
    outs: Seq<JoinOutcome<E>>,
    j: int,
)
    requires
        0 <= j < outs.len(),
    ensures
        join_state(role, id, offer, outs.take(j + 1)) == join_next(
            join_state(role, id, offer, outs.take(j)),
            outs[j],
        ).0,
{
    assert(outs.take(j + 1).drop_last() =~= outs.take(j));
    assert(outs.take(j + 1).last() == outs[j]);
}

/// A peer is in exactly if its connection was built and announced, no refusal
/// had come, its offer was answered, its connection is watched, and, for a
/// speaker, the first track has come and been announced or will not come.
pub proof fn law_in_iff_all_went_well<E>(
    role: Role,
    id: Seq<char>,
    offer: SessionDescriptionModel,
    outs: Seq<JoinOutcome<E>>,
)
    ensures
        join_asks(role, id, offer, outs) == JoinNextModel::<E>::Finished(Ok(())) <==> went_well(
            role,
            outs,
        ),
{
    if outs.len() > 0 {
        let front = outs.drop_last();
        lemma_join_stage(role, id, offer, front);
        assert(forall|j: int| 0 <= j < front.len() ==> front[j] == outs[j]);
        assert(outs.last() == outs[outs.len() - 1]);
        if went_well(role, outs) {
            let k = outcomes_before_answer(role);
            assert(outs.take(0) =~= Seq::<JoinOutcome<E>>::empty());
            lemma_join_take(role, id, offer, outs, 0);
            lemma_join_take(role, id, offer, outs, 1);
            lemma_join_take(role, id, offer, outs, 2);
            lemma_join_take(role, id, offer, outs, k);
            if role == Role::Speaker {
                lemma_join_take(role, id, offer, outs, k + 1);
                if outs.len() == k + 4 {
                    lemma_join_take(role, id, offer, outs, k + 2);
                }
            }
            assert(front =~= outs.take(outs.len() - 1));
        }
    }
}

/// A track is announced only for a speaker whose connection is watched, and
/// only if one came.
pub proof fn law_announced_only_if_watched<E>(
    role: Role,
    id: Seq<char>,
    offer: SessionDescriptionModel,
    outs: Seq<JoinOutcome<E>>,
    whose: Seq<char>,
)
    requires
        join_asks(role, id, offer, outs) == JoinNextModel::<E>::Call(
            JoinCallModel::Publish { id: whose },
        ),
    ensures
        whose == id,
        role == Role::Speaker,
        watched(role, outs),
        outs.last() == JoinOutcome::<E>::Track(true),
{
    let front = outs.drop_last();
    lemma_join_stage(role, id, offer, front);
    lemma_join_stage(role, id, offer, outs);
    assert(forall|j: int| 0 <= j < front.len() ==> front[j] == outs[j]);
}

/// A peer whose connection cannot be built, announced or watched is not brought
/// in, and the error is that of the work that failed.
pub proof fn law_failed_work_ends_join<E>(
    role: Role,
    id: Seq<char>,
    offer: SessionDescriptionModel,
    outs: Seq<JoinOutcome<E>>,
    e: E,
)
    requires
        outs.len() > 0,
        outs.last() == JoinOutcome::<E>::Done(Err(e)),
        ({
            let s = join_state(role, id, offer, outs.drop_last());
            s is Building || s is Announcing || s is Installing
        }),
    ensures
        join_asks(role, id, offer, outs) == JoinNextModel::<E>::Finished(Err(Failure::Outside(e))),
        join_state(role, id, offer, outs) == JoinModel::Finished,
{
}

/// Whether the connection could not be built, or, if so, not be announced.
pub open spec fn failed_at_start<E>(outs: Seq<JoinOutcome<E>>, e: E) -> bool {
    ||| outs.len() > 0 && outs[0] == JoinOutcome::<E>::Done(Err(e))
    ||| outs.len() > 1 && done(outs[0]) && outs[1] == JoinOutcome::<E>::Done(Err(e))
}

/// If the connection could not be built or announced, that error is the result,
/// and the offer is not answered at any time; if it could not be built, nothing
/// is announced either.
pub proof fn law_failed_start_leaves_no_trace<E>(
    role: Role,
    id: Seq<char>,
    offer: SessionDescriptionModel,
    outs: Seq<JoinOutcome<E>>,
    e: E,
    i: int,
)
    requires
        failed_at_start(outs, e),
        0 <= i <= outs.len(),
    ensures
        join_asks(role, id, offer, outs.take(if done(outs[0]) { 2 } else { 1 }))
            == JoinNextModel::<E>::Finished(Err(Failure::Outside(e))),
        !(join_asks(role, id, offer, outs.take(i)) matches JoinNextModel::Call(
            JoinCallModel::SetOffer { .. },
        )),
        !done(outs[0]) ==> !(join_asks(role, id, offer, outs.take(i)) matches JoinNextModel::Call(
            JoinCallModel::Announce { .. },
        )),
{
    let part = outs.take(i);
    if i > 0 {
        lemma_join_stage(role, id, offer, part);
        lemma_join_stage(role, id, offer, part.drop_last());
        assert(part[0] == outs[0]);
        if i > 1 {
            assert(part[1] == outs[1]);
        }
    }
    assert(outs.take(0) =~= Seq::<JoinOutcome<E>>::empty());
    lemma_join_take(role, id, offer, outs, 0);
    assert(outs.take(1).drop_last() =~= outs.take(0));
    if outs.len() > 1 {
        assert(outs.take(2).drop_last() =~= outs.take(1));
    }
}

/// A peer whose offer cannot be answered is not brought in, for the reason for
/// which it could not.
pub proof fn law_unanswered_offer_ends_join<E>(
    role: Role,
    id: Seq<char>,
    offer: SessionDescriptionModel,
    outs: Seq<JoinOutcome<E>>,
    f: Failure<E>,
)
    requires
        outs.len() > 0,
        outs.last() == JoinOutcome::<E>::OfferSet(Err(f)),
        join_state(role, id, offer, outs.drop_last()) is Answering,
    ensures
        join_asks(role, id, offer, outs) == JoinNextModel::<E>::Finished(Err(f)),
        join_state(role, id, offer, outs) == JoinModel::Finished,
{
}

/// Once the bringing in of a peer is over, for whatever reason, it asks for
/// nothing more: no answer, no announcement.
pub proof fn law_join_over_stays_over<E>(
    role: Role,
    id: Seq<char>,
    offer: SessionDescriptionModel,
    outs: Seq<JoinOutcome<E>>,
    more: Seq<JoinOutcome<E>>,
)
    requires
        join_asks(role, id, offer, outs) is Finished,
    ensures
        join_state(role, id, offer, outs + more) == JoinModel::Finished,
        join_asks(role, id, offer, outs + more) is Finished,
    decreases more.len(),
{
    if more.len() == 0 {
        assert(outs + more =~= outs);
    } else {
        law_join_over_stays_over(role, id, offer, outs, more.drop_last());
        assert((outs + more).drop_last() =~= outs + more.drop_last());
    }
}

/// The bringing in of a peer is over after at most seven outcomes.
pub proof fn law_join_ends<E>(
    role: Role,
    id: Seq<char>,
    offer: SessionDescriptionModel,
    outs: Seq<JoinOutcome<E>>,
)
    requires
        outs.len() >= 7,
    ensures
        join_asks(role, id, offer, outs) is Finished,
{
    lemma_join_stage(role, id, offer, outs.drop_last());
    lemma_join_stage(role, id, offer, outs);
}

/// The event that tells the room of a new speaker and asks for admission.
pub fn new_speaker_event<C, T, S, R>(id: String, conn: C, reply: R) -> (r: AppStateEv<C, T, S, R>)
    ensures
        r@ == event_of::<C, T, S, R>(Action::NewSpeaker, EvKindModel::StrConnTx(id@, conn, reply)),
{
    AppStateEv::of(Action::NewSpeaker, AppStateEvKind::StrConnTx(id, conn, reply))
}

/// The event that tells the room of a new listener.
pub fn new_listener_event<C, T, S, R>(id: String, conn: C) -> (r: AppStateEv<C, T, S, R>)
    ensures
        r@ == event_of::<C, T, S, R>(Action::NewListener, EvKindModel::StrConn(id@, conn)),
{
    AppStateEv::of(Action::NewListener, AppStateEvKind::StrConn(id, conn))
}

/// The event by which a peer is announced to the room: a speaker asks for
/// admission and waits for a reply, a listener just comes.
pub open spec fn announced<C, T, S, R>(role: Role, id: Seq<char>, conn: C, reply: R) -> EvModel<
    C,
    T,
    S,
    R,
> {
    match role {
        Role::Speaker => event_of(Action::NewSpeaker, EvKindModel::StrConnTx(id, conn, reply)),
        Role::Listener => event_of(Action::NewListener, EvKindModel::StrConn(id, conn)),
    }
}

/// The event that announces a peer. The way to reply is used up unheard for a
/// listener.
pub fn announcement<C, T, S, R>(role: Role, id: String, conn: C, reply: R) -> (r: AppStateEv<
    C,
    T,
    S,
    R,
>)
    ensures
        r@ == announced::<C, T, S, R>(role, id@, conn, reply),
{
    match role {
        Role::Speaker => new_speaker_event(id, conn, reply),
        Role::Listener => new_listener_event(id, conn),
    }
}

/// Decides whether the tracks of a peer's connection are watched: a speaker's
/// are, and a listener sends none.
pub fn watches_tracks(role: Role) -> (r: bool)
    ensures
        r == (role == Role::Speaker),
{
    match role {
        Role::Speaker => true,
        Role::Listener => false,
    }
}

/// The event that tells the room of a speaker's track.
pub fn speaker_track_event<C, T, S, R>(id: String, track: LocalTrack<T>) -> (r: AppStateEv<
    C,
    T,
    S,
    R,
>)
    ensures
        r@ == event_of::<C, T, S, R>(
            Action::AddSpeakerTrack,
            EvKindModel::StrTrack(id@, track@),
        ),
{
    AppStateEv::of(Action::AddSpeakerTrack, AppStateEvKind::StrTrack(id, track))
}

/// The event that tells the room which way peers are reached from now on.
pub fn signal_sender_event<C, T, S, R>(tx: S) -> (r: AppStateEv<C, T, S, R>)
    ensures
        r@ == event_of::<C, T, S, R>(Action::SignalSender, EvKindModel::Tx(tx)),
{
    AppStateEv::of(Action::SignalSender, AppStateEvKind::Tx(tx))
}

/// The action by which a peer goes out of the room.
pub open spec fn leave_action(role: Role) -> Action {
    match role {
        Role::Speaker => Action::RemoveSpeaker,
        Role::Listener => Action::RemoveListener,
    }
}

/// The event that a peer goes out of the room.
pub fn leave_event<C, T, S, R>(role: Role, id: String) -> (r: AppStateEv<C, T, S, R>)
    ensures
        r@ == event_of::<C, T, S, R>(leave_action(role), EvKindModel::Str(id@)),
{
    let action = match role {
        Role::Speaker => Action::RemoveSpeaker,
        Role::Listener => Action::RemoveListener,
    };
    AppStateEv::of(action, AppStateEvKind::Str(id))
}

/// How a connection is doing.
#[derive(Clone, Copy, Debug, PartialEq, Eq, Structural)]
pub enum PeerState {
    Unspecified,
    New,
    Connecting,
    Connected,
    Disconnected,
    Failed,
    Closed,
}

/// What is done about it.
#[derive(Clone, Copy, Debug, PartialEq, Eq, Structural)]
pub enum Reaction {
    Nothing,
    /// Offer anew, which restarts ICE.
    Renegotiate,
    /// Take the peer out of the room.
    Leave,
}

pub open spec fn reaction(state: PeerState) -> Reaction {
    match state {
        PeerState::Failed => Reaction::Renegotiate,
        PeerState::Disconnected | PeerState::Closed => Reaction::Leave,
        _ => Reaction::Nothing,
    }
}

/// Decides what is done when a connection changes: a failed one is offered to
/// anew, and a peer whose connection is disconnected or closed is taken out.
pub fn on_peer_connection_state_change(state: PeerState) -> (r: Reaction)
    ensures
        r == reaction(state),
{
    match state {
        PeerState::Failed => Reaction::Renegotiate,
        PeerState::Disconnected => Reaction::Leave,
        PeerState::Closed => Reaction::Leave,
        _ => Reaction::Nothing,
    }
}

/// A peer may have its offer answered, and does: whenever its connection was
/// built and announced and, if it is a speaker, no refusal has come by then,
/// whether the room has answered or not, the peer's own offer is answered.
pub proof fn law_answered_if_not_refused<E>(
    role: Role,
    id: Seq<char>,
    offer: SessionDescriptionModel,
    outs: Seq<JoinOutcome<E>>,
)
    requires
        may_answer(role, outs),
        outs.len() == outcomes_before_answer(role),
    ensures
        join_asks(role, id, offer, outs) == JoinNextModel::<E>::Call(
            JoinCallModel::SetOffer { id, offer },
        ),
{
    assert(outs.take(0) =~= Seq::<JoinOutcome<E>>::empty());
    lemma_join_take(role, id, offer, outs, 0);
    lemma_join_take(role, id, offer, outs, 1);
    assert(outs.drop_last() =~= outs.take(outs.len() - 1));
    assert(outs.last() == outs[outs.len() - 1]);
}

/// The joining begins with nothing done, and each outcome takes it one step on
/// from where it stood.
pub proof fn law_joining_step_by_step<E>(
    role: Role,
    id: Seq<char>,
    offer: SessionDescriptionModel,
    outs: Seq<JoinOutcome<E>>,
    o: JoinOutcome<E>,
)
    ensures
        join_state::<E>(role, id, offer, Seq::empty()) == (JoinModel::Building { role, id, offer }),
        join_state(role, id, offer, outs.push(o)) == join_next(
            join_state(role, id, offer, outs),
            o,
        ).0,
        join_asks(role, id, offer, outs.push(o)) == join_next(
            join_state(role, id, offer, outs),
            o,
        ).1,
{
    assert(outs.push(o).drop_last() =~= outs);
}

/// How a speaker is brought in, call by call: a connection is built, the speaker
/// announced under the own name, the room asked; a refusal that has come is the
/// end, and otherwise, whether an answer came or not, the speaker's own offer is
/// answered, the connection is watched, a track is waited for, and one that
/// comes is announced under the speaker's name; then the speaker is in.
pub proof fn law_speaker_call_by_call<E>(
    id: Seq<char>,
    offer: SessionDescriptionModel,
    answer: Option<bool>,
    sent: Result<(), E>,
    e: E,
    f: Failure<E>,
)
    ensures
        ({
            let done = JoinOutcome::<E>::Done(Ok(()));
            let failed = JoinOutcome::<E>::Done(Err(e));
            let end = JoinNextModel::<E>::Finished(Err(Failure::Outside(e)));
            let role = Role::Speaker;
            let begin = Seq::<JoinOutcome<E>>::empty();
            let a = begin.push(done);
            let b = a.push(done);
            let c = b.push(JoinOutcome::Admission(answer));
            let d = c.push(JoinOutcome::OfferSet(Ok(())));
            let g = d.push(done);
            let h = g.push(JoinOutcome::Track(true));
            &&& join_asks(role, id, offer, begin) == JoinNextModel::<E>::Call(JoinCallModel::Build)
            &&& join_asks(role, id, offer, begin.push(failed)) == end
            &&& join_asks(role, id, offer, a) == JoinNextModel::<E>::Call(
                JoinCallModel::Announce { role, id },
            )
            &&& join_asks(role, id, offer, a.push(failed)) == end
            &&& join_asks(role, id, offer, b) == JoinNextModel::<E>::Call(
                JoinCallModel::AskAdmission,
            )
            &&& answer == Some(false) ==> join_asks(role, id, offer, c) == JoinNextModel::<
                E,
            >::Finished(Err(Failure::SpeakersExceeded))
            &&& answer != Some(false) ==> {
                &&& join_asks(role, id, offer, c) == JoinNextModel::<E>::Call(
                    JoinCallModel::SetOffer { id, offer },
                )
                &&& join_asks(role, id, offer, c.push(JoinOutcome::OfferSet(Err(f))))
                    == JoinNextModel::<E>::Finished(Err(f))
                &&& join_asks(role, id, offer, d) == JoinNextModel::<E>::Call(
                    JoinCallModel::InstallHandlers { role, id },
                )
                &&& join_asks(role, id, offer, d.push(failed)) == end
                &&& join_asks(role, id, offer, g) == JoinNextModel::<E>::Call(
                    JoinCallModel::AwaitTrack,
                )
                &&& join_asks(role, id, offer, g.push(JoinOutcome::Track(false)))
                    == JoinNextModel::<E>::Finished(Ok(()))
                &&& join_asks(role, id, offer, h) == JoinNextModel::<E>::Call(
                    JoinCallModel::Publish { id },
                )
                &&& join_asks(role, id, offer, h.push(JoinOutcome::Done(sent))) == JoinNextModel::<
                    E,
                >::Finished(Ok(()))
            }
        }),
{
    let done = JoinOutcome::<E>::Done(Ok(()));
    let failed = JoinOutcome::<E>::Done(Err(e));
    let role = Role::Speaker;
    let begin = Seq::<JoinOutcome<E>>::empty();
    let a = begin.push(done);
    let b = a.push(done);
    let c = b.push(JoinOutcome::Admission(answer));
    let d = c.push(JoinOutcome::OfferSet(Ok(())));
    let g = d.push(done);
    let h = g.push(JoinOutcome::Track(true));
    law_joining_step_by_step(role, id, offer, begin, done);
    law_joining_step_by_step(role, id, offer, begin, failed);
    law_joining_step_by_step(role, id, offer, a, done);
    law_joining_step_by_step(role, id, offer, a, failed);
    law_joining_step_by_step(role, id, offer, b, JoinOutcome::Admission(answer));
    law_joining_step_by_step(role, id, offer, c, JoinOutcome::OfferSet(Ok(())));
    law_joining_step_by_step(role, id, offer, c, JoinOutcome::OfferSet(Err(f)));
    law_joining_step_by_step(role, id, offer, d, done);
    law_joining_step_by_step(role, id, offer, d, failed);
    law_joining_step_by_step(role, id, offer, g, JoinOutcome::Track(true));
    law_joining_step_by_step(role, id, offer, g, JoinOutcome::Track(false));
    law_joining_step_by_step(role, id, offer, h, JoinOutcome::Done(sent));
}

/// How a listener is brought in, call by call: a connection is built, the
/// listener announced under the own name, the listener's own offer answered, the
/// connection watched; then the listener is in.
pub proof fn law_listener_call_by_call<E>(
    id: Seq<char>,
    offer: SessionDescriptionModel,
    e: E,
    f: Failure<E>,
)
    ensures
        ({
            let done = JoinOutcome::<E>::Done(Ok(()));
            let failed = JoinOutcome::<E>::Done(Err(e));
            let end = JoinNextModel::<E>::Finished(Err(Failure::Outside(e)));
            let role = Role::Listener;
            let begin = Seq::<JoinOutcome<E>>::empty();
            let a = begin.push(done);
            let b = a.push(done);
            let c = b.push(JoinOutcome::OfferSet(Ok(())));
            &&& join_asks(role, id, offer, begin) == JoinNextModel::<E>::Call(JoinCallModel::Build)
            &&& join_asks(role, id, offer, begin.push(failed)) == end
            &&& join_asks(role, id, offer, a) == JoinNextModel::<E>::Call(
                JoinCallModel::Announce { role, id },
            )
            &&& join_asks(role, id, offer, a.push(failed)) == end
            &&& join_asks(role, id, offer, b) == JoinNextModel::<E>::Call(
                JoinCallModel::SetOffer { id, offer },
            )
            &&& join_asks(role, id, offer, b.push(JoinOutcome::OfferSet(Err(f))))
                == JoinNextModel::<E>::Finished(Err(f))
            &&& join_asks(role, id, offer, c) == JoinNextModel::<E>::Call(
                JoinCallModel::InstallHandlers { role, id },
            )
            &&& join_asks(role, id, offer, c.push(failed)) == end
            &&& join_asks(role, id, offer, c.push(done)) == JoinNextModel::<E>::Finished(Ok(()))
        }),
{
    let done = JoinOutcome::<E>::Done(Ok(()));
    let failed = JoinOutcome::<E>::Done(Err(e));
    let role = Role::Listener;
    let begin = Seq::<JoinOutcome<E>>::empty();
    let a = begin.push(done);
    let b = a.push(done);
    let c = b.push(JoinOutcome::OfferSet(Ok(())));
    law_joining_step_by_step(role, id, offer, begin, done);
    law_joining_step_by_step(role, id, offer, begin, failed);
    law_joining_step_by_step(role, id, offer, a, done);
    law_joining_step_by_step(role, id, offer, a, failed);
    law_joining_step_by_step(role, id, offer, b, JoinOutcome::OfferSet(Ok(())));
    law_joining_step_by_step(role, id, offer, b, JoinOutcome::OfferSet(Err(f)));
    law_joining_step_by_step(role, id, offer, c, done);
    law_joining_step_by_step(role, id, offer, c, failed);
}

/// The server's own events go by their words and bring their values as they are:
/// a speaker is announced with a way to reply, a listener without, and whoever
/// leaves does so on the own side.
pub proof fn law_own_events<C, T, S, R>(id: Seq<char>, conn: C, reply: R)
    ensures
        announced::<C, T, S, R>(Role::Speaker, id, conn, reply).action == "new-speaker"@,
        announced::<C, T, S, R>(Role::Speaker, id, conn, reply).data == EvKindModel::<
            C,
            T,
            S,
            R,
        >::StrConnTx(id, conn, reply),
        announced::<C, T, S, R>(Role::Listener, id, conn, reply).action == "new-listener"@,
        announced::<C, T, S, R>(Role::Listener, id, conn, reply).data == EvKindModel::<
            C,
            T,
            S,
            R,
        >::StrConn(id, conn),
        leave_action(Role::Speaker) == Action::RemoveSpeaker,
        leave_action(Role::Listener) == Action::RemoveListener,
{
}

/// A failed connection is offered to anew, a disconnected or closed one makes its
/// peer leave, and nothing is done about any other.
pub proof fn law_reactions(state: PeerState)
    ensures
        reaction(state) == Reaction::Renegotiate <==> state == PeerState::Failed,
        reaction(state) == Reaction::Leave <==> state == PeerState::Disconnected || state
            == PeerState::Closed,
{
}

/// Calls and stages of the joining stand for their names, offers and roles,
/// whole.
pub proof fn law_join_models<E>(c: JoinCall, n: JoinNext<E>, s: Join)
    ensures
        match c {
            JoinCall::Build => c@ is Build,
            JoinCall::Announce { role, id } => c@ == (JoinCallModel::Announce { role, id: id@ }),
            JoinCall::AskAdmission => c@ is AskAdmission,
            JoinCall::SetOffer { id, offer } => c@ == (JoinCallModel::SetOffer {
                id: id@,
                offer: offer@,
            }),
            JoinCall::InstallHandlers { role, id } => c@ == (JoinCallModel::InstallHandlers {
                role,
                id: id@,
            }),
            JoinCall::AwaitTrack => c@ is AwaitTrack,
            JoinCall::Publish { id } => c@ == (JoinCallModel::Publish { id: id@ }),
        },
        match n {
            JoinNext::Call(d) => n@ == JoinNextModel::<E>::Call(d@),
            JoinNext::Finished(r) => n@ == JoinNextModel::<E>::Finished(r),
        },
        match s {
            Join::Building { role, id, offer } => s@ == (JoinModel::Building {
                role,
                id: id@,
                offer: offer@,
            }),
            Join::Announcing { role, id, offer } => s@ == (JoinModel::Announcing {
                role,
                id: id@,
                offer: offer@,
            }),
            Join::Confirming { id, offer } => s@ == (JoinModel::Confirming {
                id: id@,
                offer: offer@,
            }),
            Join::Answering { role, id } => s@ == (JoinModel::Answering { role, id: id@ }),
            Join::Installing { role, id } => s@ == (JoinModel::Installing { role, id: id@ }),
            Join::AwaitingTrack { id } => s@ == (JoinModel::AwaitingTrack { id: id@ }),
            Join::Publishing => s@ is Publishing,
            Join::Finished => s@ is Finished,
        },
{
}

} // verus!
