//! Tracks: how they are named, which connections carry them, and when the
//! loops that feed them go on.
use uuid::Uuid;
use vstd::prelude::*;

verus! {

/// A speaker's audio as the server hands it on: the name that its senders
/// report, and the handle by which it is attached to a connection.
#[derive(Debug, PartialEq, Eq)]
pub struct LocalTrack<T> {
    pub id: String,
    pub handle: T,
}

pub struct TrackModel<T> {
    pub id: Seq<char>,
    pub handle: T,
}

impl<T> View for LocalTrack<T> {
    type V = TrackModel<T>;

    open spec fn view(&self) -> TrackModel<T> {
        TrackModel { id: self.id@, handle: self.handle }
    }
}

pub open spec fn track_models<T>(tracks: Seq<LocalTrack<T>>) -> Seq<TrackModel<T>> {
    tracks.map_values(|t: LocalTrack<T>| t@)
}

pub open spec fn lower_hex(c: char) -> bool {
    ('0' <= c && c <= '9') || ('a' <= c && c <= 'f')
}

/// The text of a random UUID: five groups of lower-case hexadecimal digits,
/// with the version and the variant where they belong.
pub open spec fn random_uuid_text(s: Seq<char>) -> bool {
    &&& s.len() == 36
    &&& s[8] == '-' && s[13] == '-' && s[18] == '-' && s[23] == '-'
    &&& s[14] == '4'
    &&& s[19] == '8' || s[19] == '9' || s[19] == 'a' || s[19] == 'b'
    &&& forall|i: int|
        0 <= i < 36 && i != 8 && i != 13 && i != 18 && i != 23 ==> lower_hex(#[trigger] s[i])
}

/// `Uuid::new_v4` from the `uuid` crate, as text. Which UUID comes is chance;
/// it is written in lower case with hyphens and is marked as random. It panics
/// where the system's source of randomness fails.
#[verifier::external_body]
fn random_uuid() -> (r: String)
    ensures
        random_uuid_text(r@),
{
    Uuid::new_v4().to_string()
}

/// `str::starts_with` with a text as the pattern: whether the text begins with
/// it.
#[verifier::external_body]
pub(crate) fn starts_with(text: &str, prefix: &str) -> (r: bool)
    ensures
        r == prefix@.is_prefix_of(text@),
{
    text.starts_with(prefix)
}

/// The name of a track: its speaker's name, then what tells it from the
/// speaker's other tracks.
pub open spec fn track_name(speaker: Seq<char>, rest: Seq<char>) -> Seq<char> {
    speaker + "-"@ + rest
}

/// Whether a track counts as a speaker's: its name begins with the speaker's.
pub open spec fn belongs_to(track: Seq<char>, speaker: Seq<char>) -> bool {
    speaker.is_prefix_of(track)
}

/// Names a track of a speaker.
pub fn local_track_id(speaker: &str, rest: &str) -> (r: String)
    ensures
        r@ == track_name(speaker@, rest@),
{
    let mut id = speaker.to_owned();
    id.append("-");
    id.append(rest);
    id
}

/// Names a new track of a speaker, with chance to tell it from the others.
pub fn new_track_id(speaker: &str) -> (r: String)
    ensures
        exists|rest: Seq<char>|
            #![trigger track_name(speaker@, rest)]
            random_uuid_text(rest) && r@ == track_name(speaker@, rest),
{
    let rest = random_uuid();
    local_track_id(speaker, &rest)
}

/// The stream that every local track is announced under.
pub fn stream_id() -> (r: String)
    ensures
        r@ == "webrtc-rs"@,
{
    "webrtc-rs".to_owned()
}

/// A track that was named for a speaker counts as the speaker's.
pub proof fn law_track_belongs_to_its_speaker(speaker: Seq<char>, rest: Seq<char>)
    ensures
        belongs_to(track_name(speaker, rest), speaker),
{
    assert(track_name(speaker, rest).take(speaker.len() as int) =~= speaker);
    assert(speaker.is_prefix_of(track_name(speaker, rest)));
}

/// Two tracks of one speaker share a name only if they share what tells them
/// apart.
pub proof fn law_track_names_differ(speaker: Seq<char>, a: Seq<char>, b: Seq<char>)
    requires
        track_name(speaker, a) == track_name(speaker, b),
    ensures
        a == b,
{
    reveal_strlit("-");
    let n = speaker.len() + 1;
    assert(track_name(speaker, a).skip(n as int) =~= a);
    assert(track_name(speaker, b).skip(n as int) =~= b);
}

/// The names of the tracks that a connection's senders carry; a sender may
/// carry none.
pub open spec fn sender_tracks(senders: Seq<Option<String>>) -> Seq<Option<Seq<char>>> {
    senders.map_values(|s: Option<String>| crate::wire::optional_text(s))
}

/// Decides whether a track is to be added to a connection, from what the
/// connection's senders carry: unless one carries it already.
pub fn add_track_to_conn(senders: &Vec<Option<String>>, track: &String) -> (r: bool)
    ensures
        r == !carried(sender_tracks(senders@), track@),
{
    let ghost names = sender_tracks(senders@);
    let mut i: usize = 0;
    while i < senders.len()
        invariant
            i <= senders.len(),
            names == sender_tracks(senders@),
            forall|j: int| 0 <= j < i ==> names[j] != Some(track@),
        decreases senders.len() - i,
    {
        match &senders[i] {
            Some(name) => {
                if *name == *track {
                    assert(names[i as int] == Some(track@));
                    return false;
                }
            },
            None => {},
        }
        i = i + 1;
    }
    true
}

/// Whether a sender carries a track of a speaker.
pub open spec fn carries_track_of(sender: Option<Seq<char>>, speaker: Seq<char>) -> bool {
    sender matches Some(track) && belongs_to(track, speaker)
}

/// Whether a list of positions is that of the senders, in their order, that
/// carry a speaker's tracks.
pub open spec fn are_senders_of(
    gone: Seq<usize>,
    senders: Seq<Option<Seq<char>>>,
    speaker: Seq<char>,
) -> bool {
    &&& forall|j: int, k: int| 0 <= j < k < gone.len() ==> gone[j] < gone[k]
    &&& forall|i: int|
        0 <= i < senders.len() ==> (gone.contains(i as usize) <==> carries_track_of(
            #[trigger] senders[i],
            speaker,
        ))
    &&& forall|j: int| 0 <= j < gone.len() ==> #[trigger] gone[j] < senders.len()
}

/// Finds the senders, in their order, that carry a speaker's tracks: those that
/// leave a connection when the speaker does.
pub fn senders_to_remove(senders: &Vec<Option<String>>, speaker: &String) -> (r: Vec<usize>)
    ensures
        are_senders_of(r@, sender_tracks(senders@), speaker@),
{
    let ghost names = sender_tracks(senders@);
    let mut found: Vec<usize> = Vec::new();
    let mut i: usize = 0;
    while i < senders.len()
        invariant
            i <= senders.len(),
            names == sender_tracks(senders@),
            forall|j: int, k: int| 0 <= j < k < found@.len() ==> found@[j] < found@[k],
            forall|j: int| 0 <= j < found@.len() ==> #[trigger] found@[j] < i,
            forall|j: int|
                0 <= j < i ==> (found@.contains(j as usize) <==> carries_track_of(
                    #[trigger] names[j],
                    speaker@,
                )),
        decreases senders.len() - i,
    {
        let ghost before = found@;
        match &senders[i] {
            Some(name) => {
                if starts_with(name, speaker) {
                    found.push(i);
                }
            },
            None => {},
        }
        proof {
            assert forall|j: int| 0 <= j < i + 1 implies (found@.contains(j as usize)
                <==> carries_track_of(#[trigger] names[j], speaker@)) by {
                if found@.len() > before.len() {
                    assert(found@[before.len() as int] == i);
                    if before.contains(j as usize) {
                        let k = before.index_of(j as usize);
                        assert(found@[k] == j as usize);
                    }
                    if found@.contains(j as usize) && j < i {
                        let k = found@.index_of(j as usize);
                        assert(before[k] == j as usize);
                    }
                } else {
                    assert(found@ == before);
                    if j == i && before.contains(i) {
                        let k = before.index_of(i);
                        assert(before[k] < i);
                    }
                }
            }
        }
        i = i + 1;
    }
    found
}

/// What the senders carry once the tracks at some positions have been taken off:
/// nothing at those positions.
pub open spec fn without_tracks(senders: Seq<Option<Seq<char>>>, gone: Seq<usize>) -> Seq<
    Option<Seq<char>>,
> {
    Seq::new(
        senders.len(),
        |i: int|
            if gone.contains(i as usize) {
                None
            } else {
                senders[i]
            },
    )
}

/// Whether one of the senders carries a track.
pub open spec fn carried(senders: Seq<Option<Seq<char>>>, track: Seq<char>) -> bool {
    senders.contains(Some(track))
}

/// What the senders carry once a track has been added, unless it was carried
/// already.
pub open spec fn with_track(senders: Seq<Option<Seq<char>>>, track: Seq<char>) -> Seq<
    Option<Seq<char>>,
> {
    if carried(senders, track) {
        senders
    } else {
        senders.push(Some(track))
    }
}

/// What the senders carry once all of a speaker's tracks have been taken off.
pub open spec fn cleared(senders: Seq<Option<Seq<char>>>, speaker: Seq<char>) -> Seq<
    Option<Seq<char>>,
> {
    senders.map_values(
        |s: Option<Seq<char>>|
            if carries_track_of(s, speaker) {
                None
            } else {
                s
            },
    )
}

/// Once the tracks of the senders that were found are taken off, all of the
/// speaker's tracks are: no sender carries one, and every other track is carried
/// as before.
pub proof fn law_detaching_takes_the_speakers_tracks(
    senders: Seq<Option<Seq<char>>>,
    speaker: Seq<char>,
    gone: Seq<usize>,
)
    requires
        are_senders_of(gone, senders, speaker),
        senders.len() <= usize::MAX,
    ensures
        without_tracks(senders, gone) == cleared(senders, speaker),
        forall|i: int|
            0 <= i < senders.len() ==> !carries_track_of(
                #[trigger] without_tracks(senders, gone)[i],
                speaker,
            ),
        forall|t: Seq<char>|
            #[trigger] carried(without_tracks(senders, gone), t) <==> carried(senders, t)
                && !belongs_to(t, speaker),
{
    let rest = without_tracks(senders, gone);
    assert forall|i: int| 0 <= i < senders.len() implies #[trigger] rest[i] == cleared(
        senders,
        speaker,
    )[i] by {
        assert(gone.contains(i as usize) <==> carries_track_of(senders[i], speaker));
    }
    assert(rest =~= cleared(senders, speaker));
    lemma_cleared(senders, speaker);
}

/// What is carried once a speaker's tracks have been taken off.
pub proof fn lemma_cleared(senders: Seq<Option<Seq<char>>>, speaker: Seq<char>)
    ensures
        forall|t: Seq<char>|
            #[trigger] carried(cleared(senders, speaker), t) <==> carried(senders, t)
                && !belongs_to(t, speaker),
{
    let rest = cleared(senders, speaker);
    assert forall|t: Seq<char>| #[trigger] carried(rest, t) <==> carried(senders, t)
        && !belongs_to(t, speaker) by {
        if carried(rest, t) {
            let i = rest.index_of(Some(t));
            assert(!carries_track_of(rest[i], speaker));
            assert(senders[i] == Some(t));
        }
        if carried(senders, t) && !belongs_to(t, speaker) {
            let i = senders.index_of(Some(t));
            assert(rest[i] == Some(t));
        }
    }
}

/// Once a track has been added where it was not carried, it is carried, and
/// every other track is carried as before.
pub proof fn law_attaching_adds_the_track(senders: Seq<Option<Seq<char>>>, track: Seq<char>)
    ensures
        forall|t: Seq<char>|
            #[trigger] carried(with_track(senders, track), t) <==> carried(senders, t) || t
                == track,
{
    let now = with_track(senders, track);
    assert forall|t: Seq<char>| #[trigger] carried(now, t) <==> carried(senders, t) || t
        == track by {
        if carried(senders, t) {
            let i = senders.index_of(Some(t));
            assert(now[i] == Some(t));
        }
        if !carried(senders, track) {
            assert(now[senders.len() as int] == Some(track));
            if carried(now, t) && t != track {
                let i = now.index_of(Some(t));
                assert(senders[i] == Some(t));
            }
        }
    }
}

/// How the writing of one packet to a local track ended.
#[derive(Clone, Copy, Debug, PartialEq, Eq, Structural)]
pub enum RtpWrite {
    Written,
    /// Nobody listens any more, which may pass.
    ClosedPipe,
    Failed,
}

/// Decides whether the packets of a speaker go on being handed on: only a
/// failure other than a closed pipe ends it.
pub fn keep_forwarding(write: RtpWrite) -> (r: bool)
    ensures
        r == (write != RtpWrite::Failed),
{
    match write {
        RtpWrite::Failed => false,
        _ => true,
    }
}

/// How the sending of one picture loss indication ended.
#[derive(Clone, Copy, Debug, PartialEq, Eq, Structural)]
pub enum PliWrite {
    Sent,
    Failed,
    /// The connection is gone.
    Gone,
}

/// The seconds between two picture loss indications.
pub const PLI_PERIOD_SECS: u64 = 3;

/// Decides whether picture loss indications go on being sent: until one fails
/// or the connection is gone.
pub fn keep_indicating(write: PliWrite) -> (r: bool)
    ensures
        r == (write == PliWrite::Sent),
{
    match write {
        PliWrite::Sent => true,
        _ => false,
    }
}

/// A picture loss indication.
#[derive(Clone, Copy, Debug, PartialEq, Eq, Structural)]
pub struct PictureLoss {
    pub sender_ssrc: u32,
    pub media_ssrc: u32,
}

/// The indication for a remote track, from nobody in particular.
pub fn picture_loss(media_ssrc: u32) -> (r: PictureLoss)
    ensures
        r == (PictureLoss { sender_ssrc: 0, media_ssrc }),
{
    PictureLoss { sender_ssrc: 0, media_ssrc }
}

/// A track's name is the speaker's name, one hyphen, and the rest, each whole.
pub proof fn law_track_name_by_its_parts(speaker: Seq<char>, rest: Seq<char>)
    ensures
        track_name(speaker, rest).len() == speaker.len() + 1 + rest.len(),
        track_name(speaker, rest).take(speaker.len() as int) == speaker,
        track_name(speaker, rest)[speaker.len() as int] == '-',
        track_name(speaker, rest).skip(speaker.len() + 1int) == rest,
{
    reveal_strlit("-");
    assert(track_name(speaker, rest).take(speaker.len() as int) =~= speaker);
    assert(track_name(speaker, rest).skip(speaker.len() + 1int) =~= rest);
}

/// A track counts as a speaker's exactly if its name is the speaker's with
/// something, or nothing, behind it.
pub proof fn law_belonging_is_by_prefix(track: Seq<char>, speaker: Seq<char>)
    ensures
        belongs_to(track, speaker) <==> exists|rest: Seq<char>| track == speaker + rest,
        belongs_to(track, speaker) <==> track.len() >= speaker.len() && forall|i: int|
            0 <= i < speaker.len() ==> track[i] == #[trigger] speaker[i],
{
    if belongs_to(track, speaker) {
        assert(track =~= speaker + track.skip(speaker.len() as int));
        assert forall|i: int| 0 <= i < speaker.len() implies track[i] == #[trigger] speaker[i] by {
            assert(track.take(speaker.len() as int)[i] == track[i]);
        }
    }
    if track.len() >= speaker.len() && forall|i: int|
        0 <= i < speaker.len() ==> track[i] == #[trigger] speaker[i] {
        assert(track.take(speaker.len() as int) =~= speaker);
        assert(speaker.is_prefix_of(track));
    }
    assert forall|rest: Seq<char>| track == speaker + rest implies belongs_to(track, speaker) by {
        assert(track.take(speaker.len() as int) =~= speaker);
        assert(speaker.is_prefix_of(track));
    }
}

/// What senders carry is taken sender by sender; a track is carried exactly if
/// some sender has it, and a sender's track is a speaker's exactly if its name
/// begins with the speaker's.
pub proof fn law_senders_one_for_one(
    senders: Seq<Option<String>>,
    names: Seq<Option<Seq<char>>>,
    track: Seq<char>,
    speaker: Seq<char>,
)
    ensures
        sender_tracks(senders).len() == senders.len(),
        forall|i: int|
            0 <= i < senders.len() ==> match senders[i] {
                Some(t) => #[trigger] sender_tracks(senders)[i] == Some(t@),
                None => sender_tracks(senders)[i] is None,
            },
        carried(names, track) <==> exists|i: int|
            0 <= i < names.len() && #[trigger] names[i] == Some(track),
        carries_track_of(Some(track), speaker) <==> speaker.is_prefix_of(track),
        !carries_track_of(None, speaker),
{
}

/// The positions of a speaker's senders are those, rising, at which a sender has
/// a track whose name begins with the speaker's, and no others.
pub proof fn law_positions_of_a_speakers_senders(
    gone: Seq<usize>,
    names: Seq<Option<Seq<char>>>,
    speaker: Seq<char>,
    p: usize,
)
    requires
        are_senders_of(gone, names, speaker),
        names.len() <= usize::MAX,
    ensures
        gone.contains(p) <==> p < names.len() && (names[p as int] matches Some(t)
            && speaker.is_prefix_of(t)),
        forall|j: int, k: int| 0 <= j < k < gone.len() ==> gone[j] < gone[k],
{
    if gone.contains(p) {
        let j = gone.index_of(p);
        assert(gone[j] < names.len());
        assert(gone.contains((p as int) as usize) <==> carries_track_of(names[p as int], speaker));
    }
    if p < names.len() {
        assert(gone.contains((p as int) as usize) <==> carries_track_of(names[p as int], speaker));
    }
}

} // verus!
