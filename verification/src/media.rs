//! The audio codecs that the server speaks, and where its connections look for
//! each other.
use vstd::prelude::*;
use webrtc::api::interceptor_registry::register_default_interceptors;
use webrtc::api::media_engine::MediaEngine;
use webrtc::interceptor::registry::Registry;
use webrtc::rtp_transceiver::rtp_codec::{
    RTCRtpCodecCapability, RTCRtpCodecParameters, RTPCodecType,
};
use webrtc::rtp_transceiver::RTCPFeedback;

verus! {

/// `webrtc`'s `MediaEngine`: the codecs that a connection supports.
#[verifier::external_type_specification]
#[verifier::external_body]
pub struct ExMediaEngine(MediaEngine);

/// `webrtc::Error`, which is carried from the calls below and looked into
/// nowhere.
#[verifier::external_type_specification]
#[verifier::external_body]
pub struct ExWebrtcError(webrtc::Error);

/// The interceptors of a connection, in the registry of `webrtc`'s
/// `interceptor` crate.
#[verifier::external_type_specification]
#[verifier::external_body]
pub struct ExInterceptorRegistry(Registry);

/// A feedback mechanism of a codec.
#[derive(Debug, PartialEq, Eq)]
pub struct RtcpFeedback {
    pub typ: String,
    pub parameter: String,
}

/// A codec, and the payload type under which its packets travel.
#[derive(Debug, PartialEq, Eq)]
pub struct CodecParameters {
    pub mime_type: String,
    pub clock_rate: u32,
    pub channels: u16,
    pub sdp_fmtp_line: String,
    pub rtcp_feedback: Vec<RtcpFeedback>,
    pub payload_type: u8,
}

pub struct CodecModel {
    pub mime_type: Seq<char>,
    pub clock_rate: u32,
    pub channels: u16,
    pub sdp_fmtp_line: Seq<char>,
    pub rtcp_feedback: Seq<(Seq<char>, Seq<char>)>,
    pub payload_type: u8,
}

impl View for CodecParameters {
    type V = CodecModel;

    open spec fn view(&self) -> CodecModel {
        CodecModel {
            mime_type: self.mime_type@,
            clock_rate: self.clock_rate,
            channels: self.channels,
            sdp_fmtp_line: self.sdp_fmtp_line@,
            rtcp_feedback: self.rtcp_feedback@.map_values(
                |f: RtcpFeedback| (f.typ@, f.parameter@),
            ),
            payload_type: self.payload_type,
        }
    }
}

pub open spec fn codec_models(codecs: Seq<CodecParameters>) -> Seq<CodecModel> {
    codecs.map_values(|c: CodecParameters| c@)
}

/// A codec without feedback.
pub open spec fn plain_codec(
    mime_type: Seq<char>,
    clock_rate: u32,
    channels: u16,
    sdp_fmtp_line: Seq<char>,
    payload_type: u8,
) -> CodecModel {
    CodecModel {
        mime_type,
        clock_rate,
        channels,
        sdp_fmtp_line,
        rtcp_feedback: Seq::empty(),
        payload_type,
    }
}

/// The audio codecs on offer, the preferred one first: Opus in stereo, then
/// the telephone codecs.
pub open spec fn audio_offer() -> Seq<CodecModel> {
    seq![
        plain_codec("audio/opus"@, 48000, 2, "minptime=10;useinbandfec=1"@, 111),
        plain_codec("audio/G722"@, 8000, 0, ""@, 9),
        plain_codec("audio/PCMU"@, 8000, 0, ""@, 0),
        plain_codec("audio/PCMA"@, 8000, 0, ""@, 8),
    ]
}

fn codec(
    mime_type: &str,
    clock_rate: u32,
    channels: u16,
    sdp_fmtp_line: &str,
    payload_type: u8,
) -> (r: CodecParameters)
    ensures
        r@ == plain_codec(mime_type@, clock_rate, channels, sdp_fmtp_line@, payload_type),
{
    let r = CodecParameters {
        mime_type: mime_type.to_owned(),
        clock_rate,
        channels,
        sdp_fmtp_line: sdp_fmtp_line.to_owned(),
        rtcp_feedback: Vec::new(),
        payload_type,
    };
    assert(r@.rtcp_feedback =~= Seq::empty());
    r
}

/// The codecs that every connection registers.
pub fn codec_parameters() -> (r: Vec<CodecParameters>)
    ensures
        codec_models(r@) == audio_offer(),
{
    let r = vec![
        codec("audio/opus", 48000, 2, "minptime=10;useinbandfec=1", 111),
        codec("audio/G722", 8000, 0, "", 9),
        codec("audio/PCMU", 8000, 0, "", 0),
        codec("audio/PCMA", 8000, 0, "", 8),
    ];
    assert(codec_models(r@) =~= audio_offer());
    r
}

/// No two of the codecs on offer share a payload type.
pub proof fn law_payload_types_distinct(i: int, j: int)
    requires
        0 <= i < j < audio_offer().len(),
    ensures
        audio_offer()[i].payload_type != audio_offer()[j].payload_type,
{
}

/// The audio codecs that an engine holds, in the order of registration.
pub uninterp spec fn audio_codecs(engine: MediaEngine) -> Seq<CodecModel>;

/// The header extensions that an engine holds, by their URIs.
pub uninterp spec fn header_extensions(engine: MediaEngine) -> Seq<Seq<char>>;

/// Whether a codec with the same type and payload type is held already.
pub open spec fn holds_codec(codecs: Seq<CodecModel>, c: CodecModel) -> bool {
    exists|i: int|
        0 <= i < codecs.len() && #[trigger] codecs[i].mime_type == c.mime_type
            && codecs[i].payload_type == c.payload_type
}

/// `MediaEngine::default`: an engine without codecs and header extensions.
#[verifier::external_body]
fn new_media_engine() -> (r: MediaEngine)
    ensures
        audio_codecs(r) == Seq::<CodecModel>::empty(),
        header_extensions(r) == Seq::<Seq<char>>::empty(),
{
    MediaEngine::default()
}

/// `MediaEngine::register_codec` for audio. It does not fail, and it appends
/// the codec unless one with the same type and payload type is there. The
/// header extensions stay. (The engine also stamps the codec with the time;
/// nothing is said of the stamp. A clock that stands before 1970 makes it
/// panic.)
#[verifier::external_body]
fn register_audio_codec(engine: &mut MediaEngine, codec: &CodecParameters) -> (r: Result<
    (),
    webrtc::Error,
>)
    ensures
        r is Ok,
        audio_codecs(*final(engine)) == if holds_codec(audio_codecs(*old(engine)), codec@) {
            audio_codecs(*old(engine))
        } else {
            audio_codecs(*old(engine)).push(codec@)
        },
        header_extensions(*final(engine)) == header_extensions(*old(engine)),
{
    let mut p = RTCRtpCodecParameters::default();
    p.payload_type = codec.payload_type;
    p.capability = RTCRtpCodecCapability {
        mime_type: codec.mime_type.clone(),
        clock_rate: codec.clock_rate,
        channels: codec.channels,
        sdp_fmtp_line: codec.sdp_fmtp_line.clone(),
        rtcp_feedback: codec.rtcp_feedback.iter()
            .map(|f| RTCPFeedback { typ: f.typ.clone(), parameter: f.parameter.clone() })
            .collect(),
    };
    engine.register_codec(p, RTPCodecType::Audio)
}

/// The codecs that an engine holds after a list of registrations.
pub open spec fn registered(codecs: Seq<CodecModel>) -> Seq<CodecModel>
    decreases codecs.len(),
{
    if codecs.len() == 0 {
        Seq::empty()
    } else if holds_codec(registered(codecs.drop_last()), codecs.last()) {
        registered(codecs.drop_last())
    } else {
        registered(codecs.drop_last()).push(codecs.last())
    }
}

/// A new engine with a list of audio codecs.
pub fn media_engine(codecs: &Vec<CodecParameters>) -> (r: Result<MediaEngine, webrtc::Error>)
    ensures
        r is Ok,
        audio_codecs(r->Ok_0) == registered(codec_models(codecs@)),
        header_extensions(r->Ok_0) == Seq::<Seq<char>>::empty(),
{
    let mut engine = new_media_engine();
    let mut i: usize = 0;
    let ghost models = codec_models(codecs@);
    assert(models.take(0) =~= Seq::<CodecModel>::empty());
    while i < codecs.len()
        invariant
            i <= codecs.len(),
            models == codec_models(codecs@),
            audio_codecs(engine) == registered(models.take(i as int)),
            header_extensions(engine) == Seq::<Seq<char>>::empty(),
        decreases codecs.len() - i,
    {
        match register_audio_codec(&mut engine, &codecs[i]) {
            Ok(_) => {},
            Err(e) => {
                return Err(e);
            },
        }
        assert(models.take(i + 1).drop_last() =~= models.take(i as int));
        assert(models.take(i + 1).last() == codecs[i as int]@);
        i = i + 1;
    }
    assert(models.take(codecs.len() as int) =~= models);
    Ok(engine)
}

/// Codecs with distinct payload types are all registered, in their order.
pub proof fn law_distinct_codecs_all_registered(codecs: Seq<CodecModel>)
    requires
        forall|i: int, j: int|
            0 <= i < j < codecs.len() ==> codecs[i].payload_type != codecs[j].payload_type,
    ensures
        registered(codecs) == codecs,
    decreases codecs.len(),
{
    if codecs.len() > 0 {
        let front = codecs.drop_last();
        assert forall|i: int, j: int| 0 <= i < j < front.len() implies front[i].payload_type
            != front[j].payload_type by {
            assert(front[i] == codecs[i] && front[j] == codecs[j]);
        }
        law_distinct_codecs_all_registered(front);
        assert forall|i: int| 0 <= i < front.len() implies front[i].payload_type
            != codecs.last().payload_type by {
            assert(front[i] == codecs[i]);
        }
        assert(front.push(codecs.last()) =~= codecs);
    } else {
        assert(registered(codecs) =~= codecs);
    }
}

/// A codec with one more feedback mechanism.
pub open spec fn with_feedback(c: CodecModel, typ: Seq<char>, parameter: Seq<char>) -> CodecModel {
    CodecModel { rtcp_feedback: c.rtcp_feedback.push((typ, parameter)), ..c }
}

/// Codecs of which each reports its congestion.
pub open spec fn congestion_aware(codecs: Seq<CodecModel>) -> Seq<CodecModel> {
    codecs.map_values(|c: CodecModel| with_feedback(c, "transport-cc"@, ""@))
}

/// What an interceptor is for.
pub enum Interceptor {
    /// Sends packets again that the other side lacks.
    NackResponder,
    /// Asks for packets that are lacking.
    NackGenerator,
    ReceiverReport,
    SenderReport,
    /// Reports when packets arrived, for congestion control.
    TransportCcReceiver,
}

/// The interceptors that a registry builds, in the order in which they were
/// added.
pub uninterp spec fn interceptors(registry: Registry) -> Seq<Interceptor>;

/// The interceptors of every connection.
pub open spec fn usual_interceptors() -> Seq<Interceptor> {
    seq![
        Interceptor::NackResponder,
        Interceptor::NackGenerator,
        Interceptor::ReceiverReport,
        Interceptor::SenderReport,
        Interceptor::TransportCcReceiver,
    ]
}

/// The header extension by which packets are numbered across a transport.
pub open spec fn transport_cc_uri() -> Seq<char> {
    "http://www.ietf.org/id/draft-holmer-rmcat-transport-wide-cc-extensions-01"@
}

/// `register_default_interceptors` on a new registry. Where it succeeds, each
/// audio codec of the engine has the feedback `transport-cc` more; it does
/// succeed on an engine without header extensions, which then holds the one for
/// `transport-cc`. Where it fails, the codecs may have been left as they were.
/// The registry that it returns holds the five interceptors above and no others.
#[verifier::external_body]
fn default_interceptors(engine: &mut MediaEngine) -> (r: Result<Registry, webrtc::Error>)
    ensures
        r matches Ok(registry) ==> interceptors(registry) == usual_interceptors(),
        r is Ok ==> audio_codecs(*final(engine)) == congestion_aware(audio_codecs(*old(engine))),
        r is Err ==> audio_codecs(*final(engine)) == audio_codecs(*old(engine))
            || audio_codecs(*final(engine)) == congestion_aware(audio_codecs(*old(engine))),
        header_extensions(*old(engine)) == Seq::<Seq<char>>::empty() ==> r is Ok
            && header_extensions(*final(engine)) == seq![transport_cc_uri()],
{
    register_default_interceptors(Registry::new(), engine)
}

/// What a new connection is built from: an engine that holds the audio codecs
/// on offer, each reporting its congestion, with the header extension that this
/// takes, and the default interceptors.
pub fn connection_media() -> (r: Result<(MediaEngine, Registry), webrtc::Error>)
    ensures
        r is Ok,
        audio_codecs((r->Ok_0).0) == congestion_aware(audio_offer()),
        header_extensions((r->Ok_0).0) == seq![transport_cc_uri()],
        interceptors((r->Ok_0).1) == usual_interceptors(),
{
    let codecs = codec_parameters();
    proof {
        assert forall|i: int, j: int|
            0 <= i < j < audio_offer().len() implies audio_offer()[i].payload_type
            != audio_offer()[j].payload_type by {
            law_payload_types_distinct(i, j);
        }
        law_distinct_codecs_all_registered(audio_offer());
    }
    match media_engine(&codecs) {
        Ok(mut engine) => match default_interceptors(&mut engine) {
            Ok(registry) => Ok((engine, registry)),
            Err(e) => Err(e),
        },
        Err(e) => Err(e),
    }
}

/// How an ICE server wants to be convinced.
#[derive(Clone, Copy, Debug, PartialEq, Eq, Structural)]
pub enum IceCredentialType {
    Unspecified,
    Password,
    Oauth,
}

/// A STUN or TURN server.
#[derive(Debug, PartialEq, Eq)]
pub struct IceServer {
    pub urls: Vec<String>,
    pub username: String,
    pub credential: String,
    pub credential_type: IceCredentialType,
}

pub struct IceServerModel {
    pub urls: Seq<Seq<char>>,
    pub username: Seq<char>,
    pub credential: Seq<char>,
    pub credential_type: IceCredentialType,
}

impl View for IceServer {
    type V = IceServerModel;

    open spec fn view(&self) -> IceServerModel {
        IceServerModel {
            urls: self.urls@.map_values(|u: String| u@),
            username: self.username@,
            credential: self.credential@,
            credential_type: self.credential_type,
        }
    }
}

/// What a connection is configured with.
#[derive(Debug, PartialEq, Eq)]
pub struct RtcConfig {
    pub ice_servers: Vec<IceServer>,
}

impl View for RtcConfig {
    type V = Seq<IceServerModel>;

    open spec fn view(&self) -> Seq<IceServerModel> {
        self.ice_servers@.map_values(|s: IceServer| s@)
    }
}

/// The STUN servers, which ask for nothing, and the TURN server.
pub open spec fn ice_servers() -> Seq<IceServerModel> {
    seq![
        IceServerModel {
            urls: seq![
                "stun:stun.1.google.com:19302"@,
                "stun:stun.2.google.com:19302"@,
                "stun:stun.3.google.com:19302"@,
                "stun:stun.4.google.com:19302"@,
            ],
            username: ""@,
            credential: ""@,
            credential_type: IceCredentialType::Password,
        },
        IceServerModel {
            urls: seq!["turn:turn.abhisheksarkar.me:3478"@],
            username: "azureturn"@,
            credential: "azureturn"@,
            credential_type: IceCredentialType::Password,
        },
    ]
}

/// The configuration of every connection.
pub fn rtc_config() -> (r: RtcConfig)
    ensures
        r@ == ice_servers(),
{
    let stun = IceServer {
        urls: vec![
            "stun:stun.1.google.com:19302".to_owned(),
            "stun:stun.2.google.com:19302".to_owned(),
            "stun:stun.3.google.com:19302".to_owned(),
            "stun:stun.4.google.com:19302".to_owned(),
        ],
        username: "".to_owned(),
        credential: "".to_owned(),
        credential_type: IceCredentialType::Password,
    };
    let turn = IceServer {
        urls: vec!["turn:turn.abhisheksarkar.me:3478".to_owned()],
        username: "azureturn".to_owned(),
        credential: "azureturn".to_owned(),
        credential_type: IceCredentialType::Password,
    };
    assert(stun@.urls =~= ice_servers()[0].urls);
    assert(turn@.urls =~= ice_servers()[1].urls);
    let r = RtcConfig { ice_servers: vec![stun, turn] };
    assert(r@ =~= ice_servers());
    r
}

/// Registering one codec more puts it behind those that are held, unless one
/// with the same type and payload type is held; nothing else decides.
pub proof fn law_registering_codec_by_codec(codecs: Seq<CodecModel>, c: CodecModel)
    ensures
        registered(Seq::<CodecModel>::empty()).len() == 0,
        (forall|i: int|
            0 <= i < registered(codecs).len() ==> (#[trigger] registered(codecs)[i]).mime_type
                != c.mime_type || registered(codecs)[i].payload_type != c.payload_type)
            ==> registered(codecs.push(c)) == registered(codecs).push(c),
        (exists|i: int|
            0 <= i < registered(codecs).len() && (#[trigger] registered(codecs)[i]).mime_type
                == c.mime_type && registered(codecs)[i].payload_type == c.payload_type)
            ==> registered(codecs.push(c)) == registered(codecs),
{
    assert(codecs.push(c).drop_last() =~= codecs);
}

/// A connection's codecs are the registered ones, each with one feedback
/// mechanism more at the end, and otherwise as they were.
pub proof fn law_congestion_feedback_for_each(codecs: Seq<CodecModel>, i: int)
    requires
        0 <= i < codecs.len(),
    ensures
        congestion_aware(codecs).len() == codecs.len(),
        congestion_aware(codecs)[i].rtcp_feedback == codecs[i].rtcp_feedback.push(
            ("transport-cc"@, ""@),
        ),
        congestion_aware(codecs)[i] == (CodecModel {
            rtcp_feedback: congestion_aware(codecs)[i].rtcp_feedback,
            ..codecs[i]
        }),
{
}

/// Codecs and ICE servers stand for their fields, whole, and lists of them for
/// their elements, one for one.
pub proof fn law_media_models(codecs: Seq<CodecParameters>, i: int, s: IceServer, c: RtcConfig)
    requires
        0 <= i < codecs.len(),
    ensures
        codec_models(codecs).len() == codecs.len(),
        codec_models(codecs)[i].mime_type == codecs[i].mime_type@,
        codec_models(codecs)[i].clock_rate == codecs[i].clock_rate,
        codec_models(codecs)[i].channels == codecs[i].channels,
        codec_models(codecs)[i].sdp_fmtp_line == codecs[i].sdp_fmtp_line@,
        codec_models(codecs)[i].payload_type == codecs[i].payload_type,
        codec_models(codecs)[i].rtcp_feedback.len() == codecs[i].rtcp_feedback@.len(),
        forall|j: int|
            0 <= j < codecs[i].rtcp_feedback@.len() ==> #[trigger] codec_models(
                codecs,
            )[i].rtcp_feedback[j] == (
                codecs[i].rtcp_feedback@[j].typ@,
                codecs[i].rtcp_feedback@[j].parameter@,
            ),
        s@.urls.len() == s.urls@.len(),
        forall|j: int| 0 <= j < s.urls@.len() ==> #[trigger] s@.urls[j] == s.urls@[j]@,
        s@.username == s.username@,
        s@.credential == s.credential@,
        s@.credential_type == s.credential_type,
        c@.len() == c.ice_servers@.len(),
        forall|j: int|
            0 <= j < c.ice_servers@.len() ==> #[trigger] c@[j] == c.ice_servers@[j]@,
{
}

} // verus!
