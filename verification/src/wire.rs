//! What travels over the signalling socket, and the JSON that carries it.
//!
//! A message is an object of three strings. Its `data` is itself JSON: a
//! session description or an ICE candidate. The JSON of a single value is made
//! and read by `serde_json`, the session and candidate types are `webrtc`'s;
//! the message around them is framed here.
use vstd::prelude::*;
use webrtc::ice_transport::ice_candidate::{RTCIceCandidate, RTCIceCandidateInit};
use webrtc::ice_transport::ice_candidate_type::RTCIceCandidateType;
use webrtc::ice_transport::ice_protocol::RTCIceProtocol;
use webrtc::peer_connection::sdp::sdp_type::RTCSdpType;
use webrtc::peer_connection::sdp::session_description::RTCSessionDescription;

verus! {

/// `serde_json::Error`, which is carried from the calls below and looked into
/// nowhere.
#[verifier::external_type_specification]
#[verifier::external_body]
pub struct ExJsonError(serde_json::Error);

/// A text that does not read as what it should be, with what its reader found.
#[derive(Debug)]
pub struct Unreadable {
    pub cause: serde_json::Error,
}

/// Why a piece of work ended without what it was for. The error of a call into
/// a connection or a channel is carried and not looked into: `E`.
#[derive(Debug, PartialEq, Eq)]
pub enum Failure<E> {
    /// The room has all the speakers that it takes.
    SpeakersExceeded,
    /// The connection had no local description after one was set.
    NoLocalDescription,
    /// A call failed, with this error.
    Outside(E),
    /// Something was reported that nothing waited for.
    Unexpected,
}

/// What a failure says for itself. A call that failed has its own error to say
/// it.
pub open spec fn failure_text<E>(f: Failure<E>) -> Option<Seq<char>> {
    match f {
        Failure::SpeakersExceeded => Some("num speakers exceeded"@),
        Failure::NoLocalDescription => Some("local description failed"@),
        Failure::Outside(_) => None,
        Failure::Unexpected => Some("unexpected outcome"@),
    }
}

impl<E> Failure<E> {
    /// The failure in words, unless a call's own error says it.
    pub fn message(&self) -> (r: Option<String>)
        ensures
            optional_text(r) == failure_text(*self),
    {
        match self {
            Failure::SpeakersExceeded => Some("num speakers exceeded".to_owned()),
            Failure::NoLocalDescription => Some("local description failed".to_owned()),
            Failure::Outside(_) => None,
            Failure::Unexpected => Some("unexpected outcome".to_owned()),
        }
    }
}

/// A signalling message: what happened, to whom, and the particulars.
#[derive(Debug, PartialEq, Eq)]
pub struct Msg {
    pub ev: String,
    pub id: String,
    pub data: String,
}

pub struct MsgModel {
    pub ev: Seq<char>,
    pub id: Seq<char>,
    pub data: Seq<char>,
}

impl View for Msg {
    type V = MsgModel;

    open spec fn view(&self) -> MsgModel {
        MsgModel { ev: self.ev@, id: self.id@, data: self.data@ }
    }
}

/// The kind of a session description.
#[derive(Clone, Copy, Debug, PartialEq, Eq, Structural)]
pub enum SdpType {
    Unspecified,
    Offer,
    Pranswer,
    Answer,
    Rollback,
}

/// A session description as it is offered or answered.
#[derive(Debug, PartialEq, Eq)]
pub struct SessionDescription {
    pub sdp_type: SdpType,
    pub sdp: String,
}

pub struct SessionDescriptionModel {
    pub sdp_type: SdpType,
    pub sdp: Seq<char>,
}

impl View for SessionDescription {
    type V = SessionDescriptionModel;

    open spec fn view(&self) -> SessionDescriptionModel {
        SessionDescriptionModel { sdp_type: self.sdp_type, sdp: self.sdp@ }
    }
}

#[derive(Clone, Copy, Debug, PartialEq, Eq, Structural)]
pub enum IceProtocol {
    Unspecified,
    Udp,
    Tcp,
}

#[derive(Clone, Copy, Debug, PartialEq, Eq, Structural)]
pub enum IceCandidateType {
    Unspecified,
    Host,
    Srflx,
    Prflx,
    Relay,
}

/// A candidate that the local connection gathered.
#[derive(Debug, PartialEq, Eq)]
pub struct IceCandidate {
    pub stats_id: String,
    pub foundation: String,
    pub priority: u32,
    pub address: String,
    pub protocol: IceProtocol,
    pub port: u16,
    pub typ: IceCandidateType,
    pub component: u16,
    pub related_address: String,
    pub related_port: u16,
    pub tcp_type: String,
}

pub struct IceCandidateModel {
    pub stats_id: Seq<char>,
    pub foundation: Seq<char>,
    pub priority: u32,
    pub address: Seq<char>,
    pub protocol: IceProtocol,
    pub port: u16,
    pub typ: IceCandidateType,
    pub component: u16,
    pub related_address: Seq<char>,
    pub related_port: u16,
    pub tcp_type: Seq<char>,
}

impl View for IceCandidate {
    type V = IceCandidateModel;

    open spec fn view(&self) -> IceCandidateModel {
        IceCandidateModel {
            stats_id: self.stats_id@,
            foundation: self.foundation@,
            priority: self.priority,
            address: self.address@,
            protocol: self.protocol,
            port: self.port,
            typ: self.typ,
            component: self.component,
            related_address: self.related_address@,
            related_port: self.related_port,
            tcp_type: self.tcp_type@,
        }
    }
}

/// A candidate as the remote peer announces it.
#[derive(Debug, PartialEq, Eq)]
pub struct IceCandidateInit {
    pub candidate: String,
    pub sdp_mid: Option<String>,
    pub sdp_mline_index: Option<u16>,
    pub username_fragment: Option<String>,
}

pub struct IceCandidateInitModel {
    pub candidate: Seq<char>,
    pub sdp_mid: Option<Seq<char>>,
    pub sdp_mline_index: Option<u16>,
    pub username_fragment: Option<Seq<char>>,
}

pub open spec fn optional_text(s: Option<String>) -> Option<Seq<char>> {
    match s {
        Some(t) => Some(t@),
        None => None,
    }
}

impl View for IceCandidateInit {
    type V = IceCandidateInitModel;

    open spec fn view(&self) -> IceCandidateInitModel {
        IceCandidateInitModel {
            candidate: self.candidate@,
            sdp_mid: optional_text(self.sdp_mid),
            sdp_mline_index: self.sdp_mline_index,
            username_fragment: optional_text(self.username_fragment),
        }
    }
}

/// A hexadecimal digit.
pub open spec fn hex_digit(n: nat) -> char {
    if n < 10 {
        ('0' as nat + n) as char
    } else {
        ('a' as nat + n - 10) as char
    }
}

/// How a character is written in a JSON string: quotes, backslashes and control
/// characters are escaped, the common ones by a letter.
pub open spec fn escape(c: char) -> Seq<char> {
    if c == '"' {
        seq!['\\', '"']
    } else if c == '\\' {
        seq!['\\', '\\']
    } else if c == '\x08' {
        seq!['\\', 'b']
    } else if c == '\t' {
        seq!['\\', 't']
    } else if c == '\n' {
        seq!['\\', 'n']
    } else if c == '\x0c' {
        seq!['\\', 'f']
    } else if c == '\r' {
        seq!['\\', 'r']
    } else if 32 > c as nat {
        seq!['\\', 'u', '0', '0', hex_digit(c as nat / 16), hex_digit(c as nat % 16)]
    } else {
        seq![c]
    }
}

pub open spec fn escaped(text: Seq<char>) -> Seq<char>
    decreases text.len(),
{
    if text.len() == 0 {
        Seq::empty()
    } else {
        escape(text[0]) + escaped(text.skip(1))
    }
}

/// The JSON string of a text, quotes included.
pub open spec fn json_string(text: Seq<char>) -> Seq<char> {
    seq!['"'] + escaped(text) + seq!['"']
}

/// What `serde_json` reads out of a text as `webrtc`'s session description;
/// nothing where it finds an error.
pub uninterp spec fn parsed_description(text: Seq<char>) -> Option<SessionDescriptionModel>;

/// What `serde_json` reads out of a text as `webrtc`'s announced candidate;
/// nothing where it finds an error.
pub uninterp spec fn parsed_candidate(text: Seq<char>) -> Option<IceCandidateInitModel>;

/// The word that stands for a kind of description in JSON.
pub open spec fn sdp_type_word(t: SdpType) -> Seq<char> {
    match t {
        SdpType::Unspecified => "Unspecified"@,
        SdpType::Offer => "offer"@,
        SdpType::Pranswer => "pranswer"@,
        SdpType::Answer => "answer"@,
        SdpType::Rollback => "rollback"@,
    }
}

/// The JSON object of a session description: its type, then its text.
pub open spec fn description_json(d: SessionDescriptionModel) -> Seq<char> {
    "{\"type\":\""@ + sdp_type_word(d.sdp_type) + "\",\"sdp\":"@ + json_string(d.sdp) + "}"@
}

/// The word that stands for a protocol in JSON.
pub open spec fn protocol_word(p: IceProtocol) -> Seq<char> {
    match p {
        IceProtocol::Unspecified => "Unspecified"@,
        IceProtocol::Udp => "udp"@,
        IceProtocol::Tcp => "tcp"@,
    }
}

/// The word that stands for a kind of candidate in JSON.
pub open spec fn candidate_type_word(t: IceCandidateType) -> Seq<char> {
    match t {
        IceCandidateType::Unspecified => "Unspecified"@,
        IceCandidateType::Host => "host"@,
        IceCandidateType::Srflx => "srflx"@,
        IceCandidateType::Prflx => "prflx"@,
        IceCandidateType::Relay => "relay"@,
    }
}

/// A number in decimal notation.
pub open spec fn decimal(n: nat) -> Seq<char>
    decreases n,
{
    let digit = ('0' as nat + n % 10) as char;
    if n < 10 {
        seq![digit]
    } else {
        decimal(n / 10).push(digit)
    }
}

/// The JSON object of a gathered candidate: its fields under their names, in
/// their order.
pub open spec fn candidate_json(c: IceCandidateModel) -> Seq<char> {
    "{\"stats_id\":"@ + json_string(c.stats_id) + ",\"foundation\":"@ + json_string(c.foundation)
        + ",\"priority\":"@ + decimal(c.priority as nat) + ",\"address\":"@ + json_string(c.address)
        + ",\"protocol\":\""@ + protocol_word(c.protocol) + "\",\"port\":"@ + decimal(c.port as nat)
        + ",\"typ\":\""@ + candidate_type_word(c.typ) + "\",\"component\":"@ + decimal(
        c.component as nat,
    ) + ",\"related_address\":"@ + json_string(c.related_address) + ",\"related_port\":"@ + decimal(
        c.related_port as nat,
    ) + ",\"tcp_type\":"@ + json_string(c.tcp_type) + "}"@
}

/// `serde_json::to_string` on a text. It writes into memory, where nothing
/// fails, and returns the text's JSON string with the escapes above and no
/// others.
#[verifier::external_body]
fn encode_string(text: &str) -> (r: Result<String, serde_json::Error>)
    ensures
        r is Ok,
        r->Ok_0@ == json_string(text@),
{
    serde_json::to_string(text)
}

/// `serde_json::to_string` on `webrtc`'s `RTCSessionDescription` with the given
/// type and text. It does not fail, it writes the members `type` and `sdp` in
/// this order, and `serde_json::from_str` reads the same description back.
#[verifier::external_body]
fn encode_description(d: &SessionDescription) -> (r: Result<String, serde_json::Error>)
    ensures
        r is Ok,
        r->Ok_0@ == description_json(d@),
        parsed_description(r->Ok_0@) == Some(d@),
{
    let mut out = RTCSessionDescription::default();
    out.sdp = d.sdp.clone();
    out.sdp_type = match d.sdp_type {
        SdpType::Unspecified => RTCSdpType::Unspecified,
        SdpType::Offer => RTCSdpType::Offer,
        SdpType::Pranswer => RTCSdpType::Pranswer,
        SdpType::Answer => RTCSdpType::Answer,
        SdpType::Rollback => RTCSdpType::Rollback,
    };
    serde_json::to_string(&out)
}

/// `serde_json::from_str` into `webrtc`'s `RTCSessionDescription`. What it
/// returns is fixed by the text alone.
#[verifier::external_body]
fn decode_description(text: &str) -> (r: Result<SessionDescription, serde_json::Error>)
    ensures
        match r {
            Ok(d) => parsed_description(text@) == Some(d@),
            Err(_) => parsed_description(text@) is None,
        },
{
    let d = serde_json::from_str::<RTCSessionDescription>(text)?;
    let sdp_type = match d.sdp_type {
        RTCSdpType::Unspecified => SdpType::Unspecified,
        RTCSdpType::Offer => SdpType::Offer,
        RTCSdpType::Pranswer => SdpType::Pranswer,
        RTCSdpType::Answer => SdpType::Answer,
        RTCSdpType::Rollback => SdpType::Rollback,
    };
    Ok(SessionDescription { sdp_type, sdp: d.sdp })
}

/// `serde_json::to_string` on `webrtc`'s `RTCIceCandidate` with the given
/// fields. It does not fail, and it writes the fields under their names in
/// their order.
#[verifier::external_body]
fn encode_candidate(c: IceCandidate) -> (r: Result<String, serde_json::Error>)
    ensures
        r is Ok,
        r->Ok_0@ == candidate_json(c@),
{
    let protocol = match c.protocol {
        IceProtocol::Unspecified => RTCIceProtocol::Unspecified,
        IceProtocol::Udp => RTCIceProtocol::Udp,
        IceProtocol::Tcp => RTCIceProtocol::Tcp,
    };
    let typ = match c.typ {
        IceCandidateType::Unspecified => RTCIceCandidateType::Unspecified,
        IceCandidateType::Host => RTCIceCandidateType::Host,
        IceCandidateType::Srflx => RTCIceCandidateType::Srflx,
        IceCandidateType::Prflx => RTCIceCandidateType::Prflx,
        IceCandidateType::Relay => RTCIceCandidateType::Relay,
    };
    let IceCandidate { stats_id, foundation, priority, address, port, .. } = c;
    let IceCandidate { component, related_address, related_port, tcp_type, .. } = c;
    serde_json::to_string(&RTCIceCandidate { stats_id, foundation, priority, address, protocol, port, typ, component, related_address, related_port, tcp_type })
}

/// `serde_json::from_str` into `webrtc`'s `RTCIceCandidateInit`. What it
/// returns is fixed by the text alone.
#[verifier::external_body]
fn decode_candidate(text: &str) -> (r: Result<IceCandidateInit, serde_json::Error>)
    ensures
        match r {
            Ok(c) => parsed_candidate(text@) == Some(c@),
            Err(_) => parsed_candidate(text@) is None,
        },
{
    let c = serde_json::from_str::<RTCIceCandidateInit>(text)?;
    Ok(IceCandidateInit {
        candidate: c.candidate,
        sdp_mid: c.sdp_mid,
        sdp_mline_index: c.sdp_mline_index,
        username_fragment: c.username_fragment,
    })
}

/// The object that carries a message, around the JSON of its three members.
pub open spec fn framed_msg(ev: Seq<char>, id: Seq<char>, data: Seq<char>) -> Seq<char> {
    "{\"ev\":"@ + ev + ",\"id\":"@ + id + ",\"data\":"@ + data + "}"@
}

/// A message on the wire: its members `ev`, `id` and `data`, in this order,
/// each a JSON string.
pub open spec fn msg_json(m: MsgModel) -> Seq<char> {
    framed_msg(json_string(m.ev), json_string(m.id), json_string(m.data))
}

/// Puts the object of a message around its members, which are JSON already.
pub fn frame_msg(ev: &str, id: &str, data: &str) -> (r: String)
    ensures
        r@ == framed_msg(ev@, id@, data@),
{
    let mut out = "{\"ev\":".to_owned();
    out.append(ev);
    out.append(",\"id\":");
    out.append(id);
    out.append(",\"data\":");
    out.append(data);
    out.append("}");
    out
}

impl Msg {
    /// The message as it goes over the socket.
    pub fn to_json(&self) -> (r: String)
        ensures
            r@ == msg_json(self@),
    {
        let ev = encode_string(&self.ev).unwrap();
        let id = encode_string(&self.id).unwrap();
        let data = encode_string(&self.data).unwrap();
        frame_msg(&ev, &id, &data)
    }
}

/// The event names of messages that the server sends.
pub open spec fn outbound_word(kind: Outbound) -> Seq<char> {
    match kind {
        Outbound::Offer => "offer"@,
        Outbound::Answer => "answer"@,
        Outbound::IceCandidate => "ice-candidate"@,
    }
}

/// What the server tells a peer.
#[derive(Clone, Copy, Debug, PartialEq, Eq, Structural)]
pub enum Outbound {
    Offer,
    Answer,
    IceCandidate,
}

pub open spec fn outbound_msg(kind: Outbound, id: Seq<char>, data: Seq<char>) -> MsgModel {
    MsgModel { ev: outbound_word(kind), id, data }
}

/// The message that tells a peer something whose particulars are JSON already.
pub fn outbound(kind: Outbound, id: String, data: String) -> (r: Msg)
    ensures
        r@ == outbound_msg(kind, id@, data@),
{
    let ev = match kind {
        Outbound::Offer => "offer".to_owned(),
        Outbound::Answer => "answer".to_owned(),
        Outbound::IceCandidate => "ice-candidate".to_owned(),
    };
    Msg { ev, id, data }
}

/// The text that carries a session description to a peer.
pub fn description_message(kind: Outbound, id: String, d: &SessionDescription) -> (r: String)
    ensures
        r@ == msg_json(outbound_msg(kind, id@, description_json(d@))),
        parsed_description(description_json(d@)) == Some(d@),
{
    let data = encode_description(d).unwrap();
    outbound(kind, id, data).to_json()
}

/// The text that tells a peer of a candidate that its connection here
/// gathered. Gathering also reports its end, without a candidate: then there
/// is nothing to tell.
pub fn handle_ice_candidate(id: String, s: Option<IceCandidate>) -> (r: Option<String>)
    ensures
        r is Some <==> s is Some,
        s matches Some(c) ==> r->0@ == msg_json(
            outbound_msg(Outbound::IceCandidate, id@, candidate_json(c@)),
        ),
{
    match s {
        Some(candidate) => {
            let data = encode_candidate(candidate).unwrap();
            Some(outbound(Outbound::IceCandidate, id, data).to_json())
        },
        None => None,
    }
}

/// Reads a session description out of a message's particulars. Which error
/// comes of a text that does not read is the reader's matter.
pub fn read_description(text: &str) -> (r: Result<SessionDescription, Unreadable>)
    ensures
        match r {
            Ok(d) => parsed_description(text@) == Some(d@),
            Err(_) => parsed_description(text@) is None,
        },
{
    match decode_description(text) {
        Ok(d) => Ok(d),
        Err(cause) => Err(Unreadable { cause }),
    }
}

/// Reads a candidate out of a message's particulars. Which error comes of a
/// text that does not read is the reader's matter.
pub fn read_candidate(text: &str) -> (r: Result<IceCandidateInit, Unreadable>)
    ensures
        match r {
            Ok(c) => parsed_candidate(text@) == Some(c@),
            Err(_) => parsed_candidate(text@) is None,
        },
{
    match decode_candidate(text) {
        Ok(c) => Ok(c),
        Err(cause) => Err(Unreadable { cause }),
    }
}

/// No two characters are escaped alike, and what is escaped tells where it
/// ends.
proof fn lemma_escape(a: char, b: char, x: Seq<char>, y: Seq<char>)
    requires
        escape(a) + x == escape(b) + y,
    ensures
        a == b,
        x == y,
{
    let l = escape(a) + x;
    let r = escape(b) + y;
    assert(l[0] == escape(a)[0] && r[0] == escape(b)[0]);
    if escape(a).len() > 1 && escape(b).len() > 1 {
        assert(l[1] == escape(a)[1] && r[1] == escape(b)[1]);
        if escape(a).len() == 6 && escape(b).len() == 6 {
            assert(l[4] == escape(a)[4] && r[4] == escape(b)[4]);
            assert(l[5] == escape(a)[5] && r[5] == escape(b)[5]);
        }
    }
    assert(a == b);
    assert(l.skip(escape(a).len() as int) =~= x);
    assert(r.skip(escape(b).len() as int) =~= y);
}

proof fn lemma_escaped(a: Seq<char>, b: Seq<char>, x: Seq<char>, y: Seq<char>)
    requires
        escaped(a) + seq!['"'] + x == escaped(b) + seq!['"'] + y,
    ensures
        a == b,
        x == y,
    decreases a.len(),
{
    let l = escaped(a) + seq!['"'] + x;
    let r = escaped(b) + seq!['"'] + y;
    if a.len() > 0 {
        assert(l =~= escape(a[0]) + (escaped(a.skip(1)) + seq!['"'] + x));
        assert(l[0] == escape(a[0])[0]);
    } else {
        assert(l[0] == '"');
        assert(l.skip(1) =~= x);
    }
    if b.len() > 0 {
        assert(r =~= escape(b[0]) + (escaped(b.skip(1)) + seq!['"'] + y));
        assert(r[0] == escape(b[0])[0]);
    } else {
        assert(r[0] == '"');
        assert(r.skip(1) =~= y);
    }
    if a.len() > 0 && b.len() > 0 {
        let u = escaped(a.skip(1)) + seq!['"'] + x;
        let v = escaped(b.skip(1)) + seq!['"'] + y;
        lemma_escape(a[0], b[0], u, v);
        lemma_escaped(a.skip(1), b.skip(1), x, y);
        assert(a =~= seq![a[0]] + a.skip(1));
        assert(b =~= seq![b[0]] + b.skip(1));
    } else {
        assert(a =~= b);
    }
}

/// A JSON string tells what text it is of and where it ends, whatever comes
/// before it and behind it.
proof fn lemma_json_string(
    head: Seq<char>,
    a: Seq<char>,
    b: Seq<char>,
    x: Seq<char>,
    y: Seq<char>,
)
    requires
        head + json_string(a) + x == head + json_string(b) + y,
    ensures
        a == b,
        x == y,
{
    let n = head.len() as int + 1;
    let l = head + json_string(a) + x;
    let r = head + json_string(b) + y;
    assert(l.skip(n) =~= escaped(a) + seq!['"'] + x);
    assert(r.skip(n) =~= escaped(b) + seq!['"'] + y);
    lemma_escaped(a, b, x, y);
}

/// Two different messages have different texts on the wire.
pub proof fn law_messages_differ(a: MsgModel, b: MsgModel)
    requires
        msg_json(a) == msg_json(b),
    ensures
        a == b,
{
    let id = ",\"id\":"@;
    let data = ",\"data\":"@;
    let end = "}"@;
    let a2 = data + json_string(a.data) + end;
    let b2 = data + json_string(b.data) + end;
    let a1 = id + json_string(a.id) + a2;
    let b1 = id + json_string(b.id) + b2;
    assert(msg_json(a) =~= "{\"ev\":"@ + json_string(a.ev) + a1);
    assert(msg_json(b) =~= "{\"ev\":"@ + json_string(b.ev) + b1);
    lemma_json_string("{\"ev\":"@, a.ev, b.ev, a1, b1);
    lemma_json_string(id, a.id, b.id, a2, b2);
    lemma_json_string(data, a.data, b.data, end, end);
}

/// Two different descriptions have different texts.
pub proof fn law_descriptions_differ(a: SessionDescriptionModel, b: SessionDescriptionModel)
    requires
        description_json(a) == description_json(b),
    ensures
        a == b,
{
    reveal_strlit("{\"type\":\"");
    reveal_strlit("Unspecified");
    reveal_strlit("offer");
    reveal_strlit("pranswer");
    reveal_strlit("answer");
    reveal_strlit("rollback");
    let head = "{\"type\":\""@;
    let x = description_json(a);
    let y = description_json(b);
    assert(x[head.len() as int] == sdp_type_word(a.sdp_type)[0]);
    assert(y[head.len() as int] == sdp_type_word(b.sdp_type)[0]);
    assert(a.sdp_type == b.sdp_type);
    lemma_json_string(
        head + sdp_type_word(a.sdp_type) + "\",\"sdp\":"@,
        a.sdp,
        b.sdp,
        "}"@,
        "}"@,
    );
}

/// What the server tells a peer of a description tells the peer, the kind of
/// message and the description apart from all others.
pub proof fn law_description_messages_differ(
    kind: Outbound,
    id: Seq<char>,
    d: SessionDescriptionModel,
    kind2: Outbound,
    id2: Seq<char>,
    d2: SessionDescriptionModel,
)
    requires
        msg_json(outbound_msg(kind, id, description_json(d))) == msg_json(
            outbound_msg(kind2, id2, description_json(d2)),
        ),
    ensures
        kind == kind2,
        id == id2,
        d == d2,
{
    let a = outbound_msg(kind, id, description_json(d));
    let b = outbound_msg(kind2, id2, description_json(d2));
    law_messages_differ(a, b);
    law_descriptions_differ(d, d2);
    reveal_strlit("offer");
    reveal_strlit("answer");
    reveal_strlit("ice-candidate");
    assert(a.ev[0] == b.ev[0]);
}

/// Messages, descriptions and candidates stand for their fields, whole.
pub proof fn law_wire_models(
    m: Msg,
    d: SessionDescription,
    c: IceCandidate,
    i: IceCandidateInit,
    text: Option<String>,
)
    ensures
        m@ == (MsgModel { ev: m.ev@, id: m.id@, data: m.data@ }),
        d@ == (SessionDescriptionModel { sdp_type: d.sdp_type, sdp: d.sdp@ }),
        c@ == (IceCandidateModel {
            stats_id: c.stats_id@,
            foundation: c.foundation@,
            priority: c.priority,
            address: c.address@,
            protocol: c.protocol,
            port: c.port,
            typ: c.typ,
            component: c.component,
            related_address: c.related_address@,
            related_port: c.related_port,
            tcp_type: c.tcp_type@,
        }),
        i@.candidate == i.candidate@,
        i@.sdp_mid == optional_text(i.sdp_mid),
        i@.sdp_mline_index == i.sdp_mline_index,
        i@.username_fragment == optional_text(i.username_fragment),
        match text {
            Some(t) => optional_text(text) == Some(t@),
            None => optional_text(text) is None,
        },
{
}

/// A message on the wire is an object of three strings, `ev`, `id` and `data` in
/// this order, without anything around them; what the server sends names its
/// kind by its word and carries peer and particulars as they are.
pub proof fn law_message_on_the_wire(m: MsgModel, id: Seq<char>, data: Seq<char>)
    ensures
        msg_json(m) == "{\"ev\":"@ + json_string(m.ev) + ",\"id\":"@ + json_string(m.id)
            + ",\"data\":"@ + json_string(m.data) + "}"@,
        outbound_msg(Outbound::Offer, id, data) == (MsgModel { ev: "offer"@, id, data }),
        outbound_msg(Outbound::Answer, id, data) == (MsgModel { ev: "answer"@, id, data }),
        outbound_msg(Outbound::IceCandidate, id, data) == (MsgModel {
            ev: "ice-candidate"@,
            id,
            data,
        }),
{
}

/// Members that are JSON already stand in a frame as they are, and the frame
/// adds as much to their length whatever they are.
pub proof fn law_frame_takes_its_members(ev: Seq<char>, id: Seq<char>, data: Seq<char>)
    ensures
        framed_msg(ev, id, data) == "{\"ev\":"@ + ev + ",\"id\":"@ + id + ",\"data\":"@ + data
            + "}"@,
        framed_msg(ev, id, data).len() == ev.len() + id.len() + data.len() + framed_msg(
            Seq::empty(),
            Seq::empty(),
            Seq::empty(),
        ).len(),
{
}

pub open spec fn is_digit(c: char) -> bool {
    '0' <= c && c <= '9'
}

/// A number is written in digits, and two numbers are not written alike.
proof fn lemma_decimal(a: nat)
    ensures
        decimal(a).len() > 0,
        forall|i: int| 0 <= i < decimal(a).len() ==> is_digit(#[trigger] decimal(a)[i]),
    decreases a,
{
    if a >= 10 {
        lemma_decimal(a / 10);
    }
}

proof fn lemma_decimal_injective(a: nat, b: nat)
    requires
        decimal(a) == decimal(b),
    ensures
        a == b,
    decreases a,
{
    lemma_decimal(a);
    lemma_decimal(b);
    let x = ('0' as nat + a % 10) as char;
    let y = ('0' as nat + b % 10) as char;
    assert(x as nat == '0' as nat + a % 10);
    assert(y as nat == '0' as nat + b % 10);
    assert(decimal(a).last() == x && decimal(b).last() == y);
    if a >= 10 {
        lemma_decimal(a / 10);
        assert(decimal(a).drop_last() =~= decimal(a / 10));
    }
    if b >= 10 {
        lemma_decimal(b / 10);
        assert(decimal(b).drop_last() =~= decimal(b / 10));
    }
    if a >= 10 && b >= 10 {
        lemma_decimal_injective(a / 10, b / 10);
    } else if a >= 10 || b >= 10 {
        assert(decimal(a).len() != decimal(b).len());
    }
}

/// A number tells where it ends if no digit follows it.
proof fn lemma_decimal_then(head: Seq<char>, a: nat, b: nat, x: Seq<char>, y: Seq<char>)
    requires
        head + decimal(a) + x == head + decimal(b) + y,
        x.len() > 0,
        y.len() > 0,
        !is_digit(x[0]),
        !is_digit(y[0]),
    ensures
        a == b,
        x == y,
{
    let l = head + decimal(a) + x;
    let r = head + decimal(b) + y;
    let n = head.len() as int;
    lemma_decimal(a);
    lemma_decimal(b);
    let i = decimal(a).len() as int;
    let j = decimal(b).len() as int;
    assert(l[n + i] == x[0]);
    assert(r[n + j] == y[0]);
    if i < j {
        assert(r[n + i] == decimal(b)[i]);
    }
    if j < i {
        assert(l[n + j] == decimal(a)[j]);
    }
    assert(l.subrange(n, n + i) =~= decimal(a));
    assert(r.subrange(n, n + j) =~= decimal(b));
    lemma_decimal_injective(a, b);
    assert(l.skip(n + i) =~= x);
    assert(r.skip(n + j) =~= y);
}

/// What stands before a common head does not matter.
proof fn lemma_strip(head: Seq<char>, x: Seq<char>, y: Seq<char>)
    requires
        head + x == head + y,
    ensures
        x == y,
{
    assert((head + x).skip(head.len() as int) =~= x);
    assert((head + y).skip(head.len() as int) =~= y);
}

/// The text of a gathered candidate from each of its fields on.
spec fn from_tcp_type(c: IceCandidateModel) -> Seq<char> {
    ",\"tcp_type\":"@ + json_string(c.tcp_type) + "}"@
}

spec fn from_related_port(c: IceCandidateModel) -> Seq<char> {
    ",\"related_port\":"@ + decimal(c.related_port as nat) + from_tcp_type(c)
}

spec fn from_related_address(c: IceCandidateModel) -> Seq<char> {
    ",\"related_address\":"@ + json_string(c.related_address) + from_related_port(c)
}

spec fn from_component(c: IceCandidateModel) -> Seq<char> {
    "\",\"component\":"@ + decimal(c.component as nat) + from_related_address(c)
}

spec fn from_typ(c: IceCandidateModel) -> Seq<char> {
    ",\"typ\":\""@ + candidate_type_word(c.typ) + from_component(c)
}

spec fn from_port(c: IceCandidateModel) -> Seq<char> {
    "\",\"port\":"@ + decimal(c.port as nat) + from_typ(c)
}

spec fn from_protocol(c: IceCandidateModel) -> Seq<char> {
    ",\"protocol\":\""@ + protocol_word(c.protocol) + from_port(c)
}

spec fn from_address(c: IceCandidateModel) -> Seq<char> {
    ",\"address\":"@ + json_string(c.address) + from_protocol(c)
}

spec fn from_priority(c: IceCandidateModel) -> Seq<char> {
    ",\"priority\":"@ + decimal(c.priority as nat) + from_address(c)
}

spec fn from_foundation(c: IceCandidateModel) -> Seq<char> {
    ",\"foundation\":"@ + json_string(c.foundation) + from_priority(c)
}

spec fn from_stats_id(c: IceCandidateModel) -> Seq<char> {
    "{\"stats_id\":"@ + json_string(c.stats_id) + from_foundation(c)
}

proof fn lemma_regroup(p: Seq<char>, k: Seq<char>, v: Seq<char>, rest: Seq<char>)
    ensures
        p + k + v + rest == p + (k + v + rest),
{
    assert(p + k + v + rest =~= p + (k + v + rest));
}

proof fn lemma_candidate_fields(c: IceCandidateModel)
    ensures
        candidate_json(c) == from_stats_id(c),
{
    let p0 = "{\"stats_id\":"@ + json_string(c.stats_id);
    let p1 = p0 + ",\"foundation\":"@ + json_string(c.foundation);
    let p2 = p1 + ",\"priority\":"@ + decimal(c.priority as nat);
    let p3 = p2 + ",\"address\":"@ + json_string(c.address);
    let p4 = p3 + ",\"protocol\":\""@ + protocol_word(c.protocol);
    let p5 = p4 + "\",\"port\":"@ + decimal(c.port as nat);
    let p6 = p5 + ",\"typ\":\""@ + candidate_type_word(c.typ);
    let p7 = p6 + "\",\"component\":"@ + decimal(c.component as nat);
    let p8 = p7 + ",\"related_address\":"@ + json_string(c.related_address);
    let p9 = p8 + ",\"related_port\":"@ + decimal(c.related_port as nat);
    lemma_regroup(p9, ",\"tcp_type\":"@, json_string(c.tcp_type), "}"@);
    lemma_regroup(p8, ",\"related_port\":"@, decimal(c.related_port as nat), from_tcp_type(c));
    lemma_regroup(p7, ",\"related_address\":"@, json_string(c.related_address), from_related_port(c));
    lemma_regroup(p6, "\",\"component\":"@, decimal(c.component as nat), from_related_address(c));
    lemma_regroup(p5, ",\"typ\":\""@, candidate_type_word(c.typ), from_component(c));
    lemma_regroup(p4, "\",\"port\":"@, decimal(c.port as nat), from_typ(c));
    lemma_regroup(p3, ",\"protocol\":\""@, protocol_word(c.protocol), from_port(c));
    lemma_regroup(p2, ",\"address\":"@, json_string(c.address), from_protocol(c));
    lemma_regroup(p1, ",\"priority\":"@, decimal(c.priority as nat), from_address(c));
    lemma_regroup(p0, ",\"foundation\":"@, json_string(c.foundation), from_priority(c));
}

proof fn lemma_from_typ(a: IceCandidateModel, b: IceCandidateModel)
    requires
        from_typ(a) == from_typ(b),
    ensures
        a.typ == b.typ,
        a.component == b.component,
        a.related_address == b.related_address,
        a.related_port == b.related_port,
        a.tcp_type == b.tcp_type,
{
    reveal_strlit("Unspecified");
    reveal_strlit("host");
    reveal_strlit("srflx");
    reveal_strlit("prflx");
    reveal_strlit("relay");
    reveal_strlit(",\"related_address\":");
    reveal_strlit(",\"tcp_type\":");
    let n = ",\"typ\":\""@.len() as int;
    assert(from_typ(a)[n] == candidate_type_word(a.typ)[0]);
    assert(from_typ(b)[n] == candidate_type_word(b.typ)[0]);
    assert(a.typ == b.typ);
    lemma_strip(",\"typ\":\""@ + candidate_type_word(a.typ), from_component(a), from_component(b));
    lemma_decimal_then("\",\"component\":"@, a.component as nat, b.component as nat, from_related_address(a), from_related_address(b));
    lemma_json_string(",\"related_address\":"@, a.related_address, b.related_address, from_related_port(a), from_related_port(b));
    lemma_decimal_then(",\"related_port\":"@, a.related_port as nat, b.related_port as nat, from_tcp_type(a), from_tcp_type(b));
    lemma_json_string(",\"tcp_type\":"@, a.tcp_type, b.tcp_type, "}"@, "}"@);
}

proof fn lemma_from_protocol(a: IceCandidateModel, b: IceCandidateModel)
    requires
        from_protocol(a) == from_protocol(b),
    ensures
        a.protocol == b.protocol,
        a.port == b.port,
        from_typ(a) == from_typ(b),
{
    reveal_strlit("Unspecified");
    reveal_strlit("udp");
    reveal_strlit("tcp");
    reveal_strlit(",\"typ\":\"");
    let n = ",\"protocol\":\""@.len() as int;
    assert(from_protocol(a)[n] == protocol_word(a.protocol)[0]);
    assert(from_protocol(b)[n] == protocol_word(b.protocol)[0]);
    assert(a.protocol == b.protocol);
    lemma_strip(",\"protocol\":\""@ + protocol_word(a.protocol), from_port(a), from_port(b));
    lemma_decimal_then("\",\"port\":"@, a.port as nat, b.port as nat, from_typ(a), from_typ(b));
}

/// Two different gathered candidates have different texts: no field is left out.
pub proof fn law_candidates_differ(a: IceCandidateModel, b: IceCandidateModel)
    requires
        candidate_json(a) == candidate_json(b),
    ensures
        a == b,
{
    reveal_strlit(",\"address\":");
    lemma_candidate_fields(a);
    lemma_candidate_fields(b);
    lemma_json_string("{\"stats_id\":"@, a.stats_id, b.stats_id, from_foundation(a), from_foundation(b));
    lemma_json_string(",\"foundation\":"@, a.foundation, b.foundation, from_priority(a), from_priority(b));
    lemma_decimal_then(",\"priority\":"@, a.priority as nat, b.priority as nat, from_address(a), from_address(b));
    lemma_json_string(",\"address\":"@, a.address, b.address, from_protocol(a), from_protocol(b));
    lemma_from_protocol(a, b);
    lemma_from_typ(a, b);
}

} // verus!
