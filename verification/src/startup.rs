//! How the server is set up from its arguments and its environment.
use vstd::prelude::*;

verus! {

/// The events that wait for the room at most.
pub const ROOM_EVENTS: usize = 1;

/// The messages that wait for a peer's socket at most.
pub const SOCKET_MESSAGES: usize = 100;

/// The tracks of a new speaker that wait to be announced at most.
pub const NEW_TRACKS: usize = 1;

/// The address to listen on where none is given.
pub open spec fn default_addr() -> Seq<char> {
    "0.0.0.0:29874"@
}

/// The address to listen on: the one that was given, if any.
pub fn listen_addr(given: Option<String>) -> (r: String)
    ensures
        r@ == match given {
            Some(a) => a@,
            None => default_addr(),
        },
{
    match given {
        Some(a) => a,
        None => "0.0.0.0:29874".to_string(),
    }
}

/// What is to be done about encryption.
#[derive(Debug, PartialEq, Eq)]
pub enum TlsPlan {
    /// None is asked for.
    Off,
    /// It is asked for, and no certificate is named.
    CertMissing,
    /// It is asked for and a certificate is named, but no key.
    KeyMissing,
    /// Load the certificate and the key from these files.
    Load { cert: String, key: String },
}

pub enum TlsPlanModel {
    Off,
    CertMissing,
    KeyMissing,
    Load { cert: Seq<char>, key: Seq<char> },
}

impl View for TlsPlan {
    type V = TlsPlanModel;

    open spec fn view(&self) -> TlsPlanModel {
        match self {
            TlsPlan::Off => TlsPlanModel::Off,
            TlsPlan::CertMissing => TlsPlanModel::CertMissing,
            TlsPlan::KeyMissing => TlsPlanModel::KeyMissing,
            TlsPlan::Load { cert, key } => TlsPlanModel::Load { cert: cert@, key: key@ },
        }
    }
}

/// Encryption is only for production, and needs a certificate and a key.
pub open spec fn tls_planned(
    prod: bool,
    cert: Option<String>,
    key: Option<String>,
) -> TlsPlanModel {
    if !prod {
        TlsPlanModel::Off
    } else {
        match (cert, key) {
            (None, _) => TlsPlanModel::CertMissing,
            (Some(_), None) => TlsPlanModel::KeyMissing,
            (Some(c), Some(k)) => TlsPlanModel::Load { cert: c@, key: k@ },
        }
    }
}

/// Plans the encryption.
pub fn tls_plan(prod: bool, cert: Option<String>, key: Option<String>) -> (r: TlsPlan)
    ensures
        r@ == tls_planned(prod, cert, key),
{
    if !prod {
        return TlsPlan::Off;
    }
    match (cert, key) {
        (None, _) => TlsPlan::CertMissing,
        (Some(_), None) => TlsPlan::KeyMissing,
        (Some(cert), Some(key)) => TlsPlan::Load { cert, key },
    }
}

/// What is said of a plan that lacks something.
pub open spec fn tls_notice(plan: TlsPlanModel) -> Option<Seq<char>> {
    match plan {
        TlsPlanModel::CertMissing => Some("CERT_PATH not set"@),
        TlsPlanModel::KeyMissing => Some("KEY_PATH not set"@),
        _ => None,
    }
}

impl TlsPlan {
    /// What is said of this plan, if it lacks something.
    pub fn notice(&self) -> (r: Option<String>)
        ensures
            match r {
                Some(s) => tls_notice(self@) == Some(s@),
                None => tls_notice(self@) is None,
            },
    {
        match self {
            TlsPlan::CertMissing => Some("CERT_PATH not set".to_string()),
            TlsPlan::KeyMissing => Some("KEY_PATH not set".to_string()),
            _ => None,
        }
    }
}

/// Files are loaded exactly in production with both of them named, and then
/// those that were named; a missing certificate is found before a missing key.
pub proof fn law_tls_by_what_is_given(prod: bool, cert: Option<String>, key: Option<String>)
    ensures
        tls_planned(prod, cert, key) is Off <==> !prod,
        tls_planned(prod, cert, key) is CertMissing <==> prod && cert is None,
        tls_planned(prod, cert, key) is KeyMissing <==> prod && cert is Some && key is None,
        prod && cert is Some && key is Some ==> tls_planned(prod, cert, key) == (
        TlsPlanModel::Load { cert: cert->0@, key: key->0@ }),
        tls_notice(tls_planned(prod, cert, key)) is Some <==> prod && (cert is None || key is None),
        prod && cert is None ==> tls_notice(tls_planned(prod, cert, key)) == Some(
            "CERT_PATH not set"@,
        ),
        prod && cert is Some && key is None ==> tls_notice(tls_planned(prod, cert, key)) == Some(
            "KEY_PATH not set"@,
        ),
        default_addr() == "0.0.0.0:29874"@,
{
}

/// A plan stands for what it says, with the files that it names.
pub proof fn law_tls_model(p: TlsPlan)
    ensures
        match p {
            TlsPlan::Off => p@ is Off,
            TlsPlan::CertMissing => p@ is CertMissing,
            TlsPlan::KeyMissing => p@ is KeyMissing,
            TlsPlan::Load { cert, key } => p@ == (TlsPlanModel::Load { cert: cert@, key: key@ }),
        },
{
}

} // verus!
