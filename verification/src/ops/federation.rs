//! How a relayer takes its place in the federation.
//!
//! Its identity is stated, never derived: it decides who acts first, and a
//! guess from the shape of another setting is how two configurations drift
//! apart.

use crate::glc::hex::{decode_exact, hex_bytes, is_hex, HexError};
use crate::ops::environment::{required, value_in, ConfigError, ConfigFault, Environment};
use crate::p2p::identity::PeerEndpoint;
use crate::solana::pubkey::{key_in, key_text, parse_key, Pubkey};
use crate::withdrawal::address::base58_text;
use vstd::prelude::*;

verus! {

/// How the other members are reached.
#[derive(Debug, PartialEq, Eq)]
pub enum Transport {
    /// Without any authentication. Only for loopback.
    Plain,
    /// Mutual TLS against the federation's own authority. The name that a
    /// certificate has to carry is stated rather than taken from an address.
    Tls { ca_path: String, cert_path: String, key_path: String, domain: String },
}

/// What the environment says of the transport, or the first thing that is
/// missing. Only the exact word `off` switches TLS off.
pub open spec fn transport_in(vars: Seq<(String, String)>) -> Result<Transport, ConfigFault> {
    let ca = required(vars, "GLC_FEDERATION_CA_CERT_PATH"@);
    let cert = required(vars, "GLC_RELAYER_TLS_CERT_PATH"@);
    let key = required(vars, "GLC_RELAYER_TLS_KEY_PATH"@);
    let domain = required(vars, "GLC_FEDERATION_TLS_DOMAIN"@);
    if value_in(vars, "GLC_FEDERATION_TLS"@) matches Some(v) && v@ == "off"@ {
        Ok(Transport::Plain)
    } else if ca is Err {
        Err(ca->Err_0)
    } else if cert is Err {
        Err(cert->Err_0)
    } else if key is Err {
        Err(key->Err_0)
    } else if domain is Err {
        Err(domain->Err_0)
    } else {
        Ok(
            Transport::Tls {
                ca_path: ca->Ok_0,
                cert_path: cert->Ok_0,
                key_path: key->Ok_0,
                domain: domain->Ok_0,
            },
        )
    }
}

/// The program that the environment names, or what is wrong with it.
pub open spec fn program_in(vars: Seq<(String, String)>) -> Result<Seq<u8>, ConfigFault> {
    match value_in(vars, "GLC_PROGRAM_ID_HEX"@) {
        None => Err(ConfigFault::Missing("GLC_PROGRAM_ID_HEX"@)),
        Some(text) => if !is_hex(text@) {
            Err(ConfigFault::NotHex("GLC_PROGRAM_ID_HEX"@, HexError::NotHex))
        } else if text@.len() != 64 {
            Err(ConfigFault::NotHex("GLC_PROGRAM_ID_HEX"@, HexError::WrongLength))
        } else {
            Ok(hex_bytes(text@))
        },
    }
}

/// The identity that the environment states, or what is wrong with it.
pub open spec fn identity_in(vars: Seq<(String, String)>) -> Result<Seq<u8>, ConfigFault> {
    match value_in(vars, "GLC_RELAYER_VALIDATOR_PUBKEY"@) {
        None => Err(ConfigFault::Missing("GLC_RELAYER_VALIDATOR_PUBKEY"@)),
        Some(text) => match key_in(text@) {
            Ok(key) => Ok(key),
            Err(why) => Err(ConfigFault::NotAKey("GLC_RELAYER_VALIDATOR_PUBKEY"@, why)),
        },
    }
}

/// Who the other members are, as it is written in the environment.
#[derive(Debug, PartialEq, Eq)]
pub struct PeerSettings {
    /// Comma-separated entries, each a key and an address.
    pub peers: String,
    /// Where this relayer's own signer is; empty where nothing says so.
    pub local_signer_uri: String,
}

/// Where the environment says that this relayer's own signer is.
pub open spec fn local_signer_in(vars: Seq<(String, String)>) -> Seq<char> {
    match value_in(vars, "GLC_RELAYER_LOCAL_SIGNER_URI"@) {
        Some(uri) => uri@,
        None => Seq::empty(),
    }
}

/// Why there is nobody to ask for signatures.
#[derive(Debug, PartialEq, Eq)]
pub enum CollectorRefusal {
    Setting(ConfigError),
    /// The list of members cannot be read.
    Peers(String),
}

impl CollectorRefusal {
    /// What the operator reads.
    pub open spec fn text(self) -> Seq<char> {
        match self {
            CollectorRefusal::Setting(e) => e@.text(),
            CollectorRefusal::Peers(why) => why@,
        }
    }

    /// What the operator reads.
    pub fn message(&self) -> (m: String)
        ensures
            m@ == self.text(),
    {
        match self {
            CollectorRefusal::Setting(e) => e.message(),
            CollectorRefusal::Peers(why) => why.clone(),
        }
    }
}

impl Environment {
    /// Reads who the other members are. There is no federation without them.
    pub fn peers_from_env(&self) -> (settings: Result<PeerSettings, ConfigError>)
        ensures
            match settings {
                Ok(s) => {
                    &&& required(self.vars@, "GLC_FEDERATION_PEERS"@) == Ok::<String, ConfigFault>(
                        s.peers,
                    )
                    &&& s.local_signer_uri@ == local_signer_in(self.vars@)
                },
                Err(e) => required(self.vars@, "GLC_FEDERATION_PEERS"@) == Err::<
                    String,
                    ConfigFault,
                >(e@),
            },
    {
        let peers: String = match self.env_required("GLC_FEDERATION_PEERS") {
            Ok(peers) => peers,
            Err(e) => {
                return Err(e);
            },
        };
        let local_signer_uri: String = match self.get("GLC_RELAYER_LOCAL_SIGNER_URI") {
            Some(uri) => uri,
            None => String::new(),
        };
        Ok(PeerSettings { peers, local_signer_uri })
    }

    /// Reads whom a collector asks and how, given what the list of members was
    /// read as. A list that is not there comes first, then one that cannot be
    /// read, then the transport.
    pub fn collector_from_env(&self, listed: Result<Vec<PeerEndpoint>, String>) -> (result: Result<
        (Vec<PeerEndpoint>, Transport),
        CollectorRefusal,
    >)
        ensures
            match (required(self.vars@, "GLC_FEDERATION_PEERS"@), listed) {
                (Err(fault), _) => result matches Err(CollectorRefusal::Setting(e)) && e@ == fault,
                (Ok(_), Err(why)) => result == Err::<(Vec<PeerEndpoint>, Transport), _>(
                    CollectorRefusal::Peers(why),
                ),
                (Ok(_), Ok(peers)) => match transport_in(self.vars@) {
                    Ok(t) => result == Ok::<_, CollectorRefusal>((peers, t)),
                    Err(fault) => result matches Err(CollectorRefusal::Setting(e)) && e@ == fault,
                },
            },
    {
        if let Err(e) = self.peers_from_env() {
            return Err(CollectorRefusal::Setting(e));
        }
        let peers: Vec<PeerEndpoint> = match listed {
            Ok(peers) => peers,
            Err(why) => {
                return Err(CollectorRefusal::Peers(why));
            },
        };
        match self.transport_from_env() {
            Ok(transport) => Ok((peers, transport)),
            Err(e) => Err(CollectorRefusal::Setting(e)),
        }
    }

    /// Reads how the other members are reached. TLS is required unless it is
    /// switched off in so many words.
    pub fn transport_from_env(&self) -> (transport: Result<Transport, ConfigError>)
        ensures
            match transport {
                Ok(t) => transport_in(self.vars@) == Ok::<Transport, ConfigFault>(t),
                Err(e) => transport_in(self.vars@) == Err::<Transport, ConfigFault>(e@),
            },
    {
        let off: String = String::from_str("off");
        match self.get("GLC_FEDERATION_TLS") {
            Some(value) => {
                if value == off {
                    return Ok(Transport::Plain);
                }
            },
            None => {},
        }
        let ca_path: String = match self.env_required("GLC_FEDERATION_CA_CERT_PATH") {
            Ok(value) => value,
            Err(e) => {
                return Err(e);
            },
        };
        let cert_path: String = match self.env_required("GLC_RELAYER_TLS_CERT_PATH") {
            Ok(value) => value,
            Err(e) => {
                return Err(e);
            },
        };
        let key_path: String = match self.env_required("GLC_RELAYER_TLS_KEY_PATH") {
            Ok(value) => value,
            Err(e) => {
                return Err(e);
            },
        };
        let domain: String = match self.env_required("GLC_FEDERATION_TLS_DOMAIN") {
            Ok(value) => value,
            Err(e) => {
                return Err(e);
            },
        };
        Ok(Transport::Tls { ca_path, cert_path, key_path, domain })
    }

    /// Reads which program this is about.
    pub fn program_id_from_env(&self) -> (program: Result<Pubkey, ConfigError>)
        ensures
            match program {
                Ok(key) => program_in(self.vars@) == Ok::<Seq<u8>, ConfigFault>(key@),
                Err(e) => program_in(self.vars@) == Err::<Seq<u8>, ConfigFault>(e@),
            },
    {
        let text: String = match self.env_required("GLC_PROGRAM_ID_HEX") {
            Ok(text) => text,
            Err(e) => {
                return Err(e);
            },
        };
        match decode_exact::<32>(text.as_str()) {
            Ok(bytes) => Ok(Pubkey { bytes }),
            Err(why) => Err(
                ConfigError::NotHex { name: String::from_str("GLC_PROGRAM_ID_HEX"), why },
            ),
        }
    }

    /// Reads which validator this relayer is.
    pub fn relayer_identity_from_env(&self) -> (identity: Result<Pubkey, ConfigError>)
        ensures
            match identity {
                Ok(key) => identity_in(self.vars@) == Ok::<Seq<u8>, ConfigFault>(key@),
                Err(e) => identity_in(self.vars@) == Err::<Seq<u8>, ConfigFault>(e@),
            },
    {
        let text: String = match self.env_required("GLC_RELAYER_VALIDATOR_PUBKEY") {
            Ok(text) => text,
            Err(e) => {
                return Err(e);
            },
        };
        match parse_key(text.as_str()) {
            Ok(key) => Ok(key),
            Err(why) => Err(
                ConfigError::NotAKey { name: String::from_str("GLC_RELAYER_VALIDATOR_PUBKEY"), why },
            ),
        }
    }
}

/// Whether a validator is among some peers.
pub open spec fn is_among(peers: Seq<PeerEndpoint>, who: Seq<u8>) -> bool {
    exists|i: int| 0 <= i < peers.len() && (#[trigger] peers[i]).validator_pubkey@ == who
}

/// Whether a validator is among some peers.
pub fn peers_contain(peers: &[PeerEndpoint], who: &Pubkey) -> (among: bool)
    ensures
        among == is_among(peers@, who@),
{
    let mut i: usize = 0;
    while i < peers.len()
        invariant
            i <= peers@.len(),
            forall|j: int| 0 <= j < i ==> (#[trigger] peers@[j]).validator_pubkey@ != who@,
        decreases peers@.len() - i,
    {
        if peers[i].validator_pubkey.same_as(who) {
            assert(peers@[i as int].validator_pubkey@ == who@);
            return true;
        }
        i = i + 1;
    }
    false
}

/// Why a relayer does not start.
#[derive(Debug, PartialEq, Eq)]
pub enum StartRefusal {
    /// The relayer is listed among its own peers.
    AmongItsPeers(Pubkey),
    /// The relayer holds no position of the vault.
    NoPosition(Pubkey),
}

impl StartRefusal {
    /// What the operator reads.
    pub open spec fn text(self) -> Seq<char> {
        match self {
            StartRefusal::AmongItsPeers(key) => "GLC_RELAYER_VALIDATOR_PUBKEY "@ + base58_text(key@)
                + " appears in GLC_FEDERATION_PEERS; peers are the OTHER operators"@,
            StartRefusal::NoPosition(key) => "GLC_RELAYER_VALIDATOR_PUBKEY "@ + base58_text(key@)
                + " does not appear in GLC_VAULT_SIGNER_MAP — refusing to start without an operator index"@,
        }
    }

    /// What the operator reads.
    pub fn message(&self) -> (m: String)
        ensures
            m@ == self.text(),
    {
        let mut out: String = String::from_str("GLC_RELAYER_VALIDATOR_PUBKEY ");
        match self {
            StartRefusal::AmongItsPeers(key) => {
                out.append(key_text(key).as_str());
                out.append(" appears in GLC_FEDERATION_PEERS; peers are the OTHER operators");
            },
            StartRefusal::NoPosition(key) => {
                out.append(key_text(key).as_str());
                out.append(
                    " does not appear in GLC_VAULT_SIGNER_MAP — refusing to start without an operator index",
                );
            },
        }
        assert(out@ =~= self.text());
        out
    }
}

/// Which operator a relayer is, given its position in the vault's signer map.
/// It must not be among its own peers, and it must hold a position.
pub fn operator_index(peers: &[PeerEndpoint], identity: &Pubkey, position: Option<u8>) -> (result:
    Result<u8, StartRefusal>)
    ensures
        result == if is_among(peers@, identity@) {
            Err(StartRefusal::AmongItsPeers(*identity))
        } else {
            match position {
                Some(index) => Ok(index),
                None => Err(StartRefusal::NoPosition(*identity)),
            }
        },
{
    if peers_contain(peers, identity) {
        return Err(StartRefusal::AmongItsPeers(*identity));
    }
    match position {
        Some(index) => Ok(index),
        None => Err(StartRefusal::NoPosition(*identity)),
    }
}

/// The members are reached without TLS exactly where the environment says `off`
/// in so many words. In every other case all four settings of TLS have to be
/// there, and each is what its own variable says.
pub proof fn tls_is_on_unless_it_is_switched_off(vars: Seq<(String, String)>)
    ensures
        ({
            let off = value_in(vars, "GLC_FEDERATION_TLS"@) matches Some(v) && v@ == "off"@;
            let ca = value_in(vars, "GLC_FEDERATION_CA_CERT_PATH"@);
            let cert = value_in(vars, "GLC_RELAYER_TLS_CERT_PATH"@);
            let key = value_in(vars, "GLC_RELAYER_TLS_KEY_PATH"@);
            let name = value_in(vars, "GLC_FEDERATION_TLS_DOMAIN"@);
            let stated = ca is Some && cert is Some && key is Some && name is Some;
            &&& transport_in(vars) == Ok::<Transport, ConfigFault>(Transport::Plain) <==> off
            &&& (transport_in(vars) matches Ok(Transport::Tls { ca_path, cert_path, key_path, domain })
                ==> Some(ca_path) == ca && Some(cert_path) == cert && Some(key_path) == key && Some(
                domain,
            ) == name)
            &&& transport_in(vars) is Ok <==> off || stated
            &&& (transport_in(vars) matches Err(ConfigFault::Missing(missing)) ==> value_in(
                vars,
                missing,
            ) is None)
        }),
{
}

/// The program is the 32 bytes that its variable spells in hexadecimal, and
/// there is none where it spells nothing or something else.
pub proof fn the_program_is_what_its_variable_spells(vars: Seq<(String, String)>)
    ensures
        ({
            let stated = value_in(vars, "GLC_PROGRAM_ID_HEX"@);
            &&& (program_in(vars) is Ok <==> (stated matches Some(text) && is_hex(text@) && text@.len()
                == 64))
            &&& (program_in(vars) matches Ok(bytes) ==> bytes.len() == 32 && (stated matches Some(
                text,
            ) && bytes == hex_bytes(text@)))
            &&& program_in(vars) == Err::<Seq<u8>, _>(ConfigFault::Missing("GLC_PROGRAM_ID_HEX"@))
                <==> stated is None
        }),
{
}

/// A relayer is the validator whose key its own variable names.
pub proof fn the_identity_is_the_stated_key(vars: Seq<(String, String)>)
    ensures
        ({
            let stated = value_in(vars, "GLC_RELAYER_VALIDATOR_PUBKEY"@);
            &&& (identity_in(vars) is Ok <==> (stated matches Some(text) && key_in(text@) is Ok))
            &&& (identity_in(vars) matches Ok(key) ==> (stated matches Some(text) && key_in(text@)
                == Ok::<Seq<u8>, Seq<char>>(key)))
            &&& identity_in(vars) == Err::<Seq<u8>, _>(
                ConfigFault::Missing("GLC_RELAYER_VALIDATOR_PUBKEY"@),
            ) <==> stated is None
            &&& (value_in(vars, "GLC_RELAYER_LOCAL_SIGNER_URI"@) matches Some(uri) ==> local_signer_in(
                vars,
            ) == uri@)
            &&& value_in(vars, "GLC_RELAYER_LOCAL_SIGNER_URI"@) is None ==> local_signer_in(
                vars,
            ).len() == 0
        }),
{
}

/// A relayer starts exactly where it is not among its own peers and holds a
/// position, and is the operator of that position.
pub proof fn a_relayer_starts_with_its_own_position(
    peers: &[PeerEndpoint],
    identity: Pubkey,
    position: Option<u8>,
    result: Result<u8, StartRefusal>,
)
    requires
        call_ensures(operator_index, (peers, &identity, position), result),
    ensures
        ({
            let listed = exists|i: int|
                0 <= i < peers@.len() && (#[trigger] peers@[i]).validator_pubkey@ == identity@;
            &&& result is Ok <==> !listed && position is Some
            &&& (result matches Ok(index) ==> position == Some(index))
            &&& (result matches Err(StartRefusal::AmongItsPeers(_))) <==> listed
        }),
{
}

/// A collector asks exactly the listed members over the stated transport, and
/// only where both can be had.
pub proof fn a_collector_asks_the_listed_members(
    env: Environment,
    listed: Result<Vec<PeerEndpoint>, String>,
    result: Result<(Vec<PeerEndpoint>, Transport), CollectorRefusal>,
)
    requires
        call_ensures(Environment::collector_from_env, (&env, listed), result),
    ensures
        result is Ok <==> value_in(env.vars@, "GLC_FEDERATION_PEERS"@) is Some && listed is Ok
            && transport_in(env.vars@) is Ok,
        result matches Ok(found) ==> listed == Ok::<_, String>(found.0) && transport_in(env.vars@)
            == Ok::<_, ConfigFault>(found.1),
        (result matches Err(CollectorRefusal::Peers(_))) <==> value_in(
            env.vars@,
            "GLC_FEDERATION_PEERS"@,
        ) is Some && listed is Err,
{
}

} // verus!
