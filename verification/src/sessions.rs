//! The session manager: it resolves the token that a request presents to a
//! store, or mints a fresh identity, and says what to write back to the
//! cache. The cache itself is the caller's: this module decides, the caller
//! reads and writes.

use vstd::prelude::*;
use vstd::string::StringExecFns;
use crate::cipher::{open, seal, KEY_LEN};
use vstd::utf8::encode_utf8;
use crate::codec::{
    bind, decoded_key, frame, framed_text, is_token_text, issued_for, lemma_round_trip, parse,
    plain_text, sealed_token, token_fields, token_text,
};
use crate::encoding::{base64_text, decoded_text, encode_base64, is_base64_of};
use crate::random::random_array;
use crate::store::{distinct_names, pairs_map, Store, StoreState};

verus! {

/// Seconds that a persisted session lives in the cache: 90 days.
pub const SESSION_TTL_SECONDS: u64 = 7_776_000;

/// The cache key under which the session `key` is kept.
pub open spec fn cache_key_text(key: Seq<char>) -> Seq<char> {
    "session:"@ + key
}

/// Why no token could be issued.
#[derive(Debug, Clone, Copy, PartialEq, Eq, Structural)]
pub enum SessionError {
    /// The secure random source gave no bytes for a session key.
    KeyRandom,
    /// The secure random source gave no bytes for a one-time value.
    NounceRandom,
    /// The secure random source gave no nonce for a token.
    SidRandom,
    /// The cipher did not seal the session key.
    Encrypt,
}

impl SessionError {
    /// The words of the error.
    pub fn message(&self) -> (text: &'static str)
        ensures
            text@ == match self {
                SessionError::KeyRandom => "Crypto error, could not fill session user key random"@,
                SessionError::NounceRandom => "Crypto error, could not fill session nonce random"@,
                SessionError::SidRandom => "Crypto error, could not fill sid nonce"@,
                SessionError::Encrypt => "Crypto error, failed to encrypt"@,
            },
    {
        match self {
            SessionError::KeyRandom => "Crypto error, could not fill session user key random",
            SessionError::NounceRandom => "Crypto error, could not fill session nonce random",
            SessionError::SidRandom => "Crypto error, could not fill sid nonce",
            SessionError::Encrypt => "Crypto error, failed to encrypt",
        }
    }
}

/// What `get_store` found out about a request.
#[derive(Debug)]
pub enum StoreLookup {
    /// The token is genuine and was issued to this address. The payload is
    /// to be read from the cache under the session key.
    Known { key: String, sid: String },
    /// No token, or none that verifies: a fresh identity with no payload.
    Minted { key: String, sid: String },
}

impl StoreLookup {
    /// The session key of the identity.
    pub open spec fn key_text(self) -> Seq<char> {
        match self {
            StoreLookup::Known { key, .. } => key@,
            StoreLookup::Minted { key, .. } => key@,
        }
    }

    /// The token of the identity.
    pub open spec fn sid_text(self) -> Seq<char> {
        match self {
            StoreLookup::Known { sid, .. } => sid@,
            StoreLookup::Minted { sid, .. } => sid@,
        }
    }

    /// The cache key to read the payload from: that of the session, where
    /// the identity is known; none for a fresh one, which has no payload.
    pub fn cache_key(&self) -> (r: Option<String>)
        ensures
            match self {
                StoreLookup::Known { key, .. } => r matches Some(k) && k@ == cache_key_text(key@),
                StoreLookup::Minted { .. } => r is None,
            },
    {
        match self {
            StoreLookup::Known { key, .. } => Some(session_cache_key(key.as_str())),
            StoreLookup::Minted { .. } => None,
        }
    }

    /// The store of the request, given what the cache said. `reply` is the
    /// hash that was read, or `None` where the read failed or timed out or
    /// was not made. A known session whose read failed, or whose hash is
    /// empty, keeps its identity and starts with an empty payload; a fresh
    /// one is empty whatever `reply` holds.
    pub fn into_store(self, reply: Option<Vec<(String, String)>>) -> (store: Store)
        ensures
            store@.key == self.key_text(),
            store@.sid == self.sid_text(),
            store@.values == match (self, reply) {
                (StoreLookup::Known { .. }, Some(hash)) => pairs_map(hash@),
                _ => Map::empty(),
            },
    {
        match self {
            StoreLookup::Known { key, sid } => match reply {
                Some(hash) => Store::new(key, sid, hash),
                None => Store::empty(key, sid),
            },
            StoreLookup::Minted { key, sid } => Store::empty(key, sid),
        }
    }
}

/// The cache key under which the session `key` is kept.
pub fn session_cache_key(key: &str) -> (r: String)
    ensures
        r@ == cache_key_text(key@),
{
    String::from_str("session:").concat(key)
}

/// The session key that a request presents: that of its token, where it
/// has one that decodes for its address.
pub open spec fn presented_key(secret: Seq<u8>, sid: Option<&str>, addr: Seq<char>) -> Option<
    Seq<char>,
> {
    match sid {
        Some(token) => decoded_key(secret, token@, addr),
        None => None,
    }
}

/// `key` is a session key: the base64 text of some 32 bytes, which is 44
/// characters with one padding sign at the end, and reads back as the
/// bytes.
pub open spec fn is_session_key(key: Seq<char>) -> bool {
    &&& key.len() == 44
    &&& exists|bytes: Seq<u8>| bytes.len() == 32 && #[trigger] is_base64_of(key, bytes)
}

/// `nounce` is a one-time value: the base64 text of some 12 bytes, which
/// is 16 characters without padding, and reads back as the bytes.
pub open spec fn is_nounce(nounce: Seq<char>) -> bool {
    &&& nounce.len() == 16
    &&& forall|i: int| 0 <= i < nounce.len() ==> #[trigger] nounce[i] != '='
    &&& exists|bytes: Seq<u8>|
        bytes.len() == 12 && #[trigger] is_base64_of(nounce, bytes) && decoded_text(nounce)
            == Some(bytes)
}

/// `key` and `sid` are a fresh identity for a client at `addr`: the key is
/// a session key, and the token is the token for the key and the address
/// that is sealed under `secret` with some nonce of 12 bytes.
pub open spec fn minted(secret: Seq<u8>, key: Seq<char>, sid: Seq<char>, addr: Seq<char>) -> bool {
    &&& is_session_key(key)
    &&& exists|nonce: Seq<u8>| #[trigger] sealed_token(secret, nonce, key, addr, sid)
    &&& issued_for(secret, sid, key, addr)
}

/// Fresh session minting: the token of a fresh identity decodes, for a
/// client at the address it was minted for, to the identity's key. This
/// holds of every address that has no dot in it.
pub proof fn lemma_minted_decodes(
    secret: Seq<u8>,
    key: Seq<char>,
    sid: Seq<char>,
    addr: Seq<char>,
)
    requires
        minted(secret, key, sid, addr),
        !addr.contains('.'),
    ensures
        decoded_key(secret, sid, addr) == Some(key),
{
    lemma_round_trip(secret, sid, key, addr);
}

/// The session key that is made of 32 drawn bytes: their base64 text.
pub fn key_of(bytes: &[u8; 32]) -> (key: String)
    ensures
        key@ == base64_text(bytes@),
        is_base64_of(key@, bytes@),
        key@.len() == 44,
        forall|i: int| 0 <= i < 44 ==> ((#[trigger] key@[i]) == '=') == (i == 43),
        decoded_text(key@) == Some(bytes@),
        is_session_key(key@),
{
    let key = encode_base64(bytes.as_slice());
    proof {
        crate::encoding::lemma_base64_bytes(key@);
    }
    key
}

/// The one-time value that is made of 12 drawn bytes: their base64 text.
pub fn nounce_of(bytes: &[u8; 12]) -> (nounce: String)
    ensures
        nounce@ == base64_text(bytes@),
        is_base64_of(nounce@, bytes@),
        nounce@.len() == 16,
        forall|i: int| 0 <= i < 16 ==> #[trigger] nounce@[i] != '=',
        decoded_text(nounce@) == Some(bytes@),
        is_nounce(nounce@),
{
    let nounce = encode_base64(bytes.as_slice());
    proof {
        crate::encoding::lemma_base64_bytes(nounce@);
    }
    nounce
}

/// The token that is made of a nonce and of what the cipher gave for it:
/// the two framed, or the error where the cipher refused or gave more than
/// a token can carry.
pub fn token_of(nonce: &[u8; 12], sealed: Result<Vec<u8>, ring::error::Unspecified>) -> (r: Result<
    String,
    SessionError,
>)
    ensures
        match sealed {
            Ok(bytes) if bytes@.len() <= usize::MAX / 2 => r matches Ok(sid) && sid@
                == framed_text(nonce@, bytes@) && is_token_text(sid@, bytes@.len())
                && token_fields(encode_utf8(sid@)) == Some((nonce@, bytes@)),
            _ => r == Err::<String, SessionError>(SessionError::Encrypt),
        },
{
    match sealed {
        Ok(bytes) => match frame(nonce, bytes.as_slice()) {
            Some(sid) => Ok(sid),
            None => Err(SessionError::Encrypt),
        },
        Err(_) => Err(SessionError::Encrypt),
    }
}

/// What `set_store` asks of the cache: write `fields` into the hash at
/// `cache_key`, and let the key expire `expire_seconds` from now.
#[derive(Debug)]
pub struct PersistPlan {
    pub cache_key: String,
    pub fields: Vec<(String, String)>,
    pub expire_seconds: u64,
}

impl PersistPlan {
    /// The plan writes the whole payload of `store`, each name once, under
    /// the cache key of its session, and renews the expiry window.
    pub open spec fn persists(self, store: StoreState) -> bool {
        &&& self.cache_key@ == cache_key_text(store.key)
        &&& distinct_names(self.fields@)
        &&& pairs_map(self.fields@) == store.values
        &&& self.expire_seconds == SESSION_TTL_SECONDS
    }
}

/// The server's session context: the random source and the one long-lived
/// key under which every token is sealed.
pub struct Session {
    rand: ring::rand::SystemRandom,
    key: Vec<u8>,
}

impl Session {
    #[verifier::type_invariant]
    spec fn well_formed(self) -> bool {
        self.key@.len() == KEY_LEN
    }

    /// The server key.
    pub closed spec fn secret(&self) -> Seq<u8> {
        self.key@
    }

    /// A session context for the 256-bit key `session_key`.
    pub fn new(session_key: &[u8]) -> (session: Session)
        requires
            session_key@.len() == KEY_LEN,
        ensures
            session.secret() == session_key@,
    {
        Session {
            rand: ring::rand::SystemRandom::new(),
            key: vstd::slice::slice_to_vec(session_key),
        }
    }

    /// The session key that `sid` carries for a client at `addr`, if the
    /// token is well formed, was sealed under this server's key and was
    /// issued to that address.
    pub fn decode_sid(&self, addr: &str, sid: &str) -> (r: Option<String>)
        ensures
            match r {
                Some(key) => decoded_key(self.secret(), sid@, addr@) == Some(key@),
                None => decoded_key(self.secret(), sid@, addr@) is None,
            },
    {
        proof {
            use_type_invariant(self);
        }
        let (nonce, sealed) = match parse(sid) {
            Some(fields) => fields,
            None => {
                return None;
            },
        };
        match open(self.key.as_slice(), nonce.as_slice(), sealed.as_slice()) {
            Ok(plain) => bind(plain.as_slice(), addr),
            Err(_) => None,
        }
    }

    /// A token for `user_key` and `addr`, sealed with `nonce`. The nonce must
    /// not have been used with this server key before. There is a token
    /// wherever the cipher seals the text and a token can carry what it
    /// gives; else the error is `Encrypt`.
    pub fn create_sid_with(&self, user_key: &str, addr: &str, nonce: &[u8; 12]) -> (r: Result<
        String,
        SessionError,
    >)
        ensures
            match token_text(self.secret(), nonce@, user_key@, addr@) {
                Some(token) => {
                    &&& r matches Ok(sid)
                    &&& sid@ == token
                    &&& sealed_token(self.secret(), nonce@, user_key@, addr@, sid@)
                    &&& issued_for(self.secret(), sid@, user_key@, addr@)
                    &&& !addr@.contains('.') ==> decoded_key(self.secret(), sid@, addr@) == Some(
                        user_key@,
                    )
                },
                None => r == Err::<String, SessionError>(SessionError::Encrypt),
            },
    {
        proof {
            use_type_invariant(self);
        }
        let plain = plain_text(user_key, addr);
        let sealed = seal(self.key.as_slice(), nonce.as_slice(), plain.as_slice());
        let r = token_of(nonce, sealed);
        proof {
            if r is Ok && !addr@.contains('.') {
                lemma_round_trip(self.secret(), r->Ok_0@, user_key@, addr@);
            }
        }
        r
    }

    /// A fresh identity for a client at `addr`, made of the drawn
    /// `key_bytes` and `nonce`: the key is the base64 text of the bytes, and
    /// the token is the one for that key, the address and the nonce. Where
    /// there is no such token the error is `Encrypt`.
    pub fn mint_with(&self, addr: &str, key_bytes: &[u8; 32], nonce: &[u8; 12]) -> (r: Result<
        StoreLookup,
        SessionError,
    >)
        ensures
            match token_text(self.secret(), nonce@, base64_text(key_bytes@), addr@) {
                Some(token) => {
                    &&& r matches Ok(lookup)
                    &&& lookup is Minted
                    &&& lookup.key_text() == base64_text(key_bytes@)
                    &&& lookup.sid_text() == token
                    &&& sealed_token(
                        self.secret(),
                        nonce@,
                        lookup.key_text(),
                        addr@,
                        lookup.sid_text(),
                    )
                    &&& minted(self.secret(), lookup.key_text(), lookup.sid_text(), addr@)
                },
                None => r == Err::<StoreLookup, SessionError>(SessionError::Encrypt),
            },
    {
        let key = key_of(key_bytes);
        match self.create_sid_with(key.as_str(), addr, nonce) {
            Ok(sid) => Ok(StoreLookup::Minted { key, sid }),
            Err(e) => Err(e),
        }
    }

    /// A token for `user_key` and `addr`, sealed with a fresh random nonce.
    /// Whatever the draw gives, the outcome is that of `create_sid_with` for
    /// some nonce of 12 bytes: a token is the token for that nonce, and the
    /// error `Encrypt` says that for that nonce there is none. The error
    /// `SidRandom` says that nothing was drawn.
    pub fn create_sid(&self, user_key: &str, addr: &str) -> (r: Result<String, SessionError>)
        ensures
            match r {
                Ok(sid) => {
                    &&& exists|nonce: Seq<u8>| #[trigger]
                        sealed_token(self.secret(), nonce, user_key@, addr@, sid@)
                    &&& issued_for(self.secret(), sid@, user_key@, addr@)
                    &&& !addr@.contains('.') ==> decoded_key(self.secret(), sid@, addr@) == Some(
                        user_key@,
                    )
                },
                Err(e) => {
                    &&& e == SessionError::SidRandom || e == SessionError::Encrypt
                    &&& e == SessionError::Encrypt ==> exists|nonce: Seq<u8>|
                        nonce.len() == 12 && (#[trigger] token_text(
                            self.secret(),
                            nonce,
                            user_key@,
                            addr@,
                        )) is None
                },
            },
    {
        match random_array::<12>(&self.rand) {
            Ok(nonce) => self.create_sid_with(user_key, addr, &nonce),
            Err(_) => Err(SessionError::SidRandom),
        }
    }

    /// Resolves what a request presents to an identity. A token that
    /// decodes for `addr` keeps its session key and is handed back as it
    /// came; its payload is for the caller to read from the cache. With no
    /// token, or one that does not decode, a fresh key is drawn and a token
    /// is issued for it. Only the drawing and the sealing can fail: the
    /// error `Encrypt` says that for the key and the nonce that were drawn
    /// there is no token, the errors `KeyRandom` and `SidRandom` that the
    /// draw of the one or the other failed.
    pub fn get_store(&self, addr: &str, sid: Option<&str>) -> (r: Result<
        StoreLookup,
        SessionError,
    >)
        ensures
            match (sid, presented_key(self.secret(), sid, addr@)) {
                (Some(token), Some(key)) => r matches Ok(StoreLookup::Known { key: k, sid: s })
                    && k@ == key && s@ == token@,
                _ => match r {
                    Ok(lookup) => lookup is Minted && minted(
                        self.secret(),
                        lookup.key_text(),
                        lookup.sid_text(),
                        addr@,
                    ),
                    Err(e) => {
                        &&& e != SessionError::NounceRandom
                        &&& e == SessionError::Encrypt ==> exists|
                            bytes: Seq<u8>,
                            nonce: Seq<u8>,
                        |
                            bytes.len() == 32 && nonce.len() == 12 && (#[trigger] token_text(
                                self.secret(),
                                nonce,
                                base64_text(bytes),
                                addr@,
                            )) is None
                    },
                },
            },
    {
        if let Some(token) = sid {
            if let Some(key) = self.decode_sid(addr, token) {
                return Ok(StoreLookup::Known { key, sid: token.to_owned() });
            }
        }
        let key_bytes = match random_array::<32>(&self.rand) {
            Ok(bytes) => bytes,
            Err(_) => {
                return Err(SessionError::KeyRandom);
            },
        };
        let nonce = match random_array::<12>(&self.rand) {
            Ok(bytes) => bytes,
            Err(_) => {
                return Err(SessionError::SidRandom);
            },
        };
        self.mint_with(addr, &key_bytes, &nonce)
    }

    /// What to write to the cache for `store`: its whole payload as a hash
    /// under the session's cache key, and a fresh expiry window.
    pub fn set_store(&self, store: Store) -> (plan: PersistPlan)
        ensures
            plan.persists(store@),
    {
        PersistPlan {
            cache_key: session_cache_key(store.key().as_str()),
            fields: store.values(),
            expire_seconds: SESSION_TTL_SECONDS,
        }
    }

    /// A fresh session key: the base64 text of 32 random bytes, which is 44
    /// characters long.
    pub fn create_key(&self) -> (r: Result<String, SessionError>)
        ensures
            match r {
                Ok(key) => is_session_key(key@),
                Err(e) => e == SessionError::KeyRandom,
            },
    {
        match random_array::<32>(&self.rand) {
            Ok(bytes) => Ok(key_of(&bytes)),
            Err(_) => Err(SessionError::KeyRandom),
        }
    }

    /// A fresh random value for one OAuth round trip, unrelated to any
    /// session: the base64 text of 12 random bytes, which is 16 characters
    /// without padding.
    pub fn create_nounce(&self) -> (r: Result<String, SessionError>)
        ensures
            match r {
                Ok(nounce) => is_nounce(nounce@),
                Err(e) => e == SessionError::NounceRandom,
            },
    {
        match random_array::<12>(&self.rand) {
            Ok(bytes) => Ok(nounce_of(&bytes)),
            Err(_) => Err(SessionError::NounceRandom),
        }
    }
}

} // verus!
