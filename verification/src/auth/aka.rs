//! AKA authentication: IMS digest through the HSS, and local AKA.
//!
//! Each has a first half that judges the request and says what is to be done
//! outside (ask the HSS, derive a vector), and a second half that takes the
//! result and answers the request.

use super::{
    challenge_text, challenge_value, generate_nonce, is_nonce, plain_header, realm_or,
    AkaCredential, AkaText, PyAuth,
};
use crate::base64::{base64_decode, base64_encode, base64_round_trip, decoded, encoded};
use crate::digest::{
    aka_ha1, bare_uri, before_at, cut_at_sign, digest_fields, digest_param, extract_digest_param,
    extract_nonce_field, extract_sip_uri, extract_username, extract_username_from_uri, md5_ha1_aka,
    nonce_of, response_matches, user_of_header, username_of, DigestFields,
};
use crate::error::{runtime_error, ScriptError};
use crate::hex::{hex_bytes, hex_decode, hex_encode, hex_text};
use crate::request::{reply, PyRequest, RequestText};
use crate::sip::{header_or, header_value, with_header, HeaderText, Header, MessageText};
use crate::text::{opt_str, opt_text, same_text};
use crate::vectors::{
    after_insert, after_take, store_auth_vector, take_auth_vector, taken, AuthVectorStore,
    AuthVectors, AUTH_VECTOR_TTL,
};
use crate::timed_map::age_of;
use vstd::prelude::*;
use vstd::string::*;

verus! {

/// What has to happen next in an IMS digest exchange.
pub enum ImsStep {
    /// The credentials are valid and the user is recorded.
    Verified,
    /// A Multimedia-Auth-Request with these values, for that many vectors, has
    /// to go to the HSS.
    SendMar { public_identity: String, items: u32, auth_scheme: String, resync: Option<Vec<u8>> },
}

/// The same with the values as text.
pub enum ImsStepText {
    Verified,
    SendMar { public_identity: Seq<char>, items: u32, auth_scheme: Seq<char>, resync: Option<Seq<u8>> },
}

pub open spec fn opt_bytes(v: Option<Vec<u8>>) -> Option<Seq<u8>> {
    match v {
        Some(b) => Some(b@),
        None => None,
    }
}

impl View for ImsStep {
    type V = ImsStepText;

    open spec fn view(&self) -> ImsStepText {
        match *self {
            ImsStep::Verified => ImsStepText::Verified,
            ImsStep::SendMar { public_identity, items, auth_scheme, resync } => ImsStepText::SendMar {
                public_identity: public_identity@,
                items,
                auth_scheme: auth_scheme@,
                resync: opt_bytes(resync),
            },
        }
    }
}

/// The identity that a Multimedia-Auth-Request names: the bare URI of
/// P-Asserted-Identity, else of From.
pub open spec fn public_identity_of(h: Seq<HeaderText>) -> Seq<char> {
    match header_or(h, "P-Asserted-Identity"@, "From"@) {
        Some(header) => bare_uri(header.value),
        None => bare_uri(""@),
    }
}

/// A resynchronisation token in credentials: the nonce that it is about, and
/// the RAND of that nonce followed by the fourteen bytes of AUTS.
pub open spec fn resync_of(value: Seq<char>) -> Option<(Seq<char>, Seq<u8>)> {
    match (digest_param(value, "auts"@), nonce_of(value)) {
        (Some(auts), Some(nonce)) => match (decoded(auts), decoded(nonce)) {
            (Some(auts_bytes), Some(nonce_bytes)) => if auts_bytes.len() == 14
                && nonce_bytes.len() >= 16 {
                Some((nonce, nonce_bytes.take(16) + auts_bytes))
            } else {
                None
            },
            _ => None,
        },
        _ => None,
    }
}

/// The store after credentials were looked at: their nonce is consumed.
pub open spec fn consumed(s: AuthVectors, value: Seq<char>) -> AuthVectors {
    match nonce_of(value) {
        Some(nonce) => after_take(s, nonce),
        None => s,
    }
}

/// The user that credentials prove against the pending vector of their nonce.
pub open spec fn proven_user(s: AuthVectors, value: Seq<char>, realm: Seq<char>, now: u64) -> Option<Seq<char>> {
    match nonce_of(value) {
        Some(nonce) => match (taken(s, nonce, now), digest_fields(value)) {
            (Some(expected), Some(f)) => if response_matches(
                f,
                aka_ha1(f.username, realm, expected),
                "REGISTER"@,
            ) {
                Some(f.username)
            } else {
                None
            },
            _ => None,
        },
        None => None,
    }
}

/// What an IMS digest exchange does next on a request.
pub open spec fn ims_next(s: AuthVectors, h: Seq<HeaderText>, realm: Seq<char>, now: u64) -> ImsStepText {
    let ask = ImsStepText::SendMar {
        public_identity: public_identity_of(h),
        items: 1,
        auth_scheme: "SIP Digest"@,
        resync: None,
    };
    match header_value(h, "Authorization"@) {
        Some(value) => match resync_of(value) {
            Some(resync) => ImsStepText::SendMar {
                public_identity: public_identity_of(h),
                items: 1,
                auth_scheme: "Digest-AKAv1-MD5"@,
                resync: Some(resync.1),
            },
            None => match proven_user(s, value, realm, now) {
                Some(_) => ImsStepText::Verified,
                None => ask,
            },
        },
        None => ask,
    }
}

/// The store after the first half of an IMS digest exchange. A nonce that was
/// looked at is consumed, whatever came of it.
pub open spec fn ims_store(s: AuthVectors, h: Seq<HeaderText>) -> AuthVectors {
    match header_value(h, "Authorization"@) {
        Some(value) => match resync_of(value) {
            Some(resync) => after_take(s, resync.0),
            None => consumed(s, value),
        },
        None => s,
    }
}

/// The user that the first half of an IMS digest exchange proves.
pub open spec fn ims_user(s: AuthVectors, h: Seq<HeaderText>, realm: Seq<char>, now: u64) -> Option<Seq<char>> {
    match header_value(h, "Authorization"@) {
        Some(value) => match resync_of(value) {
            Some(_) => None,
            None => proven_user(s, value, realm, now),
        },
        None => None,
    }
}

/// What the HSS answered to a Multimedia-Auth-Request.
pub struct MaaAnswer {
    pub result_code: Option<u32>,
    pub authenticate: Option<Vec<u8>>,
    pub authorization: Option<Vec<u8>>,
    pub confidentiality_key: Option<Vec<u8>>,
    pub integrity_key: Option<Vec<u8>>,
}

/// The challenge header value of an IMS digest exchange, with the session keys
/// for the proxy that sets up IPsec.
pub open spec fn ims_challenge_text(
    realm: Seq<char>,
    nonce: Seq<char>,
    ck: Option<Seq<u8>>,
    ik: Option<Seq<u8>>,
) -> Seq<char> {
    let ck_param = match ck {
        Some(key) => ", ck=\""@ + hex_text(key) + "\""@,
        None => ""@,
    };
    let ik_param = match ik {
        Some(key) => ", ik=\""@ + hex_text(key) + "\""@,
        None => ""@,
    };
    challenge_text(realm, nonce, "AKAv1-MD5"@) + ck_param + ik_param
}

/// A request answered with 401 and a single challenge.
pub open spec fn aka_challenged(request: RequestText, value: Seq<char>) -> RequestText {
    RequestText {
        action: reply(401, "Unauthorized"@),
        message: MessageText {
            headers: with_header(
                request.message.headers,
                plain_header("WWW-Authenticate"@, value),
            ),
            ..request.message
        },
        ..request
    }
}

pub open spec fn forbidden(request: RequestText) -> RequestText {
    RequestText { action: reply(403, "Forbidden"@), ..request }
}

/// The store after a challenge with the vector of an HSS answer: the expected
/// response is kept under the nonce where the answer has both.
pub open spec fn maa_store(s: AuthVectors, maa: MaaAnswer, now: u64) -> AuthVectors {
    match (maa.authenticate, maa.authorization) {
        (Some(nonce), Some(expected)) => after_insert(s, encoded(nonce@), expected@, now),
        _ => s,
    }
}

/// Whether `nonce` can be the nonce of the challenge for an HSS answer.
pub open spec fn maa_nonce(maa: MaaAnswer, nonce: Seq<char>) -> bool {
    match maa.authenticate {
        Some(bytes) => nonce == encoded(bytes@),
        None => is_nonce(nonce),
    }
}

/// The subscriber that a request is from, for the lookup of AKA credentials.
pub open spec fn impi_of(h: Seq<HeaderText>) -> Seq<char> {
    let from = match header_or(h, "From"@, "f"@) {
        Some(header) => header.value,
        None => ""@,
    };
    let from_user = match user_of_header(from) {
        Some(user) => user,
        None => ""@,
    };
    match header_value(h, "Authorization"@) {
        Some(value) => match username_of(value) {
            Some(username) => username,
            None => from_user,
        },
        None => from_user,
    }
}

pub open spec fn aka_entry(aka: Seq<(Seq<char>, AkaText)>, key: Seq<char>) -> Option<AkaText>
    decreases aka.len(),
{
    if aka.len() == 0 {
        None
    } else if aka[0].0 == key {
        Some(aka[0].1)
    } else {
        aka_entry(aka.skip(1), key)
    }
}

/// The AKA credential of a subscriber: under the full identity, else without
/// its domain, else with the realm as its domain.
pub open spec fn aka_credential(aka: Seq<(Seq<char>, AkaText)>, impi: Seq<char>, realm: Seq<char>) -> Option<
    AkaText,
> {
    match aka_entry(aka, impi) {
        Some(credential) => Some(credential),
        None => match aka_entry(aka, before_at(impi)) {
            Some(credential) => Some(credential),
            None => aka_entry(aka, impi + "@"@ + realm),
        },
    }
}

/// The bytes of a credential.
pub struct AkaKeys {
    pub k: Seq<u8>,
    pub op: Seq<u8>,
    pub amf: Seq<u8>,
}

pub open spec fn key_of(text: Seq<char>, len: int) -> Option<Seq<u8>> {
    match hex_bytes(text) {
        Some(bytes) => if bytes.len() == len {
            Some(bytes)
        } else {
            None
        },
        None => None,
    }
}

/// The keys of a credential, or the message about the first that is malformed.
pub open spec fn aka_keys(c: AkaText) -> Result<AkaKeys, Seq<char>> {
    match key_of(c.k, 16) {
        None => Err("invalid AKA K (need 32 hex chars)"@),
        Some(k) => match key_of(c.op, 16) {
            None => Err("invalid AKA OP (need 32 hex chars)"@),
            Some(op) => match key_of(c.amf, 2) {
                None => Err("invalid AKA AMF (need 4 hex chars)"@),
                Some(amf) => Ok(AkaKeys { k, op, amf }),
            },
        },
    }
}

/// Whether credentials name a nonce that has the length of RAND and AUTN.
pub open spec fn names_vector(value: Seq<char>) -> bool {
    match nonce_of(value) {
        Some(nonce) => match decoded(nonce) {
            Some(bytes) => bytes.len() >= 32,
            None => false,
        },
        None => false,
    }
}

/// The user that the request proves in a local AKA exchange.
pub open spec fn aka_user(s: AuthVectors, h: Seq<HeaderText>, realm: Seq<char>, now: u64) -> Option<Seq<char>> {
    match header_value(h, "Authorization"@) {
        Some(value) => if names_vector(value) {
            proven_user(s, value, realm, now)
        } else {
            None
        },
        None => None,
    }
}

/// The store after the first half of a local AKA exchange.
pub open spec fn aka_store(s: AuthVectors, h: Seq<HeaderText>) -> AuthVectors {
    match header_value(h, "Authorization"@) {
        Some(value) => if names_vector(value) {
            consumed(s, value)
        } else {
            s
        },
        None => s,
    }
}

/// What has to happen next in a local AKA exchange.
pub enum AkaStep {
    /// The subscriber is unknown; the request is answered with 403.
    Forbidden,
    /// The credentials are valid and the user is recorded.
    Verified,
    /// A vector has to be derived from these keys and sent as a challenge.
    Challenge { k: Vec<u8>, op: Vec<u8>, sqn: Vec<u8>, amf: Vec<u8> },
}

/// An AKA vector: what the challenge carries and the response it calls for.
pub struct AkaVector {
    pub rand: Vec<u8>,
    pub autn: Vec<u8>,
    pub xres: Vec<u8>,
}

fn first_bytes(bytes: &Vec<u8>, count: usize) -> (r: Vec<u8>)
    requires
        count <= bytes@.len(),
    ensures
        r@ == bytes@.take(count as int),
{
    let mut out: Vec<u8> = Vec::new();
    let mut i: usize = 0;
    while i < count
        invariant
            i <= count <= bytes@.len(),
            out@ == bytes@.take(i as int),
        decreases count - i,
    {
        out.push(bytes[i]);
        i += 1;
    }
    out
}

/// The resynchronisation token in credentials, with the nonce that it is about.
pub fn extract_resync(auth_value: &str) -> (r: Option<(String, Vec<u8>)>)
    ensures
        match r {
            Some(found) => resync_of(auth_value@) == Some((found.0@, found.1@)),
            None => resync_of(auth_value@) is None,
        },
{
    let auts = match extract_digest_param(auth_value, "auts") {
        Some(auts) => auts,
        None => {
            return None;
        },
    };
    let nonce = match extract_nonce_field(auth_value) {
        Some(nonce) => nonce,
        None => {
            return None;
        },
    };
    match (base64_decode(&auts), base64_decode(&nonce)) {
        (Some(auts_bytes), Some(nonce_bytes)) => {
            if auts_bytes.len() == 14 && nonce_bytes.len() >= 16 {
                let mut data = first_bytes(&nonce_bytes, 16);
                data.extend_from_slice(auts_bytes.as_slice());
                assert(data@ =~= nonce_bytes@.take(16) + auts_bytes@);
                Some((nonce, data))
            } else {
                None
            }
        },
        _ => None,
    }
}

/// Consumes the pending vector of the credentials' nonce and gives the user
/// where the response is the one that the vector calls for.
fn prove_user(store: &mut AuthVectorStore, auth_value: &str, realm: &str, now: u64) -> (r: Option<String>)
    ensures
        opt_text(r) == proven_user(old(store)@, auth_value@, realm@, now),
        final(store)@ == consumed(old(store)@, auth_value@),
{
    let nonce = match extract_nonce_field(auth_value) {
        Some(nonce) => nonce,
        None => {
            return None;
        },
    };
    let vector = match take_auth_vector(store, &nonce, now) {
        Some(vector) => vector,
        None => {
            return None;
        },
    };
    match DigestFields::parse(auth_value) {
        Some(fields) => {
            let ha1 = md5_ha1_aka(&fields.username, realm, vector.expected_response.as_slice());
            if fields.verify(&ha1, "REGISTER") {
                Some(fields.username)
            } else {
                None
            }
        },
        None => None,
    }
}

fn public_identity(request: &PyRequest) -> (r: String)
    ensures
        r@ == public_identity_of(request@.message.headers),
{
    match request.message().headers.find_or("P-Asserted-Identity", "From") {
        Some(header) => extract_sip_uri(&header.value),
        None => extract_sip_uri(""),
    }
}

/// Answers a request with 401 and the given nonce, with the session keys of
/// the vector in hexadecimal.
pub fn send_ims_challenge(
    request: &mut PyRequest,
    realm: &str,
    nonce: &str,
    ck: &Option<Vec<u8>>,
    ik: &Option<Vec<u8>>,
)
    ensures
        final(request)@ == aka_challenged(
            old(request)@,
            ims_challenge_text(realm@, nonce@, opt_bytes(*ck), opt_bytes(*ik)),
        ),
{
    request.set_reply(401, "Unauthorized".to_owned());
    let ck_param = match ck {
        Some(key) => ", ck=\"".to_owned().concat(&hex_encode(key.as_slice())).concat("\""),
        None => "".to_owned(),
    };
    let ik_param = match ik {
        Some(key) => ", ik=\"".to_owned().concat(&hex_encode(key.as_slice())).concat("\""),
        None => "".to_owned(),
    };
    let value = challenge_value(realm, nonce, "AKAv1-MD5").concat(&ck_param).concat(&ik_param);
    request.set_header(Header::plain("WWW-Authenticate", &value));
}

/// Answers a request with the vector of an HSS answer and keeps the response
/// that it calls for. Without a nonce from the HSS a random one is used.
fn send_ims_challenge_from_maa(
    store: &mut AuthVectorStore,
    request: &mut PyRequest,
    realm: &str,
    maa: &MaaAnswer,
    now: u64,
)
    ensures
        final(store)@ == maa_store(old(store)@, *maa, now),
        exists|nonce: Seq<char>|
            maa_nonce(*maa, nonce) && final(request)@ == #[trigger] aka_challenged(
                old(request)@,
                ims_challenge_text(
                    realm@,
                    nonce,
                    opt_bytes(maa.confidentiality_key),
                    opt_bytes(maa.integrity_key),
                ),
            ),
{
    let nonce = match &maa.authenticate {
        Some(bytes) => {
            let nonce = base64_encode(bytes.as_slice());
            match &maa.authorization {
                Some(expected) => {
                    store_auth_vector(store, nonce.clone(), expected.clone(), now);
                },
                None => {},
            }
            nonce
        },
        None => generate_nonce(),
    };
    send_ims_challenge(request, realm, &nonce, &maa.confidentiality_key, &maa.integrity_key);
}

impl PyAuth {
    /// First half of an IMS digest exchange: verifies the credentials of a
    /// request against the pending vector, or says what to ask the HSS.
    pub fn require_ims_digest(
        &self,
        store: &mut AuthVectorStore,
        request: &mut PyRequest,
        realm: Option<&str>,
        peer_connected: bool,
        now: u64,
    ) -> (r: Result<ImsStep, ScriptError>)
        ensures
            match r {
                Err(e) => e@ == runtime_error(
                    if !self@.diameter {
                        "IMS digest auth requires a Diameter connection (diameter: section in config)"@
                    } else {
                        "no Diameter peer connected"@
                    },
                ) && (!self@.diameter || !peer_connected) && final(store)@ == old(store)@ && final(request)@ == old(request)@,
                Ok(step) => {
                    let h = old(request)@.message.headers;
                    let realm_value = realm_or(self@, opt_str(realm));
                    &&& self@.diameter && peer_connected
                    &&& step@ == ims_next(old(store)@, h, realm_value, now)
                    &&& final(store)@ == ims_store(old(store)@, h)
                    &&& final(request)@ == match ims_user(old(store)@, h, realm_value, now) {
                        Some(username) => RequestText {
                            auth_user: Some(username),
                            ..old(request)@
                        },
                        None => old(request)@,
                    }
                },
            },
    {
        if !self.diameter {
            return Err(
                ScriptError::runtime(
                    "IMS digest auth requires a Diameter connection (diameter: section in config)".to_owned(),
                ),
            );
        }
        if !peer_connected {
            return Err(ScriptError::runtime("no Diameter peer connected".to_owned()));
        }
        let realm_value = self.realm_text(realm);
        let identity = public_identity(request);
        match request.message().headers.get("Authorization") {
            Some(value) => {
                match extract_resync(&value) {
                    Some((nonce, data)) => {
                        store.discard(&nonce);
                        return Ok(
                            ImsStep::SendMar {
                                public_identity: identity,
                                items: 1,
                                auth_scheme: "Digest-AKAv1-MD5".to_owned(),
                                resync: Some(data),
                            },
                        );
                    },
                    None => {},
                }
                match prove_user(store, &value, &realm_value, now) {
                    Some(username) => {
                        request.set_auth_user(username);
                        return Ok(ImsStep::Verified);
                    },
                    None => {},
                }
            },
            None => {},
        }
        Ok(
            ImsStep::SendMar {
                public_identity: identity,
                items: 1,
                auth_scheme: "SIP Digest".to_owned(),
                resync: None,
            },
        )
    }

    /// Second half of an IMS digest exchange: takes what the HSS answered. A
    /// result other than success is answered with 403, a vector with a
    /// challenge.
    pub fn complete_ims_digest(
        &self,
        store: &mut AuthVectorStore,
        request: &mut PyRequest,
        realm: Option<&str>,
        resync: bool,
        answer: Result<MaaAnswer, String>,
        now: u64,
    ) -> (r: Result<bool, ScriptError>)
        ensures
            match answer {
                Err(reason) => r is Err && r->Err_0@ == runtime_error(
                    (if resync {
                        "MAR resync failed: "@
                    } else {
                        "MAR failed: "@
                    }) + reason@,
                ) && final(store)@ == old(store)@ && final(request)@ == old(request)@,
                Ok(maa) => r == Ok::<bool, ScriptError>(false) && if maa.result_code == Some(2001u32) {
                    &&& final(store)@ == maa_store(old(store)@, maa, now)
                    &&& exists|nonce: Seq<char>|
                        maa_nonce(maa, nonce) && final(request)@ == #[trigger] aka_challenged(
                            old(request)@,
                            ims_challenge_text(
                                realm_or(self@, opt_str(realm)),
                                nonce,
                                opt_bytes(maa.confidentiality_key),
                                opt_bytes(maa.integrity_key),
                            ),
                        )
                } else {
                    final(store)@ == old(store)@ && final(request)@ == forbidden(old(request)@)
                },
            },
    {
        let maa = match answer {
            Ok(maa) => maa,
            Err(reason) => {
                let prefix = if resync {
                    "MAR resync failed: "
                } else {
                    "MAR failed: "
                };
                return Err(ScriptError::runtime(prefix.to_owned().concat(&reason)));
            },
        };
        let success = match maa.result_code {
            Some(code) => code == 2001,
            None => false,
        };
        if !success {
            request.set_reply(403, "Forbidden".to_owned());
            return Ok(false);
        }
        let realm_value = self.realm_text(realm);
        send_ims_challenge_from_maa(store, request, &realm_value, &maa, now);
        Ok(false)
    }

    fn find_aka(&self, key: &str) -> (r: Option<&AkaCredential>)
        ensures
            match r {
                Some(credential) => aka_entry(self@.aka, key@) == Some(credential@),
                None => aka_entry(self@.aka, key@) is None,
            },
    {
        let ghost all = self@.aka;
        let mut i: usize = 0;
        assert(all.skip(0) =~= all);
        while i < self.aka_credentials.len()
            invariant
                i <= self.aka_credentials@.len(),
                all == self@.aka,
                all == super::aka_text(self.aka_credentials@),
                aka_entry(all, key@) == aka_entry(all.skip(i as int), key@),
            decreases self.aka_credentials@.len() - i,
        {
            if same_text(&self.aka_credentials[i].0, key) {
                return Some(&self.aka_credentials[i].1);
            }
            assert(all.skip(i as int).skip(1) =~= all.skip(i + 1));
            i += 1;
        }
        None
    }

    fn aka_credential_for(&self, impi: &str, realm: &str) -> (r: Option<&AkaCredential>)
        ensures
            match r {
                Some(credential) => aka_credential(self@.aka, impi@, realm@) == Some(credential@),
                None => aka_credential(self@.aka, impi@, realm@) is None,
            },
    {
        match self.find_aka(impi) {
            Some(credential) => Some(credential),
            None => match self.find_aka(&cut_at_sign(impi)) {
                Some(credential) => Some(credential),
                None => self.find_aka(&impi.to_owned().concat("@").concat(realm)),
            },
        }
    }

    /// First half of a local AKA exchange: verifies the credentials of a
    /// request against the pending vector, or gives the keys from which a
    /// vector is to be derived. A subscriber without keys is refused.
    pub fn require_aka_digest(
        &self,
        store: &mut AuthVectorStore,
        request: &mut PyRequest,
        realm: Option<&str>,
        now: u64,
    ) -> (r: Result<AkaStep, ScriptError>)
        ensures
            ({
                let h = old(request)@.message.headers;
                let realm_value = realm_or(self@, opt_str(realm));
                match aka_credential(self@.aka, impi_of(h), realm_value) {
                    None => r matches Ok(AkaStep::Forbidden) && final(request)@ == forbidden(
                        old(request)@,
                    ) && final(store)@ == old(store)@,
                    Some(credential) => match aka_keys(credential) {
                        Err(message) => r is Err && r->Err_0@ == runtime_error(message) && final(request)@ == old(request)@ && final(store)@ == old(store)@,
                        Ok(keys) => final(store)@ == aka_store(old(store)@, h) && match aka_user(
                            old(store)@,
                            h,
                            realm_value,
                            now,
                        ) {
                            Some(username) => r matches Ok(AkaStep::Verified) && final(request)@ == (
                            RequestText { auth_user: Some(username), ..old(request)@ }),
                            None => final(request)@ == old(request)@ && match r {
                                Ok(AkaStep::Challenge { k, op, sqn, amf }) => k@ == keys.k && op@
                                    == keys.op && amf@ == keys.amf && sqn@ == seq![
                                    0u8,
                                    0u8,
                                    0u8,
                                    0u8,
                                    0u8,
                                    1u8,
                                ],
                                _ => false,
                            },
                        },
                    },
                }
            }),
    {
        let realm_value = self.realm_text(realm);
        let existing = request.message().headers.get("Authorization");
        let from = match request.message().headers.find_or("From", "f") {
            Some(header) => header.value,
            None => "".to_owned(),
        };
        let from_user = match extract_username_from_uri(&from) {
            Some(user) => user,
            None => "".to_owned(),
        };
        let impi = match &existing {
            Some(value) => match extract_username(value) {
                Some(username) => username,
                None => from_user,
            },
            None => from_user,
        };
        let credential = match self.aka_credential_for(&impi, &realm_value) {
            Some(credential) => credential,
            None => {
                request.set_reply(403, "Forbidden".to_owned());
                return Ok(AkaStep::Forbidden);
            },
        };
        let k = match read_key(&credential.k, 16) {
            Some(k) => k,
            None => {
                return Err(ScriptError::runtime("invalid AKA K (need 32 hex chars)".to_owned()));
            },
        };
        let op = match read_key(&credential.op, 16) {
            Some(op) => op,
            None => {
                return Err(ScriptError::runtime("invalid AKA OP (need 32 hex chars)".to_owned()));
            },
        };
        let amf = match read_key(&credential.amf, 2) {
            Some(amf) => amf,
            None => {
                return Err(ScriptError::runtime("invalid AKA AMF (need 4 hex chars)".to_owned()));
            },
        };
        match &existing {
            Some(value) => {
                if carries_vector(value) {
                    match prove_user(store, value, &realm_value, now) {
                        Some(username) => {
                            request.set_auth_user(username);
                            return Ok(AkaStep::Verified);
                        },
                        None => {},
                    }
                }
            },
            None => {},
        }
        let sqn: Vec<u8> = vec![0u8, 0u8, 0u8, 0u8, 0u8, 1u8];
        assert(sqn@ =~= seq![0u8, 0u8, 0u8, 0u8, 0u8, 1u8]);
        Ok(AkaStep::Challenge { k, op, sqn, amf })
    }

    /// Second half of a local AKA exchange: answers with 401 and a nonce of
    /// RAND and AUTN, and keeps the response that the vector calls for.
    pub fn send_aka_challenge(
        &self,
        store: &mut AuthVectorStore,
        request: &mut PyRequest,
        realm: Option<&str>,
        vector: AkaVector,
        now: u64,
    )
        ensures
            final(store)@ == after_insert(
                old(store)@,
                encoded(vector.rand@ + vector.autn@),
                vector.xres@,
                now,
            ),
            final(request)@ == aka_challenged(
                old(request)@,
                challenge_text(
                    realm_or(self@, opt_str(realm)),
                    encoded(vector.rand@ + vector.autn@),
                    "AKAv1-MD5"@,
                ),
            ),
    {
        let realm_value = self.realm_text(realm);
        let mut nonce_bytes: Vec<u8> = Vec::new();
        nonce_bytes.extend_from_slice(vector.rand.as_slice());
        nonce_bytes.extend_from_slice(vector.autn.as_slice());
        assert(nonce_bytes@ =~= vector.rand@ + vector.autn@);
        let nonce = base64_encode(nonce_bytes.as_slice());
        request.set_reply(401, "Unauthorized".to_owned());
        request.set_header(
            Header::plain("WWW-Authenticate", &challenge_value(&realm_value, &nonce, "AKAv1-MD5")),
        );
        store_auth_vector(store, nonce, vector.xres, now);
    }
}

fn read_key(text: &str, len: usize) -> (r: Option<Vec<u8>>)
    ensures
        opt_bytes(r) == key_of(text@, len as int),
{
    match hex_decode(text) {
        Some(bytes) => if bytes.len() == len {
            Some(bytes)
        } else {
            None
        },
        None => None,
    }
}

fn carries_vector(value: &str) -> (r: bool)
    ensures
        r == names_vector(value@),
{
    match extract_nonce_field(value) {
        Some(nonce) => match base64_decode(&nonce) {
            Some(bytes) => bytes.len() >= 32,
            None => false,
        },
        None => false,
    }
}

/// Replaying captured credentials proves nothing: once a request was looked
/// at, its nonce is consumed, whether or not its response was right.
pub proof fn replay_proves_nothing(s: AuthVectors, h: Seq<HeaderText>, realm: Seq<char>, later: u64)
    ensures
        ims_user(ims_store(s, h), h, realm, later) is None,
        aka_user(aka_store(s, h), h, realm, later) is None,
{
}

/// A challenge of local AKA is met: credentials that answer its nonce with the
/// response that its vector calls for prove their user while the vector is
/// under its lifetime, and not after.
pub proof fn aka_challenge_can_be_answered(
    s: AuthVectors,
    h: Seq<HeaderText>,
    realm: Seq<char>,
    rand: Seq<u8>,
    autn: Seq<u8>,
    xres: Seq<u8>,
    now: u64,
    later: u64,
)
    requires
        rand.len() + autn.len() >= 32,
        header_value(h, "Authorization"@) matches Some(value) && nonce_of(value) == Some(
            encoded(rand + autn),
        ) && digest_fields(value) is Some && response_matches(
            digest_fields(value)->0,
            aka_ha1(digest_fields(value)->0.username, realm, xres),
            "REGISTER"@,
        ),
    ensures
        aka_user(after_insert(s, encoded(rand + autn), xres, now), h, realm, later) == if age_of(
            later,
            now,
        ) < AUTH_VECTOR_TTL {
            Some(digest_fields(header_value(h, "Authorization"@)->0)->0.username)
        } else {
            None
        },
{
    base64_round_trip(rand + autn);
}

/// A challenge with a vector of the HSS is met in the same way.
pub proof fn ims_challenge_can_be_answered(
    s: AuthVectors,
    h: Seq<HeaderText>,
    realm: Seq<char>,
    maa: MaaAnswer,
    now: u64,
    later: u64,
)
    requires
        maa.authenticate is Some && maa.authorization is Some,
        header_value(h, "Authorization"@) matches Some(value) && resync_of(value) is None
            && nonce_of(value) == Some(encoded(maa.authenticate->0@)) && digest_fields(value) is Some
            && response_matches(
            digest_fields(value)->0,
            aka_ha1(digest_fields(value)->0.username, realm, maa.authorization->0@),
            "REGISTER"@,
        ),
    ensures
        ims_user(maa_store(s, maa, now), h, realm, later) == if age_of(later, now)
            < AUTH_VECTOR_TTL {
            Some(digest_fields(header_value(h, "Authorization"@)->0)->0.username)
        } else {
            None
        },
{
}

} // verus!
