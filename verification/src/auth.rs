//! Digest authentication of requests: static users, an HTTP credential
//! backend, IMS AKA through the HSS, and local AKA.
//!
//! Work that leaves the process (the HTTP fetch, the exchange with the HSS,
//! the derivation of an AKA vector) is not done here: the decisions before and
//! after it are functions that name the work to do and take its result.

use crate::digest::{
    digest_fields, extract_username, ha1_input, password_ha1, response_matches, username_of,
    DigestFields,
};
use crate::hash::hash_text;
use crate::net::{ip_of, IpAddr};
use crate::request::{reply, PyRequest, RequestText};
use crate::sip::{
    header_of, header_value, lemma_appended_header, method_or, other_headers_are_kept,
    removed_header_is_gone, same_name, without_header, Header, HeaderText, MessageText,
};
use crate::text::{
    assoc, assoc_get, lower, opt_str, opt_text, pairs_text, replace_all, replace_text,
    same_text, text_from_utf8, trim, trim_text,
};
use crate::timed_map::{age_of, lookup, no_entries, TimedMap};
use vstd::prelude::*;
use vstd::string::*;
use vstd::utf8::{
    decode_utf8, encode_utf8, encode_utf8_decode_utf8, encode_utf8_valid_utf8, valid_utf8,
};

pub mod aka;

verus! {

/// Where credentials are looked up.
#[derive(Clone, Copy, PartialEq, Eq, Structural)]
pub enum AuthBackendType {
    Static,
    Http,
    Database,
}

/// The users of one realm with their passwords.
pub struct RealmUsers {
    pub realm: String,
    pub users: Vec<(String, String)>,
}

pub struct RealmText {
    pub realm: Seq<char>,
    pub users: Seq<(Seq<char>, Seq<char>)>,
}

impl View for RealmUsers {
    type V = RealmText;

    open spec fn view(&self) -> RealmText {
        RealmText { realm: self.realm@, users: pairs_text(self.users@) }
    }
}

pub open spec fn realms_text(v: Seq<RealmUsers>) -> Seq<RealmText> {
    Seq::new(v.len(), |i: int| v[i]@)
}

/// The HTTP credential backend.
pub struct HttpAuthConfig {
    pub url: String,
    pub timeout_ms: u64,
    pub connect_timeout_ms: u64,
    pub ha1: bool,
    pub cache_ttl_secs: u64,
}

pub struct HttpText {
    pub url: Seq<char>,
    pub timeout_ms: u64,
    pub connect_timeout_ms: u64,
    pub ha1: bool,
    pub cache_ttl_secs: u64,
}

impl View for HttpAuthConfig {
    type V = HttpText;

    open spec fn view(&self) -> HttpText {
        HttpText {
            url: self.url@,
            timeout_ms: self.timeout_ms,
            connect_timeout_ms: self.connect_timeout_ms,
            ha1: self.ha1,
            cache_ttl_secs: self.cache_ttl_secs,
        }
    }
}

/// The subscriber key material for local AKA, in hexadecimal.
pub struct AkaCredential {
    pub k: String,
    pub op: String,
    pub amf: String,
}

pub struct AkaText {
    pub k: Seq<char>,
    pub op: Seq<char>,
    pub amf: Seq<char>,
}

impl View for AkaCredential {
    type V = AkaText;

    open spec fn view(&self) -> AkaText {
        AkaText { k: self.k@, op: self.op@, amf: self.amf@ }
    }
}

pub open spec fn aka_text(v: Seq<(String, AkaCredential)>) -> Seq<(Seq<char>, AkaText)> {
    Seq::new(v.len(), |i: int| (v[i].0@, v[i].1@))
}

/// What the auth namespace holds.
pub struct AuthText {
    pub backend: AuthBackendType,
    pub realms: Seq<RealmText>,
    pub default_realm: Seq<char>,
    pub aka: Seq<(Seq<char>, AkaText)>,
    pub http: Option<HttpText>,
    pub cache: Option<Map<Seq<char>, (Seq<u8>, u64)>>,
    pub diameter: bool,
}

/// The password of a user in the first realm that knows the user.
pub open spec fn password_anywhere(realms: Seq<RealmText>, username: Seq<char>) -> Option<Seq<char>>
    decreases realms.len(),
{
    if realms.len() == 0 {
        None
    } else {
        match assoc(realms[0].users, username) {
            Some(password) => Some(password),
            None => password_anywhere(realms.skip(1), username),
        }
    }
}

/// The password of a user in the entries of one realm.
pub open spec fn password_in(realms: Seq<RealmText>, realm: Seq<char>, username: Seq<char>) -> Option<
    Seq<char>,
>
    decreases realms.len(),
{
    if realms.len() == 0 {
        None
    } else if realms[0].realm == realm && assoc(realms[0].users, username) is Some {
        assoc(realms[0].users, username)
    } else {
        password_in(realms.skip(1), realm, username)
    }
}

/// The password that a user is judged by: the one in the given realm; where
/// that realm does not know the user, the one of the first realm that does.
pub open spec fn password_for(realms: Seq<RealmText>, realm: Seq<char>, username: Seq<char>) -> Option<
    Seq<char>,
> {
    match password_in(realms, realm, username) {
        Some(password) => Some(password),
        None => password_anywhere(realms, username),
    }
}

pub open spec fn realm_or(auth: AuthText, realm: Option<Seq<char>>) -> Seq<char> {
    match realm {
        Some(realm) => realm,
        None => auth.default_realm,
    }
}

/// Whether credentials answer the challenge under the static backend.
pub open spec fn valid_static(auth: AuthText, value: Seq<char>, realm: Seq<char>, method: Seq<char>) -> bool {
    match digest_fields(value) {
        Some(f) => match password_for(auth.realms, realm, f.username) {
            Some(password) => response_matches(
                f,
                hash_text(f.algorithm, encode_utf8(ha1_input(f.username, realm, password))),
                method,
            ),
            None => false,
        },
        None => false,
    }
}

/// The cached credential of a user, while it is under its lifetime.
pub open spec fn cached(
    cache: Option<Map<Seq<char>, (Seq<u8>, u64)>>,
    username: Seq<char>,
    ttl_secs: u64,
    now: u64,
) -> Option<Seq<char>> {
    if ttl_secs == 0 {
        None
    } else {
        match cache {
            Some(entries) => match lookup(entries, username) {
                Some(entry) => if age_of(now, entry.1) < ttl_secs * 1_000_000_000 && valid_utf8(
                    entry.0,
                ) {
                    Some(decode_utf8(entry.0))
                } else {
                    None
                },
                None => None,
            },
            None => None,
        }
    }
}

/// The credential that the HTTP backend yields: the cached one, else what the
/// fetch brought.
pub open spec fn http_credential(
    auth: AuthText,
    username: Seq<char>,
    fetched: Option<Seq<char>>,
    now: u64,
) -> Option<Seq<char>> {
    match auth.http {
        Some(config) => match cached(auth.cache, username, config.cache_ttl_secs, now) {
            Some(body) => Some(body),
            None => fetched,
        },
        None => None,
    }
}

/// Whether credentials answer the challenge under the HTTP backend.
pub open spec fn valid_http(
    auth: AuthText,
    value: Seq<char>,
    realm: Seq<char>,
    method: Seq<char>,
    fetched: Option<Seq<char>>,
    now: u64,
) -> bool {
    match digest_fields(value) {
        Some(f) => match http_credential(auth, f.username, fetched, now) {
            Some(body) => response_matches(
                f,
                if auth.http->0.ha1 {
                    body
                } else {
                    hash_text(f.algorithm, encode_utf8(ha1_input(f.username, realm, body)))
                },
                method,
            ),
            None => false,
        },
        None => false,
    }
}

/// Whether credentials are valid under the configured backend.
pub open spec fn valid(
    auth: AuthText,
    value: Seq<char>,
    realm: Seq<char>,
    method: Seq<char>,
    fetched: Option<Seq<char>>,
    now: u64,
) -> bool {
    match auth.backend {
        AuthBackendType::Static => valid_static(auth, value, realm, method),
        AuthBackendType::Http => valid_http(auth, value, realm, method, fetched, now),
        AuthBackendType::Database => false,
    }
}

/// The user whose credential has to be fetched before `value` can be judged.
pub open spec fn needs_fetch(auth: AuthText, value: Option<Seq<char>>, now: u64) -> Option<Seq<char>> {
    match (value, auth.http) {
        (Some(v), Some(config)) => match digest_fields(v) {
            Some(f) => if auth.backend == AuthBackendType::Http && cached(
                auth.cache,
                f.username,
                config.cache_ttl_secs,
                now,
            ) is None {
                Some(f.username)
            } else {
                None
            },
            None => None,
        },
        _ => None,
    }
}

/// Whether `value` is judged by a cached credential.
pub open spec fn cache_hit(auth: AuthText, value: Option<Seq<char>>, now: u64) -> bool {
    match (value, auth.http) {
        (Some(v), Some(config)) => match digest_fields(v) {
            Some(f) => auth.backend == AuthBackendType::Http && cached(
                auth.cache,
                f.username,
                config.cache_ttl_secs,
                now,
            ) is Some,
            None => false,
        },
        _ => false,
    }
}

/// The namespace after judging `value`: a fetched credential is cached.
pub open spec fn after_judging(
    auth: AuthText,
    value: Option<Seq<char>>,
    fetched: Option<Seq<char>>,
    now: u64,
) -> AuthText {
    match (needs_fetch(auth, value, now), fetched, auth.cache) {
        (Some(username), Some(body), Some(entries)) => AuthText {
            cache: Some(entries.insert(username, (encode_utf8(body), now))),
            ..auth
        },
        _ => auth,
    }
}

/// The credentials that a request carries.
pub open spec fn credentials_of(h: Seq<HeaderText>) -> Option<Seq<char>> {
    match header_value(h, "Authorization"@) {
        Some(value) => Some(value),
        None => header_value(h, "Proxy-Authorization"@),
    }
}

/// Whether a request carries valid credentials.
pub open spec fn authenticated(
    auth: AuthText,
    request: RequestText,
    realm: Option<Seq<char>>,
    fetched: Option<Seq<char>>,
    now: u64,
) -> bool {
    match credentials_of(request.message.headers) {
        Some(value) => valid(
            auth,
            value,
            realm_or(auth, realm),
            method_or(request.message.start, "REGISTER"@),
            fetched,
            now,
        ),
        None => false,
    }
}

/// A request whose credentials were accepted: the user is recorded and the
/// credentials, which are meant for this hop alone, are gone.
pub open spec fn accepted(request: RequestText) -> RequestText {
    let h = request.message.headers;
    RequestText {
        auth_user: match username_of(credentials_of(h)->0) {
            Some(username) => Some(username),
            None => request.auth_user,
        },
        message: MessageText {
            headers: without_header(without_header(h, "Authorization"@), "Proxy-Authorization"@),
            ..request.message
        },
        ..request
    }
}

pub open spec fn challenge_text(realm: Seq<char>, nonce: Seq<char>, algorithm: Seq<char>) -> Seq<char> {
    "Digest realm=\""@ + realm + "\", nonce=\""@ + nonce + "\", algorithm="@ + algorithm
        + ", qop=\"auth\""@
}

pub open spec fn challenge_header(code: u16) -> Seq<char> {
    if code == 401 {
        "WWW-Authenticate"@
    } else {
        "Proxy-Authenticate"@
    }
}

pub open spec fn challenge_reason(code: u16) -> Seq<char> {
    if code == 401 {
        "Unauthorized"@
    } else {
        "Proxy Authentication Required"@
    }
}

pub open spec fn plain_header(name: Seq<char>, value: Seq<char>) -> HeaderText {
    HeaderText { name, value, address: None }
}

/// A request that is answered with a challenge, one header per algorithm, the
/// weakest first.
pub open spec fn challenged(request: RequestText, realm: Seq<char>, code: u16, nonce: Seq<char>) -> RequestText {
    let name = challenge_header(code);
    RequestText {
        action: reply(code, challenge_reason(code)),
        message: MessageText {
            headers: request.message.headers.push(
                plain_header(name, challenge_text(realm, nonce, "MD5"@)),
            ).push(plain_header(name, challenge_text(realm, nonce, "SHA-256"@))).push(
                plain_header(name, challenge_text(realm, nonce, "SHA-512-256"@)),
            ),
            ..request.message
        },
        ..request
    }
}

/// A version 4 UUID as thirty-two lower-case hexadecimal digits.
pub open spec fn is_nonce(s: Seq<char>) -> bool {
    &&& s.len() == 32
    &&& forall|i: int|
        0 <= i < 32 ==> (('0' <= #[trigger] s[i] && s[i] <= '9') || ('a' <= s[i] && s[i] <= 'f'))
    &&& s[12] == '4'
    &&& (s[16] == '8' || s[16] == '9' || s[16] == 'a' || s[16] == 'b')
}

/// `uuid::Uuid::new_v4` in its simple lower-case form: a fresh random version 4
/// UUID. Which one it is depends on chance; only its shape is stated.
#[verifier::external_body]
fn generate_nonce() -> (r: String)
    ensures
        is_nonce(r@),
{
    format!("{:x}", uuid::Uuid::new_v4().as_simple())
}

/// The auth namespace of the scripting interface.
pub struct PyAuth {
    backend_type: AuthBackendType,
    static_users: Vec<RealmUsers>,
    default_realm: String,
    aka_credentials: Vec<(String, AkaCredential)>,
    http_config: Option<HttpAuthConfig>,
    http_ha1_cache: Option<TimedMap>,
    diameter: bool,
}

impl View for PyAuth {
    type V = AuthText;

    closed spec fn view(&self) -> AuthText {
        AuthText {
            backend: self.backend_type,
            realms: realms_text(self.static_users@),
            default_realm: self.default_realm@,
            aka: aka_text(self.aka_credentials@),
            http: match self.http_config {
                Some(config) => Some(config@),
                None => None,
            },
            cache: match self.http_ha1_cache {
                Some(cache) => Some(cache@),
                None => None,
            },
            diameter: self.diameter,
        }
    }
}

/// The namespace with the given static users and nothing else configured.
pub open spec fn static_auth(realms: Seq<RealmText>, default_realm: Seq<char>) -> AuthText {
    AuthText {
        backend: AuthBackendType::Static,
        realms,
        default_realm,
        aka: Seq::empty(),
        http: None,
        cache: None,
        diameter: false,
    }
}

impl PyAuth {
    /// A namespace with static users.
    pub fn new(static_users: Vec<RealmUsers>, default_realm: String) -> (r: Self)
        ensures
            r@ == static_auth(realms_text(static_users@), default_realm@),
    {
        let r = PyAuth {
            backend_type: AuthBackendType::Static,
            static_users,
            default_realm,
            aka_credentials: Vec::new(),
            http_config: None,
            http_ha1_cache: None,
            diameter: false,
        };
        assert(r@.aka =~= Seq::<(Seq<char>, AkaText)>::empty());
        r
    }

    /// A namespace with no users.
    pub fn empty() -> (r: Self)
        ensures
            r@ == static_auth(Seq::empty(), "siphon"@),
    {
        let users: Vec<RealmUsers> = Vec::new();
        assert(realms_text(users@) =~= Seq::<RealmText>::empty());
        PyAuth::new(users, "siphon".to_owned())
    }

    pub fn set_backend_type(&mut self, backend: AuthBackendType)
        ensures
            final(self)@ == (AuthText { backend, ..old(self)@ }),
    {
        self.backend_type = backend;
    }

    /// Configures the HTTP backend. A cache exists only where its lifetime is
    /// not zero, and starts out empty.
    pub fn set_http_config(&mut self, config: HttpAuthConfig)
        ensures
            final(self)@ == (AuthText {
                http: Some(config@),
                cache: if config.cache_ttl_secs > 0 {
                    Some(no_entries())
                } else {
                    None
                },
                ..old(self)@
            }),
    {
        self.http_ha1_cache = if config.cache_ttl_secs > 0 {
            Some(TimedMap::new())
        } else {
            None
        };
        self.http_config = Some(config);
    }

    /// Records that a Diameter manager is there for IMS authentication.
    pub fn set_diameter_manager(&mut self)
        ensures
            final(self)@ == (AuthText { diameter: true, ..old(self)@ }),
    {
        self.diameter = true;
    }

    pub fn set_aka_credentials(&mut self, credentials: Vec<(String, AkaCredential)>)
        ensures
            final(self)@ == (AuthText { aka: aka_text(credentials@), ..old(self)@ }),
    {
        self.aka_credentials = credentials;
    }

    /// Whether a cache of HTTP credentials exists.
    pub fn has_ha1_cache(&self) -> (r: bool)
        ensures
            r == (self@.cache is Some),
    {
        self.http_ha1_cache.is_some()
    }

    fn realm_text(&self, realm: Option<&str>) -> (r: String)
        ensures
            r@ == realm_or(self@, opt_str(realm)),
    {
        match realm {
            Some(realm) => realm.to_owned(),
            None => self.default_realm.clone(),
        }
    }

    fn static_password(&self, realm: &str, username: &str) -> (r: Option<String>)
        ensures
            opt_text(r) == password_for(self@.realms, realm@, username@),
    {
        let ghost realms = self@.realms;
        let mut first: Option<String> = None;
        let mut i: usize = 0;
        assert(realms.skip(0) =~= realms);
        while i < self.static_users.len()
            invariant
                i <= self.static_users@.len(),
                realms == realms_text(self.static_users@),
                password_in(realms, realm@, username@) == password_in(
                    realms.skip(i as int),
                    realm@,
                    username@,
                ),
                match first {
                    Some(password) => password_anywhere(realms, username@) == Some(password@),
                    None => password_anywhere(realms, username@) == password_anywhere(
                        realms.skip(i as int),
                        username@,
                    ),
                },
            decreases self.static_users@.len() - i,
        {
            let found = assoc_get(&self.static_users[i].users, username);
            assert(realms.skip(i as int)[0] == self.static_users@[i as int]@);
            assert(realms.skip(i as int).skip(1) =~= realms.skip(i + 1));
            match found {
                Some(password) => {
                    if same_text(&self.static_users[i].realm, realm) {
                        return Some(password);
                    }
                    if first.is_none() {
                        first = Some(password);
                    }
                },
                None => {},
            }
            i += 1;
        }
        first
    }

    /// Static backend: the password comes from the configured users, HA1 from
    /// the algorithm that the client used.
    fn validate_static(&self, auth_value: &str, realm: &str, method: &str) -> (r: bool)
        ensures
            r == valid_static(self@, auth_value@, realm@, method@),
    {
        let fields = match DigestFields::parse(auth_value) {
            Some(fields) => fields,
            None => {
                return false;
            },
        };
        let password = match self.static_password(realm, &fields.username) {
            Some(password) => password,
            None => {
                return false;
            },
        };
        let ha1 = password_ha1(fields.algorithm, &fields.username, realm, &password);
        fields.verify(&ha1, method)
    }

    /// The cached credential of a user, while it is under `ttl_secs`.
    pub fn cached_credential(&self, username: &str, ttl_secs: u64, now: u64) -> (r: Option<String>)
        ensures
            opt_text(r) == cached(self@.cache, username@, ttl_secs, now),
    {
        if ttl_secs == 0 {
            return None;
        }
        match &self.http_ha1_cache {
            Some(cache) => match cache.get(username) {
                Some(entry) => {
                    let age: u64 = if now >= entry.1 {
                        now - entry.1
                    } else {
                        0
                    };
                    if (age as u128) < (ttl_secs as u128) * 1_000_000_000 {
                        text_from_utf8(entry.0)
                    } else {
                        None
                    }
                },
                None => None,
            },
            None => None,
        }
    }

    /// Caches a credential that the backend returned; does nothing where there
    /// is no cache.
    pub fn store_credential(&mut self, username: &str, value: &str, now: u64)
        ensures
            final(self)@ == (AuthText {
                cache: match old(self)@.cache {
                    Some(entries) => Some(entries.insert(username@, (encode_utf8(value@), now))),
                    None => None,
                },
                ..old(self)@
            }),
    {
        match self.http_ha1_cache.take() {
            Some(mut cache) => {
                let _ = cache.insert(username.to_owned(), value.as_bytes_vec(), now);
                self.http_ha1_cache = Some(cache);
            },
            None => {},
        }
    }

    /// The fetch that has to be made before credentials can be judged: the user
    /// and the URL, which is the configured template with the user filled in.
    pub fn credential_fetch(&self, auth_value: Option<&str>, now: u64) -> (r: Option<(String, String)>)
        ensures
            match r {
                Some(fetch) => needs_fetch(self@, opt_str(auth_value), now) == Some(fetch.0@)
                    && fetch.1@ == replace_all(self@.http->0.url, "{username}"@, fetch.0@),
                None => needs_fetch(self@, opt_str(auth_value), now) is None,
            },
    {
        let value = match auth_value {
            Some(value) => value,
            None => {
                return None;
            },
        };
        match self.backend_type {
            AuthBackendType::Http => {},
            AuthBackendType::Static | AuthBackendType::Database => {
                return None;
            },
        }
        let config = match &self.http_config {
            Some(config) => config,
            None => {
                return None;
            },
        };
        let fields = match DigestFields::parse(value) {
            Some(fields) => fields,
            None => {
                return None;
            },
        };
        if self.cached_credential(&fields.username, config.cache_ttl_secs, now).is_some() {
            return None;
        }
        proof {
            reveal_strlit("{username}");
        }
        let url = replace_text(&config.url, "{username}", &fields.username);
        Some((fields.username, url))
    }

    /// Whether credentials are judged by a cached credential.
    pub fn is_cache_hit(&self, auth_value: Option<&str>, now: u64) -> (r: bool)
        ensures
            r == cache_hit(self@, opt_str(auth_value), now),
    {
        let value = match auth_value {
            Some(value) => value,
            None => {
                return false;
            },
        };
        match self.backend_type {
            AuthBackendType::Http => {},
            AuthBackendType::Static | AuthBackendType::Database => {
                return false;
            },
        }
        match (&self.http_config, DigestFields::parse(value)) {
            (Some(config), Some(fields)) => self.cached_credential(
                &fields.username,
                config.cache_ttl_secs,
                now,
            ).is_some(),
            _ => false,
        }
    }

    /// HTTP backend: the credential comes from the cache, else from what the
    /// fetch brought, which is then cached.
    fn validate_http(
        &mut self,
        auth_value: &str,
        realm: &str,
        method: &str,
        fetched: Option<String>,
        now: u64,
    ) -> (r: bool)
        requires
            old(self)@.backend == AuthBackendType::Http,
        ensures
            r == valid_http(old(self)@, auth_value@, realm@, method@, opt_text(fetched), now),
            final(self)@ == after_judging(old(self)@, Some(auth_value@), opt_text(fetched), now),
    {
        let fields = match DigestFields::parse(auth_value) {
            Some(fields) => fields,
            None => {
                return false;
            },
        };
        let (ttl_secs, is_ha1) = match &self.http_config {
            Some(config) => (config.cache_ttl_secs, config.ha1),
            None => {
                return false;
            },
        };
        let body = match self.cached_credential(&fields.username, ttl_secs, now) {
            Some(body) => body,
            None => match fetched {
                Some(body) => {
                    self.store_credential(&fields.username, &body, now);
                    body
                },
                None => {
                    return false;
                },
            },
        };
        let ha1 = if is_ha1 {
            body
        } else {
            password_ha1(fields.algorithm, &fields.username, realm, &body)
        };
        fields.verify(&ha1, method)
    }

    /// Judges credentials under the configured backend. `fetched` is what a
    /// needed fetch brought, `None` where it failed or none was needed.
    pub fn validate_credentials(
        &mut self,
        auth_value: &str,
        realm: &str,
        method: &str,
        fetched: Option<String>,
        now: u64,
    ) -> (r: bool)
        ensures
            r == valid(old(self)@, auth_value@, realm@, method@, opt_text(fetched), now),
            final(self)@ == after_judging(old(self)@, Some(auth_value@), opt_text(fetched), now),
    {
        match self.backend_type {
            AuthBackendType::Static => self.validate_static(auth_value, realm, method),
            AuthBackendType::Http => self.validate_http(auth_value, realm, method, fetched, now),
            AuthBackendType::Database => false,
        }
    }

    /// Judges the credentials of a request and answers nothing.
    pub fn check_credentials(
        &mut self,
        request: &PyRequest,
        realm: Option<&str>,
        fetched: Option<String>,
        now: u64,
    ) -> (r: bool)
        ensures
            r == authenticated(old(self)@, request@, opt_str(realm), opt_text(fetched), now),
            final(self)@ == after_judging(
                old(self)@,
                credentials_of(request@.message.headers),
                opt_text(fetched),
                now,
            ),
    {
        let realm_value = self.realm_text(realm);
        let method = request.message().method_or("REGISTER");
        match request_credentials(request) {
            Some(value) => self.validate_credentials(&value, &realm_value, &method, fetched, now),
            None => false,
        }
    }

    /// Judges the credentials of a request and answers nothing.
    pub fn verify_digest(
        &mut self,
        request: &PyRequest,
        realm: Option<&str>,
        fetched: Option<String>,
        now: u64,
    ) -> (r: bool)
        ensures
            r == authenticated(old(self)@, request@, opt_str(realm), opt_text(fetched), now),
            final(self)@ == after_judging(
                old(self)@,
                credentials_of(request@.message.headers),
                opt_text(fetched),
                now,
            ),
    {
        self.check_credentials(request, realm, fetched, now)
    }

    /// Accepts a request with valid credentials, else answers it with a
    /// challenge of the given status.
    fn require_digest_inner(
        &mut self,
        request: &mut PyRequest,
        realm: Option<&str>,
        challenge_code: u16,
        fetched: Option<String>,
        now: u64,
    ) -> (r: bool)
        ensures
            r == authenticated(old(self)@, old(request)@, opt_str(realm), opt_text(fetched), now),
            r ==> final(request)@ == accepted(old(request)@),
            !r ==> exists|nonce: Seq<char>|
                is_nonce(nonce) && final(request)@ == #[trigger] challenged(
                    old(request)@,
                    realm_or(old(self)@, opt_str(realm)),
                    challenge_code,
                    nonce,
                ),
            final(self)@ == after_judging(
                old(self)@,
                credentials_of(old(request)@.message.headers),
                opt_text(fetched),
                now,
            ),
    {
        let realm_value = self.realm_text(realm);
        if self.check_credentials(request, realm, fetched, now) {
            accept_request(request);
            true
        } else {
            let nonce = generate_nonce();
            issue_challenge(request, &realm_value, challenge_code, &nonce);
            false
        }
    }

    /// Challenges with 401 unless the request carries valid credentials.
    pub fn challenge_www(
        &mut self,
        request: &mut PyRequest,
        realm: Option<&str>,
        fetched: Option<String>,
        now: u64,
    ) -> (r: bool)
        ensures
            r == authenticated(old(self)@, old(request)@, opt_str(realm), opt_text(fetched), now),
            r ==> final(request)@ == accepted(old(request)@),
            !r ==> exists|nonce: Seq<char>|
                is_nonce(nonce) && final(request)@ == #[trigger] challenged(
                    old(request)@,
                    realm_or(old(self)@, opt_str(realm)),
                    401,
                    nonce,
                ),
            final(self)@ == after_judging(
                old(self)@,
                credentials_of(old(request)@.message.headers),
                opt_text(fetched),
                now,
            ),
    {
        self.require_digest_inner(request, realm, 401, fetched, now)
    }

    /// Challenges with 407 unless the request carries valid credentials.
    pub fn challenge_proxy(
        &mut self,
        request: &mut PyRequest,
        realm: Option<&str>,
        fetched: Option<String>,
        now: u64,
    ) -> (r: bool)
        ensures
            r == authenticated(old(self)@, old(request)@, opt_str(realm), opt_text(fetched), now),
            r ==> final(request)@ == accepted(old(request)@),
            !r ==> exists|nonce: Seq<char>|
                is_nonce(nonce) && final(request)@ == #[trigger] challenged(
                    old(request)@,
                    realm_or(old(self)@, opt_str(realm)),
                    407,
                    nonce,
                ),
            final(self)@ == after_judging(
                old(self)@,
                credentials_of(old(request)@.message.headers),
                opt_text(fetched),
                now,
            ),
    {
        self.require_digest_inner(request, realm, 407, fetched, now)
    }

    /// Challenges with 401 unless the request carries valid credentials.
    pub fn require_www_digest(
        &mut self,
        request: &mut PyRequest,
        realm: Option<&str>,
        fetched: Option<String>,
        now: u64,
    ) -> (r: bool)
        ensures
            r == authenticated(old(self)@, old(request)@, opt_str(realm), opt_text(fetched), now),
            r ==> final(request)@ == accepted(old(request)@),
            !r ==> exists|nonce: Seq<char>|
                is_nonce(nonce) && final(request)@ == #[trigger] challenged(
                    old(request)@,
                    realm_or(old(self)@, opt_str(realm)),
                    401,
                    nonce,
                ),
            final(self)@ == after_judging(
                old(self)@,
                credentials_of(old(request)@.message.headers),
                opt_text(fetched),
                now,
            ),
    {
        self.require_digest_inner(request, realm, 401, fetched, now)
    }

    /// Challenges with 407 unless the request carries valid credentials.
    pub fn require_proxy_digest(
        &mut self,
        request: &mut PyRequest,
        realm: Option<&str>,
        fetched: Option<String>,
        now: u64,
    ) -> (r: bool)
        ensures
            r == authenticated(old(self)@, old(request)@, opt_str(realm), opt_text(fetched), now),
            r ==> final(request)@ == accepted(old(request)@),
            !r ==> exists|nonce: Seq<char>|
                is_nonce(nonce) && final(request)@ == #[trigger] challenged(
                    old(request)@,
                    realm_or(old(self)@, opt_str(realm)),
                    407,
                    nonce,
                ),
            final(self)@ == after_judging(
                old(self)@,
                credentials_of(old(request)@.message.headers),
                opt_text(fetched),
                now,
            ),
    {
        self.require_digest_inner(request, realm, 407, fetched, now)
    }

    /// Challenges with 401 unless the request carries valid credentials.
    pub fn require_digest(
        &mut self,
        request: &mut PyRequest,
        realm: Option<&str>,
        fetched: Option<String>,
        now: u64,
    ) -> (r: bool)
        ensures
            r == authenticated(old(self)@, old(request)@, opt_str(realm), opt_text(fetched), now),
            r ==> final(request)@ == accepted(old(request)@),
            !r ==> exists|nonce: Seq<char>|
                is_nonce(nonce) && final(request)@ == #[trigger] challenged(
                    old(request)@,
                    realm_or(old(self)@, opt_str(realm)),
                    401,
                    nonce,
                ),
            final(self)@ == after_judging(
                old(self)@,
                credentials_of(old(request)@.message.headers),
                opt_text(fetched),
                now,
            ),
    {
        self.require_digest_inner(request, realm, 401, fetched, now)
    }
}

fn request_credentials(request: &PyRequest) -> (r: Option<String>)
    ensures
        opt_text(r) == credentials_of(request@.message.headers),
{
    match request.message().headers.get("Authorization") {
        Some(value) => Some(value),
        None => request.message().headers.get("Proxy-Authorization"),
    }
}

/// Records the user of accepted credentials and removes the credentials.
pub fn accept_request(request: &mut PyRequest)
    requires
        credentials_of(old(request)@.message.headers) is Some,
    ensures
        final(request)@ == accepted(old(request)@),
{
    match request_credentials(request) {
        Some(value) => match extract_username(&value) {
            Some(username) => {
                request.set_auth_user(username);
            },
            None => {},
        },
        None => {},
    }
    request.remove_header("Authorization");
    request.remove_header("Proxy-Authorization");
}

fn challenge_value(realm: &str, nonce: &str, algorithm: &str) -> (r: String)
    ensures
        r@ == challenge_text(realm@, nonce@, algorithm@),
{
    "Digest realm=\"".to_owned().concat(realm).concat("\", nonce=\"").concat(nonce).concat(
        "\", algorithm=",
    ).concat(algorithm).concat(", qop=\"auth\"")
}

/// Answers a request with a challenge that carries the given nonce.
pub fn issue_challenge(request: &mut PyRequest, realm: &str, code: u16, nonce: &str)
    ensures
        final(request)@ == challenged(old(request)@, realm@, code, nonce@),
{
    let reason = if code == 401 {
        "Unauthorized"
    } else {
        "Proxy Authentication Required"
    };
    let name = if code == 401 {
        "WWW-Authenticate"
    } else {
        "Proxy-Authenticate"
    };
    request.set_reply(code, reason.to_owned());
    request.add_header(Header::plain(name, &challenge_value(realm, nonce, "MD5")));
    request.add_header(Header::plain(name, &challenge_value(realm, nonce, "SHA-256")));
    request.add_header(Header::plain(name, &challenge_value(realm, nonce, "SHA-512-256")));
}

/// A report to the store that bans addresses.
#[derive(Clone, Copy, Debug, PartialEq, Eq, Structural)]
pub enum BanRecord {
    Success(IpAddr),
    Failure(IpAddr),
}

/// What is recorded of a digest check.
#[derive(Clone, Copy, Debug, PartialEq, Eq, Structural)]
pub struct DigestRecords {
    pub ban: Option<BanRecord>,
    pub failures: u32,
}

/// The records of a digest check: an accepted request clears the failures of
/// its source, a challenged one counts against its source and as a failure.
pub open spec fn records_of(request: RequestText, accepted: bool) -> DigestRecords {
    DigestRecords {
        ban: match ip_of(request.source_ip) {
            Some(source) => Some(
                if accepted {
                    BanRecord::Success(source)
                } else {
                    BanRecord::Failure(source)
                },
            ),
            None => None,
        },
        failures: if accepted {
            0
        } else {
            1
        },
    }
}

/// What has to be recorded of a digest check with the given outcome.
pub fn digest_records(request: &PyRequest, accepted: bool) -> (r: DigestRecords)
    ensures
        r == records_of(request@, accepted),
{
    let ban = match IpAddr::parse(request.source_ip_str()) {
        Some(source) => Some(
            if accepted {
                BanRecord::Success(source)
            } else {
                BanRecord::Failure(source)
            },
        ),
        None => None,
    };
    let failures: u32 = if accepted {
        0
    } else {
        1
    };
    DigestRecords { ban, failures }
}

/// The credential in a backend's response: its trimmed body where the status
/// is a success.
pub fn credential_from_response(success: bool, body: &str) -> (r: Option<String>)
    ensures
        opt_text(r) == if success {
            Some(trim(body@))
        } else {
            None
        },
{
    if success {
        Some(trim_text(body))
    } else {
        None
    }
}

proof fn lemma_header_names_differ()
    ensures
        !same_name("Authorization"@, "Proxy-Authorization"@),
        !same_name("WWW-Authenticate"@, "Authorization"@),
        !same_name("WWW-Authenticate"@, "Proxy-Authorization"@),
        !same_name("Proxy-Authenticate"@, "Authorization"@),
        !same_name("Proxy-Authenticate"@, "Proxy-Authorization"@),
{
    reveal_strlit("Authorization");
    reveal_strlit("Proxy-Authorization");
    reveal_strlit("WWW-Authenticate");
    reveal_strlit("Proxy-Authenticate");
    assert(lower("Authorization"@).len() == 13);
    assert(lower("Proxy-Authorization"@).len() == 19);
    assert(lower("WWW-Authenticate"@).len() == 16);
    assert(lower("Proxy-Authenticate"@).len() == 18);
}

/// Credentials do not travel on: an accepted request carries none, and every
/// other header is still found as before.
pub proof fn accepted_request_carries_no_credentials(request: RequestText, other: Seq<char>)
    ensures
        credentials_of(accepted(request).message.headers) is None,
        !same_name("Authorization"@, other) && !same_name("Proxy-Authorization"@, other)
            ==> header_of(accepted(request).message.headers, other) == header_of(
            request.message.headers,
            other,
        ),
        accepted(request).action == request.action,
{
    lemma_header_names_differ();
    let h = request.message.headers;
    let first = without_header(h, "Authorization"@);
    let a = plain_header("Authorization"@, ""@);
    let p = plain_header("Proxy-Authorization"@, ""@);
    removed_header_is_gone(h, "Authorization"@);
    removed_header_is_gone(first, "Proxy-Authorization"@);
    assert(!same_name("Proxy-Authorization"@, "Authorization"@));
    other_headers_are_kept(first, p, "Authorization"@);
    if !same_name("Authorization"@, other) && !same_name("Proxy-Authorization"@, other) {
        other_headers_are_kept(h, a, other);
        other_headers_are_kept(first, p, other);
    }
}

/// A refused request is answered with the challenge and keeps its credentials
/// and its user.
pub proof fn refused_request_is_challenged(
    request: RequestText,
    realm: Seq<char>,
    code: u16,
    nonce: Seq<char>,
)
    ensures
        challenged(request, realm, code, nonce).action == reply(code, challenge_reason(code)),
        credentials_of(challenged(request, realm, code, nonce).message.headers) == credentials_of(
            request.message.headers,
        ),
        challenged(request, realm, code, nonce).auth_user == request.auth_user,
        header_value(request.message.headers, challenge_header(code)) is None ==> header_value(
            challenged(request, realm, code, nonce).message.headers,
            challenge_header(code),
        ) == Some(challenge_text(realm, nonce, "MD5"@)),
{
    lemma_header_names_differ();
    let name = challenge_header(code);
    let h = request.message.headers;
    let md5 = plain_header(name, challenge_text(realm, nonce, "MD5"@));
    let sha256 = plain_header(name, challenge_text(realm, nonce, "SHA-256"@));
    let sha512 = plain_header(name, challenge_text(realm, nonce, "SHA-512-256"@));
    lemma_appended_header(h, md5, "Authorization"@);
    lemma_appended_header(h.push(md5), sha256, "Authorization"@);
    lemma_appended_header(h.push(md5).push(sha256), sha512, "Authorization"@);
    lemma_appended_header(h, md5, "Proxy-Authorization"@);
    lemma_appended_header(h.push(md5), sha256, "Proxy-Authorization"@);
    lemma_appended_header(h.push(md5).push(sha256), sha512, "Proxy-Authorization"@);
    lemma_appended_header(h, md5, name);
    lemma_appended_header(h.push(md5), sha256, name);
    lemma_appended_header(h.push(md5).push(sha256), sha512, name);
}

/// Judging a request twice gives the same outcome: the outcome depends on the
/// credentials alone, and judging only adds what was fetched to the cache.
pub proof fn outcome_is_stable(
    auth: AuthText,
    request: RequestText,
    realm: Option<Seq<char>>,
    fetched: Option<Seq<char>>,
    now: u64,
)
    ensures
        authenticated(
            after_judging(auth, credentials_of(request.message.headers), fetched, now),
            request,
            realm,
            fetched,
            now,
        ) == authenticated(auth, request, realm, fetched, now),
{
    let value = credentials_of(request.message.headers);
    match (needs_fetch(auth, value, now), fetched, auth.cache) {
        (Some(username), Some(body), Some(entries)) => {
            encode_utf8_valid_utf8(body);
            encode_utf8_decode_utf8(body);
        },
        _ => {},
    }
}

proof fn lemma_known_somewhere(realms: Seq<RealmText>, realm: Seq<char>, username: Seq<char>)
    ensures
        password_in(realms, realm, username) is Some ==> password_anywhere(realms, username) is Some,
    decreases realms.len(),
{
    if realms.len() > 0 {
        lemma_known_somewhere(realms.skip(1), realm, username);
    }
}

/// A user that no realm knows is never let in by the static backend.
pub proof fn unknown_user_is_refused(
    auth: AuthText,
    value: Seq<char>,
    realm: Seq<char>,
    method: Seq<char>,
    fetched: Option<Seq<char>>,
    now: u64,
)
    requires
        auth.backend == AuthBackendType::Static,
        digest_fields(value) matches Some(f) ==> password_anywhere(auth.realms, f.username) is None,
    ensures
        !valid(auth, value, realm, method, fetched, now),
{
    match digest_fields(value) {
        Some(f) => {
            lemma_known_somewhere(auth.realms, realm, f.username);
        },
        None => {},
    }
}

proof fn lemma_password_in(
    before: Seq<RealmText>,
    entry: RealmText,
    after: Seq<RealmText>,
    username: Seq<char>,
)
    requires
        assoc(entry.users, username) is Some,
        forall|i: int| 0 <= i < before.len() ==> (#[trigger] before[i]).realm != entry.realm,
    ensures
        password_in(before + seq![entry] + after, entry.realm, username) == assoc(
            entry.users,
            username,
        ),
    decreases before.len(),
{
    let all = before + seq![entry] + after;
    if before.len() > 0 {
        let rest = before.skip(1);
        assert(all[0] == before[0]);
        assert(all.skip(1) =~= rest + seq![entry] + after);
        assert forall|i: int| 0 <= i < rest.len() implies (#[trigger] rest[i]).realm != entry.realm by {
            assert(rest[i] == before[i + 1]);
        }
        lemma_password_in(rest, entry, after, username);
    } else {
        assert(all[0] == entry);
    }
}

/// Credentials are judged by the password of the realm that was asked for, in
/// whatever order the realms are listed.
pub proof fn given_realm_decides(
    before: Seq<RealmText>,
    entry: RealmText,
    after: Seq<RealmText>,
    username: Seq<char>,
)
    requires
        assoc(entry.users, username) is Some,
        forall|i: int| 0 <= i < before.len() ==> (#[trigger] before[i]).realm != entry.realm,
    ensures
        password_for(before + seq![entry] + after, entry.realm, username) == assoc(
            entry.users,
            username,
        ),
{
    lemma_password_in(before, entry, after, username);
}

/// A cached credential is served while it is under its lifetime, and only then.
pub proof fn stored_credential_is_cached(
    entries: Map<Seq<char>, (Seq<u8>, u64)>,
    username: Seq<char>,
    value: Seq<char>,
    ttl_secs: u64,
    now: u64,
    later: u64,
)
    ensures
        cached(
            Some(entries.insert(username, (encode_utf8(value), now))),
            username,
            ttl_secs,
            later,
        ) == if age_of(later, now) < ttl_secs * 1_000_000_000 {
            Some(value)
        } else {
            None
        },
{
    encode_utf8_valid_utf8(value);
    encode_utf8_decode_utf8(value);
}

} // verus!
