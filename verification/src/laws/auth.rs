//! Laws of authentication.

use crate::auth::aka::{aka_entry, extract_resync, AkaStep, AkaVector, ImsStep, MaaAnswer};
use crate::auth::{
    credentials_of, digest_records, issue_challenge, password_for, password_in, realms_text,
    AkaText, BanRecord, DigestRecords, PyAuth, RealmText, RealmUsers,
};
use crate::base64::{base64_round_trip, decoded, encoded};
use crate::digest::{
    bare_uri, extract_digest_param, extract_nonce_field, extract_response_field, extract_username,
    password_ha1, DigestFields,
};
use crate::error::ScriptError;
use crate::hex::{hex_bytes, hex_text};
use crate::net::ip_of;
use crate::request::{PyRequest, RequestActionText, RequestText};
use crate::sip::{header_of, header_value, method_or, removed_header_is_gone, set_header_is_found};
use crate::text::{assoc, opt_str, opt_text, pairs_text};
use crate::timed_map::age_of;
use crate::vectors::{AuthVectorStore, ImsAuthVector};
use vstd::prelude::*;
use vstd::string::*;

verus! {

/// The parameters of an `Authorization` value are read each under its own name.
pub proof fn digest_parameters_are_read_by_name(
    value: &str,
    fields: DigestFields,
    username: Option<String>,
    realm: Option<String>,
    nonce: Option<String>,
    uri: Option<String>,
    response: Option<String>,
    qop: Option<String>,
    cnonce: Option<String>,
    nc: Option<String>,
)
    requires
        call_ensures(DigestFields::parse, (value,), Some(fields)),
        call_ensures(extract_username, (value,), username),
        call_ensures(extract_digest_param, (value, "realm"), realm),
        call_ensures(extract_nonce_field, (value,), nonce),
        call_ensures(extract_digest_param, (value, "uri"), uri),
        call_ensures(extract_response_field, (value,), response),
        call_ensures(extract_digest_param, (value, "qop"), qop),
        call_ensures(extract_digest_param, (value, "cnonce"), cnonce),
        call_ensures(extract_digest_param, (value, "nc"), nc),
    ensures
        opt_text(username) == Some(fields.username@),
        opt_text(realm) == Some(fields.realm@),
        opt_text(nonce) == Some(fields.nonce@),
        opt_text(uri) == Some(fields.uri@),
        opt_text(response) == Some(fields.response@),
        opt_text(qop) == opt_text(fields.qop),
        opt_text(cnonce) == opt_text(fields.cnonce),
        opt_text(nc) == opt_text(fields.nc),
{
}

proof fn lemma_password_in(realms: Seq<RealmText>, realm: Seq<char>, username: Seq<char>)
    ensures
        match password_in(realms, realm, username) {
            Some(password) => exists|i: int|
                0 <= i < realms.len() && (#[trigger] realms[i]).realm == realm && assoc(
                    realms[i].users,
                    username,
                ) == Some(password),
            None => forall|i: int|
                0 <= i < realms.len() && (#[trigger] realms[i]).realm == realm ==> assoc(
                    realms[i].users,
                    username,
                ) is None,
        },
    decreases realms.len(),
{
    if realms.len() > 0 {
        let rest = realms.skip(1);
        lemma_password_in(rest, realm, username);
        if realms[0].realm == realm && assoc(realms[0].users, username) is Some {
        } else {
            match password_in(rest, realm, username) {
                Some(password) => {
                    let i = choose|i: int|
                        0 <= i < rest.len() && (#[trigger] rest[i]).realm == realm && assoc(
                            rest[i].users,
                            username,
                        ) == Some(password);
                    assert(realms[i + 1] == rest[i]);
                },
                None => {
                    assert forall|i: int|
                        0 <= i < realms.len() && (#[trigger] realms[i]).realm == realm implies assoc(
                        realms[i].users,
                        username,
                    ) is None by {
                        if i > 0 {
                            assert(rest[i - 1] == realms[i]);
                        }
                    }
                },
            }
        }
    }
}

/// The password of a user in a realm is one that a realm of that name lists for
/// the user, where any does.
pub proof fn password_is_that_of_the_realm(users: Seq<RealmUsers>, realm: Seq<char>, username: Seq<char>)
    ensures
        (exists|i: int|
            0 <= i < users.len() && (#[trigger] users[i]).realm@ == realm && assoc(
                pairs_text(users[i].users@),
                username,
            ) is Some) ==> (exists|i: int|
            0 <= i < users.len() && (#[trigger] users[i]).realm@ == realm && password_for(
                realms_text(users),
                realm,
                username,
            ) == assoc(pairs_text(users[i].users@), username)),
{
    let realms = realms_text(users);
    lemma_password_in(realms, realm, username);
    if exists|i: int|
        0 <= i < users.len() && (#[trigger] users[i]).realm@ == realm && assoc(
            pairs_text(users[i].users@),
            username,
        ) is Some {
        let k = choose|i: int|
            0 <= i < users.len() && (#[trigger] users[i]).realm@ == realm && assoc(
                pairs_text(users[i].users@),
                username,
            ) is Some;
        assert(realms[k] == users[k]@);
        assert(password_in(realms, realm, username) is Some);
        let password = password_in(realms, realm, username)->0;
        let i = choose|i: int|
            0 <= i < realms.len() && (#[trigger] realms[i]).realm == realm && assoc(
                realms[i].users,
                username,
            ) == Some(password);
        assert(realms[i] == users[i]@);
        assert(users[i].realm@ == realm);
    }
}

/// With a list of users a request is authentic exactly when the response in its
/// credentials is the one that verifies under the HA1 of the user's password in
/// the realm, for the request's own method.
pub proof fn listed_user_is_verified_by_password(
    auth: &mut PyAuth,
    users: Vec<RealmUsers>,
    default_realm: String,
    request: PyRequest,
    realm: &str,
    fetched: Option<String>,
    now: u64,
    authentic: bool,
    value: &str,
    fields: DigestFields,
    username: &str,
    password: &str,
    ha1: String,
    secret: &str,
    method: &str,
    verified: bool,
)
    requires
        call_ensures(PyAuth::new, (users, default_realm), *old(auth)),
        call_ensures(
            PyAuth::verify_digest,
            (auth, &request, Some(realm), fetched, now),
            authentic,
        ),
        credentials_of(request@.message.headers) == Some(value@),
        method@ == method_or(request@.message.start, "REGISTER"@),
        call_ensures(DigestFields::parse, (value,), Some(fields)),
        password_for(realms_text(users@), realm@, fields.username@) == Some(password@),
        username@ == fields.username@,
        call_ensures(password_ha1, (fields.algorithm, username, realm, password), ha1),
        secret@ == ha1@,
        call_ensures(DigestFields::verify, (&fields, secret, method), verified),
    ensures
        authentic == verified,
{
}

/// A user who is listed nowhere is refused, whatever the request carries, and so
/// is a request without credentials.
pub proof fn unlisted_user_is_refused(
    auth: &mut PyAuth,
    users: Vec<RealmUsers>,
    default_realm: String,
    request: PyRequest,
    realm: Option<&str>,
    fetched: Option<String>,
    now: u64,
    authentic: bool,
    value: &str,
    fields: DigestFields,
)
    requires
        call_ensures(PyAuth::new, (users, default_realm), *old(auth)),
        call_ensures(PyAuth::verify_digest, (auth, &request, realm, fetched, now), authentic),
        call_ensures(DigestFields::parse, (value,), Some(fields)),
        credentials_of(request@.message.headers) == Some(value@) && password_for(
            realms_text(users@),
            match realm {
                Some(realm) => realm@,
                None => default_realm@,
            },
            fields.username@,
        ) is None || credentials_of(request@.message.headers) is None,
    ensures
        !authentic,
{
}

/// Whether a request has been answered with a challenge: the code with its
/// reason, and behind the headers that it had one challenge for each algorithm,
/// MD5 first, then SHA-256, then SHA-512-256, with one realm and one nonce.
pub open spec fn is_challenged(
    before: RequestText,
    after: RequestText,
    code: u16,
    reason: Seq<char>,
    header: Seq<char>,
    realm: Seq<char>,
    nonce: Seq<char>,
) -> bool {
    let h = before.message.headers;
    let added = after.message.headers.skip(h.len() as int);
    &&& after.action == RequestActionText::Reply { code, reason, reliable: false }
    &&& after.message.headers.len() == h.len() + 3
    &&& after.message.headers.take(h.len() as int) == h
    &&& forall|i: int| 0 <= i < 3 ==> (#[trigger] added[i]).name == header && added[i].address is None
    &&& added[0].value == "Digest realm=\""@ + realm + "\", nonce=\""@ + nonce + "\", algorithm="@
        + "MD5"@ + ", qop=\"auth\""@
    &&& added[1].value == "Digest realm=\""@ + realm + "\", nonce=\""@ + nonce + "\", algorithm="@
        + "SHA-256"@ + ", qop=\"auth\""@
    &&& added[2].value == "Digest realm=\""@ + realm + "\", nonce=\""@ + nonce + "\", algorithm="@
        + "SHA-512-256"@ + ", qop=\"auth\""@
    &&& after.message.start == before.message.start
    &&& after.message.body == before.message.body
    &&& after.auth_user == before.auth_user
    &&& after.source_ip == before.source_ip
    &&& after.transport == before.transport
}

proof fn lemma_challenged(before: RequestText, realm: Seq<char>, code: u16, nonce: Seq<char>)
    requires
        code == 401 || code == 407,
    ensures
        code == 401 ==> is_challenged(
            before,
            crate::auth::challenged(before, realm, code, nonce),
            401,
            "Unauthorized"@,
            "WWW-Authenticate"@,
            realm,
            nonce,
        ),
        code == 407 ==> is_challenged(
            before,
            crate::auth::challenged(before, realm, code, nonce),
            407,
            "Proxy Authentication Required"@,
            "Proxy-Authenticate"@,
            realm,
            nonce,
        ),
{
    let h = before.message.headers;
    let after = crate::auth::challenged(before, realm, code, nonce).message.headers;
    assert(after.take(h.len() as int) =~= h);
}

/// A challenge that is issued by a registrar names `WWW-Authenticate`, one that
/// is issued by a proxy `Proxy-Authenticate`, with the realm as the realm and the
/// nonce as the nonce.
pub proof fn challenge_names_realm_and_nonce(
    request: &mut PyRequest,
    realm: &str,
    code: u16,
    nonce: &str,
)
    requires
        code == 401 || code == 407,
        call_ensures(issue_challenge, (request, realm, code, nonce), ()),
    ensures
        code == 401 ==> is_challenged(
            old(request)@,
            final(request)@,
            401,
            "Unauthorized"@,
            "WWW-Authenticate"@,
            realm@,
            nonce@,
        ),
        code == 407 ==> is_challenged(
            old(request)@,
            final(request)@,
            407,
            "Proxy Authentication Required"@,
            "Proxy-Authenticate"@,
            realm@,
            nonce@,
        ),
{
    lemma_challenged(old(request)@, realm@, code, nonce@);
}

/// A registrar's digest check that fails answers 401 with `WWW-Authenticate`
/// challenges for the realm that was asked for.
pub proof fn failed_check_challenges_as_registrar(
    auth: &mut PyAuth,
    request: &mut PyRequest,
    realm: &str,
    fetched: Option<String>,
    now: u64,
)
    requires
        call_ensures(PyAuth::challenge_www, (auth, request, Some(realm), fetched, now), false)
            || call_ensures(
            PyAuth::require_www_digest,
            (auth, request, Some(realm), fetched, now),
            false,
        ) || call_ensures(
            PyAuth::require_digest,
            (auth, request, Some(realm), fetched, now),
            false,
        ),
    ensures
        exists|nonce: Seq<char>| #[trigger]
            is_challenged(
                old(request)@,
                final(request)@,
                401,
                "Unauthorized"@,
                "WWW-Authenticate"@,
                realm@,
                nonce,
            ),
{
    let nonce = choose|nonce: Seq<char>|
        crate::auth::is_nonce(nonce) && final(request)@ == #[trigger] crate::auth::challenged(
            old(request)@,
            realm@,
            401,
            nonce,
        );
    lemma_challenged(old(request)@, realm@, 401, nonce);
}

/// A proxy's digest check that fails answers 407 with `Proxy-Authenticate`
/// challenges for the realm that was asked for.
pub proof fn failed_check_challenges_as_proxy(
    auth: &mut PyAuth,
    request: &mut PyRequest,
    realm: &str,
    fetched: Option<String>,
    now: u64,
)
    requires
        call_ensures(PyAuth::challenge_proxy, (auth, request, Some(realm), fetched, now), false)
            || call_ensures(
            PyAuth::require_proxy_digest,
            (auth, request, Some(realm), fetched, now),
            false,
        ),
    ensures
        exists|nonce: Seq<char>| #[trigger]
            is_challenged(
                old(request)@,
                final(request)@,
                407,
                "Proxy Authentication Required"@,
                "Proxy-Authenticate"@,
                realm@,
                nonce,
            ),
{
    let nonce = choose|nonce: Seq<char>|
        crate::auth::is_nonce(nonce) && final(request)@ == #[trigger] crate::auth::challenged(
            old(request)@,
            realm@,
            407,
            nonce,
        );
    lemma_challenged(old(request)@, realm@, 407, nonce);
}

/// A request that passes a digest check is one that the plain check finds
/// authentic, runs under the user name in its credentials and carries them no
/// more.
pub proof fn passed_request_runs_as_its_user(
    auth: &mut PyAuth,
    request: &mut PyRequest,
    realm: Option<&str>,
    fetched: Option<String>,
    now: u64,
    value: &str,
    username: Option<String>,
)
    requires
        call_ensures(PyAuth::require_digest, (auth, request, realm, fetched, now), true)
            || call_ensures(PyAuth::require_www_digest, (auth, request, realm, fetched, now), true)
            || call_ensures(PyAuth::require_proxy_digest, (auth, request, realm, fetched, now), true)
            || call_ensures(PyAuth::challenge_www, (auth, request, realm, fetched, now), true)
            || call_ensures(PyAuth::challenge_proxy, (auth, request, realm, fetched, now), true),
        header_value(old(request)@.message.headers, "Authorization"@) == Some(value@),
        call_ensures(extract_username, (value,), username),
    ensures
        username is Some ==> final(request)@.auth_user == opt_text(username),
        header_of(final(request)@.message.headers, "Proxy-Authorization"@) is None,
        final(request)@.action == old(request)@.action,
{
    crate::auth::accepted_request_carries_no_credentials(old(request)@, "Via"@);
    removed_header_is_gone(
        crate::sip::without_header(old(request)@.message.headers, "Authorization"@),
        "Proxy-Authorization"@,
    );
}

/// The records of a check name the sender: a success clears it and counts
/// nothing, a failure is held against it and counts once.
pub proof fn records_follow_the_outcome(request: PyRequest, accepted: bool, records: DigestRecords)
    requires
        call_ensures(digest_records, (&request, accepted), records),
    ensures
        records.failures == if accepted {
            0int
        } else {
            1int
        },
        match records.ban {
            Some(BanRecord::Success(ip)) => accepted && ip_of(request@.source_ip) == Some(ip),
            Some(BanRecord::Failure(ip)) => !accepted && ip_of(request@.source_ip) == Some(ip),
            None => ip_of(request@.source_ip) is None,
        },
{
}

proof fn lemma_aka_entry(aka: Seq<(Seq<char>, AkaText)>, key: Seq<char>)
    ensures
        aka_entry(aka, key) matches Some(c) ==> exists|i: int|
            0 <= i < aka.len() && #[trigger] aka[i] == (key, c),
    decreases aka.len(),
{
    if aka.len() > 0 && aka[0].0 != key {
        lemma_aka_entry(aka.skip(1), key);
        if let Some(c) = aka_entry(aka, key) {
            let i = choose|i: int| 0 <= i < aka.skip(1).len() && #[trigger] aka.skip(1)[i] == (key, c);
            assert(aka[i + 1] == aka.skip(1)[i]);
        }
    }
}

/// A subscriber is challenged under the keys of one entry: K as K, OP as OP and
/// AMF as AMF, with the first sequence number.
pub proof fn challenge_uses_the_keys_of_one_subscriber(
    auth: PyAuth,
    store: &mut AuthVectorStore,
    request: &mut PyRequest,
    realm: Option<&str>,
    now: u64,
    k: Vec<u8>,
    op: Vec<u8>,
    sqn: Vec<u8>,
    amf: Vec<u8>,
)
    requires
        call_ensures(
            PyAuth::require_aka_digest,
            (&auth, store, request, realm, now),
            Ok(AkaStep::Challenge { k, op, sqn, amf }),
        ),
    ensures
        exists|i: int|
            0 <= i < auth@.aka.len() && hex_bytes((#[trigger] auth@.aka[i]).1.k) == Some(k@)
                && hex_bytes(auth@.aka[i].1.op) == Some(op@) && hex_bytes(auth@.aka[i].1.amf) == Some(
                amf@,
            ),
        k@.len() == 16,
        op@.len() == 16,
        amf@.len() == 2,
        sqn@.len() == 6,
        sqn@[5] == 1,
        forall|j: int| 0 <= j < 5 ==> #[trigger] sqn@[j] == 0,
{
    let h = old(request)@.message.headers;
    let impi = crate::auth::aka::impi_of(h);
    let realm_value = crate::auth::realm_or(auth@, opt_str(realm));
    lemma_aka_entry(auth@.aka, impi);
    lemma_aka_entry(auth@.aka, crate::digest::before_at(impi));
    lemma_aka_entry(auth@.aka, impi + "@"@ + realm_value);
    let credential = crate::auth::aka::aka_credential(auth@.aka, impi, realm_value)->0;
    let i = choose|i: int| 0 <= i < auth@.aka.len() && (#[trigger] auth@.aka[i]).1 == credential;
    assert(hex_bytes(auth@.aka[i].1.k) == Some(k@));
}

/// A challenge that is sent from a vector has the octets of RAND and then those
/// of AUTN in its nonce, and the vector's expected response is stored under that
/// nonce, to be taken once within its time.
pub proof fn sent_challenge_carries_rand_and_autn(
    auth: PyAuth,
    store: &mut AuthVectorStore,
    request: &mut PyRequest,
    realm: &str,
    vector: AkaVector,
    now: u64,
    nonce: &str,
    kept: &mut AuthVectorStore,
    later: u64,
    taken: Option<ImsAuthVector>,
)
    requires
        call_ensures(
            PyAuth::send_aka_challenge,
            (&auth, store, request, Some(realm), vector, now),
            (),
        ),
        call_ensures(AuthVectorStore::take, (kept, nonce, later), taken),
    ensures
        final(request)@.action == (RequestActionText::Reply {
            code: 401,
            reason: "Unauthorized"@,
            reliable: false,
        }),
        exists|text: Seq<char>|
            #![trigger decoded(text)]
            decoded(text) == Some(vector.rand@ + vector.autn@) && header_value(
                final(request)@.message.headers,
                "WWW-Authenticate"@,
            ) == Some(
                "Digest realm=\""@ + realm@ + "\", nonce=\""@ + text + "\", algorithm="@
                    + "AKAv1-MD5"@ + ", qop=\"auth\""@,
            ) && (*old(kept) == *final(store) && nonce@ == text ==> match taken {
                Some(v) => v.expected_response@ == vector.xres@ && v.ck is None && v.ik is None,
                None => age_of(later, now) >= 120_000_000_000,
            }),
{
    let text = encoded(vector.rand@ + vector.autn@);
    base64_round_trip(vector.rand@ + vector.autn@);
    let value = crate::auth::challenge_text(realm@, text, "AKAv1-MD5"@);
    set_header_is_found(
        old(request)@.message.headers,
        crate::auth::plain_header("WWW-Authenticate"@, value),
    );
    assert(decoded(text) == Some(vector.rand@ + vector.autn@));
}

/// A resynchronisation that a terminal asks for carries the RAND of the nonce
/// that it answers, the first sixteen octets, and behind them the fourteen
/// octets of its AUTS.
pub proof fn resync_is_rand_and_then_auts(
    value: &str,
    found: (String, Vec<u8>),
    auts: Option<String>,
    nonce: Option<String>,
)
    requires
        call_ensures(extract_resync, (value,), Some(found)),
        call_ensures(extract_digest_param, (value, "auts"), auts),
        call_ensures(extract_nonce_field, (value,), nonce),
    ensures
        opt_text(nonce) == Some(found.0@),
        auts is Some,
        found.1@.len() == 30,
        decoded(found.0@) matches Some(octets) && octets.len() >= 16 && found.1@.take(16)
            == octets.take(16),
        decoded(auts->0@) == Some(found.1@.skip(16)),
{
    let octets = decoded(found.0@)->0;
    let tail = decoded(auts->0@)->0;
    assert(found.1@.take(16) =~= octets.take(16));
    assert(found.1@.skip(16) =~= tail);
}

/// The HSS is asked for one vector of the identity that the request asserts, or
/// else comes from: by the AKA scheme with the terminal's token where it asks to
/// resynchronise, by the digest scheme without one where it does not.
pub proof fn hss_is_asked_for_the_identity(
    auth: PyAuth,
    store: &mut AuthVectorStore,
    request: &mut PyRequest,
    realm: Option<&str>,
    connected: bool,
    now: u64,
    step: ImsStep,
    value: &str,
    resync: Option<(String, Vec<u8>)>,
)
    requires
        call_ensures(
            PyAuth::require_ims_digest,
            (&auth, store, request, realm, connected, now),
            Ok(step),
        ),
        header_value(old(request)@.message.headers, "Authorization"@) == Some(value@),
        call_ensures(extract_resync, (value,), resync),
    ensures
        step matches ImsStep::SendMar { public_identity, items, auth_scheme, resync: token } ==> ({
            &&& items == 1
            &&& match header_of(old(request)@.message.headers, "P-Asserted-Identity"@) {
                Some(asserted) => public_identity@ == bare_uri(asserted.value),
                None => header_of(old(request)@.message.headers, "From"@) matches Some(from)
                    ==> public_identity@ == bare_uri(from.value),
            }
            &&& match resync {
                Some(found) => auth_scheme@ == "Digest-AKAv1-MD5"@ && (token matches Some(octets)
                    && octets@ == found.1@),
                None => auth_scheme@ == "SIP Digest"@ && token is None,
            }
        }),
        resync is Some ==> step is SendMar && final(request)@ == old(request)@,
{
}

/// An answer of the HSS that is no success has the request refused; one that is
/// has it challenged, with the confidentiality key as `ck` and the integrity key
/// as `ik`, and the expected response stored under the nonce.
pub proof fn hss_answer_becomes_a_challenge(
    auth: PyAuth,
    store: &mut AuthVectorStore,
    request: &mut PyRequest,
    realm: &str,
    resync: bool,
    maa: MaaAnswer,
    challenge: Vec<u8>,
    expected: Vec<u8>,
    ck: Vec<u8>,
    ik: Vec<u8>,
    now: u64,
    nonce: &str,
    kept: &mut AuthVectorStore,
    later: u64,
    taken: Option<ImsAuthVector>,
)
    requires
        maa.result_code == Some(2001u32),
        maa.authenticate == Some(challenge),
        maa.authorization == Some(expected),
        maa.confidentiality_key == Some(ck),
        maa.integrity_key == Some(ik),
        call_ensures(
            PyAuth::complete_ims_digest,
            (&auth, store, request, Some(realm), resync, Ok(maa), now),
            Ok(false),
        ),
        call_ensures(AuthVectorStore::take, (kept, nonce, later), taken),
    ensures
        final(request)@.action == (RequestActionText::Reply {
            code: 401,
            reason: "Unauthorized"@,
            reliable: false,
        }),
        exists|text: Seq<char>|
            #![trigger decoded(text)]
            decoded(text) == Some(challenge@) && header_value(
                final(request)@.message.headers,
                "WWW-Authenticate"@,
            ) == Some(
                "Digest realm=\""@ + realm@ + "\", nonce=\""@ + text + "\", algorithm="@
                    + "AKAv1-MD5"@ + ", qop=\"auth\""@ + (", ck=\""@ + hex_text(ck@) + "\""@) + (
                ", ik=\""@ + hex_text(ik@) + "\""@),
            ) && (*old(kept) == *final(store) && nonce@ == text ==> match taken {
                Some(v) => v.expected_response@ == expected@,
                None => age_of(later, now) >= 120_000_000_000,
            }),
{
    base64_round_trip(challenge@);
    let text = encoded(challenge@);
    let value = crate::auth::aka::ims_challenge_text(realm@, text, Some(ck@), Some(ik@));
    set_header_is_found(
        old(request)@.message.headers,
        crate::auth::plain_header("WWW-Authenticate"@, value),
    );
    assert(decoded(text) == Some(challenge@));
}

/// An answer of the HSS that is no success has the request refused with 403, and
/// nothing is stored.
pub proof fn refused_subscriber_is_forbidden(
    auth: PyAuth,
    store: &mut AuthVectorStore,
    request: &mut PyRequest,
    realm: Option<&str>,
    resync: bool,
    maa: MaaAnswer,
    now: u64,
    outcome: Result<bool, ScriptError>,
)
    requires
        maa.result_code != Some(2001u32),
        call_ensures(
            PyAuth::complete_ims_digest,
            (&auth, store, request, realm, resync, Ok(maa), now),
            outcome,
        ),
    ensures
        outcome == Ok::<bool, ScriptError>(false),
        final(request)@.action == (RequestActionText::Reply {
            code: 403,
            reason: "Forbidden"@,
            reliable: false,
        }),
        final(request)@.message == old(request)@.message,
        final(store)@ == old(store)@,
{
}

/// A vector that is put under a nonce comes back whole when it is taken within
/// its time: the response as the response, CK as CK and IK as IK.
pub proof fn stored_vector_comes_back_whole(
    store: &mut AuthVectorStore,
    nonce: String,
    vector: ImsAuthVector,
    kept: &mut AuthVectorStore,
    name: &str,
    later: u64,
    taken: Option<ImsAuthVector>,
)
    requires
        call_ensures(AuthVectorStore::put, (store, nonce, vector), ()),
        call_ensures(AuthVectorStore::take, (kept, name, later), taken),
        name@ == nonce@,
    ensures
        *old(kept) == *final(store) ==> (match taken {
            Some(v) => {
                &&& v.expected_response@ == vector.expected_response@
                &&& v.stored_at == vector.stored_at
                &&& match vector.ck {
                    Some(ck) => v.ck matches Some(key) && key@ == ck@,
                    None => v.ck is None,
                }
                &&& match vector.ik {
                    Some(ik) => v.ik matches Some(key) && key@ == ik@,
                    None => v.ik is None,
                }
            },
            None => age_of(later, vector.stored_at) >= 120_000_000_000,
        }),
{
}

} // verus!
