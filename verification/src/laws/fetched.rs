//! Laws of credentials that are fetched over HTTP, and of stored vectors.

use crate::auth::{
    cached, credential_from_response, credentials_of, AuthBackendType, HttpAuthConfig, PyAuth,
};
use crate::digest::{password_ha1, DigestFields};
use crate::request::PyRequest;
use crate::sip::{header_value, method_or, SipMessage};
use crate::text::{
    find_text, lemma_find_text_complete, lemma_find_text_range, occurs_at, opt_text, replace_all,
    trim_text,
};
use crate::timed_map::{is_cache_fresh, is_fresh_at};
use crate::vectors::{AuthVectorStore, ImsAuthVector};
use vstd::prelude::*;
use vstd::string::*;

verus! {

/// A credential that was kept for a user is given back for that user while its
/// time lasts, and for no longer; another user's is not touched.
pub proof fn kept_credential_lasts_its_time(
    auth: &mut PyAuth,
    config: HttpAuthConfig,
    storing: &mut PyAuth,
    username: &str,
    value: &str,
    now: u64,
    after: PyAuth,
    ttl: u64,
    later: u64,
    given: Option<String>,
    other: &str,
    others: Option<String>,
    before: Option<String>,
    start: PyAuth,
)
    requires
        config.cache_ttl_secs > 0,
        ttl > 0,
        now <= later,
        call_ensures(PyAuth::set_http_config, (auth, config), ()),
        call_ensures(PyAuth::store_credential, (storing, username, value, now), ()),
        call_ensures(PyAuth::cached_credential, (&after, username, ttl, later), given),
        other@ != username@,
        call_ensures(PyAuth::cached_credential, (&after, other, ttl, later), others),
        call_ensures(PyAuth::cached_credential, (&start, other, ttl, later), before),
    ensures
        *old(storing) == *final(auth) && after == *final(storing) ==> opt_text(given) == if later
            - now < ttl * 1_000_000_000 {
            Some(value@)
        } else {
            None
        },
        start == *old(storing) && after == *final(storing) ==> opt_text(others) == opt_text(before),
{
    crate::auth::stored_credential_is_cached(
        crate::timed_map::no_entries(),
        username@,
        value@,
        ttl,
        now,
        later,
    );
}

/// Without a lifetime for them no credential is kept; with one, none is kept to
/// begin with.
pub proof fn nothing_is_kept_without_a_lifetime(
    auth: &mut PyAuth,
    config: HttpAuthConfig,
    after: PyAuth,
    keeps: bool,
    username: &str,
    ttl: u64,
    now: u64,
    given: Option<String>,
)
    requires
        call_ensures(PyAuth::set_http_config, (auth, config), ()),
        call_ensures(PyAuth::has_ha1_cache, (&after,), keeps),
        call_ensures(PyAuth::cached_credential, (&after, username, ttl, now), given),
    ensures
        after == *final(auth) ==> (keeps <==> config.cache_ttl_secs > 0),
        after == *final(auth) ==> given is None,
        final(auth)@.realms == old(auth)@.realms,
        final(auth)@.default_realm == old(auth)@.default_realm,
        final(auth)@.aka == old(auth)@.aka,
        final(auth)@.backend == old(auth)@.backend,
{
}

/// With credentials that are fetched, a request is authentic exactly when its
/// response verifies: under the fetched text itself where that is an HA1, and
/// else under the HA1 of the fetched text as the user's password in the realm.
pub proof fn fetched_credential_verifies_the_response(
    auth: &mut PyAuth,
    config: HttpAuthConfig,
    request: PyRequest,
    message: SipMessage,
    realm: &str,
    body: String,
    now: u64,
    authentic: bool,
    value: &str,
    fields: DigestFields,
    username: &str,
    text: &str,
    ha1: String,
    secret: &str,
    method: &str,
    kind: String,
    verified: bool,
    cached: Option<String>,
)
    requires
        old(auth)@.backend == AuthBackendType::Http,
        old(auth)@.http == Some(config@),
        username@ == fields.username@,
        call_ensures(
            PyAuth::cached_credential,
            (old(auth), username, config.cache_ttl_secs, now),
            cached,
        ),
        text@ == match cached {
            Some(text) => text@,
            None => body@,
        },
        call_ensures(
            PyAuth::check_credentials,
            (auth, &request, Some(realm), Some(body), now),
            authentic,
        ),
        request@.message == message@,
        credentials_of(message@.headers) == Some(value@),
        call_ensures(SipMessage::method_or, (&message, "REGISTER"), kind),
        method@ == kind@,
        call_ensures(DigestFields::parse, (value,), Some(fields)),
        call_ensures(password_ha1, (fields.algorithm, username, realm, text), ha1),
        secret@ == if config.ha1 {
            text@
        } else {
            ha1@
        },
        call_ensures(DigestFields::verify, (&fields, secret, method), verified),
    ensures
        authentic == verified,
{
}

/// The credentials of a request are those of its Authorization header, and only
/// without one those of its Proxy-Authorization header.
pub proof fn authorization_comes_before_proxy(request: PyRequest, plain: Seq<char>, proxy: Seq<char>)
    ensures
        header_value(request@.message.headers, "Authorization"@) == Some(plain) ==> credentials_of(
            request@.message.headers,
        ) == Some(plain),
        header_value(request@.message.headers, "Authorization"@) is None && header_value(
            request@.message.headers,
            "Proxy-Authorization"@,
        ) == Some(proxy) ==> credentials_of(request@.message.headers) == Some(proxy),
{
}

proof fn lemma_replaced_once(front: Seq<char>, needle: Seq<char>, with: Seq<char>, back: Seq<char>)
    requires
        needle.len() > 0,
        forall|k: int| 0 <= k < front.len() ==> !occurs_at(front + needle + back, needle, k),
        forall|k: int| 0 <= k ==> !occurs_at(back, needle, k),
    ensures
        replace_all(front + needle + back, needle, with) == front + with + back,
{
    let s = front + needle + back;
    let at = front.len() as int;
    assert(s.subrange(at, at + needle.len()) =~= needle);
    assert(occurs_at(s, needle, at));
    lemma_find_text_range(s, needle, 0);
    match find_text(s, needle, 0) {
        Some(found) => {
            assert(found >= at);
            lemma_found_is_first(s, needle, 0, at);
        },
        None => {
            lemma_find_text_complete(s, needle, 0);
        },
    }
    assert(find_text(s, needle, 0) == Some(at));
    assert(s.take(at) =~= front);
    assert(s.skip(at + needle.len()) =~= back);
    lemma_find_text_range(back, needle, 0);
    assert(find_text(back, needle, 0) is None) by {
        if find_text(back, needle, 0) is Some {
            assert(occurs_at(back, needle, find_text(back, needle, 0)->0));
        }
    }
    assert(replace_all(back, needle, with) == back);
}

proof fn lemma_found_is_first(s: Seq<char>, needle: Seq<char>, from: int, at: int)
    requires
        0 <= from <= at,
        occurs_at(s, needle, at),
    ensures
        find_text(s, needle, from) matches Some(found) && found <= at,
    decreases at - from,
{
    if from < at && !occurs_at(s, needle, from) {
        lemma_found_is_first(s, needle, from + 1, at);
    }
}

/// What is fetched is the user's: the name from the credentials stands in the
/// address where it says so. Nothing is fetched while a credential is kept.
pub proof fn fetch_asks_for_the_user(
    auth: PyAuth,
    config: HttpAuthConfig,
    value: &str,
    fields: DigestFields,
    username: &str,
    now: u64,
    front: Seq<char>,
    back: Seq<char>,
    kept: Option<String>,
    fetch: Option<(String, String)>,
    hit: bool,
)
    requires
        auth@.backend == AuthBackendType::Http,
        auth@.http == Some(config@),
        call_ensures(DigestFields::parse, (value,), Some(fields)),
        username@ == fields.username@,
        call_ensures(PyAuth::cached_credential, (&auth, username, config.cache_ttl_secs, now), kept),
        call_ensures(PyAuth::credential_fetch, (&auth, Some(value), now), fetch),
        call_ensures(PyAuth::is_cache_hit, (&auth, Some(value), now), hit),
        config.url@ == front + "{username}"@ + back,
        forall|k: int| 0 <= k < front.len() ==> !occurs_at(config.url@, "{username}"@, k),
        forall|k: int| 0 <= k ==> !occurs_at(back, "{username}"@, k),
    ensures
        hit == (kept is Some),
        kept is Some ==> fetch is None,
        kept is None ==> (fetch matches Some(asked) && asked.0@ == fields.username@ && asked.1@
            == front + fields.username@ + back),
{
    reveal_strlit("{username}");
    lemma_replaced_once(front, "{username}"@, fields.username@, back);
}

/// A credential is what the answer holds between the white space around it, and
/// there is none in an answer that reports a failure.
pub proof fn credential_is_the_trimmed_answer(
    success: bool,
    body: &str,
    trimmed: String,
    credential: Option<String>,
)
    requires
        call_ensures(trim_text, (body,), trimmed),
        call_ensures(credential_from_response, (success, body), credential),
    ensures
        success ==> opt_text(credential) == Some(trimmed@),
        !success ==> credential is None,
{
}

/// An entry is fresh while less than its lifetime has passed since it was made;
/// one that was made later than now has just been made.
pub proof fn entry_is_fresh_for_its_lifetime(
    at: u64,
    now: u64,
    ttl: u64,
    fresh: bool,
    age: u64,
    young: bool,
)
    requires
        call_ensures(is_fresh_at, (at, now, ttl), fresh),
        call_ensures(is_cache_fresh, (age, ttl), young),
    ensures
        at <= now ==> (fresh <==> now - at < ttl),
        now < at ==> (fresh <==> ttl > 0),
        young <==> age < ttl,
{
}

/// A vector that is stored for a nonce comes back for it within two minutes,
/// once, with its response and without keys of an older one; it leaves those of
/// another nonce alone.
pub proof fn stored_response_comes_back_once(
    store: &mut AuthVectorStore,
    nonce: String,
    response: Vec<u8>,
    now: u64,
    taking: &mut AuthVectorStore,
    asked: &str,
    later: u64,
    taken: Option<ImsAuthVector>,
    again: &mut AuthVectorStore,
    second: Option<ImsAuthVector>,
)
    requires
        now <= later,
        asked@ == nonce@,
        call_ensures(AuthVectorStore::insert, (store, nonce, response, now), ()),
        call_ensures(AuthVectorStore::take, (taking, asked, later), taken),
        call_ensures(AuthVectorStore::take, (again, asked, later), second),
    ensures
        *old(taking) == *final(store) ==> {
            &&& taken is Some <==> later - now < 120_000_000_000
            &&& taken matches Some(vector) ==> vector.expected_response@ == response@
                && vector.stored_at == now && vector.ck is None && vector.ik is None
        },
        *old(again) == *final(taking) ==> second is None,
{
}

} // verus!
