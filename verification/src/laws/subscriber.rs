//! Laws of subscribers and of the responses that prove who they are.

use crate::auth::aka::{aka_entry, extract_resync, AkaStep, ImsStep};
use crate::auth::{AkaText, PyAuth};
use crate::digest::{
    cut_at_sign, extract_nonce_field, extract_username, md5_ha1_aka, DigestFields,
};
use crate::hex::hex_bytes;
use crate::request::PyRequest;
use crate::sip::header_value;
use crate::vectors::{AuthVectorStore, ImsAuthVector};
use vstd::prelude::*;
use vstd::string::*;

verus! {

/// Whether an entry is the first under a name.
pub open spec fn first_entry(aka: Seq<(Seq<char>, AkaText)>, name: Seq<char>, i: int) -> bool {
    &&& 0 <= i < aka.len()
    &&& aka[i].0 == name
    &&& forall|j: int| 0 <= j < i ==> (#[trigger] aka[j]).0 != name
}

/// Whether no entry is under a name.
pub open spec fn no_entry(aka: Seq<(Seq<char>, AkaText)>, name: Seq<char>) -> bool {
    forall|j: int| 0 <= j < aka.len() ==> (#[trigger] aka[j]).0 != name
}

proof fn lemma_entry(aka: Seq<(Seq<char>, AkaText)>, name: Seq<char>, i: int)
    ensures
        first_entry(aka, name, i) ==> aka_entry(aka, name) == Some(aka[i].1),
        no_entry(aka, name) ==> aka_entry(aka, name) is None,
    decreases aka.len(),
{
    if aka.len() > 0 {
        let rest = aka.skip(1);
        lemma_entry(rest, name, i - 1);
        if first_entry(aka, name, i) && i > 0 {
            assert(aka[0].0 != name);
            assert forall|j: int| 0 <= j < i - 1 implies (#[trigger] rest[j]).0 != name by {
                assert(rest[j] == aka[j + 1]);
            }
        }
        if no_entry(aka, name) {
            assert(aka[0].0 != name);
            assert forall|j: int| 0 <= j < rest.len() implies (#[trigger] rest[j]).0 != name by {
                assert(rest[j] == aka[j + 1]);
            }
        }
    }
}

/// The keys of a subscriber are those under the name in the credentials; without
/// an entry of that name those under what stands before its at sign, and without
/// either those under the name in the realm.
pub proof fn subscriber_is_looked_up_by_full_name_first(
    auth: PyAuth,
    store: &mut AuthVectorStore,
    request: &mut PyRequest,
    realm: &str,
    now: u64,
    k: Vec<u8>,
    op: Vec<u8>,
    sqn: Vec<u8>,
    amf: Vec<u8>,
    value: &str,
    username: String,
    name: &str,
    short: String,
    i: int,
)
    requires
        call_ensures(
            PyAuth::require_aka_digest,
            (&auth, store, request, Some(realm), now),
            Ok(AkaStep::Challenge { k, op, sqn, amf }),
        ),
        header_value(old(request)@.message.headers, "Authorization"@) == Some(value@),
        call_ensures(extract_username, (value,), Some(username)),
        name@ == username@,
        call_ensures(cut_at_sign, (name,), short),
        first_entry(auth@.aka, username@, i) || no_entry(auth@.aka, username@) && first_entry(
            auth@.aka,
            short@,
            i,
        ) || no_entry(auth@.aka, username@) && no_entry(auth@.aka, short@) && first_entry(
            auth@.aka,
            username@ + "@"@ + realm@,
            i,
        ),
    ensures
        hex_bytes(auth@.aka[i].1.k) == Some(k@),
        hex_bytes(auth@.aka[i].1.op) == Some(op@),
        hex_bytes(auth@.aka[i].1.amf) == Some(amf@),
{
    lemma_entry(auth@.aka, username@, i);
    lemma_entry(auth@.aka, short@, i);
    lemma_entry(auth@.aka, username@ + "@"@ + realm@, i);
}

/// A subscriber who is under no name is refused with 403, and no vector is used
/// up.
pub proof fn unknown_subscriber_is_forbidden(
    auth: PyAuth,
    store: &mut AuthVectorStore,
    request: &mut PyRequest,
    realm: &str,
    now: u64,
    step: AkaStep,
    value: &str,
    username: String,
    name: &str,
    short: String,
)
    requires
        call_ensures(
            PyAuth::require_aka_digest,
            (&auth, store, request, Some(realm), now),
            Ok(step),
        ),
        header_value(old(request)@.message.headers, "Authorization"@) == Some(value@),
        call_ensures(extract_username, (value,), Some(username)),
        name@ == username@,
        call_ensures(cut_at_sign, (name,), short),
        no_entry(auth@.aka, username@),
        no_entry(auth@.aka, short@),
        no_entry(auth@.aka, username@ + "@"@ + realm@),
    ensures
        step is Forbidden,
        final(request)@.action == (crate::request::RequestActionText::Reply {
            code: 403,
            reason: "Forbidden"@,
            reliable: false,
        }),
        final(store)@ == old(store)@,
{
    lemma_entry(auth@.aka, username@, 0);
    lemma_entry(auth@.aka, short@, 0);
    lemma_entry(auth@.aka, username@ + "@"@ + realm@, 0);
}

/// A terminal that answers a challenge is verified exactly when its response is
/// the one that verifies under the response that was stored for its nonce; it is
/// then known as the user it names. The stored response is used up either way.
pub proof fn stored_response_verifies_the_terminal(
    auth: PyAuth,
    store: &mut AuthVectorStore,
    request: &mut PyRequest,
    realm: &str,
    connected: bool,
    now: u64,
    step: ImsStep,
    value: &str,
    fields: DigestFields,
    username: &str,
    nonce_text: String,
    nonce: &str,
    taking: &mut AuthVectorStore,
    taken: Option<ImsAuthVector>,
    octets: &[u8],
    ha1: String,
    secret: &str,
    verified: bool,
)
    requires
        call_ensures(
            PyAuth::require_ims_digest,
            (&auth, store, request, Some(realm), connected, now),
            Ok(step),
        ),
        header_value(old(request)@.message.headers, "Authorization"@) == Some(value@),
        call_ensures(extract_resync, (value,), None),
        call_ensures(DigestFields::parse, (value,), Some(fields)),
        username@ == fields.username@,
        call_ensures(extract_nonce_field, (value,), Some(nonce_text)),
        nonce@ == nonce_text@,
        *old(taking) == *old(store),
        call_ensures(AuthVectorStore::take, (taking, nonce, now), taken),
        taken matches Some(vector) ==> octets@ == vector.expected_response@,
        call_ensures(md5_ha1_aka, (username, realm, octets), ha1),
        secret@ == ha1@,
        call_ensures(DigestFields::verify, (&fields, secret, "REGISTER"), verified),
    ensures
        taken is Some ==> (step is Verified <==> verified),
        taken is None ==> step is SendMar,
        step is Verified ==> final(request)@.auth_user == Some(fields.username@),
        !(step is Verified) ==> final(request)@.auth_user == old(request)@.auth_user,
        final(store)@ == final(taking)@,
        final(request)@.message == old(request)@.message,
{
}

} // verus!
