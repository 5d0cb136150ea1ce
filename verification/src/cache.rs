//! Which keys of the shared caches a script may use.

use crate::error::{value_error, ErrorText, ScriptError};
use crate::text::{has_prefix, same_text, starts_with, texts};
use vstd::prelude::*;
use vstd::string::*;

verus! {

/// A key that is reserved for the server itself.
pub open spec fn reserved(key: Seq<char>) -> bool {
    starts_with(key, "siphon:"@)
}

pub open spec fn reserved_error() -> ErrorText {
    value_error("keys starting with 'siphon:' are reserved for internal use"@)
}

pub open spec fn empty_prefix_error() -> ErrorText {
    value_error("prefix must not be empty (would scan the entire keyspace)"@)
}

/// Rejects a key that is reserved.
pub fn validate_key(key: &str) -> (r: Result<(), ScriptError>)
    ensures
        match r {
            Ok(()) => !reserved(key@),
            Err(e) => reserved(key@) && e@ == reserved_error(),
        },
{
    if has_prefix(key, "siphon:") {
        Err(
            ScriptError::value(
                "keys starting with 'siphon:' are reserved for internal use".to_owned(),
            ),
        )
    } else {
        Ok(())
    }
}

/// Rejects a key prefix that is reserved or empty.
pub fn validate_prefix(prefix: &str) -> (r: Result<(), ScriptError>)
    ensures
        match r {
            Ok(()) => !reserved(prefix@) && prefix@.len() > 0,
            Err(e) => if reserved(prefix@) {
                e@ == reserved_error()
            } else {
                prefix@.len() == 0 && e@ == empty_prefix_error()
            },
        },
{
    match validate_key(prefix) {
        Ok(()) => {},
        Err(e) => {
            return Err(e);
        },
    }
    if prefix.is_empty() {
        return Err(
            ScriptError::value(
                "prefix must not be empty (would scan the entire keyspace)".to_owned(),
            ),
        );
    }
    Ok(())
}

/// What a script asks of a cache.
pub enum CacheCall {
    Fetch { key: String },
    Store { key: String, value: String, ttl: Option<u64> },
    Delete { key: String },
    ListPush { key: String, item: String },
    ListPopAll { key: String },
    Expire { key: String, ttl: u64 },
    ListLen { key: String },
    ListLenSum { prefix: String },
    Exists { key: String },
}

/// The key, or the prefix of keys, that a call is about.
pub open spec fn subject(call: CacheCall) -> Seq<char> {
    match call {
        CacheCall::Fetch { key } => key@,
        CacheCall::Store { key, .. } => key@,
        CacheCall::Delete { key } => key@,
        CacheCall::ListPush { key, .. } => key@,
        CacheCall::ListPopAll { key } => key@,
        CacheCall::Expire { key, .. } => key@,
        CacheCall::ListLen { key } => key@,
        CacheCall::ListLenSum { prefix } => prefix@,
        CacheCall::Exists { key } => key@,
    }
}

/// Why a call is refused, if it is.
pub open spec fn refusal(call: CacheCall) -> Option<ErrorText> {
    if reserved(subject(call)) {
        Some(reserved_error())
    } else if call is ListLenSum && subject(call).len() == 0 {
        Some(empty_prefix_error())
    } else {
        None
    }
}

/// Lets a call pass to the cache where a script may make it. A refused call
/// reaches no cache.
pub fn permit(call: CacheCall) -> (r: Result<CacheCall, ScriptError>)
    ensures
        match r {
            Ok(permitted) => permitted == call && refusal(call) is None,
            Err(e) => refusal(call) == Some(e@),
        },
{
    let checked = match &call {
        CacheCall::Fetch { key } => validate_key(key),
        CacheCall::Store { key, .. } => validate_key(key),
        CacheCall::Delete { key } => validate_key(key),
        CacheCall::ListPush { key, .. } => validate_key(key),
        CacheCall::ListPopAll { key } => validate_key(key),
        CacheCall::Expire { key, .. } => validate_key(key),
        CacheCall::ListLen { key } => validate_key(key),
        CacheCall::ListLenSum { prefix } => validate_prefix(prefix),
        CacheCall::Exists { key } => validate_key(key),
    };
    match checked {
        Ok(()) => Ok(call),
        Err(e) => Err(e),
    }
}

/// A call to one of the named caches.
pub struct CacheRequest {
    pub cache: String,
    pub call: CacheCall,
}

/// The `cache` namespace of scripts, with the names of the caches.
pub struct PyCacheNamespace {
    caches: Vec<String>,
}

impl View for PyCacheNamespace {
    type V = Seq<Seq<char>>;

    closed spec fn view(&self) -> Seq<Seq<char>> {
        texts(self.caches@)
    }
}

/// What a script gets for a call: the call for the named cache, or why it is
/// refused.
pub open spec fn passed_on(name: Seq<char>, call: CacheCall, r: Result<CacheRequest, ScriptError>) -> bool {
    match r {
        Ok(request) => request.cache@ == name && request.call == call && refusal(call) is None,
        Err(e) => refusal(call) == Some(e@),
    }
}

fn pass_on(name: String, call: CacheCall) -> (r: Result<CacheRequest, ScriptError>)
    ensures
        passed_on(name@, call, r),
{
    match permit(call) {
        Ok(call) => Ok(CacheRequest { cache: name, call }),
        Err(e) => Err(e),
    }
}

impl PyCacheNamespace {
    pub fn new(caches: Vec<String>) -> (r: Self)
        ensures
            r@ == texts(caches@),
    {
        PyCacheNamespace { caches }
    }

    /// Whether there is a cache of that name.
    pub fn has_cache(&self, name: &str) -> (r: bool)
        ensures
            r == self@.contains(name@),
    {
        let mut i: usize = 0;
        while i < self.caches.len()
            invariant
                i <= self.caches@.len(),
                self@ == texts(self.caches@),
                forall|k: int| 0 <= k < i ==> self@[k] != name@,
            decreases self.caches@.len() - i,
        {
            if same_text(&self.caches[i], name) {
                assert(self@[i as int] == name@);
                return true;
            }
            i += 1;
        }
        false
    }

    /// Reads a key.
    pub fn fetch(&self, name: String, key: String) -> (r: Result<CacheRequest, ScriptError>)
        ensures
            passed_on(name@, (CacheCall::Fetch { key }), r),
    {
        pass_on(name, CacheCall::Fetch { key })
    }

    /// Writes a key, with how long it lives in seconds.
    pub fn store(&self, name: String, key: String, value: String, ttl: Option<u64>) -> (r: Result<CacheRequest, ScriptError>)
        ensures
            passed_on(name@, (CacheCall::Store { key, value, ttl }), r),
    {
        pass_on(name, CacheCall::Store { key, value, ttl })
    }

    /// Deletes a key.
    pub fn delete(&self, name: String, key: String) -> (r: Result<CacheRequest, ScriptError>)
        ensures
            passed_on(name@, (CacheCall::Delete { key }), r),
    {
        pass_on(name, CacheCall::Delete { key })
    }

    /// Appends an item to the list of a key.
    pub fn list_push(&self, name: String, key: String, item: String) -> (r: Result<CacheRequest, ScriptError>)
        ensures
            passed_on(name@, (CacheCall::ListPush { key, item }), r),
    {
        pass_on(name, CacheCall::ListPush { key, item })
    }

    /// Reads and clears the list of a key.
    pub fn list_pop_all(&self, name: String, key: String) -> (r: Result<CacheRequest, ScriptError>)
        ensures
            passed_on(name@, (CacheCall::ListPopAll { key }), r),
    {
        pass_on(name, CacheCall::ListPopAll { key })
    }

    /// Sets how long a key lives, in seconds.
    pub fn expire(&self, name: String, key: String, ttl: u64) -> (r: Result<CacheRequest, ScriptError>)
        ensures
            passed_on(name@, (CacheCall::Expire { key, ttl }), r),
    {
        pass_on(name, CacheCall::Expire { key, ttl })
    }

    /// Measures the list of a key.
    pub fn list_len(&self, name: String, key: String) -> (r: Result<CacheRequest, ScriptError>)
        ensures
            passed_on(name@, (CacheCall::ListLen { key }), r),
    {
        pass_on(name, CacheCall::ListLen { key })
    }

    /// Sums the lengths of the lists whose keys start with a prefix.
    pub fn list_len_sum(&self, name: String, prefix: String) -> (r: Result<CacheRequest, ScriptError>)
        ensures
            passed_on(name@, (CacheCall::ListLenSum { prefix }), r),
    {
        pass_on(name, CacheCall::ListLenSum { prefix })
    }

    /// Says whether a key is there.
    pub fn has_key(&self, name: String, key: String) -> (r: Result<CacheRequest, ScriptError>)
        ensures
            passed_on(name@, (CacheCall::Exists { key }), r),
    {
        pass_on(name, CacheCall::Exists { key })
    }
}

/// No call about a reserved key reaches a cache, whatever it asks for.
pub proof fn reserved_keys_are_out_of_reach(call: CacheCall, rest: Seq<char>)
    requires
        subject(call) == "siphon:"@ + rest,
    ensures
        refusal(call) == Some(reserved_error()),
{
    assert(subject(call).take("siphon:"@.len() as int) =~= "siphon:"@);
}

} // verus!
