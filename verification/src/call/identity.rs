//! The headers of a call's INVITE, and the identities that they carry to the
//! callee.

use crate::call::{CallText, PyCall};
use crate::error::{value_error, ErrorText, ScriptError};
use crate::numbers::{
    apply_to_message, opt_texts, resolve_rewrite_policy, rewrite_policy, with_numbers,
    NumberRuntime, PolicyText, Reshaped,
};
use crate::sip::{
    address_tag, header_of, header_or, header_value, opt_address, same_name, set_header_is_found,
    with_header, without_header, other_headers_are_kept, removed_header_is_gone, address_text,
    AddressText, Header, HeaderText, Headers, MessageText, NameAddr, SipMessage, SipUri, StartLine,
    StartText, UriText,
};
use crate::text::{
    lower, lowercase, opt_str, opt_text, same_text, split, split_text, starts_with, texts,
    to_lower, to_unicode_lower, trim, trim_text, has_prefix, trim_end, trim_start,
};
use vstd::prelude::*;
use vstd::string::*;

verus! {

/// An address header in its written form.
pub open spec fn address_header(name: Seq<char>, address: AddressText) -> HeaderText {
    HeaderText { name, value: address_text(address), address: Some(address) }
}

/// The address that the first header of a name, or of its short form, carries.
pub open spec fn address_in(h: Seq<HeaderText>, name: Seq<char>, alias: Seq<char>) -> Option<AddressText> {
    match header_or(h, name, alias) {
        Some(header) => header.address,
        None => None,
    }
}

/// The headers with another user in an address. Without such an address nothing
/// changes.
pub open spec fn with_user_in(h: Seq<HeaderText>, name: Seq<char>, alias: Seq<char>, user: Seq<char>) -> Seq<
    HeaderText,
> {
    match address_in(h, name, alias) {
        Some(address) => with_header(
            h,
            address_header(
                name,
                AddressText { uri: UriText { user: Some(user), ..address.uri }, ..address },
            ),
        ),
        None => h,
    }
}

/// The headers with another host in an address. Without such an address nothing
/// changes.
pub open spec fn with_host_in(h: Seq<HeaderText>, name: Seq<char>, alias: Seq<char>, host: Seq<char>) -> Seq<
    HeaderText,
> {
    match address_in(h, name, alias) {
        Some(address) => with_header(
            h,
            address_header(name, AddressText { uri: UriText { host, ..address.uri }, ..address }),
        ),
        None => h,
    }
}

/// The headers with another URI in an address. A header that is no address is
/// an error; without a header nothing changes.
pub open spec fn with_uri_in(h: Seq<HeaderText>, name: Seq<char>, alias: Seq<char>, uri: UriText) -> Result<
    Seq<HeaderText>,
    ErrorText,
> {
    match header_or(h, name, alias) {
        None => Ok(h),
        Some(header) => match header.address {
            Some(address) => Ok(
                with_header(h, address_header(name, AddressText { uri, ..address })),
            ),
            None => Err(value_error("cannot parse "@ + name + " header: not an address"@)),
        },
    }
}

/// A call with other headers.
pub open spec fn with_headers(call: CallText, headers: Seq<HeaderText>) -> CallText {
    CallText { message: MessageText { headers, ..call.message }, ..call }
}

/// The headers whose names do not start with a prefix, without regard to case.
pub open spec fn without_prefix(h: Seq<HeaderText>, prefix: Seq<char>) -> Seq<HeaderText>
    decreases h.len(),
{
    if h.len() == 0 {
        h
    } else if starts_with(lowercase(h.last().name), lowercase(prefix)) {
        without_prefix(h.drop_last(), prefix)
    } else {
        without_prefix(h.drop_last(), prefix).push(h.last())
    }
}

/// The From address of a caller who withholds their identity.
pub open spec fn anonymous(tag: Option<Seq<char>>) -> AddressText {
    AddressText {
        display_name: Some("Anonymous"@),
        uri: UriText {
            scheme: "sip"@,
            user: Some("anonymous"@),
            host: "anonymous.invalid"@,
            port: None,
            params: ""@,
        },
        tag,
        params: ""@,
    }
}

/// A Privacy value asks for the identity to be withheld.
pub open spec fn asks_privacy(value: Seq<char>) -> bool {
    exists|i: int|
        0 <= i < split(value, ';').len() && lower(trim(#[trigger] split(value, ';')[i])) == "id"@
}

/// A Privacy value that asks for the identity to be withheld, after what it
/// asked for before.
pub open spec fn private_value(before: Option<Seq<char>>) -> Seq<char> {
    match before {
        None => "id"@,
        Some(value) => if asks_privacy(value) {
            value
        } else {
            value + ";id"@
        },
    }
}

/// The From header of a caller who withholds their identity.
pub open spec fn anonymous_from(h: Seq<HeaderText>) -> Seq<HeaderText> {
    match address_in(h, "From"@, "f"@) {
        Some(address) => with_header(h, address_header("From"@, anonymous(address.tag))),
        None => h,
    }
}

/// The headers of a call whose caller withholds their identity: an anonymous
/// From that keeps its tag, a Privacy header, and no preferred identity. The
/// asserted identity stays for the trusted next hop.
pub open spec fn restricted(h: Seq<HeaderText>) -> Seq<HeaderText> {
    let hidden = anonymous_from(h);
    let private = with_header(
        hidden,
        HeaderText {
            name: "Privacy"@,
            value: private_value(header_value(hidden, "Privacy"@)),
            address: None,
        },
    );
    without_header(private, "P-Preferred-Identity"@)
}

/// The headers that present another number as the caller: in From, and in the
/// asserted and preferred identities where there are any.
pub open spec fn presented(h: Seq<HeaderText>, number: Seq<char>) -> Seq<HeaderText> {
    let from = with_user_in(h, "From"@, "f"@, number);
    let asserted = with_user_in(from, "P-Asserted-Identity"@, "P-Asserted-Identity"@, number);
    with_user_in(asserted, "P-Preferred-Identity"@, "P-Preferred-Identity"@, number)
}

/// A header carries an identity of the caller.
pub open spec fn has_identity(h: Seq<HeaderText>) -> bool {
    address_in(h, "From"@, "f"@) is Some || address_in(
        h,
        "P-Asserted-Identity"@,
        "P-Asserted-Identity"@,
    ) is Some || address_in(h, "P-Preferred-Identity"@, "P-Preferred-Identity"@) is Some
}

fn address_of(headers: &Headers, name: &str, alias: &str) -> (r: Option<NameAddr>)
    ensures
        opt_address(r) == address_in(headers@, name@, alias@),
{
    match headers.find_or(name, alias) {
        Some(header) => header.address,
        None => None,
    }
}

/// Puts another user into an address, and says whether there was one.
fn put_user(headers: &mut Headers, name: &str, alias: &str, user: &str) -> (r: bool)
    ensures
        final(headers)@ == with_user_in(old(headers)@, name@, alias@, user@),
        r == (address_in(old(headers)@, name@, alias@) is Some),
{
    match address_of(headers, name, alias) {
        Some(mut address) => {
            address.uri.user = Some(user.to_owned());
            headers.set(Header::of_address(name, address));
            true
        },
        None => false,
    }
}

/// Puts another host into an address.
fn put_host(headers: &mut Headers, name: &str, alias: &str, host: &str)
    ensures
        final(headers)@ == with_host_in(old(headers)@, name@, alias@, host@),
{
    if let Some(mut address) = address_of(headers, name, alias) {
        address.uri.host = host.to_owned();
        headers.set(Header::of_address(name, address));
    }
}

/// What a URI parser gave, as mathematical data.
pub open spec fn parse_text(parsed: Result<SipUri, String>) -> Result<UriText, Seq<char>> {
    match parsed {
        Ok(uri) => Ok(uri@),
        Err(reason) => Err(reason@),
    }
}

pub open spec fn uri_error(reason: Seq<char>) -> ErrorText {
    value_error("invalid SIP URI: "@ + reason)
}

/// The headers with another URI in an address and the host of that URI, or the
/// error of a URI or a header that does not parse.
pub open spec fn replaced_uri(
    h: Seq<HeaderText>,
    name: Seq<char>,
    alias: Seq<char>,
    parsed: Result<UriText, Seq<char>>,
) -> Result<(Seq<HeaderText>, Seq<char>), ErrorText> {
    match parsed {
        Err(reason) => Err(uri_error(reason)),
        Ok(uri) => match with_uri_in(h, name, alias, uri) {
            Ok(headers) => Ok((headers, uri.host)),
            Err(e) => Err(e),
        },
    }
}

/// Replaces the URI of an address header, with the display name and the header
/// parameters kept, and gives the host of the new URI.
pub fn replace_header_uri(
    message: &mut SipMessage,
    primary: &str,
    alias: &str,
    new_uri: Result<SipUri, String>,
) -> (r: Result<String, ScriptError>)
    ensures
        match r {
            Ok(host) => replaced_uri(old(message)@.headers, primary@, alias@, parse_text(new_uri))
                == Ok::<(Seq<HeaderText>, Seq<char>), ErrorText>(
                (final(message)@.headers, host@),
            ) && final(message)@ == (MessageText {
                headers: final(message)@.headers,
                ..old(message)@
            }),
            Err(e) => replaced_uri(old(message)@.headers, primary@, alias@, parse_text(new_uri))
                == Err::<(Seq<HeaderText>, Seq<char>), ErrorText>(e@) && final(message)@
                == old(message)@,
        },
{
    let uri = match new_uri {
        Ok(uri) => uri,
        Err(reason) => {
            return Err(ScriptError::value("invalid SIP URI: ".to_owned().concat(&reason)));
        },
    };
    let host = uri.host.clone();
    match message.headers.find_or(primary, alias) {
        Some(header) => match header.address {
            Some(mut address) => {
                address.uri = uri;
                message.headers.set(Header::of_address(primary, address));
            },
            None => {
                return Err(
                    ScriptError::value(
                        "cannot parse ".to_owned().concat(primary).concat(
                            " header: not an address",
                        ),
                    ),
                );
            },
        },
        None => {},
    }
    Ok(host)
}

/// The bare URI of an address header, without display name and parameters.
pub fn header_uri(message: &SipMessage, name: &str) -> (r: Option<String>)
    ensures
        opt_text(r) == crate::sip::address_uri(message@.headers, name@, name@),
{
    message.address_uri(name, name)
}

fn value_asks_privacy(value: &str) -> (r: bool)
    ensures
        r == asks_privacy(value@),
{
    let parts = split_text(value, ';');
    let ghost all = split(value@, ';');
    let mut i: usize = 0;
    while i < parts.len()
        invariant
            i <= parts@.len(),
            all == split(value@, ';'),
            texts(parts@) == all,
            forall|k: int| 0 <= k < i ==> lower(trim(#[trigger] all[k])) != "id"@,
        decreases parts@.len() - i,
    {
        assert(texts(parts@)[i as int] == parts@[i as int]@);
        if same_text(&to_lower(&trim_text(&parts[i])), "id") {
            assert(lower(trim(all[i as int])) == "id"@);
            return true;
        }
        i += 1;
    }
    false
}

impl PyCall {
    /// Sets a header. `address` is what the value means as an address.
    pub fn set_header(&mut self, name: &str, value: &str, address: Option<NameAddr>)
        ensures
            final(self)@ == with_headers(
                old(self)@,
                with_header(
                    old(self)@.message.headers,
                    (HeaderText { name: name@, value: value@, address: opt_address(address) }),
                ),
            ),
    {
        self.message.headers.set(
            Header { name: name.to_owned(), value: value.to_owned(), address },
        );
    }

    /// Removes every header of that name.
    pub fn remove_header(&mut self, name: &str)
        ensures
            final(self)@ == with_headers(
                old(self)@,
                without_header(old(self)@.message.headers, name@),
            ),
    {
        self.message.headers.remove(name);
    }

    /// Removes every header whose name starts with a prefix, without regard to
    /// case.
    pub fn remove_headers_matching(&mut self, prefix: &str)
        ensures
            final(self)@ == with_headers(
                old(self)@,
                without_prefix(old(self)@.message.headers, prefix@),
            ),
    {
        let wanted = to_unicode_lower(prefix);
        let ghost before = self.message.headers@;
        let mut kept = Headers::new();
        let mut i: usize = 0;
        while i < self.message.headers.entries.len()
            invariant
                i <= self.message.headers.entries@.len(),
                *self == *old(self),
                before == self.message.headers@,
                before.len() == self.message.headers.entries@.len(),
                wanted@ == lowercase(prefix@),
                kept@ == without_prefix(before.take(i as int), prefix@),
            decreases self.message.headers.entries@.len() - i,
        {
            let ghost next = before.take(i + 1);
            assert(next.drop_last() =~= before.take(i as int));
            assert(next.last() == self.message.headers.entries@[i as int]@);
            let name = to_unicode_lower(&self.message.headers.entries[i].name);
            if !has_prefix(&name, &wanted) {
                kept.append(self.message.headers.entries[i].copy());
            }
            i += 1;
        }
        assert(before.take(before.len() as int) =~= before);
        self.message.headers = kept;
    }

    /// Sets the user part of the request URI.
    pub fn set_ruri_user(&mut self, value: &str)
        ensures
            final(self)@ == (CallText {
                message: MessageText {
                    start: match old(self)@.message.start {
                        StartText::Request { method, request_uri } => StartText::Request {
                            method,
                            request_uri: UriText { user: Some(value@), ..request_uri },
                        },
                        response => response,
                    },
                    ..old(self)@.message
                },
                ..old(self)@
            }),
    {
        if let StartLine::Request { method, request_uri } = &self.message.start_line {
            let mut uri = request_uri.copy();
            uri.user = Some(value.to_owned());
            self.message.start_line = StartLine::Request {
                method: method.clone(),
                request_uri: uri,
            };
        }
    }

    /// Rewrites the numbers of the identity headers, and says how many places
    /// changed. `reshaped` is what the numbering engine made of the INVITE
    /// under the policy that the arguments name.
    pub fn rewrite_identities(
        &mut self,
        runtime: &NumberRuntime,
        policy: Option<&str>,
        format: Option<&str>,
        headers: Option<Vec<String>>,
        home: Option<&str>,
        reshaped: Reshaped,
    ) -> (r: Result<usize, ScriptError>)
        ensures
            match r {
                Ok(changed) => rewrite_policy(
                    runtime@,
                    opt_str(policy),
                    opt_str(format),
                    opt_texts(headers),
                    opt_str(home),
                ) is Ok && changed == reshaped@.changed && final(self)@ == (CallText {
                    message: with_numbers(old(self)@.message, reshaped@),
                    ..old(self)@
                }),
                Err(e) => rewrite_policy(
                    runtime@,
                    opt_str(policy),
                    opt_str(format),
                    opt_texts(headers),
                    opt_str(home),
                ) == Err::<PolicyText, ErrorText>(e@) && final(self)@ == old(self)@,
            },
    {
        match resolve_rewrite_policy(runtime, policy, format, headers, home) {
            Ok(_) => Ok(apply_to_message(&mut self.message, reshaped)),
            Err(e) => Err(e),
        }
    }

    /// Withholds the identity of the caller from the callee.
    pub fn restrict_caller_id(&mut self)
        ensures
            final(self)@ == with_headers(old(self)@, restricted(old(self)@.message.headers)),
    {
        if let Some(address) = address_of(&self.message.headers, "From", "f") {
            let hidden = NameAddr {
                display_name: Some("Anonymous".to_owned()),
                uri: SipUri::new("anonymous.invalid".to_owned()).with_user("anonymous".to_owned()),
                tag: address.tag,
                params: "".to_owned(),
            };
            self.message.headers.set(Header::of_address("From", hidden));
        }
        let value = match self.message.headers.get("Privacy") {
            None => "id".to_owned(),
            Some(value) => if value_asks_privacy(&value) {
                value
            } else {
                value.concat(";id")
            },
        };
        self.message.headers.set(Header::plain("Privacy", &value));
        self.message.headers.remove("P-Preferred-Identity");
    }

    /// Presents another number as the caller, and says whether there was an
    /// identity to change.
    pub fn set_caller_id(&mut self, number: &str) -> (r: bool)
        ensures
            final(self)@ == with_headers(old(self)@, presented(old(self)@.message.headers, number@)),
            r == has_identity(old(self)@.message.headers),
    {
        let ghost before = self.message.headers@;
        let from = put_user(&mut self.message.headers, "From", "f", number);
        let ghost after_from = self.message.headers@;
        let asserted = put_user(
            &mut self.message.headers,
            "P-Asserted-Identity",
            "P-Asserted-Identity",
            number,
        );
        let ghost after_asserted = self.message.headers@;
        let preferred = put_user(
            &mut self.message.headers,
            "P-Preferred-Identity",
            "P-Preferred-Identity",
            number,
        );
        proof {
            lemma_identity_names();
            lemma_user_in_keeps(before, "From"@, "f"@, number@, "P-Asserted-Identity"@);
            lemma_user_in_keeps(before, "From"@, "f"@, number@, "P-Preferred-Identity"@);
            lemma_user_in_keeps(
                after_from,
                "P-Asserted-Identity"@,
                "P-Asserted-Identity"@,
                number@,
                "P-Preferred-Identity"@,
            );
        }
        from || asserted || preferred
    }

    /// Sets the user part of the From URI; all else stays.
    pub fn set_from_user(&mut self, value: &str)
        ensures
            final(self)@ == with_headers(
                old(self)@,
                with_user_in(old(self)@.message.headers, "From"@, "f"@, value@),
            ),
    {
        let _ = put_user(&mut self.message.headers, "From", "f", value);
    }

    /// Sets the user part of the To URI; all else stays.
    pub fn set_to_user(&mut self, value: &str)
        ensures
            final(self)@ == with_headers(
                old(self)@,
                with_user_in(old(self)@.message.headers, "To"@, "t"@, value@),
            ),
    {
        let _ = put_user(&mut self.message.headers, "To", "t", value);
    }

    /// Sets the host of the From URI, and pins it on the callee's leg.
    pub fn set_from_host(&mut self, value: &str)
        ensures
            final(self)@ == (CallText {
                from_host: Some(value@),
                ..with_headers(
                    old(self)@,
                    with_host_in(old(self)@.message.headers, "From"@, "f"@, value@),
                )
            }),
    {
        put_host(&mut self.message.headers, "From", "f", value);
        self.from_host_override = Some(value.to_owned());
    }

    /// Sets the host of the To URI, and pins it on the callee's leg.
    pub fn set_to_host(&mut self, value: &str)
        ensures
            final(self)@ == (CallText {
                to_host: Some(value@),
                ..with_headers(
                    old(self)@,
                    with_host_in(old(self)@.message.headers, "To"@, "t"@, value@),
                )
            }),
    {
        put_host(&mut self.message.headers, "To", "t", value);
        self.to_host_override = Some(value.to_owned());
    }

    /// Replaces the From URI, and pins its host on the callee's leg. `parsed` is
    /// what the URI parser made of the new URI.
    pub fn set_from_uri(&mut self, parsed: Result<SipUri, String>) -> (r: Result<(), ScriptError>)
        ensures
            match replaced_uri(old(self)@.message.headers, "From"@, "f"@, parse_text(parsed)) {
                Ok((headers, host)) => r is Ok && final(self)@ == (CallText {
                    from_host: Some(host),
                    ..with_headers(old(self)@, headers)
                }),
                Err(error) => r matches Err(e) && e@ == error && final(self)@ == old(self)@,
            },
    {
        match replace_header_uri(&mut self.message, "From", "f", parsed) {
            Ok(host) => {
                self.from_host_override = Some(host);
                Ok(())
            },
            Err(e) => Err(e),
        }
    }

    /// Replaces the To URI, and pins its host on the callee's leg. `parsed` is
    /// what the URI parser made of the new URI.
    pub fn set_to_uri(&mut self, parsed: Result<SipUri, String>) -> (r: Result<(), ScriptError>)
        ensures
            match replaced_uri(old(self)@.message.headers, "To"@, "t"@, parse_text(parsed)) {
                Ok((headers, host)) => r is Ok && final(self)@ == (CallText {
                    to_host: Some(host),
                    ..with_headers(old(self)@, headers)
                }),
                Err(error) => r matches Err(e) && e@ == error && final(self)@ == old(self)@,
            },
    {
        match replace_header_uri(&mut self.message, "To", "t", parsed) {
            Ok(host) => {
                self.to_host_override = Some(host);
                Ok(())
            },
            Err(e) => Err(e),
        }
    }

    /// Puts a user part into the Contact of the callee's leg.
    pub fn set_contact_user(&mut self, user: &str)
        ensures
            final(self)@ == (CallText { contact_user: Some(user@), ..old(self)@ }),
    {
        self.contact_user_override = Some(user.to_owned());
    }

    /// Replaces the Contact of the callee's leg. `parsed` is what the URI parser
    /// made of the URI.
    pub fn set_contact_uri(&mut self, uri: &str, parsed: Result<SipUri, String>) -> (r: Result<
        (),
        ScriptError,
    >)
        ensures
            match parse_text(parsed) {
                Ok(_) => r is Ok && final(self)@ == (CallText {
                    contact: Some(uri@),
                    ..old(self)@
                }),
                Err(reason) => r matches Err(e) && e@ == uri_error(reason) && final(self)@ == old(
                    self,
                )@,
            },
    {
        match parsed {
            Ok(_) => {
                self.contact_override = Some(uri.to_owned());
                Ok(())
            },
            Err(reason) => Err(
                ScriptError::value("invalid SIP URI: ".to_owned().concat(&reason)),
            ),
        }
    }
}

proof fn lemma_identity_names()
    ensures
        !same_name("From"@, "P-Asserted-Identity"@),
        !same_name("From"@, "P-Preferred-Identity"@),
        !same_name("P-Asserted-Identity"@, "P-Preferred-Identity"@),
        !same_name("From"@, "Privacy"@),
        !same_name("Privacy"@, "P-Preferred-Identity"@),
        !same_name("Privacy"@, "P-Asserted-Identity"@),
        !same_name("P-Preferred-Identity"@, "P-Asserted-Identity"@),
        !same_name("Privacy"@, "From"@),
        !same_name("P-Preferred-Identity"@, "From"@),
        !same_name("P-Preferred-Identity"@, "Privacy"@),
        !same_name("P-Asserted-Identity"@, "From"@),
{
    reveal_strlit("From");
    reveal_strlit("Privacy");
    reveal_strlit("P-Asserted-Identity");
    reveal_strlit("P-Preferred-Identity");
    assert(lower("From"@).len() == 4);
    assert(lower("Privacy"@).len() == 7);
    assert(lower("P-Asserted-Identity"@).len() == 19);
    assert(lower("P-Preferred-Identity"@).len() == 20);
}

proof fn lemma_user_in_keeps(
    h: Seq<HeaderText>,
    name: Seq<char>,
    alias: Seq<char>,
    user: Seq<char>,
    other: Seq<char>,
)
    requires
        !same_name(name, other),
    ensures
        header_of(with_user_in(h, name, alias, user), other) == header_of(h, other),
{
    match address_in(h, name, alias) {
        Some(address) => {
            other_headers_are_kept(
                h,
                address_header(
                    name,
                    AddressText { uri: UriText { user: Some(user), ..address.uri }, ..address },
                ),
                other,
            );
        },
        None => {},
    }
}

/// Rewriting the user, the host or the whole URI of an address keeps its tag.
pub proof fn rewriting_keeps_the_tag(
    h: Seq<HeaderText>,
    name: Seq<char>,
    alias: Seq<char>,
    text: Seq<char>,
    uri: UriText,
)
    requires
        address_in(h, name, alias) is Some,
    ensures
        address_tag(with_user_in(h, name, alias, text), name, alias) == address_tag(h, name, alias),
        address_tag(with_host_in(h, name, alias, text), name, alias) == address_tag(h, name, alias),
        with_uri_in(h, name, alias, uri) matches Ok(after) && address_tag(after, name, alias)
            == address_tag(h, name, alias),
{
    let address = address_in(h, name, alias)->0;
    set_header_is_found(
        h,
        address_header(
            name,
            AddressText { uri: UriText { user: Some(text), ..address.uri }, ..address },
        ),
    );
    set_header_is_found(
        h,
        address_header(name, AddressText { uri: UriText { host: text, ..address.uri }, ..address }),
    );
    set_header_is_found(h, address_header(name, AddressText { uri, ..address }));
}

/// Rewriting an address changes nothing but the part that was rewritten, and no
/// other header.
pub proof fn rewriting_changes_one_part(
    h: Seq<HeaderText>,
    name: Seq<char>,
    alias: Seq<char>,
    text: Seq<char>,
    other: Seq<char>,
)
    requires
        address_in(h, name, alias) is Some,
        !same_name(name, other),
    ensures
        ({
            let before = address_in(h, name, alias)->0;
            &&& address_in(with_user_in(h, name, alias, text), name, alias) == Some(
                AddressText { uri: UriText { user: Some(text), ..before.uri }, ..before },
            )
            &&& address_in(with_host_in(h, name, alias, text), name, alias) == Some(
                AddressText { uri: UriText { host: text, ..before.uri }, ..before },
            )
        }),
        header_of(with_user_in(h, name, alias, text), other) == header_of(h, other),
        header_of(with_host_in(h, name, alias, text), other) == header_of(h, other),
{
    let address = address_in(h, name, alias)->0;
    let by_user = address_header(
        name,
        AddressText { uri: UriText { user: Some(text), ..address.uri }, ..address },
    );
    let by_host = address_header(
        name,
        AddressText { uri: UriText { host: text, ..address.uri }, ..address },
    );
    set_header_is_found(h, by_user);
    set_header_is_found(h, by_host);
    other_headers_are_kept(h, by_user, other);
    other_headers_are_kept(h, by_host, other);
}

/// Headers that start with the prefix are gone; the others are found as before.
pub proof fn removed_prefix_is_gone(h: Seq<HeaderText>, prefix: Seq<char>)
    ensures
        forall|i: int|
            0 <= i < without_prefix(h, prefix).len() ==> !starts_with(
                lowercase((#[trigger] without_prefix(h, prefix)[i]).name),
                lowercase(prefix),
            ),
        forall|i: int|
            0 <= i < h.len() && !starts_with(lowercase((#[trigger] h[i]).name), lowercase(prefix))
                ==> without_prefix(h, prefix).contains(h[i]),
    decreases h.len(),
{
    if h.len() > 0 {
        let init = h.drop_last();
        removed_prefix_is_gone(init, prefix);
        let rest = without_prefix(init, prefix);
        let all = without_prefix(h, prefix);
        assert forall|i: int|
            0 <= i < h.len() && !starts_with(
                lowercase((#[trigger] h[i]).name),
                lowercase(prefix),
            ) implies all.contains(h[i]) by {
            if i < init.len() {
                assert(init[i] == h[i]);
                let k = choose|k: int| 0 <= k < rest.len() && rest[k] == h[i];
                assert(all[k] == h[i]);
            } else {
                assert(all[all.len() - 1] == h[i]);
            }
        }
    }
}

proof fn lemma_split_append_id(value: Seq<char>)
    ensures
        asks_privacy(value + ";id"@),
    decreases value.len(),
{
    reveal_strlit(";id");
    reveal_strlit("id");
    let s = value + ";id"@;
    crate::text::lemma_find_char_range(s, ';', 0);
    let i = crate::text::find_char(s, ';', 0);
    assert(s[value.len() as int] == ';');
    assert(i <= value.len());
    let rest = s.skip(i + 1);
    let parts = split(s, ';');
    assert(parts =~= seq![s.take(i)] + split(rest, ';'));
    if i == value.len() {
        assert(rest =~= "id"@);
        crate::text::lemma_find_char_is(rest, ';', 0, 2);
        assert(split(rest, ';') =~= seq![rest]);
        assert(trim_start(rest) == rest);
        assert(trim_end(rest) == rest);
        assert(lower(rest) =~= "id"@);
        assert(parts[1] == rest);
        assert(lower(trim(parts[1])) == "id"@);
    } else {
        let shorter = value.skip(i + 1);
        assert(rest =~= shorter + ";id"@);
        lemma_split_append_id(shorter);
        let k = choose|k: int|
            0 <= k < split(rest, ';').len() && lower(trim(#[trigger] split(rest, ';')[k]))
                == "id"@;
        assert(parts[k + 1] == split(rest, ';')[k]);
        assert(lower(trim(parts[k + 1])) == "id"@);
    }
}

/// A caller who withholds their identity shows none in From and asks for
/// privacy, whatever Privacy asked for before. The tag of the dialog and the
/// asserted identity stay; a preferred identity goes.
pub proof fn restricted_call_hides_its_caller(h: Seq<HeaderText>)
    requires
        address_in(h, "From"@, "f"@) is Some,
    ensures
        header_value(restricted(h), "From"@) == Some(
            address_text(anonymous(address_tag(h, "From"@, "f"@))),
        ),
        header_value(restricted(h), "Privacy"@) matches Some(value) && asks_privacy(value),
        header_of(restricted(h), "P-Preferred-Identity"@) is None,
        header_of(restricted(h), "P-Asserted-Identity"@) == header_of(h, "P-Asserted-Identity"@),
{
    lemma_identity_names();
    let from = address_header("From"@, anonymous(address_tag(h, "From"@, "f"@)));
    let hidden = anonymous_from(h);
    let privacy = HeaderText {
        name: "Privacy"@,
        value: private_value(header_value(hidden, "Privacy"@)),
        address: None,
    };
    let private = with_header(hidden, privacy);
    let gone = HeaderText { name: "P-Preferred-Identity"@, value: ""@, address: None };
    set_header_is_found(h, from);
    other_headers_are_kept(h, from, "P-Asserted-Identity"@);
    set_header_is_found(hidden, privacy);
    other_headers_are_kept(hidden, privacy, "From"@);
    other_headers_are_kept(hidden, privacy, "P-Asserted-Identity"@);
    other_headers_are_kept(private, gone, "From"@);
    other_headers_are_kept(private, gone, "Privacy"@);
    other_headers_are_kept(private, gone, "P-Asserted-Identity"@);
    removed_header_is_gone(private, "P-Preferred-Identity"@);
    match header_value(hidden, "Privacy"@) {
        None => {
            lemma_id_asks_privacy();
        },
        Some(value) => {
            if !asks_privacy(value) {
                lemma_split_append_id(value);
            }
        },
    }
}

proof fn lemma_id_asks_privacy()
    ensures
        asks_privacy("id"@),
{
    reveal_strlit("id");
    let s = "id"@;
    crate::text::lemma_find_char_is(s, ';', 0, 2);
    assert(split(s, ';') =~= seq![s]);
    assert(trim_start(s) == s);
    assert(trim_end(s) == s);
    assert(lower(s) =~= "id"@);
    assert(lower(trim(split(s, ';')[0])) == "id"@);
}

/// Presenting another number keeps the tag of the From header.
pub proof fn presented_number_keeps_the_tag(h: Seq<HeaderText>, number: Seq<char>)
    requires
        address_in(h, "From"@, "f"@) is Some,
    ensures
        address_tag(presented(h, number), "From"@, "f"@) == address_tag(h, "From"@, "f"@),
        address_in(presented(h, number), "From"@, "f"@) matches Some(address) && address.uri.user
            == Some(number),
{
    lemma_identity_names();
    let address = address_in(h, "From"@, "f"@)->0;
    let from = address_header(
        "From"@,
        AddressText { uri: UriText { user: Some(number), ..address.uri }, ..address },
    );
    set_header_is_found(h, from);
    let one = with_user_in(h, "From"@, "f"@, number);
    let two = with_user_in(one, "P-Asserted-Identity"@, "P-Asserted-Identity"@, number);
    lemma_user_in_keeps(one, "P-Asserted-Identity"@, "P-Asserted-Identity"@, number, "From"@);
    lemma_user_in_keeps(two, "P-Preferred-Identity"@, "P-Preferred-Identity"@, number, "From"@);
}

} // verus!
