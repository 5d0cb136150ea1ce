//! Laws of the texts that are read and written.

use crate::call::routing::{add_auth_passthrough_copies, validate_send_socket};
use crate::digest::{
    extract_digest_param, extract_sip_uri, extract_username_from_uri, parse_algorithm,
};
use crate::gateway::{extract_address_from_uri, number_of_key, pick, Algorithm};
use crate::hash::{md5_of, DigestAlgorithm};
use crate::hex::hex_encode;
use crate::laws::codec::four_octets;
use crate::net::{socket_of, IpAddr, SocketAddr};
use crate::numbers::IdentityHeader;
use crate::sip::same_name;
use crate::text::{
    decimal, find_text, is_alphanumeric, is_white_space, lemma_find_char_is, lemma_find_char_range,
    lower, occurs_at, opt_text, replaced, starts_with, texts, trim_end, trim_start, trim_text,
    uppercase,
};
use vstd::prelude::*;
use vstd::string::*;
use vstd::utf8::encode_utf8;

verus! {

/// The hexadecimal digit of a number below sixteen.
pub open spec fn hex_figure(v: int) -> char {
    "0123456789abcdef"@[v]
}

/// Octets are written in hexadecimal two figures each, the higher half first, in
/// small letters.
pub proof fn octets_are_written_high_half_first(bytes: &[u8], text: String, i: int)
    requires
        call_ensures(hex_encode, (bytes,), text),
        0 <= i < bytes@.len(),
    ensures
        text@.len() == 2 * bytes@.len(),
        text@[2 * i] == hex_figure(bytes@[i] as int / 16),
        text@[2 * i + 1] == hex_figure(bytes@[i] as int % 16),
{
    reveal_strlit("0123456789abcdef");
    let b = bytes@[i] as int;
    assert(0 <= b / 16 < 16 && 0 <= b % 16 < 16);
    assert((2 * i) / 2 == i && (2 * i) % 2 == 0);
    assert((2 * i + 1) / 2 == i && (2 * i + 1) % 2 == 1);
}

proof fn lemma_trim_start(s: Seq<char>) -> (k: int)
    ensures
        0 <= k <= s.len(),
        trim_start(s) == s.skip(k),
        forall|i: int| 0 <= i < k ==> is_white_space(#[trigger] s[i]),
        k < s.len() ==> !is_white_space(s[k]),
    decreases s.len(),
{
    if s.len() > 0 && is_white_space(s[0]) {
        let k = lemma_trim_start(s.skip(1));
        assert(s.skip(1).skip(k) =~= s.skip(k + 1));
        assert forall|i: int| 0 <= i < k + 1 implies is_white_space(#[trigger] s[i]) by {
            if i > 0 {
                assert(s.skip(1)[i - 1] == s[i]);
            }
        }
        k + 1
    } else {
        assert(s.skip(0) =~= s);
        0
    }
}

proof fn lemma_trim_end(s: Seq<char>) -> (k: int)
    ensures
        0 <= k <= s.len(),
        trim_end(s) == s.take(k),
        forall|i: int| k <= i < s.len() ==> is_white_space(#[trigger] s[i]),
        k > 0 ==> !is_white_space(s[k - 1]),
    decreases s.len(),
{
    if s.len() > 0 && is_white_space(s.last()) {
        let k = lemma_trim_end(s.drop_last());
        assert(s.drop_last().take(k) =~= s.take(k));
        assert forall|i: int| k <= i < s.len() implies is_white_space(#[trigger] s[i]) by {
            if i < s.len() - 1 {
                assert(s.drop_last()[i] == s[i]);
            }
        }
        k
    } else {
        assert(s.take(s.len() as int) =~= s);
        s.len() as int
    }
}

/// A trimmed text is the stretch between the white space at its two ends: it
/// neither begins nor ends with any, and only white space was taken off.
pub proof fn trimmed_text_is_the_middle(s: &str, trimmed: String) -> (ends: (int, int))
    requires
        call_ensures(trim_text, (s,), trimmed),
    ensures
        0 <= ends.0 <= ends.1 <= s@.len(),
        trimmed@ == s@.subrange(ends.0, ends.1),
        forall|i: int| 0 <= i < ends.0 ==> is_white_space(#[trigger] s@[i]),
        forall|i: int| ends.1 <= i < s@.len() ==> is_white_space(#[trigger] s@[i]),
        trimmed@.len() > 0 ==> !is_white_space(trimmed@[0]) && !is_white_space(trimmed@.last()),
{
    let a = lemma_trim_start(s@);
    let rest = s@.skip(a);
    let k = lemma_trim_end(rest);
    assert(rest.take(k) =~= s@.subrange(a, a + k));
    assert forall|i: int| a + k <= i < s@.len() implies is_white_space(#[trigger] s@[i]) by {
        assert(rest[i - a] == s@[i]);
    }
    if k > 0 {
        assert(trimmed@[0] == rest[0]);
        assert(trimmed@.last() == rest[k - 1]);
        assert(rest[0] == s@[a]);
    }
    (a, a + k)
}

proof fn lemma_first_at(s: Seq<char>, needle: Seq<char>, from: int, at: int)
    requires
        0 <= from <= at,
        occurs_at(s, needle, at),
        forall|k: int| from <= k < at ==> !occurs_at(s, needle, k),
    ensures
        find_text(s, needle, from) == Some(at),
    decreases at - from,
{
    if from < at {
        assert(!occurs_at(s, needle, from));
        lemma_first_at(s, needle, from + 1, at);
    }
}

/// A parameter in quotes is read as what stands between its quotes: where the
/// name with its equals sign first occurs, in any case, and no letter or digit
/// stands before it.
pub proof fn quoted_parameter_is_read_whole(
    value: &str,
    name: &str,
    front: Seq<char>,
    spelled: Seq<char>,
    text: Seq<char>,
    back: Seq<char>,
    read: Option<String>,
)
    requires
        call_ensures(extract_digest_param, (value, name), read),
        lower(spelled) == name@ + "="@,
        value@ == front + spelled + seq!['"'] + text + seq!['"'] + back,
        forall|i: int| 0 <= i < text.len() ==> text[i] != '"',
        forall|k: int| 0 <= k < front.len() ==> !occurs_at(lower(value@), name@ + "="@, k),
        front.len() > 0 ==> !is_alphanumeric(lower(value@)[front.len() - 1]),
    ensures
        opt_text(read) == Some(text),
{
    let s = value@;
    let needle = name@ + "="@;
    let at = front.len() as int;
    assert(lower(spelled).len() == spelled.len());
    assert(lower(s).subrange(at, at + needle.len()) =~= needle) by {
        assert forall|i: int| 0 <= i < needle.len() implies lower(s).subrange(
            at,
            at + needle.len(),
        )[i] == needle[i] by {
            assert(s[at + i] == spelled[i]);
            assert(lower(spelled)[i] == needle[i]);
        }
    }
    assert(occurs_at(lower(s), needle, at));
    lemma_first_at(lower(s), needle, 0, at);
    let rest = s.skip(at + needle.len());
    assert(rest =~= seq!['"'] + text + seq!['"'] + back);
    assert(rest[0] == '"');
    let end = text.len() as int + 1;
    assert(rest[end] == '"');
    assert forall|k: int| 1 <= k < end implies rest[k] != '"' by {
        assert(rest[k] == text[k - 1]);
    }
    lemma_find_char_is(rest, '"', 1, end);
    assert(rest.subrange(1, end) =~= text);
}

/// The address of a header value in angle brackets is what stands between them.
pub proof fn bracketed_address_is_read_whole(
    value: &str,
    front: Seq<char>,
    address: Seq<char>,
    back: Seq<char>,
    read: String,
)
    requires
        call_ensures(extract_sip_uri, (value,), read),
        value@ == front + seq!['<'] + address + seq!['>'] + back,
        forall|i: int| 0 <= i < front.len() ==> front[i] != '<',
        forall|i: int| 0 <= i < address.len() ==> address[i] != '>',
    ensures
        read@ == address,
{
    let s = value@;
    let start = front.len() as int;
    let end = start + 1 + address.len();
    assert(s[start] == '<');
    assert forall|k: int| 0 <= k < start implies s[k] != '<' by {
        assert(s[k] == front[k]);
    }
    lemma_find_char_is(s, '<', 0, start);
    assert(s[end] == '>');
    assert forall|k: int| start <= k < end implies s[k] != '>' by {
        if k > start {
            assert(s[k] == address[k - start - 1]);
        }
    }
    lemma_find_char_is(s, '>', start, end);
    assert(s.subrange(start + 1, end) =~= address);
}

/// The user of a SIP address in angle brackets is what stands between its scheme
/// and its at sign.
pub proof fn bracketed_user_is_read_whole(
    value: &str,
    front: Seq<char>,
    user: Seq<char>,
    rest: Seq<char>,
    back: Seq<char>,
    read: Option<String>,
)
    requires
        call_ensures(extract_username_from_uri, (value,), read),
        value@ == front + seq!['<'] + ("sip:"@ + user + seq!['@'] + rest) + seq!['>'] + back,
        forall|i: int| 0 <= i < front.len() ==> front[i] != '<',
        forall|i: int| 0 <= i < user.len() ==> user[i] != '>' && user[i] != '@',
        forall|i: int| 0 <= i < rest.len() ==> rest[i] != '>',
    ensures
        opt_text(read) == Some(user),
{
    reveal_strlit("sip:");
    let s = value@;
    let uri = "sip:"@ + user + seq!['@'] + rest;
    let start = front.len() as int;
    let end = start + 1 + uri.len();
    assert(s[start] == '<');
    assert forall|k: int| 0 <= k < start implies s[k] != '<' by {
        assert(s[k] == front[k]);
    }
    lemma_find_char_is(s, '<', 0, start);
    assert(s[end] == '>');
    assert forall|k: int| start <= k < end implies s[k] != '>' by {
        if k > start {
            assert(s[k] == uri[k - start - 1]);
            let i = k - start - 1;
            if i < 4 {
                assert(uri[i] == "sip:"@[i]);
            } else if i < 4 + user.len() {
                assert(uri[i] == user[i - 4]);
            } else if i > 4 + user.len() {
                assert(uri[i] == rest[i - 5 - user.len()]);
            }
        }
    }
    lemma_find_char_is(s, '>', start, end);
    assert(s.subrange(start + 1, end) =~= uri);
    assert(uri.take(4) =~= "sip:"@);
    let tail = uri.skip(4);
    assert(tail =~= user + seq!['@'] + rest);
    assert(tail[user.len() as int] == '@');
    assert forall|k: int| 0 <= k < user.len() implies tail[k] != '@' by {
        assert(tail[k] == user[k]);
    }
    lemma_find_char_is(tail, '@', 0, user.len() as int);
    assert(tail.take(user.len() as int) =~= user);
}

/// A digest algorithm goes by its name in capitals, with hyphens for underscores;
/// without a name, or with one that is none, it is MD5.
pub proof fn digest_algorithm_goes_by_its_name(name: &str, algorithm: DigestAlgorithm)
    requires
        call_ensures(parse_algorithm, (Some(name),), algorithm),
    ensures
        ({
            let plain = replaced(uppercase(name@), '_', '-');
            match algorithm {
                DigestAlgorithm::Md5Sess => plain == "MD5-SESS"@,
                DigestAlgorithm::Sha256 => plain == "SHA-256"@ || plain == "SHA256"@,
                DigestAlgorithm::Sha256Sess => plain == "SHA-256-SESS"@ || plain == "SHA256-SESS"@,
                DigestAlgorithm::Sha512_256 => plain == "SHA-512-256"@ || plain == "SHA512-256"@,
                DigestAlgorithm::Sha512_256Sess => plain == "SHA-512-256-SESS"@ || plain
                    == "SHA512-256-SESS"@,
                DigestAlgorithm::Md5 => plain != "MD5-SESS"@ && plain != "SHA-256"@ && plain
                    != "SHA256"@ && plain != "SHA-256-SESS"@ && plain != "SHA256-SESS"@ && plain
                    != "SHA-512-256"@ && plain != "SHA512-256"@ && plain != "SHA-512-256-SESS"@
                    && plain != "SHA512-256-SESS"@,
            }
        }),
{
}

/// A gateway without a port is reached at 5060, over a secure scheme at 5061; one
/// with a port is reached at its port.
pub proof fn gateway_has_its_usual_port(uri: &str, secure: bool, host: Seq<char>, address: String)
    requires
        call_ensures(extract_address_from_uri, (uri,), address),
        uri@ == (if secure {
            "sips:"@
        } else {
            "sip:"@
        }) + host,
        forall|i: int|
            0 <= i < host.len() ==> host[i] != '@' && host[i] != ';' && host[i] != '?' && host[i]
                != ']',
    ensures
        (forall|i: int| 0 <= i < host.len() ==> host[i] != ':') ==> address@ == host + (if secure {
            ":5061"@
        } else {
            ":5060"@
        }),
        (exists|i: int| 0 <= i < host.len() && host[i] == ':') ==> address@ == host,
{
    reveal_strlit("sips:");
    reveal_strlit("sip:");
    let s = uri@;
    if secure {
        assert(s.take(5) =~= "sips:"@);
        assert(s.skip(5) =~= host);
    } else {
        assert(s.take(4) =~= "sip:"@);
        assert(s.skip(4) =~= host);
        if starts_with(s, "sips:"@) {
            assert(s[3] == ':');
            assert(s.take(5)[3] == 's');
        }
    }
    let n = host.len() as int;
    lemma_find_char_is(host, '@', 0, n);
    lemma_find_char_is(host, ';', 0, n);
    assert(host.take(n) =~= host);
    lemma_find_char_is(host, '?', 0, n);
    lemma_find_char_is(host, ']', 0, n);
    lemma_find_char_range(host, ':', 0);
    if forall|i: int| 0 <= i < host.len() ==> host[i] != ':' {
        lemma_find_char_is(host, ':', 0, n);
    }
}

/// A key is hashed to the number that the first eight octets of its MD5 hold, the
/// first being the highest.
pub proof fn key_is_hashed_to_eight_octets(key: &str, number: u64)
    requires
        call_ensures(number_of_key, (key,), number),
        md5_of(encode_utf8(key@)).len() >= 8,
    ensures
        ({
            let h = md5_of(encode_utf8(key@));
            number == four_octets(h, 0) * 0x1_0000_0000 + four_octets(h, 4)
        }),
{
    let h = md5_of(encode_utf8(key@));
    let s = h.take(8);
    reveal_with_fuel(crate::bytes::be_value, 9);
    let s7 = s.drop_last();
    let s6 = s7.drop_last();
    let s5 = s6.drop_last();
    let s4 = s5.drop_last();
    assert(s4 =~= h.take(4));
    crate::laws::codec::lemma_four_value(s4);
    assert(s5.last() == h[4] && s6.last() == h[5] && s7.last() == h[6] && s.last() == h[7]);
    crate::bytes::lemma_be_value_bound(s);
    crate::bytes::lemma_pow256();
    assert(crate::bytes::be_value(s5) == crate::bytes::be_value(s4) * 256 + h[4]);
    assert(crate::bytes::be_value(s6) == crate::bytes::be_value(s5) * 256 + h[5]);
    assert(crate::bytes::be_value(s7) == crate::bytes::be_value(s6) * 256 + h[6]);
    assert(crate::bytes::be_value(s) == crate::bytes::be_value(s7) * 256 + h[7]);
}

/// A key always leads to the destination that its number leaves over, and a turn
/// to the one that the draw leaves over; weights play no part in either.
pub proof fn hash_and_turn_ignore_the_weights(
    weights: Vec<u32>,
    key: u64,
    draw: u64,
    hashed: usize,
    turned: usize,
    unkeyed: usize,
)
    requires
        weights@.len() > 0,
        call_ensures(pick, (Algorithm::Hash, &weights, Some(key), draw), hashed),
        call_ensures(pick, (Algorithm::RoundRobin, &weights, Some(key), draw), turned),
        call_ensures(pick, (Algorithm::Hash, &weights, None, draw), unkeyed),
    ensures
        hashed == key as int % weights@.len() as int,
        turned == draw as int % weights@.len() as int,
        unkeyed == draw as int % weights@.len() as int,
{
}

/// A listener is named by a transport, a colon and an address with a port: such a
/// name is accepted exactly when the transport is one, in any case, and the rest
/// an address with a port.
pub proof fn listener_is_named_by_transport_and_address(
    socket: String,
    transport: Seq<char>,
    address: Seq<char>,
    outcome: Result<(), crate::error::ScriptError>,
)
    requires
        call_ensures(validate_send_socket, (&Some(socket),), outcome),
        socket@ == transport + seq![':'] + address,
        forall|i: int| 0 <= i < transport.len() ==> transport[i] != ':',
    ensures
        outcome is Ok <==> (lower(transport) == "udp"@ || lower(transport) == "tcp"@ || lower(
            transport,
        ) == "tls"@ || lower(transport) == "ws"@ || lower(transport) == "wss"@ || lower(transport)
            == "sctp"@) && socket_of(address) is Some,
{
    let s = socket@;
    let at = transport.len() as int;
    assert(s[at] == ':');
    assert forall|k: int| 0 <= k < at implies s[k] != ':' by {
        assert(s[k] == transport[k]);
    }
    lemma_find_char_is(s, ':', 0, at);
    assert(s.take(at) =~= transport);
    assert(s.skip(at + 1) =~= address);
}

/// Passing credentials through copies the challenge and the answer to it beside
/// what was copied already, each once in any case, and drops nothing.
pub proof fn passed_credentials_are_copied_both_ways(copy: &mut Vec<String>)
    requires
        call_ensures(add_auth_passthrough_copies, (copy,), ()),
    ensures
        final(copy)@.len() >= old(copy)@.len(),
        forall|i: int| 0 <= i < old(copy)@.len() ==> (#[trigger] final(copy)@[i])@ == old(copy)@[i]@,
        exists|i: int|
            0 <= i < final(copy)@.len() && same_name(
                (#[trigger] final(copy)@[i])@,
                "Proxy-Authenticate"@,
            ),
        exists|i: int|
            0 <= i < final(copy)@.len() && same_name(
                (#[trigger] final(copy)@[i])@,
                "Proxy-Authorization"@,
            ),
{
    let before = texts(old(copy)@);
    let after = texts(final(copy)@);
    let mid = crate::call::routing::with_listed(before, "Proxy-Authenticate"@);
    assert(after == crate::call::routing::with_listed(mid, "Proxy-Authorization"@));
    assert(after.len() == final(copy)@.len() && before.len() == old(copy)@.len());
    assert forall|i: int| 0 <= i < old(copy)@.len() implies (#[trigger] final(copy)@[i])@ == old(
        copy,
    )@[i]@ by {
        assert(after[i] == final(copy)@[i]@);
        assert(before[i] == old(copy)@[i]@);
        assert(mid[i] == before[i]);
    }
    if crate::call::routing::listed(before, "Proxy-Authenticate"@) {
        let i = choose|i: int|
            0 <= i < before.len() && same_name(#[trigger] before[i], "Proxy-Authenticate"@);
        assert(mid[i] == before[i] && after[i] == mid[i]);
        assert(same_name(final(copy)@[i]@, "Proxy-Authenticate"@));
    } else {
        let i = before.len() as int;
        assert(mid[i] == "Proxy-Authenticate"@ && after[i] == mid[i]);
        assert(same_name(final(copy)@[i]@, "Proxy-Authenticate"@));
    }
    if crate::call::routing::listed(mid, "Proxy-Authorization"@) {
        let i = choose|i: int|
            0 <= i < mid.len() && same_name(#[trigger] mid[i], "Proxy-Authorization"@);
        assert(after[i] == mid[i]);
        assert(same_name(final(copy)@[i]@, "Proxy-Authorization"@));
    } else {
        let i = mid.len() as int;
        assert(after[i] == "Proxy-Authorization"@);
        assert(same_name(final(copy)@[i]@, "Proxy-Authorization"@));
    }
}

/// A place that a number stands in goes by its name, in any case.
pub proof fn identity_header_goes_by_its_name(token: &str, header: Option<IdentityHeader>)
    requires
        call_ensures(IdentityHeader::from_token, (token,), header),
    ensures
        match header {
            Some(IdentityHeader::From) => lower(token@) == "from"@,
            Some(IdentityHeader::To) => lower(token@) == "to"@,
            Some(IdentityHeader::PAssertedIdentity) => lower(token@) == "p-asserted-identity"@,
            Some(IdentityHeader::PPreferredIdentity) => lower(token@) == "p-preferred-identity"@,
            Some(IdentityHeader::RequestUri) => lower(token@) == "ruri"@,
            None => lower(token@) != "from"@ && lower(token@) != "to"@ && lower(token@)
                != "p-asserted-identity"@ && lower(token@) != "p-preferred-identity"@ && lower(
                token@,
            ) != "ruri"@,
        },
{
}

/// An IPv4 address is written as its four octets, the highest first, with dots
/// between; an address with its port has the port behind a colon.
pub proof fn ipv4_is_written_octet_by_octet(value: u32, text: String, port: u16, socket: String)
    requires
        call_ensures(IpAddr::render, (&IpAddr::V4(value),), text),
        call_ensures(
            SocketAddr::render,
            (&(SocketAddr { ip: IpAddr::V4(value), port }),),
            socket,
        ),
    ensures
        ({
            let a = value as nat / 0x1000000;
            let b = value as nat / 0x10000 % 256;
            let c = value as nat / 0x100 % 256;
            let d = value as nat % 256;
            &&& text@ == decimal(a) + "."@ + decimal(b) + "."@ + decimal(c) + "."@ + decimal(d)
            &&& a * 0x1000000 + b * 0x10000 + c * 0x100 + d == value
        }),
        socket@ == text@ + ":"@ + decimal(port as nat),
{
}

} // verus!
