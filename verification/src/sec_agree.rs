//! Header text of the SIP security agreement (RFC 3329, 3GPP TS 33.203): the
//! `Security-Client` offers and the session keys in an AKA challenge.

use crate::hex::{hex_bytes, hex_decode};
use crate::text::{
    char_is_white_space, chars_of, find_char, find_char_in, is_white_space, lower, number_of,
    opt_text, parse_number, same_text, split, split_text, string_between, texts, to_lower,
    to_unicode_lower, trim, trim_bounds, trim_end, trim_start, trim_text, lowercase,
};
use vstd::prelude::*;
use vstd::string::*;

verus! {

/// The first comma at or after `i` that is outside double quotes; the length
/// if there is none. A backslash inside quotes takes the next character with it.
pub open spec fn next_comma(s: Seq<char>, i: int, quoted: bool, escaped: bool) -> int
    decreases s.len() - i,
{
    if i < 0 || i >= s.len() {
        s.len() as int
    } else if escaped {
        next_comma(s, i + 1, quoted, false)
    } else if s[i] == '\\' && quoted {
        next_comma(s, i + 1, quoted, true)
    } else if s[i] == '"' {
        next_comma(s, i + 1, !quoted, false)
    } else if s[i] == ',' && !quoted {
        i
    } else {
        next_comma(s, i + 1, quoted, false)
    }
}

/// The pieces of a parameter list between its top-level commas.
pub open spec fn split_top_level(s: Seq<char>) -> Seq<Seq<char>>
    decreases s.len(),
{
    let i = next_comma(s, 0, false, false);
    if i < 0 || i >= s.len() {
        seq![s]
    } else {
        seq![s.take(i)] + split_top_level(s.skip(i + 1))
    }
}

/// The lower-case name of a `name=value` token.
pub open spec fn token_name(token: Seq<char>) -> Option<Seq<char>> {
    let at = find_char(token, '=', 0);
    if at < token.len() {
        Some(lowercase(trim(token.take(at))))
    } else {
        None
    }
}

pub open spec fn token_value(token: Seq<char>) -> Seq<char> {
    token.skip(find_char(token, '=', 0) + 1)
}

pub open spec fn is_key_token(token: Seq<char>) -> bool {
    token_name(token) == Some("ck"@) || token_name(token) == Some("ik"@)
}

/// The tokens that stay: every trimmed one that is neither empty nor a key.
pub open spec fn kept_tokens(tokens: Seq<Seq<char>>) -> Seq<Seq<char>>
    decreases tokens.len(),
{
    if tokens.len() == 0 {
        Seq::empty()
    } else {
        let token = trim(tokens.last());
        let before = kept_tokens(tokens.drop_last());
        if token.len() == 0 || is_key_token(token) {
            before
        } else {
            before.push(token)
        }
    }
}

/// The 16 bytes of a key value, which may stand in double quotes.
pub open spec fn hex_param(raw: Seq<char>) -> Option<Seq<u8>> {
    let t = trim(raw);
    let digits = if t.len() >= 2 && t[0] == '"' && t.last() == '"' {
        t.subrange(1, t.len() - 1)
    } else {
        t
    };
    if digits.len() == 32 {
        hex_bytes(digits)
    } else {
        None
    }
}

/// The key that the last token of the given name carries.
pub open spec fn key_param(tokens: Seq<Seq<char>>, name: Seq<char>) -> Option<Seq<u8>>
    decreases tokens.len(),
{
    if tokens.len() == 0 {
        None
    } else {
        let token = trim(tokens.last());
        if token_name(token) == Some(name) {
            hex_param(token_value(token))
        } else {
            key_param(tokens.drop_last(), name)
        }
    }
}

/// The parts with `", "` between them.
pub open spec fn joined(parts: Seq<Seq<char>>) -> Seq<char>
    decreases parts.len(),
{
    if parts.len() == 0 {
        Seq::empty()
    } else if parts.len() == 1 {
        parts[0]
    } else {
        joined(parts.drop_last()) + ", "@ + parts.last()
    }
}

/// The first position at or after `from` that holds white space, or the length.
pub open spec fn find_space(s: Seq<char>, from: int) -> int
    decreases s.len() - from,
{
    if from < 0 || from >= s.len() {
        s.len() as int
    } else if is_white_space(s[from]) {
        from
    } else {
        find_space(s, from + 1)
    }
}

/// An auth header value without its `ck` and `ik` parameters, and the keys
/// that they carried. Unless both are there and well formed, the value stays
/// as it is and there are no keys.
pub open spec fn stripped(value: Seq<char>) -> (Seq<char>, Option<(Seq<u8>, Seq<u8>)>) {
    let at = find_space(value, 0);
    if at >= value.len() {
        (value, None)
    } else {
        let tokens = split_top_level(value.skip(at + 1));
        match (key_param(tokens, "ck"@), key_param(tokens, "ik"@)) {
            (Some(ck), Some(ik)) => (
                value.take(at) + " "@ + joined(kept_tokens(tokens)),
                Some((ck, ik)),
            ),
            _ => (value, None),
        }
    }
}

fn find_top_level_comma(chars: &Vec<char>, start: usize) -> (r: usize)
    requires
        start <= chars@.len(),
    ensures
        start <= r <= chars@.len(),
        r - start == next_comma(chars@.skip(start as int), 0, false, false),
{
    let ghost rest = chars@.skip(start as int);
    let mut i: usize = start;
    let mut quoted = false;
    let mut escaped = false;
    while i < chars.len()
        invariant
            start <= i <= chars@.len(),
            rest == chars@.skip(start as int),
            next_comma(rest, 0, false, false) == next_comma(rest, i - start, quoted, escaped),
        decreases chars@.len() - i,
    {
        let c = chars[i];
        assert(rest[i - start] == c);
        if escaped {
            escaped = false;
        } else if c == '\\' && quoted {
            escaped = true;
        } else if c == '"' {
            quoted = !quoted;
        } else if c == ',' && !quoted {
            return i;
        }
        i += 1;
    }
    i
}

/// Splits a parameter list at its top-level commas. Commas inside double
/// quotes are kept; the pieces keep their white space.
pub fn split_top_level_commas(value: &str) -> (r: Vec<String>)
    ensures
        texts(r@) == split_top_level(value@),
{
    let chars = chars_of(value);
    let mut out: Vec<String> = Vec::new();
    let mut start: usize = 0;
    assert(chars@.skip(0) =~= value@);
    assert(texts(out@) + split_top_level(value@) =~= split_top_level(value@));
    loop
        invariant
            start <= chars@.len(),
            chars@ == value@,
            texts(out@) + split_top_level(chars@.skip(start as int)) == split_top_level(value@),
        decreases chars@.len() - start,
    {
        let end = find_top_level_comma(&chars, start);
        let piece = string_between(&chars, start, end);
        let ghost rest = chars@.skip(start as int);
        let ghost before = out@;
        out.push(piece);
        proof {
            assert(texts(out@) =~= texts(before).push(piece@));
            assert(rest.take(end - start) =~= piece@);
            if end < chars@.len() {
                assert(rest.skip(end - start + 1) =~= chars@.skip(end + 1));
                let tail = split_top_level(chars@.skip(end + 1));
                assert(texts(before) + (seq![piece@] + tail) =~= texts(before).push(piece@) + tail);
            } else {
                assert(rest =~= piece@);
                assert(texts(before) + seq![piece@] =~= texts(out@));
            }
        }
        if end >= chars.len() {
            return out;
        }
        start = end + 1;
    }
}

/// Reads a key value of 32 hexadecimal digits, in double quotes or not.
pub fn parse_hex_param(raw: &str) -> (r: Option<Vec<u8>>)
    ensures
        match r {
            Some(key) => hex_param(raw@) == Some(key@) && key@.len() == 16,
            None => hex_param(raw@) is None,
        },
{
    let chars = chars_of(raw);
    let (from, to) = trim_bounds(&chars, 0, chars.len());
    assert(chars@.subrange(0, chars@.len() as int) =~= raw@);
    let ghost t = trim(raw@);
    assert(t =~= chars@.subrange(from as int, to as int));
    let quoted = to - from >= 2 && chars[from] == '"' && chars[to - 1] == '"';
    let (low, high) = if quoted {
        (from + 1, to - 1)
    } else {
        (from, to)
    };
    let digits = string_between(&chars, low, high);
    assert(quoted ==> digits@ =~= t.subrange(1, t.len() - 1));
    if high - low != 32 {
        return None;
    }
    hex_decode(&digits)
}

/// Joins parts with `", "` between them.
pub fn join_tokens(parts: &Vec<String>) -> (r: String)
    ensures
        r@ == joined(texts(parts@)),
{
    let mut out = String::new();
    let mut i: usize = 0;
    assert(texts(parts@).take(0) =~= Seq::<Seq<char>>::empty());
    while i < parts.len()
        invariant
            i <= parts@.len(),
            out@ == joined(texts(parts@).take(i as int)),
        decreases parts@.len() - i,
    {
        let ghost prefix = texts(parts@).take(i + 1);
        assert(prefix.drop_last() =~= texts(parts@).take(i as int));
        assert(prefix.last() == parts@[i as int]@);
        if i > 0 {
            out.append(", ");
        }
        out.append(&parts[i]);
        assert(i == 0 ==> out@ =~= parts@[0]@);
        i += 1;
    }
    assert(texts(parts@).take(parts@.len() as int) =~= texts(parts@));
    out
}

/// Takes the session keys out of an auth header value. The rewritten value
/// comes with the keys only where both parse; otherwise the value is returned
/// unchanged. The other parameters keep their text and their order.
pub fn strip_ck_ik(value: &str) -> (r: (String, Option<(Vec<u8>, Vec<u8>)>))
    ensures
        r.0@ == stripped(value@).0,
        match r.1 {
            Some(keys) => stripped(value@).1 == Some((keys.0@, keys.1@)) && keys.0@.len() == 16
                && keys.1@.len() == 16,
            None => stripped(value@).1 is None,
        },
{
    let chars = chars_of(value);
    let mut at: usize = 0;
    while at < chars.len() && !char_is_white_space(chars[at])
        invariant
            at <= chars@.len(),
            chars@ == value@,
            find_space(value@, 0) == find_space(value@, at as int),
        decreases chars@.len() - at,
    {
        at += 1;
    }
    if at >= chars.len() {
        return (value.to_owned(), None);
    }
    let rest = string_between(&chars, at + 1, chars.len());
    assert(rest@ =~= value@.skip(at + 1));
    let tokens = split_top_level_commas(&rest);
    let ghost all = texts(tokens@);
    let mut kept: Vec<String> = Vec::new();
    let mut ck: Option<Vec<u8>> = None;
    let mut ik: Option<Vec<u8>> = None;
    let mut i: usize = 0;
    assert(texts(kept@) =~= Seq::<Seq<char>>::empty());
    proof {
        reveal_strlit("ck");
        reveal_strlit("ik");
    }
    while i < tokens.len()
        invariant
            i <= tokens@.len(),
            all == texts(tokens@),
            texts(kept@) == kept_tokens(all.take(i as int)),
            "ck"@[0] == 'c',
            "ik"@[0] == 'i',
            match ck {
                Some(key) => key_param(all.take(i as int), "ck"@) == Some(key@) && key@.len() == 16,
                None => key_param(all.take(i as int), "ck"@) is None,
            },
            match ik {
                Some(key) => key_param(all.take(i as int), "ik"@) == Some(key@) && key@.len() == 16,
                None => key_param(all.take(i as int), "ik"@) is None,
            },
        decreases tokens@.len() - i,
    {
        let ghost prefix = all.take(i + 1);
        assert(prefix.drop_last() =~= all.take(i as int));
        assert(prefix.last() == tokens@[i as int]@);
        let token = trim_text(&tokens[i]);
        let token_chars = chars_of(&token);
        let eq = find_char_in(&token_chars, '=', 0);
        let ghost kept_before = kept@;
        if eq < token_chars.len() {
            let raw_name = string_between(&token_chars, 0, eq);
            assert(raw_name@ =~= token@.take(eq as int));
            let name = to_unicode_lower(&trim_text(&raw_name));
            if same_text(&name, "ck") || same_text(&name, "ik") {
                let raw_value = string_between(&token_chars, eq + 1, token_chars.len());
                assert(raw_value@ =~= token_value(token@));
                let key = parse_hex_param(&raw_value);
                if same_text(&name, "ck") {
                    ck = key;
                } else {
                    ik = key;
                }
            } else {
                kept.push(token);
                assert(texts(kept@) =~= texts(kept_before).push(token@));
            }
        } else if token_chars.len() > 0 {
            kept.push(token);
            assert(texts(kept@) =~= texts(kept_before).push(token@));
        }
        i += 1;
    }
    assert(all.take(all.len() as int) =~= all);
    match (ck, ik) {
        (Some(ck_key), Some(ik_key)) => {
            let scheme = string_between(&chars, 0, at);
            assert(scheme@ =~= value@.take(at as int));
            (scheme.concat(" ").concat(&join_tokens(&kept)), Some((ck_key, ik_key)))
        },
        _ => (value.to_owned(), None),
    }
}

/// One proposal of a `Security-Client` header.
pub struct SecurityClient {
    pub mechanism: String,
    pub algorithm: String,
    pub ealg: Option<String>,
    pub spi_c: u32,
    pub spi_s: u32,
    pub port_c: u16,
    pub port_s: u16,
}

/// A proposal as its text parts and numbers.
pub struct ClientText {
    pub mechanism: Seq<char>,
    pub algorithm: Seq<char>,
    pub ealg: Option<Seq<char>>,
    pub spi_c: u32,
    pub spi_s: u32,
    pub port_c: u16,
    pub port_s: u16,
}

impl View for SecurityClient {
    type V = ClientText;

    open spec fn view(&self) -> ClientText {
        ClientText {
            mechanism: self.mechanism@,
            algorithm: self.algorithm@,
            ealg: opt_text(self.ealg),
            spi_c: self.spi_c,
            spi_s: self.spi_s,
            port_c: self.port_c,
            port_s: self.port_s,
        }
    }
}

/// The value of the first `name=value` piece at or after `from` that has the
/// given lower-case name.
pub open spec fn piece_value(pieces: Seq<Seq<char>>, name: Seq<char>, from: int) -> Option<Seq<char>>
    decreases pieces.len() - from,
{
    if from < 0 || from >= pieces.len() {
        None
    } else {
        let piece = pieces[from];
        let at = find_char(piece, '=', 0);
        if at < piece.len() && lower(trim(piece.take(at))) == name {
            Some(trim(piece.skip(at + 1)))
        } else {
            piece_value(pieces, name, from + 1)
        }
    }
}

/// The value of a numeric piece, where it is at most `max`.
pub open spec fn piece_number(pieces: Seq<Seq<char>>, name: Seq<char>, max: nat) -> Option<nat> {
    match piece_value(pieces, name, 1) {
        Some(text) => match number_of(text) {
            Some(n) => if n <= max {
                Some(n)
            } else {
                None
            },
            None => None,
        },
        None => None,
    }
}

/// A proposal: a mechanism and, behind semicolons, its parameters. The
/// algorithm, both SPIs and both ports have to be there.
pub open spec fn security_client(s: Seq<char>) -> Option<ClientText> {
    let pieces = split(s, ';');
    match (
        piece_value(pieces, "alg"@, 1),
        piece_number(pieces, "spi-c"@, u32::MAX as nat),
        piece_number(pieces, "spi-s"@, u32::MAX as nat),
        piece_number(pieces, "port-c"@, u16::MAX as nat),
        piece_number(pieces, "port-s"@, u16::MAX as nat),
    ) {
        (Some(algorithm), Some(spi_c), Some(spi_s), Some(port_c), Some(port_s)) => Some(
            ClientText {
                mechanism: trim(pieces[0]),
                algorithm,
                ealg: piece_value(pieces, "ealg"@, 1),
                spi_c: spi_c as u32,
                spi_s: spi_s as u32,
                port_c: port_c as u16,
                port_s: port_s as u16,
            },
        ),
        _ => None,
    }
}

fn find_piece(pieces: &Vec<String>, name: &str) -> (r: Option<String>)
    requires
        pieces@.len() >= 1,
    ensures
        opt_text(r) == piece_value(texts(pieces@), name@, 1),
{
    let ghost all = texts(pieces@);
    let mut i: usize = 1;
    while i < pieces.len()
        invariant
            1 <= i <= pieces@.len(),
            all == texts(pieces@),
            piece_value(all, name@, 1) == piece_value(all, name@, i as int),
        decreases pieces@.len() - i,
    {
        let chars = chars_of(&pieces[i]);
        assert(all[i as int] == chars@);
        let at = find_char_in(&chars, '=', 0);
        if at < chars.len() {
            let raw_name = string_between(&chars, 0, at);
            assert(raw_name@ =~= chars@.take(at as int));
            if same_text(&to_lower(&trim_text(&raw_name)), name) {
                let raw_value = string_between(&chars, at + 1, chars.len());
                assert(raw_value@ =~= chars@.skip(at + 1));
                return Some(trim_text(&raw_value));
            }
        }
        i += 1;
    }
    None
}

fn find_number(pieces: &Vec<String>, name: &str, max: u64) -> (r: Option<u64>)
    requires
        pieces@.len() >= 1,
        max < 0x1000_0000_0000_0000,
    ensures
        match r {
            Some(n) => piece_number(texts(pieces@), name@, max as nat) == Some(n as nat) && n <= max,
            None => piece_number(texts(pieces@), name@, max as nat) is None,
        },
{
    match find_piece(pieces, name) {
        Some(text) => parse_number(&text, max),
        None => None,
    }
}

/// Reads one proposal; `None` where a required parameter is missing or is not
/// a number that fits.
pub fn parse_security_client(value: &str) -> (r: Option<SecurityClient>)
    ensures
        match r {
            Some(client) => security_client(value@) == Some(client@),
            None => security_client(value@) is None,
        },
{
    let pieces = split_text(value, ';');
    let algorithm = match find_piece(&pieces, "alg") {
        Some(v) => v,
        None => { return None; },
    };
    let spi_c = match find_number(&pieces, "spi-c", u32::MAX as u64) {
        Some(v) => v,
        None => { return None; },
    };
    let spi_s = match find_number(&pieces, "spi-s", u32::MAX as u64) {
        Some(v) => v,
        None => { return None; },
    };
    let port_c = match find_number(&pieces, "port-c", u16::MAX as u64) {
        Some(v) => v,
        None => { return None; },
    };
    let port_s = match find_number(&pieces, "port-s", u16::MAX as u64) {
        Some(v) => v,
        None => { return None; },
    };
    let ealg = find_piece(&pieces, "ealg");
    let mechanism = trim_text(&pieces[0]);
    assert(texts(pieces@)[0] == pieces@[0]@);
    Some(
        SecurityClient {
            mechanism,
            algorithm,
            ealg,
            spi_c: spi_c as u32,
            spi_s: spi_s as u32,
            port_c: port_c as u16,
            port_s: port_s as u16,
        },
    )
}

/// One UE-side proposal with the address that it came from.
pub struct PySecurityOffer {
    pub mechanism: String,
    pub alg: String,
    pub ealg: String,
    pub spi_c: u32,
    pub spi_s: u32,
    pub port_c: u16,
    pub port_s: u16,
    pub ue_addr: String,
}

/// An offer as its text parts and numbers.
pub struct OfferText {
    pub mechanism: Seq<char>,
    pub alg: Seq<char>,
    pub ealg: Seq<char>,
    pub spi_c: u32,
    pub spi_s: u32,
    pub port_c: u16,
    pub port_s: u16,
    pub ue_addr: Seq<char>,
}

impl View for PySecurityOffer {
    type V = OfferText;

    open spec fn view(&self) -> OfferText {
        OfferText {
            mechanism: self.mechanism@,
            alg: self.alg@,
            ealg: self.ealg@,
            spi_c: self.spi_c,
            spi_s: self.spi_s,
            port_c: self.port_c,
            port_s: self.port_s,
            ue_addr: self.ue_addr@,
        }
    }
}

/// The offer of a proposal; without an encryption algorithm it is `null`.
pub open spec fn offer_of(client: ClientText, ue_addr: Seq<char>) -> OfferText {
    OfferText {
        mechanism: client.mechanism,
        alg: client.algorithm,
        ealg: match client.ealg {
            Some(ealg) => ealg,
            None => "null"@,
        },
        spi_c: client.spi_c,
        spi_s: client.spi_s,
        port_c: client.port_c,
        port_s: client.port_s,
        ue_addr,
    }
}

impl PySecurityOffer {
    pub fn from_security_client(client: SecurityClient, ue_addr: &str) -> (r: Self)
        ensures
            r@ == offer_of(client@, ue_addr@),
    {
        PySecurityOffer {
            mechanism: client.mechanism,
            alg: client.algorithm,
            ealg: match client.ealg {
                Some(ealg) => ealg,
                None => "null".to_owned(),
            },
            spi_c: client.spi_c,
            spi_s: client.spi_s,
            port_c: client.port_c,
            port_s: client.port_s,
            ue_addr: ue_addr.to_owned(),
        }
    }
}

/// The offers among the chunks of a header: those of the chunks that parse.
pub open spec fn offers_in(chunks: Seq<Seq<char>>, ue_addr: Seq<char>) -> Seq<OfferText>
    decreases chunks.len(),
{
    if chunks.len() == 0 {
        Seq::empty()
    } else {
        let chunk = trim(chunks.last());
        let before = offers_in(chunks.drop_last(), ue_addr);
        match security_client(chunk) {
            Some(client) => if chunk.len() > 0 {
                before.push(offer_of(client, ue_addr))
            } else {
                before
            },
            None => before,
        }
    }
}

pub open spec fn offers_text(v: Seq<PySecurityOffer>) -> Seq<OfferText> {
    Seq::new(v.len(), |i: int| v[i]@)
}

/// Reads the comma-separated offers of a `Security-Client` header. Malformed
/// ones are skipped.
pub fn parse_security_client_multi(value: &str, ue_addr: &str) -> (r: Vec<PySecurityOffer>)
    ensures
        offers_text(r@) == offers_in(split_top_level(value@), ue_addr@),
{
    let chunks = split_top_level_commas(value);
    let ghost all = texts(chunks@);
    let mut out: Vec<PySecurityOffer> = Vec::new();
    let mut i: usize = 0;
    assert(offers_text(out@) =~= Seq::<OfferText>::empty());
    while i < chunks.len()
        invariant
            i <= chunks@.len(),
            all == texts(chunks@),
            offers_text(out@) == offers_in(all.take(i as int), ue_addr@),
        decreases chunks@.len() - i,
    {
        let ghost prefix = all.take(i + 1);
        assert(prefix.drop_last() =~= all.take(i as int));
        assert(prefix.last() == chunks@[i as int]@);
        let chunk = trim_text(&chunks[i]);
        if !chunk.as_str().is_empty() {
            match parse_security_client(&chunk) {
                Some(client) => {
                    let ghost before = out@;
                    out.push(PySecurityOffer::from_security_client(client, ue_addr));
                    assert(offers_text(out@) =~= offers_text(before).push(offer_of(client@, ue_addr@)));
                },
                None => {},
            }
        }
        i += 1;
    }
    assert(all.take(all.len() as int) =~= all);
    out
}

/// The scanner's state (inside quotes, behind a backslash) after one character.
spec fn step(quoted: bool, escaped: bool, c: char) -> (bool, bool) {
    if escaped {
        (quoted, false)
    } else if c == '\\' && quoted {
        (quoted, true)
    } else if c == '"' {
        (!quoted, false)
    } else {
        (quoted, false)
    }
}

/// The scanner's state after a text.
spec fn scan(s: Seq<char>, quoted: bool, escaped: bool) -> (bool, bool)
    decreases s.len(),
{
    if s.len() == 0 {
        (quoted, escaped)
    } else {
        let next = step(quoted, escaped, s[0]);
        scan(s.skip(1), next.0, next.1)
    }
}

/// The text ends outside quotes.
spec fn closed(s: Seq<char>) -> bool {
    !scan(s, false, false).0
}

/// The text has no top-level comma.
spec fn whole(s: Seq<char>) -> bool {
    next_comma(s, 0, false, false) == s.len()
}

/// No white space at either end.
spec fn trimmed(s: Seq<char>) -> bool {
    s.len() > 0 ==> !is_white_space(s[0]) && !is_white_space(s.last())
}

proof fn lemma_comma_shift(s: Seq<char>, i: int, quoted: bool, escaped: bool)
    requires
        0 <= i <= s.len(),
    ensures
        next_comma(s, i, quoted, escaped) == i + next_comma(s.skip(i), 0, quoted, escaped),
        i <= next_comma(s, i, quoted, escaped) <= s.len(),
    decreases s.len() - i,
{
    if i < s.len() {
        let rest = s.skip(i);
        assert(rest[0] == s[i]);
        assert(rest.skip(1) =~= s.skip(i + 1));
        let next = step(quoted, escaped, s[i]);
        lemma_comma_shift(s, i + 1, next.0, next.1);
        lemma_comma_shift(rest, 1, next.0, next.1);
    }
}

proof fn lemma_comma_concat(a: Seq<char>, b: Seq<char>, quoted: bool, escaped: bool)
    ensures
        next_comma(a + b, 0, quoted, escaped) == if next_comma(a, 0, quoted, escaped) < a.len() {
            next_comma(a, 0, quoted, escaped)
        } else {
            a.len() + next_comma(b, 0, scan(a, quoted, escaped).0, scan(a, quoted, escaped).1)
        },
        0 <= next_comma(a, 0, quoted, escaped) <= a.len(),
    decreases a.len(),
{
    lemma_comma_shift(a, 0, quoted, escaped);
    assert(a.skip(0) =~= a);
    if a.len() == 0 {
        assert(a + b =~= b);
    } else {
        let next = step(quoted, escaped, a[0]);
        let s = a + b;
        assert(s[0] == a[0]);
        assert(s.skip(1) =~= a.skip(1) + b);
        lemma_comma_shift(s, 1, next.0, next.1);
        lemma_comma_shift(a, 1, next.0, next.1);
        lemma_comma_concat(a.skip(1), b, next.0, next.1);
    }
}

proof fn lemma_scan_concat(a: Seq<char>, b: Seq<char>, quoted: bool, escaped: bool)
    ensures
        scan(a + b, quoted, escaped) == scan(
            b,
            scan(a, quoted, escaped).0,
            scan(a, quoted, escaped).1,
        ),
    decreases a.len(),
{
    if a.len() == 0 {
        assert(a + b =~= b);
    } else {
        let next = step(quoted, escaped, a[0]);
        assert((a + b).skip(1) =~= a.skip(1) + b);
        lemma_scan_concat(a.skip(1), b, next.0, next.1);
    }
}

proof fn lemma_escape_needs_quote(s: Seq<char>, quoted: bool, escaped: bool)
    requires
        escaped ==> quoted,
    ensures
        scan(s, quoted, escaped).1 ==> scan(s, quoted, escaped).0,
    decreases s.len(),
{
    if s.len() > 0 {
        let next = step(quoted, escaped, s[0]);
        lemma_escape_needs_quote(s.skip(1), next.0, next.1);
    }
}

/// Splitting distributes over a top-level comma.
proof fn lemma_split_at_comma(a: Seq<char>, b: Seq<char>)
    requires
        closed(a),
    ensures
        split_top_level(a + seq![','] + b) == split_top_level(a) + split_top_level(b),
    decreases a.len(),
{
    let tail = seq![','] + b;
    let s = a + seq![','] + b;
    assert(s =~= a + tail);
    lemma_comma_concat(a, tail, false, false);
    lemma_escape_needs_quote(a, false, false);
    let i = next_comma(a, 0, false, false);
    if i < a.len() {
        let rest = a.skip(i + 1);
        let upto = a.take(i + 1);
        assert(a =~= upto + rest);
        lemma_scan_concat(upto, rest, false, false);
        lemma_state_at_comma(a, 0, false, false);
        lemma_split_at_comma(rest, b);
        assert(s.skip(i + 1) =~= rest + seq![','] + b);
        assert(s.take(i) =~= a.take(i));
        assert(split_top_level(s) =~= seq![a.take(i)] + (split_top_level(rest) + split_top_level(
            b,
        )));
    } else {
        assert(tail[0] == ',');
        assert(next_comma(tail, 0, false, false) == 0);
        assert(s.take(a.len() as int) =~= a);
        assert(s.skip((a.len() + 1) as int) =~= b);
    }
}

/// At a top-level comma, and right behind it, the scanner is outside quotes.
proof fn lemma_state_at_comma(s: Seq<char>, from: int, quoted: bool, escaped: bool)
    requires
        0 <= from <= s.len(),
        next_comma(s, from, quoted, escaped) < s.len(),
        escaped ==> quoted,
    ensures
        ({
            let i = next_comma(s, from, quoted, escaped);
            &&& from <= i
            &&& scan(s.subrange(from, i), quoted, escaped) == (false, false)
            &&& scan(s.subrange(from, i + 1), quoted, escaped) == (false, false)
        }),
    decreases s.len() - from,
{
    let i = next_comma(s, from, quoted, escaped);
    lemma_comma_shift(s, from, quoted, escaped);
    if i == from {
        if escaped || (s[from] == '\\' && quoted) || s[from] == '"' || s[from] != ',' || quoted {
            let next = step(quoted, escaped, s[from]);
            lemma_comma_shift(s, from + 1, next.0, next.1);
        }
        let one = s.subrange(from, from + 1);
        assert(one.skip(1) =~= Seq::<char>::empty());
        assert(s.subrange(from, from) =~= Seq::<char>::empty());
        reveal_with_fuel(scan, 2);
    } else {
        let next = step(quoted, escaped, s[from]);
        assert(next_comma(s, from + 1, next.0, next.1) == i);
        lemma_state_at_comma(s, from + 1, next.0, next.1);
        assert(s.subrange(from, i).skip(1) =~= s.subrange(from + 1, i));
        assert(s.subrange(from, i + 1).skip(1) =~= s.subrange(from + 1, i + 1));
    }
}

/// The pieces of a split have no top-level comma, and all but the last end
/// outside quotes.
proof fn lemma_pieces(s: Seq<char>)
    ensures
        split_top_level(s).len() >= 1,
        forall|k: int|
            0 <= k < split_top_level(s).len() ==> whole(#[trigger] split_top_level(s)[k]),
        forall|k: int|
            0 <= k < split_top_level(s).len() - 1 ==> closed(#[trigger] split_top_level(s)[k]),
    decreases s.len(),
{
    let i = next_comma(s, 0, false, false);
    lemma_comma_shift(s, 0, false, false);
    let pieces = split_top_level(s);
    if i < s.len() {
        let head = s.take(i);
        let tail = s.skip(i + 1);
        lemma_pieces(tail);
        lemma_state_at_comma(s, 0, false, false);
        assert(s.subrange(0, i) =~= head);
        assert(s =~= head + s.skip(i));
        lemma_comma_concat(head, s.skip(i), false, false);
        assert(whole(head));
        assert forall|k: int| 0 <= k < pieces.len() implies whole(#[trigger] pieces[k]) by {
            if k > 0 {
                assert(pieces[k] == split_top_level(tail)[k - 1]);
            }
        }
        assert forall|k: int| 0 <= k < pieces.len() - 1 implies closed(#[trigger] pieces[k]) by {
            if k > 0 {
                assert(pieces[k] == split_top_level(tail)[k - 1]);
            }
        }
    }
}

proof fn lemma_trim_start(s: Seq<char>)
    ensures
        whole(s) ==> whole(trim_start(s)),
        closed(s) ==> closed(trim_start(s)),
        trim_start(s).len() > 0 ==> !is_white_space(trim_start(s)[0]),
    decreases s.len(),
{
    if s.len() > 0 && is_white_space(s[0]) {
        lemma_comma_shift(s, 1, false, false);
        lemma_trim_start(s.skip(1));
    }
}

proof fn lemma_trim_end(s: Seq<char>)
    ensures
        whole(s) ==> whole(trim_end(s)),
        closed(s) ==> closed(trim_end(s)),
        trim_end(s).len() > 0 ==> !is_white_space(trim_end(s).last()) && trim_end(s)[0] == s[0],
    decreases s.len(),
{
    if s.len() > 0 && is_white_space(s.last()) {
        let init = s.drop_last();
        let last = seq![s.last()];
        assert(s =~= init + last);
        lemma_comma_concat(init, last, false, false);
        lemma_scan_concat(init, last, false, false);
        lemma_escape_needs_quote(init, false, false);
        assert(last.skip(1) =~= Seq::<char>::empty());
        reveal_with_fuel(scan, 2);
        lemma_trim_end(init);
    }
}

proof fn lemma_trim(s: Seq<char>)
    ensures
        whole(s) ==> whole(trim(s)),
        closed(s) ==> closed(trim(s)),
        trimmed(trim(s)),
{
    lemma_trim_start(s);
    lemma_trim_end(trim_start(s));
}

proof fn lemma_trim_padded(t: Seq<char>)
    requires
        trimmed(t),
        t.len() > 0,
    ensures
        trim(t) == t,
        trim(seq![' '] + t) == t,
{
    let s = seq![' '] + t;
    assert(s.skip(1) =~= t);
    assert(trim_start(s) == trim_start(t));
}

/// A token as it can stand in a rewritten header.
spec fn is_clean(t: Seq<char>) -> bool {
    t.len() > 0 && trimmed(t) && whole(t) && !is_key_token(t)
}

proof fn lemma_kept_are_clean(tokens: Seq<Seq<char>>, ends_open: bool)
    requires
        forall|k: int| 0 <= k < tokens.len() ==> whole(#[trigger] tokens[k]),
        forall|k: int|
            0 <= k < tokens.len() - (if ends_open {
                1int
            } else {
                0
            }) ==> closed(#[trigger] tokens[k]),
    ensures
        forall|k: int| 0 <= k < kept_tokens(tokens).len() ==> is_clean(#[trigger] kept_tokens(tokens)[k]),
        forall|k: int|
            0 <= k < kept_tokens(tokens).len() - (if ends_open {
                1int
            } else {
                0
            }) ==> closed(#[trigger] kept_tokens(tokens)[k]),
    decreases tokens.len(),
{
    if tokens.len() > 0 {
        let init = tokens.drop_last();
        assert forall|k: int| 0 <= k < init.len() implies whole(#[trigger] init[k]) by {
            assert(init[k] == tokens[k]);
        }
        assert forall|k: int| 0 <= k < init.len() implies closed(#[trigger] init[k]) by {
            assert(init[k] == tokens[k]);
        }
        lemma_kept_are_clean(init, false);
        let before = kept_tokens(init);
        let all = kept_tokens(tokens);
        let last = tokens.len() - 1;
        assert(whole(tokens[last]));
        assert(!ends_open ==> closed(tokens[last]));
        lemma_trim(tokens[last]);
        assert forall|k: int| 0 <= k < all.len() implies is_clean(#[trigger] all[k]) by {
            if k < before.len() {
                assert(all[k] == before[k]);
            }
        }
        assert forall|k: int|
            0 <= k < all.len() - (if ends_open {
                1int
            } else {
                0
            }) implies closed(#[trigger] all[k]) by {
            if k < before.len() {
                assert(all[k] == before[k]);
            }
        }
    }
}

spec fn all_clean(ts: Seq<Seq<char>>) -> bool {
    &&& forall|k: int| 0 <= k < ts.len() ==> is_clean(#[trigger] ts[k])
    &&& forall|k: int| 0 <= k < ts.len() - 1 ==> closed(#[trigger] ts[k])
}

/// Splitting joined clean tokens and keeping what is not a key gives the tokens
/// back, and no piece is a key.
proof fn lemma_rejoin(ts: Seq<Seq<char>>, name: Seq<char>)
    requires
        all_clean(ts),
        name == "ck"@ || name == "ik"@,
    ensures
        kept_tokens(split_top_level(joined(ts))) == ts,
        key_param(split_top_level(joined(ts)), name) is None,
        forall|k: int|
            0 <= k < split_top_level(joined(ts)).len() ==> !is_key_token(
                trim(#[trigger] split_top_level(joined(ts))[k]),
            ),
        ts.len() > 0 && closed(ts.last()) ==> closed(joined(ts)),
    decreases ts.len(),
{
    reveal_strlit("ck");
    reveal_strlit("ik");
    if ts.len() == 0 {
        let empty = Seq::<char>::empty();
        assert(split_top_level(empty) =~= seq![empty]);
        assert(seq![empty].drop_last() =~= Seq::<Seq<char>>::empty());
        assert(trim(empty) =~= empty);
        reveal_with_fuel(kept_tokens, 2);
        reveal_with_fuel(key_param, 2);
    } else {
        let init = ts.drop_last();
        let last = ts.last();
        assert(is_clean(ts[ts.len() - 1]));
        lemma_trim_padded(last);
        if ts.len() == 1 {
            assert(split_top_level(last) =~= seq![last]);
            assert(seq![last].drop_last() =~= Seq::<Seq<char>>::empty());
            reveal_with_fuel(kept_tokens, 2);
            reveal_with_fuel(key_param, 2);
            assert(kept_tokens(seq![last]) =~= ts);
        } else {
            assert forall|k: int| 0 <= k < init.len() implies is_clean(#[trigger] init[k]) by {
                assert(init[k] == ts[k]);
            }
            assert forall|k: int| 0 <= k < init.len() - 1 implies closed(#[trigger] init[k]) by {
                assert(init[k] == ts[k]);
            }
            assert(closed(ts[ts.len() - 2]));
            lemma_rejoin(init, name);
            let padded = seq![' '] + last;
            reveal_strlit(", ");
            let a = joined(init);
            assert(joined(ts) =~= a + seq![','] + padded);
            lemma_split_at_comma(a, padded);
            let blank = seq![' '];
            assert(blank.skip(1) =~= Seq::<char>::empty());
            reveal_with_fuel(scan, 2);
            reveal_with_fuel(next_comma, 2);
            lemma_comma_concat(blank, last, false, false);
            assert(whole(padded));
            assert(split_top_level(padded) =~= seq![padded]);
            let tokens = split_top_level(joined(ts));
            assert(tokens.drop_last() =~= split_top_level(a));
            assert(tokens.last() == padded);
            assert forall|k: int| 0 <= k < tokens.len() implies !is_key_token(
                trim(#[trigger] tokens[k]),
            ) by {
                if k < tokens.len() - 1 {
                    assert(tokens[k] == split_top_level(a)[k]);
                }
            }
            assert(kept_tokens(tokens) =~= init.push(last));
            assert(init.push(last) =~= ts);
            lemma_scan_concat(a, seq![','], false, false);
            lemma_scan_concat(a + seq![','], padded, false, false);
            lemma_scan_concat(blank, last, false, false);
            lemma_escape_needs_quote(a, false, false);
            assert(seq![','].skip(1) =~= Seq::<char>::empty());
        }
    }
}

proof fn lemma_find_space(s: Seq<char>, from: int, at: int)
    requires
        0 <= from <= at < s.len(),
        is_white_space(s[at]),
        forall|k: int| from <= k < at ==> !is_white_space(#[trigger] s[k]),
    ensures
        find_space(s, from) == at,
    decreases at - from,
{
    if from < at {
        lemma_find_space(s, from + 1, at);
    }
}

proof fn lemma_find_space_range(s: Seq<char>, from: int)
    requires
        0 <= from <= s.len(),
    ensures
        from <= find_space(s, from) <= s.len(),
        forall|k: int| from <= k < find_space(s, from) ==> !is_white_space(#[trigger] s[k]),
    decreases s.len() - from,
{
    if from < s.len() && !is_white_space(s[from]) {
        lemma_find_space_range(s, from + 1);
    }
}

/// Where the last `ck` and the last `ik` parameter are both well formed, and
/// only there, stripping takes every `ck` and `ik` parameter out: the scheme
/// stays, no piece of the rest is a key, and the other parameters keep their
/// text and their order. Elsewhere the value stays as it is.
pub proof fn strip_takes_only_the_keys(value: Seq<char>)
    ensures
        ({
            let at = find_space(value, 0);
            let before = split_top_level(value.skip(at + 1));
            (stripped(value).1 is Some) == (at < value.len() && key_param(before, "ck"@) is Some
                && key_param(before, "ik"@) is Some)
        }),
        stripped(value).1 is None ==> stripped(value).0 == value,
        stripped(value).1 is Some ==> ({
            let at = find_space(value, 0);
            let r = stripped(value).0;
            let before = split_top_level(value.skip(at + 1));
            let after = split_top_level(r.skip(at + 1));
            &&& find_space(r, 0) == at
            &&& r.take(at) == value.take(at)
            &&& kept_tokens(after) == kept_tokens(before)
            &&& key_param(after, "ck"@) is None
            &&& key_param(after, "ik"@) is None
            &&& forall|k: int|
                0 <= k < after.len() ==> !is_key_token(trim(#[trigger] after[k]))
        }),
{
    let at = find_space(value, 0);
    lemma_find_space_range(value, 0);
    if stripped(value).1 is Some {
        let tokens = split_top_level(value.skip(at + 1));
        let kept = kept_tokens(tokens);
        lemma_pieces(value.skip(at + 1));
        lemma_kept_are_clean(tokens, true);
        lemma_rejoin(kept, "ck"@);
        lemma_rejoin(kept, "ik"@);
        let scheme = value.take(at);
        let result = stripped(value).0;
        reveal_strlit(" ");
        assert(result =~= scheme + seq![' '] + joined(kept));
        assert forall|k: int| 0 <= k < at implies !is_white_space(#[trigger] result[k]) by {
            assert(result[k] == value[k]);
        }
        lemma_find_space(result, 0, at);
        assert(result.skip(at + 1) =~= joined(kept));
        assert(result.take(at) =~= scheme);
    }
}

/// A second strip leaves a stripped value as it is, and finds no keys in it.
pub proof fn strip_is_idempotent(value: Seq<char>)
    ensures
        stripped(stripped(value).0).0 == stripped(value).0,
        stripped(value).1 is Some ==> stripped(stripped(value).0).1 is None,
{
    strip_takes_only_the_keys(value);
}

} // verus!
