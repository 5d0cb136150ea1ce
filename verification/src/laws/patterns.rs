//! Laws of patterns, lists in texts, and the ways octets and numbers are written.

use crate::base64::{base64_decode, base64_encode, base64_round_trip, encode_group, encoded, symbol};
use crate::bytes::{from_twos32, to_twos32};
use crate::diameter::charging::{NodeFunctionality, NodeRole};
use crate::diameter::glob::{fnmatch, glob};
use crate::digest::{cut_at_sign, md5_ha1_aka, md5_hex};
use crate::hash::md5_of;
use crate::hex::{hex_round_trip, hex_text};
use crate::sec_agree::{
    join_tokens, joined, next_comma, parse_hex_param, split_top_level, split_top_level_commas,
};
use crate::text::{
    assoc, assoc_get, find_char, lemma_find_char_is, lemma_find_char_range, lower, opt_text,
    pairs_text, split, split_text, texts,
};
use vstd::prelude::*;
use vstd::string::*;
use vstd::utf8::encode_utf8;

verus! {

proof fn lemma_star(rest: Seq<char>, t: Seq<char>)
    ensures
        glob(seq!['*'] + rest, t) <==> exists|k: int|
            0 <= k <= t.len() && #[trigger] glob(rest, t.skip(k)),
    decreases t.len(),
{
    let p = seq!['*'] + rest;
    assert(p.skip(1) =~= rest);
    assert(t.skip(0) =~= t);
    if glob(rest, t) {
        assert(glob(rest, t.skip(0)));
    }
    if t.len() > 0 {
        lemma_star(rest, t.skip(1));
        if glob(p, t.skip(1)) {
            let k = choose|k: int| 0 <= k <= t.skip(1).len() && #[trigger] glob(
                rest,
                t.skip(1).skip(k),
            );
            assert(t.skip(1).skip(k) =~= t.skip(k + 1));
            assert(glob(rest, t.skip(k + 1)));
        }
        if exists|k: int| 0 <= k <= t.len() && #[trigger] glob(rest, t.skip(k)) {
            let k = choose|k: int| 0 <= k <= t.len() && #[trigger] glob(rest, t.skip(k));
            if k > 0 {
                assert(t.skip(1).skip(k - 1) =~= t.skip(k));
                assert(glob(rest, t.skip(1).skip(k - 1)));
            }
        }
    } else {
        if exists|k: int| 0 <= k <= t.len() && #[trigger] glob(rest, t.skip(k)) {
            assert(glob(rest, t.skip(0)));
        }
        if glob(p, t) {
            assert(glob(rest, t.skip(0)));
        }
    }
}

/// A star stands for any stretch of text, a question mark for any one letter, and
/// any other letter for itself.
#[verifier::spinoff_prover]
#[verifier::rlimit(40)]
pub proof fn pattern_stands_for_its_texts(
    value: &str,
    starred: &str,
    marked: &str,
    plain: &str,
    rest: Seq<char>,
    letter: char,
    by_star: bool,
    by_mark: bool,
    by_letter: bool,
)
    requires
        starred@ == seq!['*'] + rest,
        marked@ == seq!['?'] + rest,
        plain@ == seq![letter] + rest,
        letter != '*' && letter != '?',
        call_ensures(fnmatch, (value, starred), by_star),
        call_ensures(fnmatch, (value, marked), by_mark),
        call_ensures(fnmatch, (value, plain), by_letter),
    ensures
        by_star <==> exists|k: int| 0 <= k <= value@.len() && #[trigger] glob(rest, value@.skip(k)),
        by_mark <==> value@.len() > 0 && glob(rest, value@.skip(1)),
        by_letter <==> value@.len() > 0 && value@[0] == letter && glob(rest, value@.skip(1)),
        glob(Seq::empty(), value@) <==> value@.len() == 0,
{
    lemma_star(rest, value@);
    assert(marked@.skip(1) =~= rest);
    assert(plain@.skip(1) =~= rest);
}

/// The pieces in their order, with a separator between each and the next.
pub open spec fn glued(pieces: Seq<Seq<char>>, sep: Seq<char>) -> Seq<char>
    decreases pieces.len(),
{
    if pieces.len() == 0 {
        Seq::empty()
    } else if pieces.len() == 1 {
        pieces[0]
    } else {
        pieces[0] + sep + glued(pieces.skip(1), sep)
    }
}

proof fn lemma_split_glues(s: Seq<char>, sep: char)
    ensures
        glued(split(s, sep), seq![sep]) == s,
        split(s, sep).len() > 0,
        forall|i: int, k: int|
            0 <= i < split(s, sep).len() && 0 <= k < split(s, sep)[i].len()
                ==> #[trigger] split(s, sep)[i][k] != sep,
    decreases s.len(),
{
    lemma_find_char_range(s, sep, 0);
    let at = find_char(s, sep, 0);
    let parts = split(s, sep);
    if at >= s.len() {
        assert(parts =~= seq![s]);
        assert forall|i: int, k: int| 0 <= i < parts.len() && 0 <= k < parts[i].len() implies
            #[trigger] parts[i][k] != sep by {
            assert(parts[i] == s);
        }
    } else {
        let rest = s.skip(at + 1);
        lemma_split_glues(rest, sep);
        let tail = split(rest, sep);
        assert(parts =~= seq![s.take(at)] + tail);
        assert(parts.skip(1) =~= tail);
        assert(s =~= s.take(at) + seq![sep] + rest);
        assert forall|i: int, k: int| 0 <= i < parts.len() && 0 <= k < parts[i].len() implies
            #[trigger] parts[i][k] != sep by {
            if i == 0 {
                assert(parts[0] == s.take(at));
            } else {
                assert(parts[i] == tail[i - 1]);
            }
        }
    }
}

/// A text is split into the pieces that its separators part: put together with
/// the separator they are the text, and no piece holds one.
pub proof fn pieces_make_up_the_text(s: &str, sep: char, pieces: Vec<String>, i: int, k: int)
    requires
        call_ensures(split_text, (s, sep), pieces),
    ensures
        glued(texts(pieces@), seq![sep]) == s@,
        0 <= i < pieces@.len() && 0 <= k < pieces@[i]@.len() ==> pieces@[i]@[k] != sep,
{
    lemma_split_glues(s@, sep);
    let parts = texts(pieces@);
    assert(parts.len() == pieces@.len());
    if 0 <= i < pieces@.len() && 0 <= k < pieces@[i]@.len() {
        assert(parts[i] == pieces@[i]@);
        assert(split(s@, sep)[i][k] != sep);
    }
}

proof fn lemma_next_comma(s: Seq<char>, i: int, quoted: bool, escaped: bool)
    requires
        0 <= i <= s.len(),
    ensures
        i <= next_comma(s, i, quoted, escaped) <= s.len(),
        next_comma(s, i, quoted, escaped) < s.len() ==> s[next_comma(s, i, quoted, escaped)] == ',',
    decreases s.len() - i,
{
    if i < s.len() {
        if escaped {
            lemma_next_comma(s, i + 1, quoted, false);
        } else if s[i] == '\\' && quoted {
            lemma_next_comma(s, i + 1, quoted, true);
        } else if s[i] == '"' {
            lemma_next_comma(s, i + 1, !quoted, false);
        } else if s[i] == ',' && !quoted {
        } else {
            lemma_next_comma(s, i + 1, quoted, false);
        }
    }
}

proof fn lemma_top_level_glues(s: Seq<char>)
    ensures
        glued(split_top_level(s), seq![',']) == s,
        split_top_level(s).len() > 0,
    decreases s.len(),
{
    lemma_next_comma(s, 0, false, false);
    let at = next_comma(s, 0, false, false);
    if at < s.len() {
        let rest = s.skip(at + 1);
        lemma_top_level_glues(rest);
        let parts = split_top_level(s);
        assert(parts =~= seq![s.take(at)] + split_top_level(rest));
        assert(parts.skip(1) =~= split_top_level(rest));
        assert(s =~= s.take(at) + seq![','] + rest);
    }
}

proof fn lemma_unquoted_comma(s: Seq<char>, i: int)
    requires
        0 <= i <= s.len(),
        forall|k: int| 0 <= k < s.len() ==> s[k] != '"',
    ensures
        next_comma(s, i, false, false) == find_char(s, ',', i),
    decreases s.len() - i,
{
    if i < s.len() && s[i] != ',' {
        lemma_unquoted_comma(s, i + 1);
    }
}

proof fn lemma_unquoted_split(s: Seq<char>)
    requires
        forall|k: int| 0 <= k < s.len() ==> s[k] != '"',
    ensures
        split_top_level(s) == split(s, ','),
    decreases s.len(),
{
    lemma_unquoted_comma(s, 0);
    lemma_find_char_range(s, ',', 0);
    let at = find_char(s, ',', 0);
    if at < s.len() {
        let rest = s.skip(at + 1);
        assert forall|k: int| 0 <= k < rest.len() implies rest[k] != '"' by {
            assert(rest[k] == s[at + 1 + k]);
        }
        lemma_unquoted_split(rest);
    }
}

proof fn lemma_quoted_comma(s: Seq<char>, i: int, end: int)
    requires
        0 <= i <= end < s.len(),
        s[end] == '"',
        forall|k: int| i <= k < end ==> s[k] != '"' && s[k] != '\\',
    ensures
        next_comma(s, i, true, false) == next_comma(s, end + 1, false, false),
    decreases end - i,
{
    if i < end {
        lemma_quoted_comma(s, i + 1, end);
    }
}

/// A list is split at its commas: with commas between them the parts are the
/// list again, without quotes every comma parts, and one in quotes parts nothing.
#[verifier::spinoff_prover]
#[verifier::rlimit(40)]
pub proof fn list_is_split_at_its_commas(
    value: &str,
    parts: Vec<String>,
    commas: Vec<String>,
    quoted: &str,
    text: Seq<char>,
    whole: Vec<String>,
)
    requires
        call_ensures(split_top_level_commas, (value,), parts),
        call_ensures(split_text, (value, ','), commas),
        quoted@ == seq!['"'] + text + seq!['"'],
        forall|k: int| 0 <= k < text.len() ==> text[k] != '"' && text[k] != '\\',
        call_ensures(split_top_level_commas, (quoted,), whole),
    ensures
        glued(texts(parts@), seq![',']) == value@,
        (forall|k: int| 0 <= k < value@.len() ==> value@[k] != '"') ==> texts(parts@) == texts(
            commas@,
        ),
        whole@.len() == 1 && whole@[0]@ == quoted@,
{
    lemma_top_level_glues(value@);
    if forall|k: int| 0 <= k < value@.len() ==> value@[k] != '"' {
        lemma_unquoted_split(value@);
    }
    let s = quoted@;
    let end = text.len() as int + 1;
    assert(s[0] == '"' && s[end] == '"');
    assert forall|k: int| 1 <= k < end implies s[k] != '"' && s[k] != '\\' by {
        assert(s[k] == text[k - 1]);
    }
    lemma_quoted_comma(s, 1, end);
    assert(next_comma(s, 0, false, false) == next_comma(s, 1, true, false));
    assert(next_comma(s, end + 1, false, false) == s.len());
    assert(split_top_level(s) =~= seq![s]);
    assert(texts(whole@).len() == whole@.len());
    assert(texts(whole@)[0] == whole@[0]@);
}

proof fn lemma_glued_last(parts: Seq<Seq<char>>, sep: Seq<char>)
    requires
        parts.len() > 1,
    ensures
        glued(parts, sep) == glued(parts.drop_last(), sep) + sep + parts.last(),
    decreases parts.len(),
{
    if parts.len() == 2 {
        reveal_with_fuel(glued, 3);
        assert(parts.skip(1) =~= seq![parts[1]]);
        assert(parts.drop_last() =~= seq![parts[0]]);
    } else {
        let rest = parts.skip(1);
        lemma_glued_last(rest, sep);
        assert(rest.drop_last() =~= parts.drop_last().skip(1));
        assert(rest.last() == parts.last());
        assert(parts.drop_last()[0] == parts[0]);
        assert(glued(parts, sep) =~= glued(parts.drop_last(), sep) + sep + parts.last());
    }
}

proof fn lemma_joined(parts: Seq<Seq<char>>)
    ensures
        joined(parts) == glued(parts, ", "@),
    decreases parts.len(),
{
    if parts.len() > 1 {
        lemma_joined(parts.drop_last());
        lemma_glued_last(parts, ", "@);
    }
}

/// Tokens are joined in their order with a comma and a space.
pub proof fn tokens_are_joined_in_order(parts: Vec<String>, text: String)
    requires
        call_ensures(join_tokens, (&parts,), text),
    ensures
        text@ == glued(texts(parts@), ", "@),
{
    lemma_joined(texts(parts@));
}

/// A key that is written in hexadecimal, in quotes or without, is read back as
/// its sixteen octets.
pub proof fn hexadecimal_key_is_read_back(
    key: Seq<u8>,
    plain: &str,
    quoted: &str,
    a: Option<Vec<u8>>,
    b: Option<Vec<u8>>,
)
    requires
        key.len() == 16,
        plain@ == hex_text(key),
        quoted@ == seq!['"'] + hex_text(key) + seq!['"'],
        call_ensures(parse_hex_param, (plain,), a),
        call_ensures(parse_hex_param, (quoted,), b),
    ensures
        a matches Some(read) && read@ == key,
        b matches Some(read) && read@ == key,
{
    hex_round_trip(key);
    let digits = hex_text(key);
    assert(digits.len() == 32);
    lemma_hex_is_no_space(key, 0);
    lemma_hex_is_no_space(key, 31);
    assert(crate::text::trim(plain@) == plain@);
    assert(crate::text::trim(quoted@) == quoted@);
    assert(quoted@.subrange(1, quoted@.len() - 1) =~= digits);
    assert(plain@[0] != '"');
}

proof fn lemma_hex_is_no_space(key: Seq<u8>, i: int)
    requires
        0 <= i < hex_text(key).len(),
    ensures
        !crate::text::is_white_space(hex_text(key)[i]),
        hex_text(key)[i] != '"',
{
    let b = key[i / 2] as int;
    assert(0 <= b / 16 < 16 && 0 <= b % 16 < 16);
}

/// The code of the symbol for six bits: the capitals, the small letters, the
/// digits, a plus sign and a slash, each in their order.
pub open spec fn code_of_six_bits(v: int) -> int {
    if v < 26 {
        65 + v
    } else if v < 52 {
        71 + v
    } else if v < 62 {
        v - 4
    } else if v == 62 {
        43
    } else {
        47
    }
}

/// Three octets are written as four symbols of six bits each, the highest first,
/// and read back.
#[verifier::spinoff_prover]
#[verifier::rlimit(40)]
pub proof fn octets_are_written_six_bits_at_a_time(
    data: &[u8],
    text: String,
    input: &str,
    read: Option<Vec<u8>>,
)
    requires
        call_ensures(base64_encode, (data,), text),
        input@ == text@,
        call_ensures(base64_decode, (input,), read),
    ensures
        read matches Some(octets) && octets@ == data@,
        data@.len() >= 3 ==> {
            let n = data@[0] * 65536 + data@[1] * 256 + data@[2];
            &&& text@.len() >= 4
            &&& text@[0] as u32 == code_of_six_bits(n / 262144)
            &&& text@[1] as u32 == code_of_six_bits(n / 4096 % 64)
            &&& text@[2] as u32 == code_of_six_bits(n / 64 % 64)
            &&& text@[3] as u32 == code_of_six_bits(n % 64)
        },
{
    base64_round_trip(data@);
    if data@.len() >= 3 {
        let n = data@[0] * 65536 + data@[1] * 256 + data@[2];
        let group = encode_group(data@[0], data@[1], data@[2], 3);
        assert(text@ == group + encoded(data@.skip(3)));
        assert(0 <= n / 262144 < 64);
        lemma_symbol(n / 262144);
        lemma_symbol(n / 4096 % 64);
        lemma_symbol(n / 64 % 64);
        lemma_symbol(n % 64);
        assert(text@[0] == group[0] && text@[1] == group[1] && text@[2] == group[2] && text@[3]
            == group[3]);
    }
}

proof fn lemma_symbol(v: int)
    requires
        0 <= v < 64,
    ensures
        symbol(v) as u32 == code_of_six_bits(v),
{
    reveal(symbol);
}

/// A number below zero is written as what it lacks to the thirty-third bit, and
/// read back.
pub proof fn negative_number_wraps_round(n: i32, written: u64, read: i32)
    requires
        call_ensures(to_twos32, (n,), written),
        call_ensures(from_twos32, (written,), read),
    ensures
        written == n as int % 0x1_0000_0000,
        read == n,
{
}

/// The HA1 of an AKA response is the MD5 hash of the user, the realm and the
/// response's own octets, with colons between.
pub proof fn aka_secret_is_the_hash_of_its_parts(
    username: &str,
    realm: &str,
    password: &[u8],
    ha1: String,
    plain: &str,
    hashed: String,
)
    requires
        call_ensures(md5_ha1_aka, (username, realm, password), ha1),
        call_ensures(md5_hex, (plain,), hashed),
    ensures
        ha1@ == hex_text(
            md5_of(
                encode_utf8(username@) + encode_utf8(":"@) + encode_utf8(realm@) + encode_utf8(":"@)
                    + password@,
            ),
        ),
        hashed@ == hex_text(md5_of(encode_utf8(plain@))),
{
}

/// What stands before an at sign is what is cut there.
pub proof fn text_is_cut_at_the_first_at_sign(
    s: &str,
    front: Seq<char>,
    back: Seq<char>,
    cut: String,
)
    requires
        call_ensures(cut_at_sign, (s,), cut),
        forall|i: int| 0 <= i < front.len() ==> front[i] != '@',
    ensures
        s@ == front + seq!['@'] + back ==> cut@ == front,
        s@ == front ==> cut@ == front,
{
    let t = s@;
    if t == front + seq!['@'] + back {
        let at = front.len() as int;
        assert(t[at] == '@');
        assert forall|k: int| 0 <= k < at implies t[k] != '@' by {
            assert(t[k] == front[k]);
        }
        lemma_find_char_is(t, '@', 0, at);
        assert(t.take(at) =~= front);
    }
    if t == front {
        lemma_find_char_is(t, '@', 0, t.len() as int);
        assert(t.take(t.len() as int) =~= t);
    }
}

/// The role of a node goes by its name, in any case.
pub proof fn role_goes_by_its_name(s: &str, role: Option<NodeRole>)
    requires
        call_ensures(NodeRole::from_str_ci, (s,), role),
    ensures
        match role {
            Some(NodeRole::Originating) => lower(s@) == "originating"@,
            Some(NodeRole::Terminating) => lower(s@) == "terminating"@,
            Some(NodeRole::Proxy) => lower(s@) == "proxy"@,
            Some(NodeRole::B2bua) => lower(s@) == "b2bua"@,
            None => lower(s@) != "originating"@ && lower(s@) != "terminating"@ && lower(s@)
                != "proxy"@ && lower(s@) != "b2bua"@,
        },
{
}

/// The function of a node goes by its name, in any case.
pub proof fn functionality_goes_by_its_name(s: &str, function: Option<NodeFunctionality>)
    requires
        call_ensures(NodeFunctionality::from_str_ci, (s,), function),
    ensures
        match function {
            Some(NodeFunctionality::Scscf) => lower(s@) == "scscf"@,
            Some(NodeFunctionality::Pcscf) => lower(s@) == "pcscf"@,
            Some(NodeFunctionality::Icscf) => lower(s@) == "icscf"@,
            Some(NodeFunctionality::Mrfc) => lower(s@) == "mrfc"@,
            Some(NodeFunctionality::Mgcf) => lower(s@) == "mgcf"@,
            Some(NodeFunctionality::Bgcf) => lower(s@) == "bgcf"@,
            Some(NodeFunctionality::As) => lower(s@) == "as"@,
            Some(NodeFunctionality::Ibcf) => lower(s@) == "ibcf"@,
            Some(NodeFunctionality::Ecscf) => lower(s@) == "ecscf"@,
            Some(NodeFunctionality::Atcf) => lower(s@) == "atcf"@,
            Some(NodeFunctionality::Mmtel) => lower(s@) == "mmtel"@,
            Some(NodeFunctionality::Tpf) => lower(s@) == "tpf"@,
            Some(NodeFunctionality::Atgw) => lower(s@) == "atgw"@,
            None => lower(s@) != "scscf"@ && lower(s@) != "pcscf"@ && lower(s@) != "icscf"@ && lower(
                s@,
            ) != "mrfc"@ && lower(s@) != "mgcf"@ && lower(s@) != "bgcf"@ && lower(s@) != "as"@
                && lower(s@) != "ibcf"@ && lower(s@) != "ecscf"@ && lower(s@) != "atcf"@ && lower(s@)
                != "mmtel"@ && lower(s@) != "tpf"@ && lower(s@) != "atgw"@,
        },
{
}

/// A value is looked up under the first pair with its key.
pub proof fn value_is_that_of_the_first_pair(
    pairs: Vec<(String, String)>,
    key: &str,
    i: int,
    value: Option<String>,
)
    requires
        call_ensures(assoc_get, (&pairs, key), value),
        0 <= i < pairs@.len(),
        pairs@[i].0@ == key@,
        forall|j: int| 0 <= j < i ==> (#[trigger] pairs@[j]).0@ != key@,
    ensures
        opt_text(value) == Some(pairs@[i].1@),
{
    let all = pairs_text(pairs@);
    assert(all[i] == (pairs@[i].0@, pairs@[i].1@));
    assert forall|j: int| 0 <= j < i implies (#[trigger] all[j]).0 != key@ by {
        assert(all[j].0 == pairs@[j].0@);
    }
    lemma_assoc_first(all, key@, i);
}

proof fn lemma_assoc_first(pairs: Seq<(Seq<char>, Seq<char>)>, key: Seq<char>, i: int)
    requires
        0 <= i < pairs.len(),
        pairs[i].0 == key,
        forall|j: int| 0 <= j < i ==> (#[trigger] pairs[j]).0 != key,
    ensures
        assoc(pairs, key) == Some(pairs[i].1),
    decreases pairs.len(),
{
    if i > 0 {
        let rest = pairs.skip(1);
        assert(pairs[0].0 != key);
        assert forall|j: int| 0 <= j < i - 1 implies (#[trigger] rest[j]).0 != key by {
            assert(rest[j] == pairs[j + 1]);
        }
        lemma_assoc_first(rest, key, i - 1);
    }
}

} // verus!
