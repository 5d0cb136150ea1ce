//! Laws of the security agreement headers.

use crate::sec_agree::{
    find_space, key_param, offer_of, offers_in, offers_text, parse_security_client,
    parse_security_client_multi, piece_value, security_client, split_top_level, strip_ck_ik,
    PySecurityOffer, SecurityClient,
};
use crate::text::{number_of, opt_text, split, trim};
use vstd::prelude::*;
use vstd::string::*;

verus! {

/// A `Security-Client` value is read parameter by parameter: the SPIs and the
/// ports each under its own name, the algorithms likewise, and the mechanism in
/// front.
pub proof fn client_parameters_are_read_by_name(value: &str, client: SecurityClient)
    requires
        call_ensures(parse_security_client, (value,), Some(client)),
    ensures
        client.mechanism@ == trim(split(value@, ';')[0]),
        piece_value(split(value@, ';'), "alg"@, 1) == Some(client.algorithm@),
        piece_value(split(value@, ';'), "ealg"@, 1) == opt_text(client.ealg),
        piece_value(split(value@, ';'), "spi-c"@, 1) matches Some(text) && number_of(text) == Some(
            client.spi_c as nat,
        ),
        piece_value(split(value@, ';'), "spi-s"@, 1) matches Some(text) && number_of(text) == Some(
            client.spi_s as nat,
        ),
        piece_value(split(value@, ';'), "port-c"@, 1) matches Some(text) && number_of(text) == Some(
            client.port_c as nat,
        ),
        piece_value(split(value@, ';'), "port-s"@, 1) matches Some(text) && number_of(text) == Some(
            client.port_s as nat,
        ),
{
}

/// An offer is what the client sent, each value in its own place, with no
/// encryption where none was named, from the address that it came from.
pub proof fn offer_carries_what_the_client_sent(
    client: SecurityClient,
    ue_addr: &str,
    offer: PySecurityOffer,
)
    requires
        call_ensures(PySecurityOffer::from_security_client, (client, ue_addr), offer),
    ensures
        offer.mechanism@ == client.mechanism@,
        offer.alg@ == client.algorithm@,
        offer.ealg@ == match client.ealg {
            Some(ealg) => ealg@,
            None => "null"@,
        },
        offer.spi_c == client.spi_c,
        offer.spi_s == client.spi_s,
        offer.port_c == client.port_c,
        offer.port_s == client.port_s,
        offer.ue_addr@ == ue_addr@,
{
}

/// The offers of a list are those of its front and then those of its rest, and
/// each value that parses is one offer: they come in the order of the header.
pub proof fn offers_keep_the_order_of_the_header(
    front: Seq<Seq<char>>,
    rest: Seq<Seq<char>>,
    one: Seq<char>,
    ue_addr: Seq<char>,
)
    ensures
        offers_in(front + rest, ue_addr) == offers_in(front, ue_addr) + offers_in(rest, ue_addr),
        offers_in(seq![one], ue_addr) == match security_client(trim(one)) {
            Some(client) => if trim(one).len() > 0 {
                seq![offer_of(client, ue_addr)]
            } else {
                Seq::empty()
            },
            None => Seq::empty(),
        },
    decreases rest.len(),
{
    if rest.len() == 0 {
        assert(front + rest =~= front);
        assert(offers_in(front, ue_addr) + offers_in(rest, ue_addr) =~= offers_in(front, ue_addr));
    } else {
        offers_keep_the_order_of_the_header(front, rest.drop_last(), one, ue_addr);
        assert((front + rest).drop_last() =~= front + rest.drop_last());
        assert((front + rest).last() == rest.last());
        assert(offers_in(front + rest, ue_addr) =~= offers_in(front, ue_addr) + offers_in(
            rest,
            ue_addr,
        ));
    }
    reveal_with_fuel(offers_in, 2);
    assert(seq![one].drop_last() =~= Seq::<Seq<char>>::empty());
}

/// The offers of a header are those of its values, as the commas outside quotes
/// part them.
pub proof fn offers_are_those_of_the_values(
    value: &str,
    ue_addr: &str,
    offers: Vec<PySecurityOffer>,
)
    requires
        call_ensures(parse_security_client_multi, (value, ue_addr), offers),
    ensures
        offers_text(offers@) == offers_in(split_top_level(value@), ue_addr@),
        forall|i: int| 0 <= i < offers@.len() ==> (#[trigger] offers@[i]).ue_addr@ == ue_addr@,
{
    lemma_all_from(split_top_level(value@), ue_addr@);
    assert(offers_text(offers@).len() == offers@.len());
    assert forall|i: int| 0 <= i < offers@.len() implies (#[trigger] offers@[i]).ue_addr@
        == ue_addr@ by {
        assert(offers_text(offers@)[i] == offers@[i]@);
    }
}

proof fn lemma_all_from(chunks: Seq<Seq<char>>, ue_addr: Seq<char>)
    ensures
        forall|i: int|
            0 <= i < offers_in(chunks, ue_addr).len() ==> (#[trigger] offers_in(
                chunks,
                ue_addr,
            )[i]).ue_addr == ue_addr,
    decreases chunks.len(),
{
    if chunks.len() > 0 {
        lemma_all_from(chunks.drop_last(), ue_addr);
        let before = offers_in(chunks.drop_last(), ue_addr);
        let all = offers_in(chunks, ue_addr);
        assert forall|i: int| 0 <= i < all.len() implies (#[trigger] all[i]).ue_addr == ue_addr by {
            if i < before.len() {
                assert(all[i] == before[i]);
            }
        }
    }
}

/// The keys that are taken out of a challenge are those of its parameters: the
/// first is `ck`, the second `ik`, sixteen octets each.
pub proof fn stripped_keys_are_those_named(
    value: &str,
    left: String,
    ck: Vec<u8>,
    ik: Vec<u8>,
)
    requires
        call_ensures(strip_ck_ik, (value,), (left, Some((ck, ik)))),
    ensures
        ({
            let tokens = split_top_level(value@.skip(find_space(value@, 0) + 1));
            &&& key_param(tokens, "ck"@) == Some(ck@)
            &&& key_param(tokens, "ik"@) == Some(ik@)
            &&& ck@.len() == 16
            &&& ik@.len() == 16
        }),
{
}

} // verus!
