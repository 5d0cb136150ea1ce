//! Laws of the IPsec namespace.

use crate::bytes::{be_round_trip, lemma_pow256};
use crate::error::ScriptError;
use crate::hex::{hex_bytes, hex_round_trip};
use crate::ipsec::{
    find_sa_for_ue, is_protected_local_port, outbound_endpoint_for_sa, outbound_for_sa,
    repin_sa_for_ue, sa_by_contact, sa_by_ue, sas_text, ActivateCalls, Allocation, AuthVectorBytes,
    EncryptionAlgorithm, IntegrityAlgorithm, IpsecConfig, PendingState, PyAuthVectorHandle, PyIpsec,
    PyPendingSA, PySAHandle, PySecurityServerParams, PyTransform, SaKey, SaProtocol, SaRole, SaText,
    SecurityAssociationPair, Transport, Unstashed,
};
use crate::net::{ip_of, ip_text, IpAddr, SocketAddr};
use crate::sec_agree::PySecurityOffer;
use crate::text::{lower, lowercase};
use crate::timed_map::lookup;
use vstd::prelude::*;
use vstd::string::*;

verus! {

/// The SA pair that is installed for an offer carries the terminal's own SPIs
/// and ports as the offer has them, client beside client and server beside
/// server, and the SPIs that the kernel gave out as the proxy's.
pub proof fn installed_pair_carries_the_offer(
    ipsec: PyIpsec,
    av: &mut PyAuthVectorHandle,
    offer: PySecurityOffer,
    transform: PyTransform,
    expires_secs: Option<u64>,
    protocol: Option<&str>,
    allocation: Allocation,
    spi_pc: u32,
    spi_ps: u32,
    derived_key: Option<Vec<u8>>,
    sa: SecurityAssociationPair,
)
    requires
        call_ensures(
            PyIpsec::allocate,
            (&ipsec, av, &offer, transform, expires_secs, protocol),
            Ok(allocation),
        ),
        call_ensures(Allocation::sa_pair, (&allocation, spi_pc, spi_ps, &derived_key), sa),
    ensures
        sa.spi_uc == offer.spi_c,
        sa.spi_us == offer.spi_s,
        sa.ue_port_c == offer.port_c,
        sa.ue_port_s == offer.port_s,
        sa.spi_pc == spi_pc,
        sa.spi_ps == spi_ps,
        Some(sa.ue_addr) == ip_of(offer.ue_addr@),
        sa.hard_lifetime_secs == expires_secs,
        sa.role == SaRole::PCscf,
{
}

/// The SA pair uses the algorithms that the offer names, in any case; an offer
/// that names no encryption gets none.
pub proof fn installed_pair_uses_the_offered_algorithms(
    ipsec: PyIpsec,
    av: &mut PyAuthVectorHandle,
    offer: PySecurityOffer,
    transform: PyTransform,
    expires_secs: Option<u64>,
    protocol: Option<&str>,
    allocation: Allocation,
    spi_pc: u32,
    spi_ps: u32,
    derived_key: Option<Vec<u8>>,
    sa: SecurityAssociationPair,
)
    requires
        call_ensures(
            PyIpsec::allocate,
            (&ipsec, av, &offer, transform, expires_secs, protocol),
            Ok(allocation),
        ),
        call_ensures(Allocation::sa_pair, (&allocation, spi_pc, spi_ps, &derived_key), sa),
    ensures
        lowercase(offer.alg@) == match sa.aalg {
            IntegrityAlgorithm::HmacMd5 => "hmac-md5-96"@,
            IntegrityAlgorithm::HmacSha1 => "hmac-sha-1-96"@,
            IntegrityAlgorithm::HmacSha256 => "hmac-sha-256-128"@,
        },
        match sa.ealg {
            EncryptionAlgorithm::Null => lowercase(offer.ealg@) == "null"@ || lowercase(
                offer.ealg@,
            ).len() == 0,
            EncryptionAlgorithm::AesCbc128 => lowercase(offer.ealg@) == "aes-cbc"@,
        },
        match protocol {
            None => sa.protocol == SaProtocol::Any,
            Some(name) => lower(name@) == match sa.protocol {
                SaProtocol::Udp => "udp"@,
                SaProtocol::Tcp => "tcp"@,
                SaProtocol::Any => "any"@,
            },
        },
{
}

/// The keys of the SA pair are those of the authentication vector: the
/// integrity key is the IK, or the key derived for the occasion, and the
/// encryption key is the CK where there is encryption and empty where there is
/// none.
pub proof fn installed_pair_is_keyed_by_the_vector(
    ck: [u8; 16],
    ik: [u8; 16],
    ipsec: PyIpsec,
    av: &mut PyAuthVectorHandle,
    offer: PySecurityOffer,
    transform: PyTransform,
    expires_secs: Option<u64>,
    protocol: Option<&str>,
    allocation: Allocation,
    spi_pc: u32,
    spi_ps: u32,
    derived_key: Option<Vec<u8>>,
    sa: SecurityAssociationPair,
)
    requires
        call_ensures(PyAuthVectorHandle::new, (ck, ik), *old(av)),
        call_ensures(
            PyIpsec::allocate,
            (&ipsec, av, &offer, transform, expires_secs, protocol),
            Ok(allocation),
        ),
        call_ensures(Allocation::sa_pair, (&allocation, spi_pc, spi_ps, &derived_key), sa),
    ensures
        hex_bytes(sa.integrity_key@) == Some(
            match derived_key {
                Some(key) => key@,
                None => ik@,
            },
        ),
        sa.ealg == EncryptionAlgorithm::Null ==> sa.encryption_key@.len() == 0,
        sa.ealg == EncryptionAlgorithm::AesCbc128 ==> hex_bytes(sa.encryption_key@) == Some(ck@),
{
    hex_round_trip(ck@);
    hex_round_trip(ik@);
    if let Some(key) = derived_key {
        hex_round_trip(key@);
    }
}

/// What the terminal is told of an installed pair is the proxy's side of it:
/// the SPIs that the kernel gave out and the configured protected ports, client
/// beside client and server beside server; and the pair that is kept is the one
/// that was installed.
pub proof fn terminal_is_told_the_installed_pair(
    config: IpsecConfig,
    pcscf_addr_v4: Option<IpAddr>,
    pcscf_addr_v6: Option<IpAddr>,
    ipsec: PyIpsec,
    av: &mut PyAuthVectorHandle,
    offer: PySecurityOffer,
    transform: PyTransform,
    expires_secs: Option<u64>,
    protocol: Option<&str>,
    allocation: Allocation,
    spi_pc: u32,
    spi_ps: u32,
    derived_key: Option<Vec<u8>>,
    installed: Result<(), String>,
    pending: PyPendingSA,
    sa: &SecurityAssociationPair,
    params: PySecurityServerParams,
)
    requires
        call_ensures(PyIpsec::new, (config, pcscf_addr_v4, pcscf_addr_v6), ipsec),
        call_ensures(
            PyIpsec::allocate,
            (&ipsec, av, &offer, transform, expires_secs, protocol),
            Ok(allocation),
        ),
        call_ensures(
            Allocation::complete,
            (&allocation, spi_pc, spi_ps, &derived_key, installed),
            Ok(pending),
        ),
        call_ensures(PyPendingSA::sa, (&pending,), sa),
        call_ensures(PyPendingSA::security_server_params, (&pending,), params),
    ensures
        installed is Ok,
        params.mechanism@ == "ipsec-3gpp"@,
        params.spi_c == spi_pc,
        params.spi_s == spi_ps,
        params.port_c == config.pcscf_port_c,
        params.port_s == config.pcscf_port_s,
        params.alg@ == lowercase(offer.alg@),
        params.ealg@ == lowercase(offer.ealg@) || (params.ealg@ == "null"@ && lowercase(
            offer.ealg@,
        ).len() == 0),
        sa.spi_pc == params.spi_c,
        sa.spi_ps == params.spi_s,
        sa.pcscf_port_c == params.port_c,
        sa.pcscf_port_s == params.port_s,
        sa.spi_uc == offer.spi_c,
        sa.spi_us == offer.spi_s,
        sa.ue_port_c == offer.port_c,
        sa.ue_port_s == offer.port_s,
        Some(sa.ue_addr) == ip_of(offer.ue_addr@),
        Some(sa.pcscf_addr) == match sa.ue_addr {
            IpAddr::V4(_) => pcscf_addr_v4,
            IpAddr::V6(_) => pcscf_addr_v6,
        },
{
}

/// A packet to the terminal's server port leaves from the proxy's client port,
/// one to its client port from the proxy's server port, both from the proxy's
/// address; the pair has no way to any other port.
pub proof fn packet_leaves_from_the_matching_port(
    sa: SecurityAssociationPair,
    dst_port: u16,
    source: Option<SocketAddr>,
)
    requires
        sa.ue_port_c != sa.ue_port_s,
        call_ensures(outbound_endpoint_for_sa, (&sa, dst_port), source),
    ensures
        source is Some <==> dst_port == sa.ue_port_c || dst_port == sa.ue_port_s,
        source matches Some(from) ==> from.ip == sa.pcscf_addr,
        source matches Some(from) ==> from.port == if dst_port == sa.ue_port_s {
            sa.pcscf_port_c
        } else {
            sa.pcscf_port_s
        },
{
}

/// What leaves over a pair goes by the transport that the pair is for, and keeps
/// its own where the pair is for any.
pub proof fn packet_goes_by_the_transport_of_the_pair(
    sa: SecurityAssociationPair,
    dst_port: u16,
    current: Transport,
    plain: Option<SocketAddr>,
    way: Option<(SocketAddr, Transport)>,
)
    requires
        call_ensures(outbound_endpoint_for_sa, (&sa, dst_port), plain),
        call_ensures(outbound_for_sa, (&sa, dst_port, current), way),
    ensures
        match way {
            Some((source, transport)) => plain == Some(source) && match sa.protocol {
                SaProtocol::Udp => transport == Transport::Udp,
                SaProtocol::Tcp => transport == Transport::Tcp,
                SaProtocol::Any => transport == current,
            },
            None => plain is None,
        },
{
}

proof fn lemma_by_contact(sas: Seq<SaText>, addr: IpAddr, port: u16)
    ensures
        match sa_by_contact(sas, addr, port) {
            Some(sa) => exists|i: int|
                0 <= i < sas.len() && #[trigger] sas[i] == sa && sa.ue_addr == addr && sa.ue_port_c
                    == port && forall|j: int|
                    0 <= j < i ==> !((#[trigger] sas[j]).ue_addr == addr && sas[j].ue_port_c == port),
            None => forall|i: int|
                0 <= i < sas.len() ==> !((#[trigger] sas[i]).ue_addr == addr && sas[i].ue_port_c
                    == port),
        },
    decreases sas.len(),
{
    if sas.len() > 0 && !(sas[0].ue_addr == addr && sas[0].ue_port_c == port) {
        let rest = sas.skip(1);
        lemma_by_contact(rest, addr, port);
        match sa_by_contact(rest, addr, port) {
            Some(sa) => {
                let i = choose|i: int|
                    0 <= i < rest.len() && #[trigger] rest[i] == sa && sa.ue_addr == addr
                        && sa.ue_port_c == port && forall|j: int|
                        0 <= j < i ==> !((#[trigger] rest[j]).ue_addr == addr && rest[j].ue_port_c
                            == port);
                assert(sas[i + 1] == sa);
                assert forall|j: int| 0 <= j < i + 1 implies !((#[trigger] sas[j]).ue_addr == addr
                    && sas[j].ue_port_c == port) by {
                    if j > 0 {
                        assert(rest[j - 1] == sas[j]);
                    }
                }
            },
            None => {
                assert forall|j: int| 0 <= j < sas.len() implies !((#[trigger] sas[j]).ue_addr == addr
                    && sas[j].ue_port_c == port) by {
                    if j > 0 {
                        assert(rest[j - 1] == sas[j]);
                    }
                }
            },
        }
    }
}

proof fn lemma_by_ue(sas: Seq<SaText>, addr: IpAddr, port: u16)
    ensures
        match sa_by_ue(sas, addr, port) {
            Some(sa) => exists|i: int|
                0 <= i < sas.len() && #[trigger] sas[i] == sa && sa.ue_addr == addr && (sa.ue_port_c
                    == port || sa.ue_port_s == port),
            None => forall|i: int|
                0 <= i < sas.len() ==> !((#[trigger] sas[i]).ue_addr == addr && (sas[i].ue_port_c
                    == port || sas[i].ue_port_s == port)),
        },
    decreases sas.len(),
{
    if sas.len() > 0 && !(sas[0].ue_addr == addr && (sas[0].ue_port_c == port || sas[0].ue_port_s
        == port)) {
        let rest = sas.skip(1);
        lemma_by_ue(rest, addr, port);
        match sa_by_ue(rest, addr, port) {
            Some(sa) => {
                let i = choose|i: int|
                    0 <= i < rest.len() && #[trigger] rest[i] == sa && sa.ue_addr == addr && (
                    sa.ue_port_c == port || sa.ue_port_s == port);
                assert(sas[i + 1] == sa);
            },
            None => {
                assert forall|j: int| 0 <= j < sas.len() implies !((#[trigger] sas[j]).ue_addr == addr
                    && (sas[j].ue_port_c == port || sas[j].ue_port_s == port)) by {
                    if j > 0 {
                        assert(rest[j - 1] == sas[j]);
                    }
                }
            },
        }
    }
}

/// The pair that is found for a terminal is one of those in force at its address:
/// one whose client port it is where there is one, and else one that has the port
/// at all; none is found only where no pair at that address has the port.
pub proof fn pair_is_found_by_address_and_port(
    active: Vec<SecurityAssociationPair>,
    ue_addr: IpAddr,
    ue_port: u16,
    found: Option<&SecurityAssociationPair>,
)
    requires
        call_ensures(find_sa_for_ue, (Some(&active), &ue_addr, ue_port), found),
    ensures
        match found {
            Some(sa) => {
                &&& sa.ue_addr == ue_addr
                &&& sa.ue_port_c == ue_port || sa.ue_port_s == ue_port
                &&& exists|i: int| 0 <= i < active@.len() && (#[trigger] active@[i])@ == sa@
                &&& (exists|i: int|
                    0 <= i < active@.len() && (#[trigger] active@[i]).ue_addr == ue_addr
                        && active@[i].ue_port_c == ue_port) ==> sa.ue_port_c == ue_port
            },
            None => forall|i: int|
                0 <= i < active@.len() ==> !((#[trigger] active@[i]).ue_addr == ue_addr && (
                active@[i].ue_port_c == ue_port || active@[i].ue_port_s == ue_port)),
        },
{
    let sas = sas_text(active@);
    assert(sas.len() == active@.len());
    lemma_by_contact(sas, ue_addr, ue_port);
    lemma_by_ue(sas, ue_addr, ue_port);
    assert forall|i: int| 0 <= i < active@.len() implies sas[i] == (#[trigger] active@[i])@ by {}
    match found {
        Some(sa) => {
            let i = choose|i: int| 0 <= i < sas.len() && #[trigger] sas[i] == sa@;
            assert(active@[i]@ == sa@);
        },
        None => {
            assert forall|i: int| 0 <= i < active@.len() implies !((#[trigger] active@[i]).ue_addr
                == ue_addr && (active@[i].ue_port_c == ue_port || active@[i].ue_port_s
                == ue_port)) by {
                assert(sas[i] == active@[i]@);
            }
        },
    }
}

/// A pair whose lifetime is pinned anew is the one that is found for the
/// terminal, named by its address and its client port.
pub proof fn pinned_pair_is_the_one_found(
    active: Vec<SecurityAssociationPair>,
    ue_addr: IpAddr,
    ue_port: u16,
    lifetime: u64,
    found: Option<&SecurityAssociationPair>,
    pinned: Option<(SaKey, u64)>,
)
    requires
        call_ensures(find_sa_for_ue, (Some(&active), &ue_addr, ue_port), found),
        call_ensures(repin_sa_for_ue, (Some(&active), &ue_addr, ue_port, lifetime), pinned),
    ensures
        match found {
            Some(sa) => pinned matches Some((key, secs)) && key.ue_addr == sa.ue_addr && key.ue_port_c
                == sa.ue_port_c && secs == lifetime,
            None => pinned is None,
        },
{
}

/// What a script sees of a pair is the pair, each value in its own place and each
/// algorithm by its name.
pub proof fn handle_shows_the_pair(sa: SecurityAssociationPair, handle: PySAHandle)
    requires
        call_ensures(PySAHandle::from_sa, (&sa,), handle),
    ensures
        handle.ue_addr@ == ip_text(sa.ue_addr),
        handle.pcscf_addr@ == ip_text(sa.pcscf_addr),
        handle.ue_port_c == sa.ue_port_c,
        handle.ue_port_s == sa.ue_port_s,
        handle.pcscf_port_c == sa.pcscf_port_c,
        handle.pcscf_port_s == sa.pcscf_port_s,
        handle.spi_uc == sa.spi_uc,
        handle.spi_us == sa.spi_us,
        handle.spi_pc == sa.spi_pc,
        handle.spi_ps == sa.spi_ps,
        handle.alg@ == match sa.aalg {
            IntegrityAlgorithm::HmacMd5 => "hmac-md5-96"@,
            IntegrityAlgorithm::HmacSha1 => "hmac-sha-1-96"@,
            IntegrityAlgorithm::HmacSha256 => "hmac-sha-256-128"@,
        },
        handle.ealg@ == match sa.ealg {
            EncryptionAlgorithm::Null => "null"@,
            EncryptionAlgorithm::AesCbc128 => "aes-cbc"@,
        },
        handle.protocol@ == match sa.protocol {
            SaProtocol::Udp => "udp"@,
            SaProtocol::Tcp => "tcp"@,
            SaProtocol::Any => "any"@,
        },
{
}

/// Activating a pair with a lifetime pins that lifetime and tears down what it
/// replaces, at the pair's own address and client port; without one it touches
/// nothing. Either way the pair is active, and only its lifetime may change.
pub proof fn activation_pins_the_lifetime_given(
    pending: &mut PyPendingSA,
    lifetime: Option<u64>,
    calls: ActivateCalls,
)
    requires
        call_ensures(PyPendingSA::activate, (pending, lifetime), Ok(calls)),
    ensures
        calls.repin == lifetime,
        match calls.teardown {
            Some(key) => lifetime is Some && key.ue_addr == old(pending)@.sa.ue_addr
                && key.ue_port_c == old(pending)@.sa.ue_port_c,
            None => lifetime is None,
        },
        final(pending)@.state == PendingState::Active,
        final(pending)@.params == old(pending)@.params,
        lifetime matches Some(secs) ==> final(pending)@.sa.hard_lifetime_secs == Some(secs),
        lifetime is None ==> final(pending)@.sa == old(pending)@.sa,
        final(pending)@.sa == (SaText {
            hard_lifetime_secs: final(pending)@.sa.hard_lifetime_secs,
            ..old(pending)@.sa
        }),
{
}

/// A pair that is cleaned up is torn down once, at its own address and client
/// port, and can be activated no more.
pub proof fn cleanup_tears_down_once(
    pending: &mut PyPendingSA,
    torn: Option<SaKey>,
    again: &mut PyPendingSA,
    second: Option<SaKey>,
    retry: &mut PyPendingSA,
    outcome: Result<ActivateCalls, ScriptError>,
)
    requires
        call_ensures(PyPendingSA::cleanup, (pending,), torn),
        call_ensures(PyPendingSA::cleanup, (again,), second),
        call_ensures(PyPendingSA::activate, (retry, None), outcome),
    ensures
        torn matches Some(key) ==> key.ue_addr == old(pending)@.sa.ue_addr && key.ue_port_c == old(
            pending,
        )@.sa.ue_port_c,
        torn is None <==> old(pending)@.state == PendingState::Cleaned,
        *old(again) == *final(pending) ==> second is None,
        *old(retry) == *final(pending) ==> outcome is Err,
{
}

/// A refreshed pair has the keys of the new vector, the integrity key as such or
/// derived from it, and keeps its ends, its SPIs and its algorithms.
pub proof fn refreshed_pair_has_the_new_keys(
    ck: [u8; 16],
    ik: [u8; 16],
    pending: PyPendingSA,
    av: &mut PyAuthVectorHandle,
    derived_key: Option<Vec<u8>>,
    sa: SecurityAssociationPair,
)
    requires
        call_ensures(PyAuthVectorHandle::new, (ck, ik), *old(av)),
        call_ensures(PyPendingSA::refresh, (&pending, av, &derived_key), Ok(sa)),
    ensures
        hex_bytes(sa.integrity_key@) == Some(
            match derived_key {
                Some(key) => key@,
                None => ik@,
            },
        ),
        sa.ealg == EncryptionAlgorithm::Null ==> sa.encryption_key@.len() == 0,
        sa.ealg == EncryptionAlgorithm::AesCbc128 ==> hex_bytes(sa.encryption_key@) == Some(ck@),
        sa@ == (SaText {
            integrity_key: sa.integrity_key@,
            encryption_key: sa.encryption_key@,
            ..pending@.sa
        }),
{
    hex_round_trip(ck@);
    hex_round_trip(ik@);
    if let Some(key) = derived_key {
        hex_round_trip(key@);
    }
}

/// The keys of a vector are handed out once: the confidentiality key as CK and
/// the integrity key as IK.
pub proof fn vector_is_handed_out_once(
    ck: [u8; 16],
    ik: [u8; 16],
    handle: &mut PyAuthVectorHandle,
    keys: Option<AuthVectorBytes>,
    shown: Option<Vec<u8>>,
    again: &mut PyAuthVectorHandle,
    second: Option<AuthVectorBytes>,
)
    requires
        call_ensures(PyAuthVectorHandle::new, (ck, ik), *old(handle)),
        call_ensures(PyAuthVectorHandle::integrity_key, (&*old(handle),), shown),
        call_ensures(PyAuthVectorHandle::take, (handle,), keys),
        call_ensures(PyAuthVectorHandle::take, (again,), second),
    ensures
        keys matches Some(bytes) && bytes.ck@ == ck@ && bytes.ik@ == ik@,
        shown matches Some(key) && key@ == ik@,
        *old(again) == *final(handle) ==> second is None,
{
}

/// What is stashed for a call is what is found for it within its time, once, and
/// is expired after; another call's is not touched.
pub proof fn stashed_pair_is_found_for_its_call(
    ipsec: &mut PyIpsec,
    call_id: &str,
    handle: u64,
    now: u64,
    prior: Option<u64>,
    kept: &mut PyIpsec,
    later: u64,
    found: Unstashed,
    other: &str,
)
    requires
        old(ipsec).wf(),
        now + 30_000_000_000 <= u64::MAX,
        call_ensures(PyIpsec::stash, (ipsec, call_id, handle, now), prior),
        call_ensures(PyIpsec::unstash, (kept, call_id, later), found),
        other@ != call_id@,
    ensures
        *old(kept) == *final(ipsec) ==> {
            &&& found == if later <= now + 30_000_000_000 {
                Unstashed::Found(handle)
            } else {
                Unstashed::Expired(handle)
            }
            &&& lookup(final(kept)@.stash, call_id@) is None
            &&& lookup(final(kept)@.stash, other@) == lookup(old(ipsec)@.stash, other@)
        },
        final(ipsec)@.pcscf_port_c == old(ipsec)@.pcscf_port_c,
        final(ipsec)@.pcscf_port_s == old(ipsec)@.pcscf_port_s,
        final(ipsec)@.pcscf_addr_v4 == old(ipsec)@.pcscf_addr_v4,
        final(ipsec)@.pcscf_addr_v6 == old(ipsec)@.pcscf_addr_v6,
{
    lemma_pow256();
    be_round_trip(handle as nat, 8);
}

/// The proxy's address for a terminal is the configured one of its family, and
/// its protected ports are the configured ones.
pub proof fn configuration_is_read_by_name(
    config: IpsecConfig,
    pcscf_addr_v4: Option<IpAddr>,
    pcscf_addr_v6: Option<IpAddr>,
    ipsec: PyIpsec,
    v4: Option<IpAddr>,
    v6: Option<IpAddr>,
    port_c: u16,
    port_s: u16,
    local_port: u16,
    protected: bool,
)
    requires
        call_ensures(PyIpsec::new, (config, pcscf_addr_v4, pcscf_addr_v6), ipsec),
        call_ensures(PyIpsec::pcscf_addr_for, (&ipsec, false), v4),
        call_ensures(PyIpsec::pcscf_addr_for, (&ipsec, true), v6),
        call_ensures(PyIpsec::pcscf_port_c, (&ipsec,), port_c),
        call_ensures(PyIpsec::pcscf_port_s, (&ipsec,), port_s),
        call_ensures(is_protected_local_port, (Some(&config), local_port), protected),
    ensures
        v4 == pcscf_addr_v4,
        v6 == pcscf_addr_v6,
        port_c == config.pcscf_port_c,
        port_s == config.pcscf_port_s,
        protected == (local_port == config.pcscf_port_c || local_port == config.pcscf_port_s),
{
}

} // verus!
