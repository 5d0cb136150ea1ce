//! Laws of security associations: names, life cycle and how they are shown.

use crate::bytes::{be_round_trip, lemma_pow256};
use crate::error::ScriptError;
use crate::ipsec::{
    format_params_protocol, outbound_for, outbound_for_sa, outbound_local_addr_for,
    parse_allocate_protocol, pcscf_path_host, sa_by_ue, sas_text, ActivateCalls,
    EncryptionAlgorithm, IntegrityAlgorithm, IpsecConfig, PendingState, PyIpsec, PyPendingSA,
    PySAHandle, PySecurityServerParams, PyTransform, SaKey, SaProtocol, SaText,
    SecurityAssociationPair, Transport,
};
use crate::net::{ip_text, IpAddr, SocketAddr};
use crate::sec_agree::PySecurityOffer;
use crate::text::{decimal, lower, lowercase, occurs_at, opt_text};
use crate::timed_map::lookup;
use vstd::prelude::*;
use vstd::string::*;

verus! {

/// A transform is named by its two algorithms, integrity first; each goes by its
/// own name towards the terminal.
pub proof fn transform_goes_by_its_algorithms(
    transform: PyTransform,
    integrity: &str,
    encryption: &str,
    name: &str,
    shown: String,
)
    requires
        call_ensures(PyTransform::alg_str, (&transform,), integrity),
        call_ensures(PyTransform::ealg_str, (&transform,), encryption),
        call_ensures(PyTransform::name, (&transform,), name),
        call_ensures(PyTransform::__repr__, (&transform,), shown),
    ensures
        shown@ == "Transform."@ + name@,
        match transform {
            PyTransform::HmacSha1_96Null => integrity@ == "hmac-sha-1-96"@ && encryption@ == "null"@
                && name@ == "HmacSha1_96Null"@,
            PyTransform::HmacMd5_96Null => integrity@ == "hmac-md5-96"@ && encryption@ == "null"@
                && name@ == "HmacMd5_96Null"@,
            PyTransform::HmacSha256_128Null => integrity@ == "hmac-sha-256-128"@ && encryption@
                == "null"@ && name@ == "HmacSha256_128Null"@,
            PyTransform::HmacSha1_96AesCbc128 => integrity@ == "hmac-sha-1-96"@ && encryption@
                == "aes-cbc"@ && name@ == "HmacSha1_96AesCbc128"@,
            PyTransform::HmacMd5_96AesCbc128 => integrity@ == "hmac-md5-96"@ && encryption@
                == "aes-cbc"@ && name@ == "HmacMd5_96AesCbc128"@,
            PyTransform::HmacSha256_128AesCbc128 => integrity@ == "hmac-sha-256-128"@ && encryption@
                == "aes-cbc"@ && name@ == "HmacSha256_128AesCbc128"@,
        },
{
}

/// A transform fits an offer exactly when it names the offered algorithms, in any
/// case; an offer without encryption fits a transform without any.
pub proof fn transform_fits_what_it_names(
    transform: PyTransform,
    offer: PySecurityOffer,
    integrity: &str,
    encryption: &str,
    fits: bool,
)
    requires
        call_ensures(PyTransform::alg_str, (&transform,), integrity),
        call_ensures(PyTransform::ealg_str, (&transform,), encryption),
        call_ensures(PyTransform::compatible_with, (&transform, &offer), fits),
    ensures
        fits ==> lowercase(offer.alg@) == integrity@,
        lowercase(offer.alg@) == integrity@ && lowercase(offer.ealg@) == encryption@ ==> fits,
        fits && lowercase(offer.ealg@).len() > 0 ==> lowercase(offer.ealg@) == encryption@,
        lowercase(offer.ealg@).len() == 0 ==> (fits <==> lowercase(offer.alg@) == integrity@
            && encryption@ == "null"@),
{
    reveal_strlit("null");
    reveal_strlit("aes-cbc");
    assert("null"@.len() == 4 && "aes-cbc"@.len() == 7);
}

/// A protocol is read by its name, in any case, and is any where none is named;
/// towards the terminal it is UDP unless it is TCP.
pub proof fn protocol_goes_by_its_name(
    named: &str,
    read: Result<SaProtocol, String>,
    unnamed: Result<SaProtocol, String>,
    protocol: SaProtocol,
    shown: &str,
    told: String,
)
    requires
        call_ensures(parse_allocate_protocol, (Some(named),), read),
        call_ensures(parse_allocate_protocol, (None::<&str>,), unnamed),
        call_ensures(SaProtocol::as_str, (&protocol,), shown),
        call_ensures(format_params_protocol, (protocol,), told),
    ensures
        match read {
            Ok(SaProtocol::Udp) => lower(named@) == "udp"@,
            Ok(SaProtocol::Tcp) => lower(named@) == "tcp"@,
            Ok(SaProtocol::Any) => lower(named@) == "any"@,
            Err(_) => lower(named@) != "udp"@ && lower(named@) != "tcp"@ && lower(named@) != "any"@,
        },
        unnamed == Ok::<SaProtocol, String>(SaProtocol::Any),
        match protocol {
            SaProtocol::Udp => shown@ == "udp"@ && told@ == "udp"@,
            SaProtocol::Tcp => shown@ == "tcp"@ && told@ == "tcp"@,
            SaProtocol::Any => shown@ == "any"@ && told@ == "udp"@,
        },
{
}

/// An algorithm goes by its own name.
pub proof fn algorithm_goes_by_its_name(
    integrity: IntegrityAlgorithm,
    encryption: EncryptionAlgorithm,
    a: &str,
    b: &str,
)
    requires
        call_ensures(IntegrityAlgorithm::name, (&integrity,), a),
        call_ensures(EncryptionAlgorithm::name, (&encryption,), b),
    ensures
        match integrity {
            IntegrityAlgorithm::HmacMd5 => a@ == "hmac-md5-96"@,
            IntegrityAlgorithm::HmacSha1 => a@ == "hmac-sha-1-96"@,
            IntegrityAlgorithm::HmacSha256 => a@ == "hmac-sha-256-128"@,
        },
        match encryption {
            EncryptionAlgorithm::Null => b@ == "null"@,
            EncryptionAlgorithm::AesCbc128 => b@ == "aes-cbc"@,
        },
{
}

/// Whether a pair is the first in force at an address that has a port.
pub open spec fn first_at(
    active: Seq<SecurityAssociationPair>,
    addr: IpAddr,
    port: u16,
    i: int,
) -> bool {
    &&& 0 <= i < active.len()
    &&& active[i].ue_addr == addr
    &&& active[i].ue_port_c == port || active[i].ue_port_s == port
    &&& forall|j: int|
        0 <= j < i ==> !((#[trigger] active[j]).ue_addr == addr && (active[j].ue_port_c == port
            || active[j].ue_port_s == port))
}

proof fn lemma_first_at(sas: Seq<SaText>, addr: IpAddr, port: u16, i: int)
    requires
        0 <= i < sas.len(),
        sas[i].ue_addr == addr,
        sas[i].ue_port_c == port || sas[i].ue_port_s == port,
        forall|j: int|
            0 <= j < i ==> !((#[trigger] sas[j]).ue_addr == addr && (sas[j].ue_port_c == port
                || sas[j].ue_port_s == port)),
    ensures
        sa_by_ue(sas, addr, port) == Some(sas[i]),
    decreases sas.len(),
{
    if i > 0 {
        let rest = sas.skip(1);
        assert(!(sas[0].ue_addr == addr && (sas[0].ue_port_c == port || sas[0].ue_port_s == port)));
        assert forall|j: int| 0 <= j < i - 1 implies !((#[trigger] rest[j]).ue_addr == addr && (
        rest[j].ue_port_c == port || rest[j].ue_port_s == port)) by {
            assert(rest[j] == sas[j + 1]);
        }
        lemma_first_at(rest, addr, port, i - 1);
    }
}

/// A packet to a terminal goes as the first pair in force at its address and port
/// says, and where there is none it goes unprotected.
pub proof fn packet_goes_as_its_pair_says(
    active: Vec<SecurityAssociationPair>,
    destination: SocketAddr,
    transport: Transport,
    i: int,
    by_pair: Option<(SocketAddr, Transport)>,
    local: Option<SocketAddr>,
    sent: Option<(SocketAddr, Transport)>,
    unprotected: Option<(SocketAddr, Transport)>,
)
    requires
        first_at(active@, destination.ip, destination.port, i),
        call_ensures(outbound_for_sa, (&active@[i], destination.port, transport), by_pair),
        call_ensures(outbound_local_addr_for, (Some(&active), destination), local),
        call_ensures(outbound_for, (Some(&active), destination, transport), sent),
        call_ensures(
            outbound_for,
            (None::<&Vec<SecurityAssociationPair>>, destination, transport),
            unprotected,
        ),
    ensures
        sent == by_pair,
        local == match by_pair {
            Some((source, _)) => Some(source),
            None => None,
        },
        unprotected is None,
{
    let sas = sas_text(active@);
    assert(sas.len() == active@.len());
    assert(sas[i] == active@[i]@);
    assert forall|j: int| 0 <= j < i implies !((#[trigger] sas[j]).ue_addr == destination.ip && (
    sas[j].ue_port_c == destination.port || sas[j].ue_port_s == destination.port)) by {
        assert(sas[j] == active@[j]@);
    }
    lemma_first_at(sas, destination.ip, destination.port, i);
}

/// The proxy's name in the path is the configured one.
pub proof fn path_names_the_configured_host(config: IpsecConfig, host: Option<String>)
    requires
        call_ensures(pcscf_path_host, (Some(&config),), host),
    ensures
        opt_text(host) == opt_text(config.path_host),
{
}

/// A pair is pending when it is made, active once it has been activated and
/// cleaned once it has been cleaned up; only an active one takes the place of
/// another, named by its own address and client port.
pub proof fn pair_goes_through_its_states(
    sa: SecurityAssociationPair,
    params: PySecurityServerParams,
    pending: &mut PyPendingSA,
    superseded: Option<SaKey>,
    lifetime: Option<u64>,
    calls: Result<ActivateCalls, ScriptError>,
    active: PyPendingSA,
    is_active: bool,
    supersedes: Option<SaKey>,
    cleaning: &mut PyPendingSA,
    torn_down: Option<SaKey>,
    cleaned: PyPendingSA,
    is_cleaned: bool,
    state: PendingState,
)
    requires
        call_ensures(PyPendingSA::new, (sa, params), *old(pending)),
        call_ensures(PyPendingSA::supersedes, (old(pending),), superseded),
        call_ensures(PyPendingSA::activate, (pending, lifetime), calls),
        call_ensures(PyPendingSA::is_active, (&active,), is_active),
        call_ensures(PyPendingSA::supersedes, (&active,), supersedes),
        call_ensures(PyPendingSA::cleanup, (cleaning,), torn_down),
        call_ensures(PyPendingSA::is_cleaned, (&cleaned,), is_cleaned),
        call_ensures(PyPendingSA::state, (&cleaned,), state),
    ensures
        superseded is None,
        calls is Ok,
        active == *final(pending) ==> is_active && (supersedes matches Some(key) && key.ue_addr
            == sa.ue_addr && key.ue_port_c == sa.ue_port_c),
        *old(cleaning) == *final(pending) ==> (torn_down matches Some(key) && key.ue_addr
            == sa.ue_addr && key.ue_port_c == sa.ue_port_c),
        cleaned == *final(cleaning) ==> is_cleaned && state == PendingState::Cleaned,
{
}

/// A refresh that was installed puts the new pair in the place of the old one;
/// one that was not leaves the old one.
pub proof fn refresh_takes_effect_once_installed(
    pending: &mut PyPendingSA,
    sa: SecurityAssociationPair,
    done: Result<(), ScriptError>,
    after: PyPendingSA,
    shown: &SecurityAssociationPair,
    failing: &mut PyPendingSA,
    reason: String,
    failed: Result<(), ScriptError>,
)
    requires
        call_ensures(PyPendingSA::complete_refresh, (pending, sa, Ok(())), done),
        call_ensures(PyPendingSA::sa, (&after,), shown),
        call_ensures(PyPendingSA::complete_refresh, (failing, sa, Err(reason)), failed),
    ensures
        done is Ok,
        after == *final(pending) ==> shown@ == sa@,
        final(pending)@.state == old(pending)@.state,
        final(pending)@.params == old(pending)@.params,
        failed is Err,
        final(failing)@ == old(failing)@,
{
}

/// What is stashed for a call is taken down half a minute later and not before.
pub proof fn stashed_pair_expires_after_its_time(
    ipsec: &mut PyIpsec,
    call_id: &str,
    handle: u64,
    now: u64,
    prior: Option<u64>,
    kept: &mut PyIpsec,
    later: u64,
    expired: Option<u64>,
)
    requires
        old(ipsec).wf(),
        now + 30_000_000_000 <= u64::MAX,
        call_ensures(PyIpsec::stash, (ipsec, call_id, handle, now), prior),
        call_ensures(PyIpsec::expire_stashed, (kept, call_id, later), expired),
    ensures
        *old(kept) == *final(ipsec) ==> {
            &&& later >= now + 30_000_000_000 ==> expired == Some(handle) && lookup(
                final(kept)@.stash,
                call_id@,
            ) is None
            &&& later < now + 30_000_000_000 ==> expired is None && lookup(
                final(kept)@.stash,
                call_id@,
            ) is Some
        },
{
    lemma_pow256();
    be_round_trip(handle as nat, 8);
}

/// Whether a text stands somewhere in another.
pub open spec fn mentions(s: Seq<char>, part: Seq<char>) -> bool {
    exists|at: int| occurs_at(s, part, at)
}

proof fn lemma_mentions(s: Seq<char>, front: Seq<char>, part: Seq<char>, back: Seq<char>)
    requires
        s == front + part + back,
    ensures
        mentions(s, part),
{
    let at = front.len() as int;
    assert(s.subrange(at, at + part.len()) =~= part);
    assert(occurs_at(s, part, at));
}

/// A pair is shown with each of its numbers under its own name.
#[verifier::spinoff_prover]
#[verifier::rlimit(40)]
pub proof fn pair_is_shown_under_its_names(handle: PySAHandle, shown: String)
    requires
        call_ensures(PySAHandle::__repr__, (&handle,), shown),
    ensures
        mentions(shown@, "ue="@ + handle.ue_addr@ + ":"@ + decimal(handle.ue_port_c as nat)),
        mentions(
            shown@,
            "pcscf="@ + handle.pcscf_addr@ + ":"@ + decimal(handle.pcscf_port_c as nat),
        ),
        mentions(shown@, "spi_pc="@ + decimal(handle.spi_pc as nat)),
        mentions(shown@, "spi_ps="@ + decimal(handle.spi_ps as nat)),
{
    reveal_strlit("SAHandle(ue=");
    reveal_strlit("SAHandle(");
    reveal_strlit("ue=");
    reveal_strlit(", pcscf=");
    reveal_strlit("pcscf=");
    reveal_strlit(", spi_pc=");
    reveal_strlit("spi_pc=");
    reveal_strlit(", spi_ps=");
    reveal_strlit("spi_ps=");
    reveal_strlit(", ");
    assert("SAHandle(ue="@ =~= "SAHandle("@ + "ue="@);
    assert(", pcscf="@ =~= ", "@ + "pcscf="@);
    assert(", spi_pc="@ =~= ", "@ + "spi_pc="@);
    assert(", spi_ps="@ =~= ", "@ + "spi_ps="@);
    let ue = "ue="@ + handle.ue_addr@ + ":"@ + decimal(handle.ue_port_c as nat);
    let pcscf = "pcscf="@ + handle.pcscf_addr@ + ":"@ + decimal(handle.pcscf_port_c as nat);
    let pc = "spi_pc="@ + decimal(handle.spi_pc as nat);
    let ps = "spi_ps="@ + decimal(handle.spi_ps as nat);
    let tail = ", alg="@ + crate::text::debug_quoted(handle.alg@) + ", ealg="@
        + crate::text::debug_quoted(handle.ealg@) + ", protocol="@ + crate::text::debug_quoted(
        handle.protocol@,
    ) + ")"@;
    let a = "SAHandle("@;
    let c = ", "@;
    assert(shown@ =~= a + ue + (c + pcscf + c + pc + c + ps + tail));
    lemma_mentions(shown@, a, ue, c + pcscf + c + pc + c + ps + tail);
    assert(shown@ =~= (a + ue + c) + pcscf + (c + pc + c + ps + tail));
    lemma_mentions(shown@, a + ue + c, pcscf, c + pc + c + ps + tail);
    assert(shown@ =~= (a + ue + c + pcscf + c) + pc + (c + ps + tail));
    lemma_mentions(shown@, a + ue + c + pcscf + c, pc, c + ps + tail);
    assert(shown@ =~= (a + ue + c + pcscf + c + pc + c) + ps + tail);
    lemma_mentions(shown@, a + ue + c + pcscf + c + pc + c, ps, tail);
}

/// A pending pair is shown with its own state, address, port and numbers.
#[verifier::spinoff_prover]
#[verifier::rlimit(40)]
pub proof fn pending_pair_is_shown_under_its_names(pending: PyPendingSA, shown: String)
    requires
        call_ensures(PyPendingSA::__repr__, (&pending,), shown),
    ensures
        mentions(
            shown@,
            "state="@ + match pending@.state {
                PendingState::Pending => "Pending"@,
                PendingState::Active => "Active"@,
                PendingState::Cleaned => "Cleaned"@,
            },
        ),
        mentions(shown@, "ue="@ + ip_text(pending@.sa.ue_addr)),
        mentions(shown@, "ue_port_c="@ + decimal(pending@.sa.ue_port_c as nat)),
        mentions(shown@, "spi_pc="@ + decimal(pending@.sa.spi_pc as nat)),
        mentions(shown@, "spi_ps="@ + decimal(pending@.sa.spi_ps as nat)),
{
    reveal_strlit("PendingSA(state=");
    reveal_strlit("PendingSA(");
    reveal_strlit("state=");
    reveal_strlit(", ue=");
    reveal_strlit("ue=");
    reveal_strlit(", ue_port_c=");
    reveal_strlit("ue_port_c=");
    reveal_strlit(", spi_pc=");
    reveal_strlit("spi_pc=");
    reveal_strlit(", spi_ps=");
    reveal_strlit("spi_ps=");
    reveal_strlit(", ");
    assert("PendingSA(state="@ =~= "PendingSA("@ + "state="@);
    assert(", ue="@ =~= ", "@ + "ue="@);
    assert(", ue_port_c="@ =~= ", "@ + "ue_port_c="@);
    assert(", spi_pc="@ =~= ", "@ + "spi_pc="@);
    assert(", spi_ps="@ =~= ", "@ + "spi_ps="@);
    let state = "state="@ + match pending@.state {
        PendingState::Pending => "Pending"@,
        PendingState::Active => "Active"@,
        PendingState::Cleaned => "Cleaned"@,
    };
    let ue = "ue="@ + ip_text(pending@.sa.ue_addr);
    let port = "ue_port_c="@ + decimal(pending@.sa.ue_port_c as nat);
    let pc = "spi_pc="@ + decimal(pending@.sa.spi_pc as nat);
    let ps = "spi_ps="@ + decimal(pending@.sa.spi_ps as nat);
    let a = "PendingSA("@;
    let c = ", "@;
    let z = ")"@;
    assert(shown@ =~= a + state + (c + ue + c + port + c + pc + c + ps + z));
    lemma_mentions(shown@, a, state, c + ue + c + port + c + pc + c + ps + z);
    assert(shown@ =~= (a + state + c) + ue + (c + port + c + pc + c + ps + z));
    lemma_mentions(shown@, a + state + c, ue, c + port + c + pc + c + ps + z);
    assert(shown@ =~= (a + state + c + ue + c) + port + (c + pc + c + ps + z));
    lemma_mentions(shown@, a + state + c + ue + c, port, c + pc + c + ps + z);
    assert(shown@ =~= (a + state + c + ue + c + port + c) + pc + (c + ps + z));
    lemma_mentions(shown@, a + state + c + ue + c + port + c, pc, c + ps + z);
    assert(shown@ =~= (a + state + c + ue + c + port + c + pc + c) + ps + z);
    lemma_mentions(shown@, a + state + c + ue + c + port + c + pc + c, ps, z);
}

} // verus!
