//! IPsec security associations between a UE and the P-CSCF (3GPP TS 33.203).
//!
//! The kernel calls are not made here. Each operation checks its arguments,
//! changes the state of the handle, and says which kernel calls are due.

use crate::bytes::{be_bytes, be_round_trip, be_value, from_be, lemma_pow256, to_be};
use crate::error::{runtime_error, value_error, ErrorText, ScriptError};
use crate::hex::{hex_encode, hex_text};
use crate::net::{ip_of, ip_text, is_ipv6, IpAddr, SocketAddr};
use crate::sec_agree::{OfferText, PySecurityOffer};
use crate::text::{
    debug_quoted, decimal, decimal_text, lower, opt_str, opt_text, quote_debug, same_text, to_lower,
    to_unicode_lower, lowercase,
};
use crate::timed_map::{lookup, no_entries, TimedMap};
use vstd::prelude::*;
use vstd::string::*;

verus! {

/// How long a pending SA is kept for the REGISTER that answers the challenge:
/// 30 s, in nanoseconds.
pub const STASH_TTL: u64 = 30_000_000_000;

#[derive(Clone, Copy, Debug, PartialEq, Eq, Structural)]
pub enum IntegrityAlgorithm {
    HmacMd5,
    HmacSha1,
    HmacSha256,
}

#[derive(Clone, Copy, Debug, PartialEq, Eq, Structural)]
pub enum EncryptionAlgorithm {
    Null,
    AesCbc128,
}

/// The inner transport that the selectors of an SA pair match.
#[derive(Clone, Copy, Debug, PartialEq, Eq, Structural)]
pub enum SaProtocol {
    Udp,
    Tcp,
    Any,
}

/// Which end of the pair this process is.
#[derive(Clone, Copy, Debug, PartialEq, Eq, Structural)]
pub enum SaRole {
    PCscf,
    Ue,
}

/// A SIP transport.
#[derive(Clone, Copy, Debug, PartialEq, Eq, Structural)]
pub enum Transport {
    Udp,
    Tcp,
    Tls,
    Ws,
    Wss,
    Sctp,
}

pub open spec fn integrity_name(a: IntegrityAlgorithm) -> Seq<char> {
    match a {
        IntegrityAlgorithm::HmacMd5 => "hmac-md5-96"@,
        IntegrityAlgorithm::HmacSha1 => "hmac-sha-1-96"@,
        IntegrityAlgorithm::HmacSha256 => "hmac-sha-256-128"@,
    }
}

pub open spec fn encryption_name(e: EncryptionAlgorithm) -> Seq<char> {
    match e {
        EncryptionAlgorithm::Null => "null"@,
        EncryptionAlgorithm::AesCbc128 => "aes-cbc"@,
    }
}

pub open spec fn protocol_name(p: SaProtocol) -> Seq<char> {
    match p {
        SaProtocol::Udp => "udp"@,
        SaProtocol::Tcp => "tcp"@,
        SaProtocol::Any => "any"@,
    }
}

impl IntegrityAlgorithm {
    /// The name in a `Security-Server` header.
    pub fn name(&self) -> (r: &'static str)
        ensures
            r@ == integrity_name(*self),
    {
        match self {
            IntegrityAlgorithm::HmacMd5 => "hmac-md5-96",
            IntegrityAlgorithm::HmacSha1 => "hmac-sha-1-96",
            IntegrityAlgorithm::HmacSha256 => "hmac-sha-256-128",
        }
    }
}

impl EncryptionAlgorithm {
    /// The name in a `Security-Server` header.
    pub fn name(&self) -> (r: &'static str)
        ensures
            r@ == encryption_name(*self),
    {
        match self {
            EncryptionAlgorithm::Null => "null",
            EncryptionAlgorithm::AesCbc128 => "aes-cbc",
        }
    }
}

impl SaProtocol {
    pub fn as_str(&self) -> (r: &'static str)
        ensures
            r@ == protocol_name(*self),
    {
        match self {
            SaProtocol::Udp => "udp",
            SaProtocol::Tcp => "tcp",
            SaProtocol::Any => "any",
        }
    }
}

/// The four SAs between a UE and the P-CSCF:
///
/// - UE `ue_port_c` to P-CSCF `pcscf_port_s`, and back;
/// - P-CSCF `pcscf_port_c` to UE `ue_port_s`, and back.
pub struct SecurityAssociationPair {
    pub ue_addr: IpAddr,
    pub pcscf_addr: IpAddr,
    pub ue_port_c: u16,
    pub ue_port_s: u16,
    pub pcscf_port_c: u16,
    pub pcscf_port_s: u16,
    pub spi_uc: u32,
    pub spi_us: u32,
    pub spi_pc: u32,
    pub spi_ps: u32,
    pub ealg: EncryptionAlgorithm,
    pub aalg: IntegrityAlgorithm,
    pub encryption_key: String,
    pub integrity_key: String,
    pub hard_lifetime_secs: Option<u64>,
    pub protocol: SaProtocol,
    pub role: SaRole,
}

/// An SA pair with its keys as text.
pub struct SaText {
    pub ue_addr: IpAddr,
    pub pcscf_addr: IpAddr,
    pub ue_port_c: u16,
    pub ue_port_s: u16,
    pub pcscf_port_c: u16,
    pub pcscf_port_s: u16,
    pub spi_uc: u32,
    pub spi_us: u32,
    pub spi_pc: u32,
    pub spi_ps: u32,
    pub ealg: EncryptionAlgorithm,
    pub aalg: IntegrityAlgorithm,
    pub encryption_key: Seq<char>,
    pub integrity_key: Seq<char>,
    pub hard_lifetime_secs: Option<u64>,
    pub protocol: SaProtocol,
    pub role: SaRole,
}

impl View for SecurityAssociationPair {
    type V = SaText;

    open spec fn view(&self) -> SaText {
        SaText {
            ue_addr: self.ue_addr,
            pcscf_addr: self.pcscf_addr,
            ue_port_c: self.ue_port_c,
            ue_port_s: self.ue_port_s,
            pcscf_port_c: self.pcscf_port_c,
            pcscf_port_s: self.pcscf_port_s,
            spi_uc: self.spi_uc,
            spi_us: self.spi_us,
            spi_pc: self.spi_pc,
            spi_ps: self.spi_ps,
            ealg: self.ealg,
            aalg: self.aalg,
            encryption_key: self.encryption_key@,
            integrity_key: self.integrity_key@,
            hard_lifetime_secs: self.hard_lifetime_secs,
            protocol: self.protocol,
            role: self.role,
        }
    }
}

impl SecurityAssociationPair {
    pub fn copy(&self) -> (r: Self)
        ensures
            r@ == self@,
    {
        SecurityAssociationPair {
            encryption_key: self.encryption_key.clone(),
            integrity_key: self.integrity_key.clone(),
            ..*self
        }
    }
}

/// The local endpoint for a packet to a port of the UE: requests to the UE's
/// server port leave from the client port, responses to its client port from
/// the server port.
pub open spec fn outbound_endpoint(sa: SaText, dst_port: u16) -> Option<SocketAddr> {
    if dst_port == sa.ue_port_s {
        Some(SocketAddr { ip: sa.pcscf_addr, port: sa.pcscf_port_c })
    } else if dst_port == sa.ue_port_c {
        Some(SocketAddr { ip: sa.pcscf_addr, port: sa.pcscf_port_s })
    } else {
        None
    }
}

/// The transport of a packet under an SA: the pinned one, else the caller's.
pub open spec fn outbound_transport(protocol: SaProtocol, current: Transport) -> Transport {
    match protocol {
        SaProtocol::Udp => Transport::Udp,
        SaProtocol::Tcp => Transport::Tcp,
        SaProtocol::Any => current,
    }
}

/// The local endpoint for a packet to a port of the UE.
pub fn outbound_endpoint_for_sa(sa: &SecurityAssociationPair, dst_port: u16) -> (r: Option<SocketAddr>)
    ensures
        r == outbound_endpoint(sa@, dst_port),
{
    if dst_port == sa.ue_port_s {
        Some(SocketAddr { ip: sa.pcscf_addr, port: sa.pcscf_port_c })
    } else if dst_port == sa.ue_port_c {
        Some(SocketAddr { ip: sa.pcscf_addr, port: sa.pcscf_port_s })
    } else {
        None
    }
}

/// The local endpoint and the transport for a packet to a port of the UE.
pub fn outbound_for_sa(sa: &SecurityAssociationPair, dst_port: u16, current_transport: Transport) -> (r:
    Option<(SocketAddr, Transport)>)
    ensures
        r == match outbound_endpoint(sa@, dst_port) {
            Some(source) => Some((source, outbound_transport(sa.protocol, current_transport))),
            None => None,
        },
{
    match outbound_endpoint_for_sa(sa, dst_port) {
        Some(source) => {
            let transport = match sa.protocol {
                SaProtocol::Udp => Transport::Udp,
                SaProtocol::Tcp => Transport::Tcp,
                SaProtocol::Any => current_transport,
            };
            Some((source, transport))
        },
        None => None,
    }
}

pub open spec fn sas_text(v: Seq<SecurityAssociationPair>) -> Seq<SaText> {
    Seq::new(v.len(), |i: int| v[i]@)
}

/// The first SA pair of a UE that uses `port` on the UE's side, on either of
/// its two ports.
pub open spec fn sa_by_ue(sas: Seq<SaText>, addr: IpAddr, port: u16) -> Option<SaText>
    decreases sas.len(),
{
    if sas.len() == 0 {
        None
    } else if sas[0].ue_addr == addr && (sas[0].ue_port_c == port || sas[0].ue_port_s == port) {
        Some(sas[0])
    } else {
        sa_by_ue(sas.skip(1), addr, port)
    }
}

/// The SA pair that is kept under a UE's client port.
pub open spec fn sa_by_contact(sas: Seq<SaText>, addr: IpAddr, port: u16) -> Option<SaText>
    decreases sas.len(),
{
    if sas.len() == 0 {
        None
    } else if sas[0].ue_addr == addr && sas[0].ue_port_c == port {
        Some(sas[0])
    } else {
        sa_by_contact(sas.skip(1), addr, port)
    }
}

/// The SA pair of a flow: the one under the client port wins over one that
/// merely uses the port.
pub open spec fn sa_for_flow(sas: Seq<SaText>, addr: IpAddr, port: u16) -> Option<SaText> {
    match sa_by_contact(sas, addr, port) {
        Some(sa) => Some(sa),
        None => sa_by_ue(sas, addr, port),
    }
}

fn find_sa_by_ue<'a>(sas: &'a Vec<SecurityAssociationPair>, addr: IpAddr, port: u16) -> (r: Option<
    &'a SecurityAssociationPair,
>)
    ensures
        match r {
            Some(sa) => sa_by_ue(sas_text(sas@), addr, port) == Some(sa@),
            None => sa_by_ue(sas_text(sas@), addr, port) is None,
        },
{
    let ghost all = sas_text(sas@);
    let mut i: usize = 0;
    assert(all.skip(0) =~= all);
    while i < sas.len()
        invariant
            i <= sas@.len(),
            all == sas_text(sas@),
            sa_by_ue(all, addr, port) == sa_by_ue(all.skip(i as int), addr, port),
        decreases sas@.len() - i,
    {
        if sas[i].ue_addr == addr && (sas[i].ue_port_c == port || sas[i].ue_port_s == port) {
            return Some(&sas[i]);
        }
        assert(all.skip(i as int).skip(1) =~= all.skip(i + 1));
        i += 1;
    }
    None
}

fn find_sa_by_contact<'a>(sas: &'a Vec<SecurityAssociationPair>, addr: IpAddr, port: u16) -> (r: Option<
    &'a SecurityAssociationPair,
>)
    ensures
        match r {
            Some(sa) => sa_by_contact(sas_text(sas@), addr, port) == Some(sa@),
            None => sa_by_contact(sas_text(sas@), addr, port) is None,
        },
{
    let ghost all = sas_text(sas@);
    let mut i: usize = 0;
    assert(all.skip(0) =~= all);
    while i < sas.len()
        invariant
            i <= sas@.len(),
            all == sas_text(sas@),
            sa_by_contact(all, addr, port) == sa_by_contact(all.skip(i as int), addr, port),
        decreases sas@.len() - i,
    {
        if sas[i].ue_addr == addr && sas[i].ue_port_c == port {
            return Some(&sas[i]);
        }
        assert(all.skip(i as int).skip(1) =~= all.skip(i + 1));
        i += 1;
    }
    None
}

/// The active SA pairs, where a manager is wired.
pub open spec fn active_text(active: Option<&Vec<SecurityAssociationPair>>) -> Seq<SaText> {
    match active {
        Some(sas) => sas_text(sas@),
        None => Seq::empty(),
    }
}

/// The active SA pair of a UE flow; the port may be either of the UE's.
pub fn find_sa_for_ue<'a>(
    active: Option<&'a Vec<SecurityAssociationPair>>,
    ue_addr: &IpAddr,
    ue_port: u16,
) -> (r: Option<&'a SecurityAssociationPair>)
    ensures
        match r {
            Some(sa) => sa_for_flow(active_text(active), *ue_addr, ue_port) == Some(sa@),
            None => sa_for_flow(active_text(active), *ue_addr, ue_port) is None,
        },
{
    match active {
        Some(sas) => match find_sa_by_contact(sas, *ue_addr, ue_port) {
            Some(sa) => Some(sa),
            None => find_sa_by_ue(sas, *ue_addr, ue_port),
        },
        None => None,
    }
}

/// The local endpoint for a packet to `destination`; `None` where no active SA
/// pair covers the destination.
pub fn outbound_local_addr_for(
    active: Option<&Vec<SecurityAssociationPair>>,
    destination: SocketAddr,
) -> (r: Option<SocketAddr>)
    ensures
        r == match sa_by_ue(active_text(active), destination.ip, destination.port) {
            Some(sa) => outbound_endpoint(sa, destination.port),
            None => None,
        },
{
    match active {
        Some(sas) => match find_sa_by_ue(sas, destination.ip, destination.port) {
            Some(sa) => outbound_endpoint_for_sa(sa, destination.port),
            None => None,
        },
        None => None,
    }
}

/// The local endpoint and the transport for a packet to `destination`; `None`
/// where no active SA pair covers the destination.
pub fn outbound_for(
    active: Option<&Vec<SecurityAssociationPair>>,
    destination: SocketAddr,
    current_transport: Transport,
) -> (r: Option<(SocketAddr, Transport)>)
    ensures
        r == match sa_by_ue(active_text(active), destination.ip, destination.port) {
            Some(sa) => match outbound_endpoint(sa, destination.port) {
                Some(source) => Some((source, outbound_transport(sa.protocol, current_transport))),
                None => None,
            },
            None => None,
        },
{
    match active {
        Some(sas) => match find_sa_by_ue(sas, destination.ip, destination.port) {
            Some(sa) => outbound_for_sa(sa, destination.port, current_transport),
            None => None,
        },
        None => None,
    }
}

/// A kernel call on the SA pair that is kept under a UE's client port.
#[derive(Clone, Copy, Debug, PartialEq, Eq, Structural)]
pub struct SaKey {
    pub ue_addr: IpAddr,
    pub ue_port_c: u16,
}

/// The SA pair whose lifetime an accepted REGISTER refresh re-pins. The refresh
/// may come from either port of the UE; the key is always the client port.
pub fn repin_sa_for_ue(
    active: Option<&Vec<SecurityAssociationPair>>,
    ue_addr: &IpAddr,
    ue_port: u16,
    hard_lifetime_secs: u64,
) -> (r: Option<(SaKey, u64)>)
    ensures
        r == match sa_for_flow(active_text(active), *ue_addr, ue_port) {
            Some(sa) => Some(
                (SaKey { ue_addr: sa.ue_addr, ue_port_c: sa.ue_port_c }, hard_lifetime_secs),
            ),
            None => None,
        },
{
    match find_sa_for_ue(active, ue_addr, ue_port) {
        Some(sa) => Some(
            (SaKey { ue_addr: sa.ue_addr, ue_port_c: sa.ue_port_c }, hard_lifetime_secs),
        ),
        None => None,
    }
}

/// The ports and names of the P-CSCF.
pub struct IpsecConfig {
    pub pcscf_port_c: u16,
    pub pcscf_port_s: u16,
    pub path_host: Option<String>,
}

/// Whether a local port is one of the protected ports; never without a
/// configuration.
pub fn is_protected_local_port(config: Option<&IpsecConfig>, local_port: u16) -> (r: bool)
    ensures
        r == (config matches Some(c) && (local_port == c.pcscf_port_c || local_port
            == c.pcscf_port_s)),
{
    match config {
        Some(config) => local_port == config.pcscf_port_c || local_port == config.pcscf_port_s,
        None => false,
    }
}

/// The host for the Path URI, where one is configured.
pub fn pcscf_path_host(config: Option<&IpsecConfig>) -> (r: Option<String>)
    ensures
        opt_text(r) == match config {
            Some(c) => opt_text(c.path_host),
            None => None,
        },
{
    match config {
        Some(config) => match &config.path_host {
            Some(host) => Some(host.clone()),
            None => None,
        },
        None => None,
    }
}

/// Which transform to install.
#[derive(Clone, Copy, Debug, PartialEq, Eq, Structural)]
#[allow(non_camel_case_types)]
pub enum PyTransform {
    HmacSha1_96Null,
    HmacMd5_96Null,
    HmacSha256_128Null,
    HmacSha1_96AesCbc128,
    HmacMd5_96AesCbc128,
    HmacSha256_128AesCbc128,
}

pub open spec fn transform_aalg(t: PyTransform) -> IntegrityAlgorithm {
    match t {
        PyTransform::HmacSha1_96Null | PyTransform::HmacSha1_96AesCbc128 =>
            IntegrityAlgorithm::HmacSha1,
        PyTransform::HmacMd5_96Null | PyTransform::HmacMd5_96AesCbc128 =>
            IntegrityAlgorithm::HmacMd5,
        PyTransform::HmacSha256_128Null | PyTransform::HmacSha256_128AesCbc128 =>
            IntegrityAlgorithm::HmacSha256,
    }
}

pub open spec fn transform_ealg(t: PyTransform) -> EncryptionAlgorithm {
    match t {
        PyTransform::HmacSha1_96Null | PyTransform::HmacMd5_96Null | PyTransform::HmacSha256_128Null =>
            EncryptionAlgorithm::Null,
        _ => EncryptionAlgorithm::AesCbc128,
    }
}

pub open spec fn transform_name(t: PyTransform) -> Seq<char> {
    match t {
        PyTransform::HmacSha1_96Null => "HmacSha1_96Null"@,
        PyTransform::HmacMd5_96Null => "HmacMd5_96Null"@,
        PyTransform::HmacSha256_128Null => "HmacSha256_128Null"@,
        PyTransform::HmacSha1_96AesCbc128 => "HmacSha1_96AesCbc128"@,
        PyTransform::HmacMd5_96AesCbc128 => "HmacMd5_96AesCbc128"@,
        PyTransform::HmacSha256_128AesCbc128 => "HmacSha256_128AesCbc128"@,
    }
}

/// Whether a transform is one that an offer proposes. An offer without an
/// encryption algorithm proposes none.
pub open spec fn compatible(t: PyTransform, offer: OfferText) -> bool {
    let ealg = lowercase(offer.ealg);
    &&& lowercase(offer.alg) == integrity_name(transform_aalg(t))
    &&& ealg == encryption_name(transform_ealg(t)) || (ealg.len() == 0 && transform_ealg(t)
        == EncryptionAlgorithm::Null)
}

impl PyTransform {
    pub fn aalg(&self) -> (r: IntegrityAlgorithm)
        ensures
            r == transform_aalg(*self),
    {
        match self {
            PyTransform::HmacSha1_96Null | PyTransform::HmacSha1_96AesCbc128 =>
                IntegrityAlgorithm::HmacSha1,
            PyTransform::HmacMd5_96Null | PyTransform::HmacMd5_96AesCbc128 =>
                IntegrityAlgorithm::HmacMd5,
            PyTransform::HmacSha256_128Null | PyTransform::HmacSha256_128AesCbc128 =>
                IntegrityAlgorithm::HmacSha256,
        }
    }

    pub fn ealg(&self) -> (r: EncryptionAlgorithm)
        ensures
            r == transform_ealg(*self),
    {
        match self {
            PyTransform::HmacSha1_96Null
            | PyTransform::HmacMd5_96Null
            | PyTransform::HmacSha256_128Null => EncryptionAlgorithm::Null,
            PyTransform::HmacSha1_96AesCbc128
            | PyTransform::HmacMd5_96AesCbc128
            | PyTransform::HmacSha256_128AesCbc128 => EncryptionAlgorithm::AesCbc128,
        }
    }

    pub fn alg_str(&self) -> (r: &'static str)
        ensures
            r@ == integrity_name(transform_aalg(*self)),
    {
        self.aalg().name()
    }

    pub fn ealg_str(&self) -> (r: &'static str)
        ensures
            r@ == encryption_name(transform_ealg(*self)),
    {
        self.ealg().name()
    }

    /// Whether the offer proposes this transform, without regard to case.
    pub fn compatible_with(&self, offer: &PySecurityOffer) -> (r: bool)
        ensures
            r == compatible(*self, offer@),
    {
        let offer_alg = to_unicode_lower(&offer.alg);
        let offer_ealg = to_unicode_lower(&offer.ealg);
        let no_encryption = match self.ealg() {
            EncryptionAlgorithm::Null => true,
            EncryptionAlgorithm::AesCbc128 => false,
        };
        same_text(&offer_alg, self.alg_str()) && (same_text(&offer_ealg, self.ealg_str()) || (
        offer_ealg.as_str().is_empty() && no_encryption))
    }

    /// The name of the transform.
    pub fn name(&self) -> (r: &'static str)
        ensures
            r@ == transform_name(*self),
    {
        match self {
            PyTransform::HmacSha1_96Null => "HmacSha1_96Null",
            PyTransform::HmacMd5_96Null => "HmacMd5_96Null",
            PyTransform::HmacSha256_128Null => "HmacSha256_128Null",
            PyTransform::HmacSha1_96AesCbc128 => "HmacSha1_96AesCbc128",
            PyTransform::HmacMd5_96AesCbc128 => "HmacMd5_96AesCbc128",
            PyTransform::HmacSha256_128AesCbc128 => "HmacSha256_128AesCbc128",
        }
    }

    pub fn __repr__(&self) -> (r: String)
        ensures
            r@ == "Transform."@ + transform_name(*self),
    {
        "Transform.".to_owned().concat(self.name())
    }
}

/// A session key pair.
pub struct AuthVectorBytes {
    pub ck: [u8; 16],
    pub ik: [u8; 16],
}

/// Sixteen zero bytes.
pub open spec fn blank_key() -> Seq<u8> {
    Seq::new(16, |i: int| 0u8)
}

impl AuthVectorBytes {
    /// Overwrites both keys with zeros.
    pub fn wipe(&mut self)
        ensures
            final(self).ck@ == blank_key(),
            final(self).ik@ == blank_key(),
        opens_invariants none
        no_unwind
    {
        self.ck = [0, 0, 0, 0, 0, 0, 0, 0, 0, 0, 0, 0, 0, 0, 0, 0];
        self.ik = [0, 0, 0, 0, 0, 0, 0, 0, 0, 0, 0, 0, 0, 0, 0, 0];
        assert(self.ck@ =~= blank_key());
        assert(self.ik@ =~= blank_key());
    }
}

impl Drop for AuthVectorBytes {
    /// Keys do not outlive their use.
    fn drop(&mut self)
        ensures
            final(self).ck@ == blank_key(),
            final(self).ik@ == blank_key(),
        opens_invariants none
        no_unwind
    {
        self.wipe();
    }
}

/// A key pair that can be used once.
pub struct PyAuthVectorHandle {
    inner: Option<AuthVectorBytes>,
}

impl View for PyAuthVectorHandle {
    type V = Option<(Seq<u8>, Seq<u8>)>;

    closed spec fn view(&self) -> Option<(Seq<u8>, Seq<u8>)> {
        match self.inner {
            Some(keys) => Some((keys.ck@, keys.ik@)),
            None => None,
        }
    }
}

impl PyAuthVectorHandle {
    pub fn new(ck: [u8; 16], ik: [u8; 16]) -> (r: Self)
        ensures
            r@ == Some((ck@, ik@)),
    {
        PyAuthVectorHandle { inner: Some(AuthVectorBytes { ck, ik }) }
    }

    /// Takes the keys out; afterwards the handle is consumed.
    pub fn take(&mut self) -> (r: Option<AuthVectorBytes>)
        ensures
            final(self)@ is None,
            match r {
                Some(keys) => old(self)@ == Some((keys.ck@, keys.ik@)),
                None => old(self)@ is None,
            },
    {
        self.inner.take()
    }

    /// The raw integrity key, from which the key of an algorithm is derived;
    /// `None` once the handle is consumed.
    pub fn integrity_key(&self) -> (r: Option<Vec<u8>>)
        ensures
            match r {
                Some(key) => self@ matches Some(keys) && key@ == keys.1,
                None => self@ is None,
            },
    {
        match &self.inner {
            Some(keys) => {
                let mut out: Vec<u8> = Vec::new();
                out.extend_from_slice(keys.ik.as_slice());
                assert(out@ =~= keys.ik@);
                Some(out)
            },
            None => None,
        }
    }

    /// The keys never show.
    pub fn __repr__(&self) -> (r: String)
        ensures
            r@ == if self@ is None {
                "AuthVectorHandle(<consumed>)"@
            } else {
                "AuthVectorHandle(<128-bit CK + 128-bit IK>)"@
            },
    {
        if self.inner.is_none() {
            "AuthVectorHandle(<consumed>)".to_owned()
        } else {
            "AuthVectorHandle(<128-bit CK + 128-bit IK>)".to_owned()
        }
    }
}

/// A read-only view of an active SA pair.
pub struct PySAHandle {
    pub ue_addr: String,
    pub pcscf_addr: String,
    pub ue_port_c: u16,
    pub ue_port_s: u16,
    pub pcscf_port_c: u16,
    pub pcscf_port_s: u16,
    pub spi_uc: u32,
    pub spi_us: u32,
    pub spi_pc: u32,
    pub spi_ps: u32,
    pub alg: String,
    pub ealg: String,
    pub protocol: String,
}

/// A handle shows what an SA pair is.
pub open spec fn shows(h: PySAHandle, sa: SaText) -> bool {
    &&& h.ue_addr@ == ip_text(sa.ue_addr)
    &&& h.pcscf_addr@ == ip_text(sa.pcscf_addr)
    &&& h.ue_port_c == sa.ue_port_c
    &&& h.ue_port_s == sa.ue_port_s
    &&& h.pcscf_port_c == sa.pcscf_port_c
    &&& h.pcscf_port_s == sa.pcscf_port_s
    &&& h.spi_uc == sa.spi_uc
    &&& h.spi_us == sa.spi_us
    &&& h.spi_pc == sa.spi_pc
    &&& h.spi_ps == sa.spi_ps
    &&& h.alg@ == integrity_name(sa.aalg)
    &&& h.ealg@ == encryption_name(sa.ealg)
    &&& h.protocol@ == protocol_name(sa.protocol)
}

impl PySAHandle {
    pub fn from_sa(sa: &SecurityAssociationPair) -> (r: Self)
        ensures
            shows(r, sa@),
    {
        PySAHandle {
            ue_addr: sa.ue_addr.render(),
            pcscf_addr: sa.pcscf_addr.render(),
            ue_port_c: sa.ue_port_c,
            ue_port_s: sa.ue_port_s,
            pcscf_port_c: sa.pcscf_port_c,
            pcscf_port_s: sa.pcscf_port_s,
            spi_uc: sa.spi_uc,
            spi_us: sa.spi_us,
            spi_pc: sa.spi_pc,
            spi_ps: sa.spi_ps,
            alg: sa.aalg.name().to_owned(),
            ealg: sa.ealg.name().to_owned(),
            protocol: sa.protocol.as_str().to_owned(),
        }
    }

    pub fn __repr__(&self) -> (r: String)
        ensures
            r@ == "SAHandle(ue="@ + self.ue_addr@ + ":"@ + decimal(self.ue_port_c as nat)
                + ", pcscf="@ + self.pcscf_addr@ + ":"@ + decimal(self.pcscf_port_c as nat)
                + ", spi_pc="@ + decimal(self.spi_pc as nat) + ", spi_ps="@ + decimal(
                self.spi_ps as nat,
            ) + ", alg="@ + debug_quoted(self.alg@) + ", ealg="@ + debug_quoted(self.ealg@)
                + ", protocol="@ + debug_quoted(self.protocol@) + ")"@,
    {
        "SAHandle(ue=".to_owned().concat(&self.ue_addr).concat(":").concat(
            &decimal_text(self.ue_port_c as u64),
        ).concat(", pcscf=").concat(&self.pcscf_addr).concat(":").concat(
            &decimal_text(self.pcscf_port_c as u64),
        ).concat(", spi_pc=").concat(&decimal_text(self.spi_pc as u64)).concat(", spi_ps=").concat(
            &decimal_text(self.spi_ps as u64),
        ).concat(", alg=").concat(&quote_debug(&self.alg)).concat(", ealg=").concat(
            &quote_debug(&self.ealg),
        ).concat(", protocol=").concat(&quote_debug(&self.protocol)).concat(")")
    }
}

/// The parameters for a `Security-Server` header.
pub struct PySecurityServerParams {
    pub mechanism: String,
    pub alg: String,
    pub ealg: String,
    pub spi_c: u32,
    pub spi_s: u32,
    pub port_c: u16,
    pub port_s: u16,
    pub protocol: String,
}

/// The parameters as text parts and numbers.
pub struct ParamsText {
    pub mechanism: Seq<char>,
    pub alg: Seq<char>,
    pub ealg: Seq<char>,
    pub spi_c: u32,
    pub spi_s: u32,
    pub port_c: u16,
    pub port_s: u16,
    pub protocol: Seq<char>,
}

impl View for PySecurityServerParams {
    type V = ParamsText;

    open spec fn view(&self) -> ParamsText {
        ParamsText {
            mechanism: self.mechanism@,
            alg: self.alg@,
            ealg: self.ealg@,
            spi_c: self.spi_c,
            spi_s: self.spi_s,
            port_c: self.port_c,
            port_s: self.port_s,
            protocol: self.protocol@,
        }
    }
}

impl PySecurityServerParams {
    pub fn copy(&self) -> (r: Self)
        ensures
            r@ == self@,
    {
        PySecurityServerParams {
            mechanism: self.mechanism.clone(),
            alg: self.alg.clone(),
            ealg: self.ealg.clone(),
            protocol: self.protocol.clone(),
            ..*self
        }
    }

    pub fn __repr__(&self) -> (r: String)
        ensures
            r@ == "SecurityServerParams(mechanism="@ + debug_quoted(self.mechanism@) + ", alg="@
                + debug_quoted(self.alg@) + ", ealg="@ + debug_quoted(self.ealg@) + ", spi_c="@
                + decimal(self.spi_c as nat) + ", spi_s="@ + decimal(self.spi_s as nat)
                + ", port_c="@ + decimal(self.port_c as nat) + ", port_s="@ + decimal(
                self.port_s as nat,
            ) + ", protocol="@ + debug_quoted(self.protocol@) + ")"@,
    {
        "SecurityServerParams(mechanism=".to_owned().concat(&quote_debug(&self.mechanism)).concat(
            ", alg=",
        ).concat(&quote_debug(&self.alg)).concat(", ealg=").concat(&quote_debug(&self.ealg)).concat(
            ", spi_c=",
        ).concat(&decimal_text(self.spi_c as u64)).concat(", spi_s=").concat(
            &decimal_text(self.spi_s as u64),
        ).concat(", port_c=").concat(&decimal_text(self.port_c as u64)).concat(", port_s=").concat(
            &decimal_text(self.port_s as u64),
        ).concat(", protocol=").concat(&quote_debug(&self.protocol)).concat(")")
    }
}

impl PySecurityOffer {
    pub fn __repr__(&self) -> (r: String)
        ensures
            r@ == "SecurityOffer(mechanism="@ + debug_quoted(self.mechanism@) + ", alg="@
                + debug_quoted(self.alg@) + ", ealg="@ + debug_quoted(self.ealg@) + ", spi_c="@
                + decimal(self.spi_c as nat) + ", spi_s="@ + decimal(self.spi_s as nat)
                + ", port_c="@ + decimal(self.port_c as nat) + ", port_s="@ + decimal(
                self.port_s as nat,
            ) + ", ue_addr="@ + debug_quoted(self.ue_addr@) + ")"@,
    {
        "SecurityOffer(mechanism=".to_owned().concat(&quote_debug(&self.mechanism)).concat(
            ", alg=",
        ).concat(&quote_debug(&self.alg)).concat(", ealg=").concat(&quote_debug(&self.ealg)).concat(
            ", spi_c=",
        ).concat(&decimal_text(self.spi_c as u64)).concat(", spi_s=").concat(
            &decimal_text(self.spi_s as u64),
        ).concat(", port_c=").concat(&decimal_text(self.port_c as u64)).concat(", port_s=").concat(
            &decimal_text(self.port_s as u64),
        ).concat(", ue_addr=").concat(&quote_debug(&self.ue_addr)).concat(")")
    }
}

/// The protocol that an `allocate` argument names; both transports where there
/// is none.
pub open spec fn protocol_of(value: Option<Seq<char>>) -> Option<SaProtocol> {
    match value {
        None => Some(SaProtocol::Any),
        Some(raw) => if lower(raw) == "udp"@ {
            Some(SaProtocol::Udp)
        } else if lower(raw) == "tcp"@ {
            Some(SaProtocol::Tcp)
        } else if lower(raw) == "any"@ {
            Some(SaProtocol::Any)
        } else {
            None
        },
    }
}

pub open spec fn protocol_error(raw: Seq<char>) -> Seq<char> {
    "protocol must be 'udp', 'tcp', 'any', or None, got "@ + debug_quoted(lower(raw))
}

/// Reads the `protocol` argument of `allocate`, without regard to case.
pub fn parse_allocate_protocol(value: Option<&str>) -> (r: Result<SaProtocol, String>)
    ensures
        match r {
            Ok(protocol) => protocol_of(opt_str(value)) == Some(protocol),
            Err(message) => protocol_of(opt_str(value)) is None && message@ == protocol_error(
                value->0@,
            ),
        },
{
    match value {
        None => Ok(SaProtocol::Any),
        Some(raw) => {
            let name = to_lower(raw);
            if same_text(&name, "udp") {
                Ok(SaProtocol::Udp)
            } else if same_text(&name, "tcp") {
                Ok(SaProtocol::Tcp)
            } else if same_text(&name, "any") {
                Ok(SaProtocol::Any)
            } else {
                Err(
                    "protocol must be 'udp', 'tcp', 'any', or None, got ".to_owned().concat(
                        &quote_debug(&name),
                    ),
                )
            }
        },
    }
}

/// The wire form of a protocol: an SA for both transports goes out as UDP,
/// which is what an absent parameter means (RFC 3329).
pub open spec fn params_protocol(p: SaProtocol) -> Seq<char> {
    match p {
        SaProtocol::Udp | SaProtocol::Any => "udp"@,
        SaProtocol::Tcp => "tcp"@,
    }
}

/// The `protocol` value of a `Security-Server` header.
pub fn format_params_protocol(sa_protocol: SaProtocol) -> (r: String)
    ensures
        r@ == params_protocol(sa_protocol),
{
    match sa_protocol {
        SaProtocol::Udp | SaProtocol::Any => "udp".to_owned(),
        SaProtocol::Tcp => "tcp".to_owned(),
    }
}

/// The life of a pending SA pair.
#[derive(Clone, Copy, Debug, PartialEq, Eq, Structural)]
pub enum PendingState {
    Pending,
    Active,
    Cleaned,
}

/// An installed SA pair whose REGISTER is not confirmed yet.
pub struct PyPendingSA {
    sa: SecurityAssociationPair,
    params: PySecurityServerParams,
    state: PendingState,
}

/// What a pending SA holds.
pub struct PendingText {
    pub sa: SaText,
    pub params: ParamsText,
    pub state: PendingState,
}

impl View for PyPendingSA {
    type V = PendingText;

    closed spec fn view(&self) -> PendingText {
        PendingText { sa: self.sa@, params: self.params@, state: self.state }
    }
}

/// The kernel calls that activation makes due. With a hard lifetime: that
/// lifetime for the pair, and the teardown of the UE's pairs other than it.
/// Without one nothing is due.
#[derive(Clone, Copy, Debug, PartialEq, Eq, Structural)]
pub struct ActivateCalls {
    pub repin: Option<u64>,
    pub teardown: Option<SaKey>,
}

pub open spec fn key_of_sa(sa: SaText) -> SaKey {
    SaKey { ue_addr: sa.ue_addr, ue_port_c: sa.ue_port_c }
}

/// A pending SA after activation.
pub open spec fn activated(p: PendingText, hard_lifetime_secs: Option<u64>) -> PendingText {
    PendingText {
        state: PendingState::Active,
        sa: SaText {
            hard_lifetime_secs: if hard_lifetime_secs is Some {
                hard_lifetime_secs
            } else {
                p.sa.hard_lifetime_secs
            },
            ..p.sa
        },
        ..p
    }
}

/// A pending SA after teardown.
pub open spec fn cleaned(p: PendingText) -> PendingText {
    PendingText { state: PendingState::Cleaned, ..p }
}

/// An SA pair with fresh keys. The integrity key is the derived one, else the
/// raw one; an encryption key is there only where the pair encrypts.
pub open spec fn rekeyed(sa: SaText, ck: Seq<u8>, ik: Seq<u8>, derived: Option<Seq<u8>>) -> SaText {
    SaText {
        integrity_key: hex_text(
            match derived {
                Some(key) => key,
                None => ik,
            },
        ),
        encryption_key: if sa.ealg == EncryptionAlgorithm::Null {
            Seq::empty()
        } else {
            hex_text(ck)
        },
        ..sa
    }
}

impl PyPendingSA {
    pub fn new(sa: SecurityAssociationPair, params: PySecurityServerParams) -> (r: Self)
        ensures
            r@ == (PendingText { sa: sa@, params: params@, state: PendingState::Pending }),
    {
        PyPendingSA { sa, params, state: PendingState::Pending }
    }

    pub fn security_server_params(&self) -> (r: PySecurityServerParams)
        ensures
            r@ == self@.params,
    {
        self.params.copy()
    }

    /// The SA pair as it stands.
    pub fn sa(&self) -> (r: &SecurityAssociationPair)
        ensures
            r@ == self@.sa,
    {
        &self.sa
    }

    pub fn state(&self) -> (r: PendingState)
        ensures
            r == self@.state,
    {
        self.state
    }

    /// Marks the pair active, and records its new hard lifetime where one is
    /// given; without one this is a change of state and no kernel call. Refused
    /// once the pair was torn down.
    pub fn activate(&mut self, hard_lifetime_secs: Option<u64>) -> (r: Result<ActivateCalls, ScriptError>)
        ensures
            match r {
                Ok(calls) => old(self)@.state != PendingState::Cleaned && final(self)@ == activated(
                    old(self)@,
                    hard_lifetime_secs,
                ) && calls == (ActivateCalls {
                    repin: hard_lifetime_secs,
                    teardown: if hard_lifetime_secs is Some {
                        Some(key_of_sa(old(self)@.sa))
                    } else {
                        None
                    },
                }),
                Err(e) => old(self)@.state == PendingState::Cleaned && final(self)@ == old(self)@
                    && e@ == value_error("PendingSA already cleaned up"@),
            },
    {
        match self.state {
            PendingState::Cleaned => {
                return Err(ScriptError::value("PendingSA already cleaned up".to_owned()));
            },
            PendingState::Pending | PendingState::Active => {},
        }
        self.state = PendingState::Active;
        if hard_lifetime_secs.is_some() {
            self.sa.hard_lifetime_secs = hard_lifetime_secs;
        }
        let teardown = if hard_lifetime_secs.is_some() {
            Some(SaKey { ue_addr: self.sa.ue_addr, ue_port_c: self.sa.ue_port_c })
        } else {
            None
        };
        Ok(ActivateCalls { repin: hard_lifetime_secs, teardown })
    }

    /// The pair whose siblings are stale: once it is active, the UE's pairs
    /// other than it have been superseded. `None` while it is not active.
    pub fn supersedes(&self) -> (r: Option<SaKey>)
        ensures
            r == if self@.state == PendingState::Active {
                Some(key_of_sa(self@.sa))
            } else {
                None
            },
    {
        if self.state == PendingState::Active {
            Some(SaKey { ue_addr: self.sa.ue_addr, ue_port_c: self.sa.ue_port_c })
        } else {
            None
        }
    }

    pub fn is_active(&self) -> (r: bool)
        ensures
            r == (self@.state == PendingState::Active),
    {
        self.state == PendingState::Active
    }

    pub fn is_cleaned(&self) -> (r: bool)
        ensures
            r == (self@.state == PendingState::Cleaned),
    {
        self.state == PendingState::Cleaned
    }

    /// Marks the pair torn down and gives the pair to delete, the first time.
    pub fn cleanup(&mut self) -> (r: Option<SaKey>)
        ensures
            final(self)@ == cleaned(old(self)@),
            r == if old(self)@.state == PendingState::Cleaned {
                None
            } else {
                Some(key_of_sa(old(self)@.sa))
            },
    {
        if self.state == PendingState::Cleaned {
            return None;
        }
        self.state = PendingState::Cleaned;
        Some(SaKey { ue_addr: self.sa.ue_addr, ue_port_c: self.sa.ue_port_c })
    }

    /// The pair with fresh keys, to be installed in place of this one under the
    /// same ports and SPIs. `derived_key` is the key that the integrity algorithm
    /// takes, derived from the integrity key of the handle. Consumes the handle
    /// whatever comes of it.
    pub fn refresh(&self, av_new: &mut PyAuthVectorHandle, derived_key: &Option<Vec<u8>>) -> (r: Result<
        SecurityAssociationPair,
        ScriptError,
    >)
        ensures
            final(av_new)@ is None,
            match r {
                Ok(sa) => self@.state != PendingState::Cleaned && (old(av_new)@ matches Some((ck, ik))
                    && sa@ == rekeyed(
                    self@.sa,
                    ck,
                    ik,
                    match *derived_key {
                        Some(key) => Some(key@),
                        None => None,
                    },
                )),
                Err(e) => if old(av_new)@ is None {
                    e@ == value_error("AuthVectorHandle already consumed"@)
                } else {
                    self@.state == PendingState::Cleaned && e@ == value_error(
                        "PendingSA already cleaned up"@,
                    )
                },
            },
    {
        let keys = match av_new.take() {
            Some(keys) => keys,
            None => {
                return Err(ScriptError::value("AuthVectorHandle already consumed".to_owned()));
            },
        };
        if self.state == PendingState::Cleaned {
            return Err(ScriptError::value("PendingSA already cleaned up".to_owned()));
        }
        let mut sa = self.sa.copy();
        sa.integrity_key = match derived_key {
            Some(key) => hex_encode(key.as_slice()),
            None => hex_encode(keys.ik.as_slice()),
        };
        sa.encryption_key = match sa.ealg {
            EncryptionAlgorithm::Null => String::new(),
            EncryptionAlgorithm::AesCbc128 => hex_encode(keys.ck.as_slice()),
        };
        Ok(sa)
    }

    /// Records the pair that a refresh installed; where the kernel refused it,
    /// the old pair stays on record.
    pub fn complete_refresh(&mut self, sa: SecurityAssociationPair, installed: Result<(), String>) -> (r:
        Result<(), ScriptError>)
        ensures
            match installed {
                Ok(_) => r is Ok && final(self)@ == (PendingText { sa: sa@, ..old(self)@ }),
                Err(reason) => r is Err && r->Err_0@ == install_error(reason@) && final(self)@ == old(
                    self,
                )@,
            },
    {
        match installed {
            Ok(_) => {
                self.sa = sa;
                Ok(())
            },
            Err(reason) => Err(map_ipsec_error(&reason)),
        }
    }

    pub fn __repr__(&self) -> (r: String)
        ensures
            r@ == "PendingSA(state="@ + state_name(self@.state) + ", ue="@ + ip_text(
                self@.sa.ue_addr,
            ) + ", ue_port_c="@ + decimal(self@.sa.ue_port_c as nat) + ", spi_pc="@ + decimal(
                self@.sa.spi_pc as nat,
            ) + ", spi_ps="@ + decimal(self@.sa.spi_ps as nat) + ")"@,
    {
        let state = match self.state {
            PendingState::Pending => "Pending",
            PendingState::Active => "Active",
            PendingState::Cleaned => "Cleaned",
        };
        "PendingSA(state=".to_owned().concat(state).concat(", ue=").concat(
            &self.sa.ue_addr.render(),
        ).concat(", ue_port_c=").concat(&decimal_text(self.sa.ue_port_c as u64)).concat(
            ", spi_pc=",
        ).concat(&decimal_text(self.sa.spi_pc as u64)).concat(", spi_ps=").concat(
            &decimal_text(self.sa.spi_ps as u64),
        ).concat(")")
    }
}

pub open spec fn state_name(state: PendingState) -> Seq<char> {
    match state {
        PendingState::Pending => "Pending"@,
        PendingState::Active => "Active"@,
        PendingState::Cleaned => "Cleaned"@,
    }
}

pub open spec fn install_error(reason: Seq<char>) -> ErrorText {
    runtime_error("IPsec allocate failed: "@ + reason)
}

/// What a script sees of a teardown: a delete that the kernel refused is an
/// error.
pub fn cleaned_up(deleted: Result<(), String>) -> (r: Result<(), ScriptError>)
    ensures
        match deleted {
            Ok(_) => r is Ok,
            Err(reason) => r is Err && r->Err_0@ == runtime_error(
                "delete_sa_pair failed: "@ + reason@,
            ),
        },
{
    match deleted {
        Ok(_) => Ok(()),
        Err(reason) => Err(
            ScriptError::runtime("delete_sa_pair failed: ".to_owned().concat(&reason)),
        ),
    }
}

fn map_ipsec_error(reason: &str) -> (r: ScriptError)
    ensures
        r@ == install_error(reason@),
{
    ScriptError::runtime("IPsec allocate failed: ".to_owned().concat(reason))
}

/// An SA pair that may be installed once the kernel has given its SPIs.
pub struct Allocation {
    ue_addr: IpAddr,
    pcscf_addr: IpAddr,
    ue_port_c: u16,
    ue_port_s: u16,
    pcscf_port_c: u16,
    pcscf_port_s: u16,
    spi_uc: u32,
    spi_us: u32,
    transform: PyTransform,
    keys: AuthVectorBytes,
    expires_secs: Option<u64>,
    protocol: SaProtocol,
}

/// What an allocation holds.
pub struct AllocationText {
    pub ue_addr: IpAddr,
    pub pcscf_addr: IpAddr,
    pub ue_port_c: u16,
    pub ue_port_s: u16,
    pub pcscf_port_c: u16,
    pub pcscf_port_s: u16,
    pub spi_uc: u32,
    pub spi_us: u32,
    pub transform: PyTransform,
    pub ck: Seq<u8>,
    pub ik: Seq<u8>,
    pub expires_secs: Option<u64>,
    pub protocol: SaProtocol,
}

impl View for Allocation {
    type V = AllocationText;

    closed spec fn view(&self) -> AllocationText {
        AllocationText {
            ue_addr: self.ue_addr,
            pcscf_addr: self.pcscf_addr,
            ue_port_c: self.ue_port_c,
            ue_port_s: self.ue_port_s,
            pcscf_port_c: self.pcscf_port_c,
            pcscf_port_s: self.pcscf_port_s,
            spi_uc: self.spi_uc,
            spi_us: self.spi_us,
            transform: self.transform,
            ck: self.keys.ck@,
            ik: self.keys.ik@,
            expires_secs: self.expires_secs,
            protocol: self.protocol,
        }
    }
}

/// The SA pair of an allocation. The integrity key is the derived one, else the
/// raw one; an encryption key is there only where the transform encrypts.
pub open spec fn allocated_sa(a: AllocationText, spi_pc: u32, spi_ps: u32, derived: Option<Seq<u8>>) -> SaText {
    SaText {
        ue_addr: a.ue_addr,
        pcscf_addr: a.pcscf_addr,
        ue_port_c: a.ue_port_c,
        ue_port_s: a.ue_port_s,
        pcscf_port_c: a.pcscf_port_c,
        pcscf_port_s: a.pcscf_port_s,
        spi_uc: a.spi_uc,
        spi_us: a.spi_us,
        spi_pc,
        spi_ps,
        ealg: transform_ealg(a.transform),
        aalg: transform_aalg(a.transform),
        encryption_key: if transform_ealg(a.transform) == EncryptionAlgorithm::Null {
            Seq::empty()
        } else {
            hex_text(a.ck)
        },
        integrity_key: hex_text(
            match derived {
                Some(key) => key,
                None => a.ik,
            },
        ),
        hard_lifetime_secs: a.expires_secs,
        protocol: a.protocol,
        role: SaRole::PCscf,
    }
}

/// The `Security-Server` parameters of an allocation.
pub open spec fn allocated_params(a: AllocationText, spi_pc: u32, spi_ps: u32) -> ParamsText {
    ParamsText {
        mechanism: "ipsec-3gpp"@,
        alg: integrity_name(transform_aalg(a.transform)),
        ealg: encryption_name(transform_ealg(a.transform)),
        spi_c: spi_pc,
        spi_s: spi_ps,
        port_c: a.pcscf_port_c,
        port_s: a.pcscf_port_s,
        protocol: params_protocol(a.protocol),
    }
}

impl Allocation {
    pub fn transform(&self) -> (r: PyTransform)
        ensures
            r == self@.transform,
    {
        self.transform
    }

    /// The raw integrity key, from which the key of the algorithm is derived.
    pub fn integrity_key(&self) -> (r: Vec<u8>)
        ensures
            r@ == self@.ik,
    {
        let mut out: Vec<u8> = Vec::new();
        out.extend_from_slice(self.keys.ik.as_slice());
        assert(out@ =~= self.keys.ik@);
        out
    }

    /// The SA pair to install, for the SPIs that the kernel gave.
    pub fn sa_pair(&self, spi_pc: u32, spi_ps: u32, derived_key: &Option<Vec<u8>>) -> (r:
        SecurityAssociationPair)
        ensures
            r@ == allocated_sa(
                self@,
                spi_pc,
                spi_ps,
                match *derived_key {
                    Some(key) => Some(key@),
                    None => None,
                },
            ),
    {
        let integrity_key = match derived_key {
            Some(key) => hex_encode(key.as_slice()),
            None => hex_encode(self.keys.ik.as_slice()),
        };
        let encryption_key = match self.transform.ealg() {
            EncryptionAlgorithm::Null => String::new(),
            EncryptionAlgorithm::AesCbc128 => hex_encode(self.keys.ck.as_slice()),
        };
        SecurityAssociationPair {
            ue_addr: self.ue_addr,
            pcscf_addr: self.pcscf_addr,
            ue_port_c: self.ue_port_c,
            ue_port_s: self.ue_port_s,
            pcscf_port_c: self.pcscf_port_c,
            pcscf_port_s: self.pcscf_port_s,
            spi_uc: self.spi_uc,
            spi_us: self.spi_us,
            spi_pc,
            spi_ps,
            ealg: self.transform.ealg(),
            aalg: self.transform.aalg(),
            encryption_key,
            integrity_key,
            hard_lifetime_secs: self.expires_secs,
            protocol: self.protocol,
            role: SaRole::PCscf,
        }
    }

    /// The pending SA once the kernel has installed the pair.
    pub fn complete(
        &self,
        spi_pc: u32,
        spi_ps: u32,
        derived_key: &Option<Vec<u8>>,
        installed: Result<(), String>,
    ) -> (r: Result<PyPendingSA, ScriptError>)
        ensures
            match installed {
                Ok(_) => r is Ok && r->Ok_0@ == (PendingText {
                    sa: allocated_sa(
                        self@,
                        spi_pc,
                        spi_ps,
                        match *derived_key {
                            Some(key) => Some(key@),
                            None => None,
                        },
                    ),
                    params: allocated_params(self@, spi_pc, spi_ps),
                    state: PendingState::Pending,
                }),
                Err(reason) => r is Err && r->Err_0@ == install_error(reason@),
            },
    {
        match installed {
            Ok(_) => {},
            Err(reason) => {
                return Err(map_ipsec_error(&reason));
            },
        }
        let sa = self.sa_pair(spi_pc, spi_ps, derived_key);
        let params = PySecurityServerParams {
            mechanism: "ipsec-3gpp".to_owned(),
            alg: self.transform.alg_str().to_owned(),
            ealg: self.transform.ealg_str().to_owned(),
            spi_c: spi_pc,
            spi_s: spi_ps,
            port_c: self.pcscf_port_c,
            port_s: self.pcscf_port_s,
            protocol: format_params_protocol(self.protocol),
        };
        Ok(PyPendingSA::new(sa, params))
    }
}

/// The pending SAs that wait for their REGISTER: a handle by Call-ID, with the
/// time up to which it is kept. A handle is kept as its eight bytes.
pub struct PyIpsec {
    config: IpsecConfig,
    pcscf_addr_v4: Option<IpAddr>,
    pcscf_addr_v6: Option<IpAddr>,
    stash: TimedMap,
}

/// What the namespace holds.
pub struct IpsecText {
    pub pcscf_port_c: u16,
    pub pcscf_port_s: u16,
    pub pcscf_addr_v4: Option<IpAddr>,
    pub pcscf_addr_v6: Option<IpAddr>,
    pub path_host: Option<Seq<char>>,
    pub stash: Map<Seq<char>, (Seq<u8>, u64)>,
}

impl View for PyIpsec {
    type V = IpsecText;

    closed spec fn view(&self) -> IpsecText {
        IpsecText {
            pcscf_port_c: self.config.pcscf_port_c,
            pcscf_port_s: self.config.pcscf_port_s,
            pcscf_addr_v4: self.pcscf_addr_v4,
            pcscf_addr_v6: self.pcscf_addr_v6,
            path_host: opt_text(self.config.path_host),
            stash: self.stash@,
        }
    }
}

/// The P-CSCF address of a UE's family.
pub open spec fn addr_for(ipsec: IpsecText, ue_ipv6: bool) -> Option<IpAddr> {
    if ue_ipv6 {
        ipsec.pcscf_addr_v6
    } else {
        ipsec.pcscf_addr_v4
    }
}

pub open spec fn family_name(ue_ipv6: bool) -> Seq<char> {
    if ue_ipv6 {
        "IPv6"@
    } else {
        "IPv4"@
    }
}

/// What `allocate` yields. The checks come in this order: the transform, the
/// protocol, the keys, the UE address, the P-CSCF address of its family.
pub open spec fn allocation(
    ipsec: IpsecText,
    keys: Option<(Seq<u8>, Seq<u8>)>,
    offer: OfferText,
    transform: PyTransform,
    expires_secs: Option<u64>,
    protocol: Option<Seq<char>>,
) -> Result<AllocationText, Seq<char>> {
    if !compatible(transform, offer) {
        Err(
            "transform "@ + transform_name(transform) + " not compatible with offer alg="@
                + debug_quoted(offer.alg) + " ealg="@ + debug_quoted(offer.ealg),
        )
    } else if protocol_of(protocol) is None {
        Err(protocol_error(protocol->0))
    } else if keys is None {
        Err("AuthVectorHandle already consumed"@)
    } else {
        let (ck, ik) = keys->0;
        match ip_of(offer.ue_addr) {
            None => Err(
                "offer.ue_addr "@ + debug_quoted(offer.ue_addr)
                    + " is not a valid IP: invalid IP address syntax"@,
            ),
            Some(ue_addr) => match addr_for(ipsec, is_ipv6(ue_addr)) {
                None => Err(
                    "no "@ + family_name(is_ipv6(ue_addr)) + " P-CSCF listener configured for "@
                        + family_name(is_ipv6(ue_addr)) + " UE "@ + ip_text(ue_addr)
                        + "; cannot build a same-family IPsec SA selector (3GPP TS 33.203 §7.2)"@,
                ),
                Some(pcscf_addr) => Ok(
                    AllocationText {
                        ue_addr,
                        pcscf_addr,
                        ue_port_c: offer.port_c,
                        ue_port_s: offer.port_s,
                        pcscf_port_c: ipsec.pcscf_port_c,
                        pcscf_port_s: ipsec.pcscf_port_s,
                        spi_uc: offer.spi_c,
                        spi_us: offer.spi_s,
                        transform,
                        ck,
                        ik,
                        expires_secs,
                        protocol: protocol_of(protocol)->0,
                    },
                ),
            },
        }
    }
}

/// The handle that a stash entry keeps.
pub open spec fn stashed_handle(entry: (Seq<u8>, u64)) -> nat {
    be_value(entry.0)
}

/// The stash after a handle was put in at time `now`.
pub open spec fn after_stash(
    stash: Map<Seq<char>, (Seq<u8>, u64)>,
    call_id: Seq<char>,
    handle: u64,
    now: u64,
) -> Map<Seq<char>, (Seq<u8>, u64)> {
    stash.insert(call_id, (be_bytes(handle as nat, 8), (now + STASH_TTL) as u64))
}

/// Every entry keeps a handle of eight bytes.
pub open spec fn well_stashed(stash: Map<Seq<char>, (Seq<u8>, u64)>) -> bool {
    forall|k: Seq<char>| #[trigger] stash.dom().contains(k) ==> stash[k].0.len() == 8
}

fn handle_of(bytes: &Vec<u8>) -> (r: u64)
    requires
        bytes@.len() == 8,
    ensures
        r == be_value(bytes@),
{
    assert(bytes@.take(8) =~= bytes@);
    from_be(bytes.as_slice(), 8)
}

/// What becomes of a stashed handle when it is asked for.
#[derive(Clone, Copy, Debug, PartialEq, Eq, Structural)]
pub enum Unstashed {
    /// There is none under that Call-ID.
    Unknown,
    /// It is handed out.
    Found(u64),
    /// Its time is over; the SA pair behind it is to be torn down.
    Expired(u64),
}

impl PyIpsec {
    /// Every stash entry keeps a handle.
    pub open spec fn wf(self) -> bool {
        well_stashed(self@.stash)
    }

    pub fn new(config: IpsecConfig, pcscf_addr_v4: Option<IpAddr>, pcscf_addr_v6: Option<IpAddr>) -> (r: Self)
        ensures
            r@ == (IpsecText {
                pcscf_port_c: config.pcscf_port_c,
                pcscf_port_s: config.pcscf_port_s,
                pcscf_addr_v4,
                pcscf_addr_v6,
                path_host: opt_text(config.path_host),
                stash: no_entries(),
            }),
            r.wf(),
    {
        PyIpsec { config, pcscf_addr_v4, pcscf_addr_v6, stash: TimedMap::new() }
    }

    /// The P-CSCF address of the UE's family: a selector of mixed families
    /// never matches.
    pub fn pcscf_addr_for(&self, ue_ipv6: bool) -> (r: Option<IpAddr>)
        ensures
            r == addr_for(self@, ue_ipv6),
    {
        if ue_ipv6 {
            self.pcscf_addr_v6
        } else {
            self.pcscf_addr_v4
        }
    }

    pub fn pcscf_port_c(&self) -> (r: u16)
        ensures
            r == self@.pcscf_port_c,
    {
        self.config.pcscf_port_c
    }

    pub fn pcscf_port_s(&self) -> (r: u16)
        ensures
            r == self@.pcscf_port_s,
    {
        self.config.pcscf_port_s
    }

    pub fn stash_size(&self) -> (r: usize)
        ensures
            r == self@.stash.dom().len(),
    {
        self.stash.len()
    }

    /// Checks that an SA pair can be installed for an offer and consumes the
    /// keys. A transform or a protocol that does not fit leaves the keys.
    pub fn allocate(
        &self,
        av: &mut PyAuthVectorHandle,
        offer: &PySecurityOffer,
        transform: PyTransform,
        expires_secs: Option<u64>,
        protocol: Option<&str>,
    ) -> (r: Result<Allocation, ScriptError>)
        ensures
            match r {
                Ok(a) => allocation(
                    self@,
                    old(av)@,
                    offer@,
                    transform,
                    expires_secs,
                    opt_str(protocol),
                ) == Ok::<AllocationText, Seq<char>>(a@),
                Err(e) => allocation(
                    self@,
                    old(av)@,
                    offer@,
                    transform,
                    expires_secs,
                    opt_str(protocol),
                ) matches Err(message) && e@ == value_error(message),
            },
            final(av)@ == if compatible(transform, offer@) && protocol_of(opt_str(protocol)) is Some {
                None
            } else {
                old(av)@
            },
    {
        if !transform.compatible_with(offer) {
            return Err(
                ScriptError::value(
                    "transform ".to_owned().concat(transform.name()).concat(
                        " not compatible with offer alg=",
                    ).concat(&quote_debug(&offer.alg)).concat(" ealg=").concat(
                        &quote_debug(&offer.ealg),
                    ),
                ),
            );
        }
        let sa_protocol = match parse_allocate_protocol(protocol) {
            Ok(p) => p,
            Err(message) => {
                return Err(ScriptError::value(message));
            },
        };
        let keys = match av.take() {
            Some(keys) => keys,
            None => {
                return Err(ScriptError::value("AuthVectorHandle already consumed".to_owned()));
            },
        };
        let ue_addr = match IpAddr::parse(&offer.ue_addr) {
            Some(addr) => addr,
            None => {
                return Err(
                    ScriptError::value(
                        "offer.ue_addr ".to_owned().concat(&quote_debug(&offer.ue_addr)).concat(
                            " is not a valid IP: invalid IP address syntax",
                        ),
                    ),
                );
            },
        };
        let pcscf_addr = match self.pcscf_addr_for(ue_addr.is_ipv6()) {
            Some(addr) => addr,
            None => {
                let family = if ue_addr.is_ipv6() {
                    "IPv6"
                } else {
                    "IPv4"
                };
                return Err(
                    ScriptError::value(
                        "no ".to_owned().concat(family).concat(
                            " P-CSCF listener configured for ",
                        ).concat(family).concat(" UE ").concat(&ue_addr.render()).concat(
                            "; cannot build a same-family IPsec SA selector (3GPP TS 33.203 §7.2)",
                        ),
                    ),
                );
            },
        };
        Ok(
            Allocation {
                ue_addr,
                pcscf_addr,
                ue_port_c: offer.port_c,
                ue_port_s: offer.port_s,
                pcscf_port_c: self.config.pcscf_port_c,
                pcscf_port_s: self.config.pcscf_port_s,
                spi_uc: offer.spi_c,
                spi_us: offer.spi_s,
                transform,
                keys,
                expires_secs,
                protocol: sa_protocol,
            },
        )
    }

    /// Keeps the handle of a pending SA under a Call-ID for the stash lifetime,
    /// and gives the handle that stood there before, which is to be torn down.
    pub fn stash(&mut self, call_id: &str, handle: u64, now: u64) -> (r: Option<u64>)
        requires
            old(self).wf(),
            now + STASH_TTL <= u64::MAX,
        ensures
            final(self).wf(),
            final(self)@ == (IpsecText {
                stash: after_stash(old(self)@.stash, call_id@, handle, now),
                ..old(self)@
            }),
            match r {
                Some(prior) => lookup(old(self)@.stash, call_id@) matches Some(entry) && prior
                    == stashed_handle(entry),
                None => lookup(old(self)@.stash, call_id@) is None,
            },
    {
        proof {
            lemma_pow256();
            be_round_trip(handle as nat, 8);
        }
        let bytes = to_be(handle, 8);
        let prior = self.stash.insert(call_id.to_owned(), bytes, now + STASH_TTL);
        match prior {
            Some(entry) => Some(handle_of(&entry.0)),
            None => None,
        }
    }

    /// Takes the handle under a Call-ID out of the stash.
    pub fn unstash(&mut self, call_id: &str, now: u64) -> (r: Unstashed)
        requires
            old(self).wf(),
        ensures
            final(self).wf(),
            final(self)@ == (IpsecText { stash: old(self)@.stash.remove(call_id@), ..old(self)@ }),
            match lookup(old(self)@.stash, call_id@) {
                None => r == Unstashed::Unknown,
                Some(entry) => if entry.1 < now {
                    r matches Unstashed::Expired(handle) && handle == stashed_handle(entry)
                } else {
                    r matches Unstashed::Found(handle) && handle == stashed_handle(entry)
                },
            },
    {
        match self.stash.remove(call_id) {
            Some(entry) => {
                let handle = handle_of(&entry.0);
                if entry.1 < now {
                    Unstashed::Expired(handle)
                } else {
                    Unstashed::Found(handle)
                }
            },
            None => Unstashed::Unknown,
        }
    }

    /// Drops the entry under a Call-ID once its lifetime is over, and gives the
    /// handle to tear down. An entry that was renewed meanwhile stays.
    pub fn expire_stashed(&mut self, call_id: &str, now: u64) -> (r: Option<u64>)
        requires
            old(self).wf(),
        ensures
            final(self).wf(),
            match lookup(old(self)@.stash, call_id@) {
                Some(entry) => if entry.1 <= now {
                    r is Some && r->0 == stashed_handle(entry) && final(self)@ == (IpsecText {
                        stash: old(self)@.stash.remove(call_id@),
                        ..old(self)@
                    })
                } else {
                    r is None && final(self)@ == old(self)@
                },
                None => r is None && final(self)@ == old(self)@,
            },
    {
        match self.stash.get(call_id) {
            Some(entry) => {
                if entry.1 <= now {
                    let _ = self.stash.remove(call_id);
                    Some(handle_of(&entry.0))
                } else {
                    None
                }
            },
            None => None,
        }
    }

    pub fn __repr__(&self, active_count: usize) -> (r: String)
        ensures
            r@ == "Ipsec(pcscf_addr_v4="@ + addr_or_dash(self@.pcscf_addr_v4)
                + ", pcscf_addr_v6="@ + addr_or_dash(self@.pcscf_addr_v6) + ", pcscf_port_c="@
                + decimal(self@.pcscf_port_c as nat) + ", pcscf_port_s="@ + decimal(
                self@.pcscf_port_s as nat,
            ) + ", active="@ + decimal(active_count as nat) + ", stashed="@ + decimal(
                self@.stash.dom().len(),
            ) + ")"@,
    {
        "Ipsec(pcscf_addr_v4=".to_owned().concat(&show_addr(self.pcscf_addr_v4)).concat(
            ", pcscf_addr_v6=",
        ).concat(&show_addr(self.pcscf_addr_v6)).concat(", pcscf_port_c=").concat(
            &decimal_text(self.config.pcscf_port_c as u64),
        ).concat(", pcscf_port_s=").concat(&decimal_text(self.config.pcscf_port_s as u64)).concat(
            ", active=",
        ).concat(&decimal_text(active_count as u64)).concat(", stashed=").concat(
            &decimal_text(self.stash.len() as u64),
        ).concat(")")
    }
}

pub open spec fn addr_or_dash(addr: Option<IpAddr>) -> Seq<char> {
    match addr {
        Some(addr) => ip_text(addr),
        None => "-"@,
    }
}

fn show_addr(addr: Option<IpAddr>) -> (r: String)
    ensures
        r@ == addr_or_dash(addr),
{
    match addr {
        Some(addr) => addr.render(),
        None => "-".to_owned(),
    }
}

/// The two outbound legs of a pair never share a source port, unless the
/// P-CSCF's own ports coincide.
pub proof fn legs_use_different_ports(sa: SaText)
    requires
        sa.ue_port_c != sa.ue_port_s,
        sa.pcscf_port_c != sa.pcscf_port_s,
    ensures
        outbound_endpoint(sa, sa.ue_port_s) matches Some(request) && outbound_endpoint(
            sa,
            sa.ue_port_c,
        ) matches Some(response) && request.port != response.port,
{
}

/// A pair that an allocation yields never mixes address families, as long as
/// each configured P-CSCF address is of the family it is configured for.
pub proof fn allocated_pair_is_single_family(
    ipsec: IpsecText,
    keys: Option<(Seq<u8>, Seq<u8>)>,
    offer: OfferText,
    transform: PyTransform,
    expires_secs: Option<u64>,
    protocol: Option<Seq<char>>,
)
    requires
        ipsec.pcscf_addr_v4 matches Some(a) ==> !is_ipv6(a),
        ipsec.pcscf_addr_v6 matches Some(a) ==> is_ipv6(a),
        allocation(ipsec, keys, offer, transform, expires_secs, protocol) is Ok,
    ensures
        allocation(ipsec, keys, offer, transform, expires_secs, protocol) matches Ok(a) && is_ipv6(
            a.ue_addr,
        ) == is_ipv6(a.pcscf_addr),
{
}

/// Activation is idempotent, and nothing but a new lifetime changes the pair.
pub proof fn activation_is_idempotent(p: PendingText, hard_lifetime_secs: Option<u64>)
    ensures
        activated(activated(p, hard_lifetime_secs), hard_lifetime_secs) == activated(
            p,
            hard_lifetime_secs,
        ),
        activated(p, None).sa == p.sa,
        cleaned(cleaned(p)) == cleaned(p),
{
}

/// A refresh changes the keys and nothing else: ports, SPIs and selectors stay.
pub proof fn refresh_keeps_selectors(sa: SaText, ck: Seq<u8>, ik: Seq<u8>, derived: Option<Seq<u8>>)
    ensures
        rekeyed(sa, ck, ik, derived) == (SaText {
            integrity_key: rekeyed(sa, ck, ik, derived).integrity_key,
            encryption_key: rekeyed(sa, ck, ik, derived).encryption_key,
            ..sa
        }),
{
}

/// A refresh installs the keys that an allocation with the same key material
/// would install: an allocated pair refreshed with its own keys is itself.
pub proof fn refresh_keys_as_allocation(a: AllocationText, spi_pc: u32, spi_ps: u32, derived: Option<Seq<u8>>)
    ensures
        rekeyed(allocated_sa(a, spi_pc, spi_ps, derived), a.ck, a.ik, derived)
            == allocated_sa(a, spi_pc, spi_ps, derived),
{
}

/// A stashed handle comes back under its Call-ID while its time is not over.
pub proof fn stashed_handle_comes_back(
    stash: Map<Seq<char>, (Seq<u8>, u64)>,
    call_id: Seq<char>,
    handle: u64,
    now: u64,
)
    requires
        now + STASH_TTL <= u64::MAX,
    ensures
        lookup(after_stash(stash, call_id, handle, now), call_id) matches Some(entry)
            && stashed_handle(entry) == handle && entry.1 == now + STASH_TTL,
        lookup(after_stash(stash, call_id, handle, now).remove(call_id), call_id) is None,
{
    lemma_pow256();
    be_round_trip(handle as nat, 8);
}

} // verus!
