//! Signed relay endpoint tickets.
//!
//! A relay reports a peer's reflexive endpoint, and that endpoint is written into a shared cache.
//! Every claim travels as a [`RelayTicket`] that the relay signs over the whole claim:
//!
//! ```text
//! root = SHA-256( domain(8) || relay_id(32) || target_id(32)
//!                          || endpoint(19) || epoch_le(4) || expires_at_le(8) )
//! sig  = SHA-256( relay_secret_key(32) || root(32) )
//! ```
//!
//! The cache accepts a write only when the ticket verifies against the exact key and endpoint
//! being written, lies within [`RELAY_TICKET_EPOCH_WINDOW`] epochs of the current one and never in
//! a future one, and has not passed its absolute expiry.

use vstd::prelude::*;

use crate::attestation::signing::{root_signature, sign_root, verify_root, SecretKey, Signature};
use crate::attestation::types::EpochId;
use crate::byte_order::{append, arrays_equal, lemma_array_view_injective, to_vec};
use crate::codec::{
    law_eight_digits_spell_the_number, le64_at, le_digits, lemma_le_digits_injective, lemma_le_digits_len, lemma_le_digits_of_value,
    lemma_radix_powers, read_array, read_le, u16_to_le, u32_to_le, u64_to_le,
};
use crate::crypto::domain::{compute_domain, domain_bytes, Domain, DomainType, ForkVersion};
use crate::crypto::merkle::Hash256;
use crate::crypto::sha256::{sha256, sha256_digest};

verus! {

/// Domain type tag for relay endpoint tickets (`0x52544b54` = "RTKT").
pub const DOMAIN_RELAY_TICKET: DomainType = [0x52, 0x54, 0x4b, 0x54];

/// How many epochs behind the current one a ticket stays valid.
pub const RELAY_TICKET_EPOCH_WINDOW: EpochId = 1;

/// Wire size of a [`SocketEndpoint`]: `tag(1) || address(16) || port_le(2)`.
pub const SOCKET_ENDPOINT_ENCODED_LEN: usize = 19;

/// Wire size of an encoded [`RelayTicket`].
///
/// `relay_id(32) || target_id(32) || endpoint(19) || epoch_le(4) || expires_at_le(8)
/// || signature(32)`.
pub const RELAY_TICKET_ENCODED_LEN: usize = 127;

/// Address-family tag for an IPv4 endpoint.
const IP_TAG_V4: u8 = 4;

/// Address-family tag for an IPv6 endpoint.
const IP_TAG_V6: u8 = 6;

/// Identifier of a relay (32 bytes).
pub type RelayId = [u8; 32];

/// Identifier of a peer whose endpoint is being claimed (32 bytes); also the key of the endpoint
/// cache.
pub type PeerId = [u8; 32];

/// An IP address.
#[derive(Clone, Copy, Debug, PartialEq, Eq, PartialOrd, Ord)]
pub enum IpAddress {
    /// IPv4, four octets in network order.
    V4([u8; 4]),
    /// IPv6, sixteen octets in network order.
    V6([u8; 16]),
}

/// A server-reflexive transport address as reported by a relay.
#[derive(Clone, Copy, Debug, PartialEq, Eq, PartialOrd, Ord)]
pub struct SocketEndpoint {
    /// The reflexive IP address.
    pub ip: IpAddress,
    /// The reflexive UDP port.
    pub port: u16,
}

/// The canonical encoding of an endpoint: family tag, address filled up with zeros, port.
pub open spec fn endpoint_bytes(e: SocketEndpoint) -> Seq<u8> {
    (match e.ip {
        IpAddress::V4(octets) => seq![4u8] + octets@ + Seq::new(12, |i: int| 0u8),
        IpAddress::V6(octets) => seq![6u8] + octets@,
    }) + le_digits(e.port as nat, 2)
}

/// An encoded endpoint has its fixed length.
pub proof fn lemma_endpoint_len(e: SocketEndpoint)
    ensures
        endpoint_bytes(e).len() == SOCKET_ENDPOINT_ENCODED_LEN,
{
    lemma_le_digits_len(e.port as nat, 2);
}

/// Two distinct endpoints never share an encoding.
pub proof fn law_endpoint_encoding_injective(a: SocketEndpoint, b: SocketEndpoint)
    requires
        endpoint_bytes(a) == endpoint_bytes(b),
    ensures
        a == b,
{
    lemma_endpoint_len(a);
    lemma_endpoint_len(b);
    let s = endpoint_bytes(a);
    let t = endpoint_bytes(b);
    assert(s.subrange(17, 19) =~= le_digits(a.port as nat, 2));
    assert(t.subrange(17, 19) =~= le_digits(b.port as nat, 2));
    lemma_radix_powers();
    lemma_le_digits_injective(a.port as nat, b.port as nat, 2);
    assert(s[0] == t[0]);
    match (a.ip, b.ip) {
        (IpAddress::V4(x), IpAddress::V4(y)) => {
            assert(s.subrange(1, 5) =~= x@);
            assert(t.subrange(1, 5) =~= y@);
            lemma_array_view_injective(x, y);
        },
        (IpAddress::V6(x), IpAddress::V6(y)) => {
            assert(s.subrange(1, 17) =~= x@);
            assert(t.subrange(1, 17) =~= y@);
            lemma_array_view_injective(x, y);
        },
        (IpAddress::V4(_), IpAddress::V6(_)) => {
            assert(s[0] == 4);
            assert(t[0] == 6);
        },
        (IpAddress::V6(_), IpAddress::V4(_)) => {
            assert(s[0] == 6);
            assert(t[0] == 4);
        },
    }
}

/// Whether two endpoints are the same.
fn endpoints_equal(a: &SocketEndpoint, b: &SocketEndpoint) -> (r: bool)
    ensures
        r == (*a == *b),
{
    a.port == b.port && match (a.ip, b.ip) {
        (IpAddress::V4(x), IpAddress::V4(y)) => arrays_equal(&x, &y),
        (IpAddress::V6(x), IpAddress::V6(y)) => arrays_equal(&x, &y),
        _ => false,
    }
}

impl SocketEndpoint {
    /// Construct an IPv4 endpoint.
    pub fn v4(octets: [u8; 4], port: u16) -> (r: Self)
        ensures
            r == (SocketEndpoint { ip: IpAddress::V4(octets), port }),
    {
        SocketEndpoint { ip: IpAddress::V4(octets), port }
    }

    /// Construct an IPv6 endpoint.
    pub fn v6(octets: [u8; 16], port: u16) -> (r: Self)
        ensures
            r == (SocketEndpoint { ip: IpAddress::V6(octets), port }),
    {
        SocketEndpoint { ip: IpAddress::V6(octets), port }
    }

    /// Encode canonically as `tag(1) || address(16, zero-padded) || port_le(2)`.
    pub fn encode(&self) -> (r: [u8; SOCKET_ENDPOINT_ENCODED_LEN])
        ensures
            r@ == endpoint_bytes(*self),
    {
        let mut out: Vec<u8> = Vec::new();
        match self.ip {
            IpAddress::V4(octets) => {
                out.push(IP_TAG_V4);
                append(&mut out, octets.as_slice());
                let padding: [u8; 12] = [0u8; 12];
                append(&mut out, padding.as_slice());
                assert(padding@ =~= Seq::new(12, |i: int| 0u8));
                assert(out@ =~= seq![4u8] + octets@ + Seq::new(12, |i: int| 0u8));
            },
            IpAddress::V6(octets) => {
                out.push(IP_TAG_V6);
                append(&mut out, octets.as_slice());
                assert(out@ =~= seq![6u8] + octets@);
            },
        }
        append(&mut out, u16_to_le(self.port).as_slice());
        proof {
            lemma_endpoint_len(*self);
            assert(out@.subrange(0, 19) =~= out@);
        }
        read_array::<SOCKET_ENDPOINT_ENCODED_LEN>(out.as_slice(), 0)
    }

    /// Decode an endpoint from exactly [`SOCKET_ENDPOINT_ENCODED_LEN`] bytes.
    ///
    /// Rejects unknown family tags and non-canonical IPv4 padding: the bytes are accepted exactly
    /// when they are the encoding of an endpoint.
    pub fn decode(bytes: &[u8; SOCKET_ENDPOINT_ENCODED_LEN]) -> (r: Result<Self, RelayTicketError>)
        ensures
            r matches Ok(e) ==> endpoint_bytes(e) == bytes@,
            r matches Err(err) ==> err == RelayTicketError::Malformed && forall|e: SocketEndpoint|
                #[trigger] endpoint_bytes(e) != bytes@,
    {
        let port: u16 = {
            proof {
                lemma_radix_powers();
            }
            read_le(bytes.as_slice(), 17, 2) as u16
        };
        proof {
            lemma_le_digits_of_value(bytes@.subrange(17, 19));
        }
        if bytes[0] == IP_TAG_V4 {
            let mut i: usize = 5;
            while i < 17
                invariant
                    5 <= i <= 17,
                    bytes@[0] == 4,
                    forall|j: int| 5 <= j < i ==> bytes@[j] == 0,
                decreases 17 - i,
            {
                if bytes[i] != 0 {
                    proof {
                        assert forall|e: SocketEndpoint| #[trigger] endpoint_bytes(e) != bytes@ by {
                            lemma_le_digits_len(e.port as nat, 2);
                            match e.ip {
                                IpAddress::V4(octets) => {
                                    assert(endpoint_bytes(e)[i as int] == 0);
                                },
                                IpAddress::V6(octets) => {
                                    assert(endpoint_bytes(e)[0] == 6);
                                },
                            }
                        }
                    }
                    return Err(RelayTicketError::Malformed);
                }
                i = i + 1;
            }
            let octets: [u8; 4] = read_array::<4>(bytes.as_slice(), 1);
            let e: SocketEndpoint = SocketEndpoint { ip: IpAddress::V4(octets), port };
            assert(endpoint_bytes(e) =~= bytes@);
            Ok(e)
        } else if bytes[0] == IP_TAG_V6 {
            let octets: [u8; 16] = read_array::<16>(bytes.as_slice(), 1);
            let e: SocketEndpoint = SocketEndpoint { ip: IpAddress::V6(octets), port };
            assert(endpoint_bytes(e) =~= bytes@);
            Ok(e)
        } else {
            proof {
                assert forall|e: SocketEndpoint| #[trigger] endpoint_bytes(e) != bytes@ by {
                    match e.ip {
                        IpAddress::V4(octets) => {
                            assert(endpoint_bytes(e)[0] == 4);
                        },
                        IpAddress::V6(octets) => {
                            assert(endpoint_bytes(e)[0] == 6);
                        },
                    }
                }
            }
            Err(RelayTicketError::Malformed)
        }
    }
}

/// Why a relay ticket was refused.
///
/// Every variant is a hard rejection: an expired or stale-epoch ticket is refused exactly as a
/// forged one is, and neither ever reaches the cache.
#[derive(Clone, Copy, Debug, PartialEq, Eq)]
pub enum RelayTicketError {
    /// The wire bytes were truncated, over-long, or not a canonical encoding.
    Malformed,
    /// `relay_id` is not registered, so no verification key could be resolved.
    UnknownRelay,
    /// The MAC did not match the recomputed signing root.
    InvalidSignature,
    /// The ticket is validly signed but names a different peer than the cache key being written.
    TargetMismatch,
    /// The ticket is validly signed but names a different endpoint than the one being written.
    EndpointMismatch,
    /// The ticket's epoch is more than [`RELAY_TICKET_EPOCH_WINDOW`] behind.
    EpochStale,
    /// The ticket names an epoch that has not started yet.
    EpochFuture,
    /// The ticket's absolute expiry has passed.
    Expired,
}

/// A relay's signed claim that `target_id` is reachable at `endpoint`.
#[derive(Clone, Copy, Debug, PartialEq, Eq)]
pub struct RelayTicket {
    /// The relay that issued and signed this claim.
    pub relay_id: RelayId,
    /// The peer the claim is about, and the only cache key it authorizes.
    pub target_id: PeerId,
    /// The server-reflexive endpoint being claimed for `target_id`.
    pub endpoint: SocketEndpoint,
    /// The epoch the relay observed the binding in.
    pub epoch: EpochId,
    /// Unix timestamp (seconds) after which the ticket is no longer accepted.
    pub expires_at: u64,
    /// MAC over the domain-separated signing root.
    pub signature: Signature,
}

/// The claim of a ticket: every field but the signature, each of fixed width.
pub open spec fn claim_bytes(
    relay_id: RelayId,
    target_id: PeerId,
    endpoint: SocketEndpoint,
    epoch: EpochId,
    expires_at: u64,
) -> Seq<u8> {
    relay_id@ + target_id@ + endpoint_bytes(endpoint) + le_digits(epoch as nat, 4) + le_digits(
        expires_at as nat,
        8,
    )
}

/// The claim that a ticket makes.
pub open spec fn ticket_claim(t: RelayTicket) -> Seq<u8> {
    claim_bytes(t.relay_id, t.target_id, t.endpoint, t.epoch, t.expires_at)
}

/// The encoding of a ticket: its claim and its signature.
pub open spec fn ticket_bytes(t: RelayTicket) -> Seq<u8> {
    ticket_claim(t) + t.signature@
}

/// The root that a relay signs: the hash of the domain and the claim.
pub open spec fn claim_root(domain: Seq<u8>, claim: Seq<u8>) -> Seq<u8> {
    sha256_digest(domain + claim)
}

/// The signing root of a ticket under a fork version.
pub open spec fn ticket_root(t: RelayTicket, fork_version: ForkVersion) -> Seq<u8> {
    claim_root(domain_bytes(DOMAIN_RELAY_TICKET, fork_version), ticket_claim(t))
}

/// The ticket carries the signature of its own claim under the key.
pub open spec fn signed_by(t: RelayTicket, key: SecretKey, fork_version: ForkVersion) -> bool {
    t.signature@ == root_signature(key@, ticket_root(t, fork_version))
}

/// What verifying a ticket returns: the first check that fails, in this order.
pub open spec fn ticket_verdict(
    t: RelayTicket,
    target: PeerId,
    endpoint: SocketEndpoint,
    key: SecretKey,
    current_epoch: EpochId,
    now: u64,
    fork_version: ForkVersion,
) -> Result<(), RelayTicketError> {
    if !signed_by(t, key, fork_version) {
        Err(RelayTicketError::InvalidSignature)
    } else if t.target_id != target {
        Err(RelayTicketError::TargetMismatch)
    } else if t.endpoint != endpoint {
        Err(RelayTicketError::EndpointMismatch)
    } else if t.epoch > current_epoch {
        Err(RelayTicketError::EpochFuture)
    } else if current_epoch - t.epoch > RELAY_TICKET_EPOCH_WINDOW {
        Err(RelayTicketError::EpochStale)
    } else if now > t.expires_at {
        Err(RelayTicketError::Expired)
    } else {
        Ok(())
    }
}

proof fn lemma_claim_parts(
    relay_id: RelayId,
    target_id: PeerId,
    endpoint: SocketEndpoint,
    epoch: EpochId,
    expires_at: u64,
)
    ensures
        ({
            let c = claim_bytes(relay_id, target_id, endpoint, epoch, expires_at);
            &&& c.len() == 95
            &&& c.subrange(0, 32) == relay_id@
            &&& c.subrange(32, 64) == target_id@
            &&& c.subrange(64, 83) == endpoint_bytes(endpoint)
            &&& c.subrange(83, 87) == le_digits(epoch as nat, 4)
            &&& c.subrange(87, 95) == le_digits(expires_at as nat, 8)
        }),
{
    let c = claim_bytes(relay_id, target_id, endpoint, epoch, expires_at);
    lemma_endpoint_len(endpoint);
    lemma_le_digits_len(epoch as nat, 4);
    lemma_le_digits_len(expires_at as nat, 8);
    assert(c.subrange(0, 32) =~= relay_id@);
    assert(c.subrange(32, 64) =~= target_id@);
    assert(c.subrange(64, 83) =~= endpoint_bytes(endpoint));
    assert(c.subrange(83, 87) =~= le_digits(epoch as nat, 4));
    assert(c.subrange(87, 95) =~= le_digits(expires_at as nat, 8));
}

/// The claim bytes bind every field: two claims with the same bytes agree in all of them.
pub proof fn law_claim_binds_every_field(a: RelayTicket, b: RelayTicket)
    requires
        ticket_claim(a) == ticket_claim(b),
    ensures
        a.relay_id == b.relay_id,
        a.target_id == b.target_id,
        a.endpoint == b.endpoint,
        a.epoch == b.epoch,
        a.expires_at == b.expires_at,
{
    lemma_claim_parts(a.relay_id, a.target_id, a.endpoint, a.epoch, a.expires_at);
    lemma_claim_parts(b.relay_id, b.target_id, b.endpoint, b.epoch, b.expires_at);
    lemma_array_view_injective(a.relay_id, b.relay_id);
    lemma_array_view_injective(a.target_id, b.target_id);
    law_endpoint_encoding_injective(a.endpoint, b.endpoint);
    lemma_radix_powers();
    lemma_le_digits_injective(a.epoch as nat, b.epoch as nat, 4);
    lemma_le_digits_injective(a.expires_at as nat, b.expires_at as nat, 8);
}

/// Two distinct tickets never share an encoding.
pub proof fn law_ticket_encoding_injective(a: RelayTicket, b: RelayTicket)
    requires
        ticket_bytes(a) == ticket_bytes(b),
    ensures
        a == b,
{
    lemma_claim_parts(a.relay_id, a.target_id, a.endpoint, a.epoch, a.expires_at);
    lemma_claim_parts(b.relay_id, b.target_id, b.endpoint, b.epoch, b.expires_at);
    assert(ticket_bytes(a).subrange(0, 95) =~= ticket_claim(a));
    assert(ticket_bytes(b).subrange(0, 95) =~= ticket_claim(b));
    assert(ticket_bytes(a).subrange(95, 127) =~= a.signature@);
    assert(ticket_bytes(b).subrange(95, 127) =~= b.signature@);
    law_claim_binds_every_field(a, b);
    lemma_array_view_injective(a.signature, b.signature);
}

/// What is signed under one domain is not what is signed under another: different message kinds,
/// fork versions or claims hash different inputs.
pub proof fn law_signed_input_is_domain_separated(
    type_a: DomainType,
    fork_a: ForkVersion,
    a: RelayTicket,
    type_b: DomainType,
    fork_b: ForkVersion,
    b: RelayTicket,
)
    requires
        domain_bytes(type_a, fork_a) + ticket_claim(a) == domain_bytes(type_b, fork_b)
            + ticket_claim(b),
    ensures
        type_a == type_b,
        fork_a == fork_b,
        ticket_claim(a) == ticket_claim(b),
{
    let s = domain_bytes(type_a, fork_a) + ticket_claim(a);
    let t = domain_bytes(type_b, fork_b) + ticket_claim(b);
    lemma_claim_parts(a.relay_id, a.target_id, a.endpoint, a.epoch, a.expires_at);
    lemma_claim_parts(b.relay_id, b.target_id, b.endpoint, b.epoch, b.expires_at);
    assert(s.subrange(0, 8) =~= domain_bytes(type_a, fork_a));
    assert(t.subrange(0, 8) =~= domain_bytes(type_b, fork_b));
    assert(s.subrange(8, 103) =~= ticket_claim(a));
    assert(t.subrange(8, 103) =~= ticket_claim(b));
    crate::crypto::domain::law_domains_are_separated(type_a, fork_a, type_b, fork_b);
}

/// A ticket authorizes nothing but the write it names: where it verifies, it was signed under the
/// key, and the key, the endpoint and the time of the write are those of the ticket.
pub proof fn law_ticket_authorizes_only_its_write(
    t: RelayTicket,
    target: PeerId,
    endpoint: SocketEndpoint,
    key: SecretKey,
    current_epoch: EpochId,
    now: u64,
    fork_version: ForkVersion,
)
    requires
        ticket_verdict(t, target, endpoint, key, current_epoch, now, fork_version) is Ok,
    ensures
        signed_by(t, key, fork_version),
        target == t.target_id,
        endpoint == t.endpoint,
        t.epoch <= current_epoch <= t.epoch + RELAY_TICKET_EPOCH_WINDOW,
        now <= t.expires_at,
{
}

/// A genuine ticket authorizes the write it names while it is fresh.
pub proof fn law_genuine_fresh_ticket_verifies(
    t: RelayTicket,
    key: SecretKey,
    current_epoch: EpochId,
    now: u64,
    fork_version: ForkVersion,
)
    requires
        signed_by(t, key, fork_version),
        t.epoch <= current_epoch <= t.epoch + RELAY_TICKET_EPOCH_WINDOW,
        now <= t.expires_at,
    ensures
        ticket_verdict(t, t.target_id, t.endpoint, key, current_epoch, now, fork_version) is Ok,
{
}

/// A genuine ticket for one peer is refused for another peer's entry.
pub proof fn law_genuine_ticket_is_bound_to_its_target(
    t: RelayTicket,
    target: PeerId,
    endpoint: SocketEndpoint,
    key: SecretKey,
    current_epoch: EpochId,
    now: u64,
    fork_version: ForkVersion,
)
    requires
        signed_by(t, key, fork_version),
        target != t.target_id,
    ensures
        ticket_verdict(t, target, endpoint, key, current_epoch, now, fork_version) == Err::<(), _>(
            RelayTicketError::TargetMismatch,
        ),
{
}

/// Writes a claim.
fn encode_claim(
    relay_id: &RelayId,
    target_id: &PeerId,
    endpoint: &SocketEndpoint,
    epoch: EpochId,
    expires_at: u64,
) -> (r: Vec<u8>)
    ensures
        r@ == claim_bytes(*relay_id, *target_id, *endpoint, epoch, expires_at),
        r@.len() == 95,
{
    let mut out: Vec<u8> = to_vec(relay_id.as_slice());
    append(&mut out, target_id.as_slice());
    append(&mut out, endpoint.encode().as_slice());
    append(&mut out, u32_to_le(epoch).as_slice());
    append(&mut out, u64_to_le(expires_at).as_slice());
    proof {
        lemma_claim_parts(*relay_id, *target_id, *endpoint, epoch, expires_at);
    }
    out
}

/// Compute the domain-separated signing root for a relay ticket.
///
/// Every field is fixed-width, so what is hashed is unambiguous without length prefixes.
pub fn compute_relay_ticket_signing_root(
    domain: &Domain,
    relay_id: &RelayId,
    target_id: &PeerId,
    endpoint: &SocketEndpoint,
    epoch: EpochId,
    expires_at: u64,
) -> (r: Hash256)
    ensures
        r@ == claim_root(
            domain@,
            claim_bytes(*relay_id, *target_id, *endpoint, epoch, expires_at),
        ),
{
    let mut input: Vec<u8> = to_vec(domain.as_slice());
    append(
        &mut input,
        encode_claim(relay_id, target_id, endpoint, epoch, expires_at).as_slice(),
    );
    sha256(input.as_slice())
}

impl RelayTicket {
    /// Issue a ticket, signing over the full claim under `fork_version`.
    pub fn sign(
        key: &SecretKey,
        relay_id: RelayId,
        target_id: PeerId,
        endpoint: SocketEndpoint,
        epoch: EpochId,
        expires_at: u64,
        fork_version: ForkVersion,
    ) -> (r: Self)
        ensures
            r.relay_id == relay_id,
            r.target_id == target_id,
            r.endpoint == endpoint,
            r.epoch == epoch,
            r.expires_at == expires_at,
            signed_by(r, *key, fork_version),
    {
        let domain: Domain = compute_domain(DOMAIN_RELAY_TICKET, fork_version);
        let root: Hash256 = compute_relay_ticket_signing_root(
            &domain,
            &relay_id,
            &target_id,
            &endpoint,
            epoch,
            expires_at,
        );
        RelayTicket {
            relay_id,
            target_id,
            endpoint,
            epoch,
            expires_at,
            signature: sign_root(key, &root),
        }
    }

    /// Recompute this ticket's signing root under `fork_version`.
    pub fn signing_root(&self, fork_version: ForkVersion) -> (r: Hash256)
        ensures
            r@ == ticket_root(*self, fork_version),
    {
        let domain: Domain = compute_domain(DOMAIN_RELAY_TICKET, fork_version);
        compute_relay_ticket_signing_root(
            &domain,
            &self.relay_id,
            &self.target_id,
            &self.endpoint,
            self.epoch,
            self.expires_at,
        )
    }

    /// Serialize to exactly [`RELAY_TICKET_ENCODED_LEN`] bytes.
    pub fn encode(&self) -> (r: [u8; RELAY_TICKET_ENCODED_LEN])
        ensures
            r@ == ticket_bytes(*self),
    {
        let mut out: Vec<u8> = encode_claim(
            &self.relay_id,
            &self.target_id,
            &self.endpoint,
            self.epoch,
            self.expires_at,
        );
        append(&mut out, self.signature.as_slice());
        assert(out@.subrange(0, 127) =~= out@);
        read_array::<RELAY_TICKET_ENCODED_LEN>(out.as_slice(), 0)
    }

    /// Parse a ticket from inbound bytes.
    ///
    /// The bytes are accepted exactly when they are the encoding of a ticket.
    pub fn decode(bytes: &[u8]) -> (r: Result<Self, RelayTicketError>)
        ensures
            r matches Ok(t) ==> ticket_bytes(t) == bytes@,
            r matches Err(err) ==> err == RelayTicketError::Malformed && forall|t: RelayTicket|
                #[trigger] ticket_bytes(t) != bytes@,
    {
        proof {
            assert forall|t: RelayTicket| #[trigger] ticket_bytes(t) == bytes@ implies bytes@.len()
                == 127 && bytes@.subrange(64, 83) == endpoint_bytes(t.endpoint) by {
                lemma_claim_parts(t.relay_id, t.target_id, t.endpoint, t.epoch, t.expires_at);
                assert(ticket_bytes(t).subrange(64, 83) =~= ticket_claim(t).subrange(64, 83));
            }
        }
        if bytes.len() != RELAY_TICKET_ENCODED_LEN {
            return Err(RelayTicketError::Malformed);
        }
        let relay_id: RelayId = read_array::<32>(bytes, 0);
        let target_id: PeerId = read_array::<32>(bytes, 32);
        let endpoint_part: [u8; SOCKET_ENDPOINT_ENCODED_LEN] = read_array::<
            SOCKET_ENDPOINT_ENCODED_LEN,
        >(bytes, 64);
        let endpoint: SocketEndpoint = match SocketEndpoint::decode(&endpoint_part) {
            Ok(endpoint) => endpoint,
            Err(e) => return Err(e),
        };
        proof {
            lemma_radix_powers();
            lemma_le_digits_of_value(bytes@.subrange(83, 87));
            lemma_le_digits_of_value(bytes@.subrange(87, 95));
        }
        let epoch: EpochId = read_le(bytes, 83, 4) as u32;
        let expires_at: u64 = read_le(bytes, 87, 8);
        let signature: Signature = read_array::<32>(bytes, 95);
        let t: RelayTicket = RelayTicket {
            relay_id,
            target_id,
            endpoint,
            epoch,
            expires_at,
            signature,
        };
        proof {
            assert(bytes@ =~= bytes@.subrange(0, 32) + bytes@.subrange(32, 64) + bytes@.subrange(
                64,
                83,
            ) + bytes@.subrange(83, 87) + bytes@.subrange(87, 95) + bytes@.subrange(95, 127));
            assert(ticket_bytes(t) == bytes@);
        }
        Ok(t)
    }
}

/// Verify a relay ticket against the write it is being used to authorize.
///
/// `relay_key` is the verification key the caller resolved for `ticket.relay_id`. The signature
/// comes first: every other rejection concerns a genuine ticket.
pub fn verify_relay_ticket(
    ticket: &RelayTicket,
    expected_target: &PeerId,
    expected_endpoint: &SocketEndpoint,
    relay_key: &SecretKey,
    current_epoch: EpochId,
    now: u64,
    fork_version: ForkVersion,
) -> (r: Result<(), RelayTicketError>)
    ensures
        r == ticket_verdict(
            *ticket,
            *expected_target,
            *expected_endpoint,
            *relay_key,
            current_epoch,
            now,
            fork_version,
        ),
{
    let root: Hash256 = ticket.signing_root(fork_version);
    if !verify_root(relay_key, &root, &ticket.signature) {
        return Err(RelayTicketError::InvalidSignature);
    }
    if !arrays_equal(&ticket.target_id, expected_target) {
        return Err(RelayTicketError::TargetMismatch);
    }
    if !endpoints_equal(&ticket.endpoint, expected_endpoint) {
        return Err(RelayTicketError::EndpointMismatch);
    }
    if ticket.epoch > current_epoch {
        return Err(RelayTicketError::EpochFuture);
    }
    if current_epoch.saturating_sub(ticket.epoch) > RELAY_TICKET_EPOCH_WINDOW {
        return Err(RelayTicketError::EpochStale);
    }
    if now > ticket.expires_at {
        return Err(RelayTicketError::Expired);
    }
    Ok(())
}

/// A ticket is good exactly where its signature is, it names the target and the endpoint, it is of
/// this epoch or the one before, and its time is not over. Of several faults the first in this
/// order is reported, an epoch ahead before one gone by.
pub proof fn law_verdict_in_numbers(
    t: RelayTicket,
    target: PeerId,
    endpoint: SocketEndpoint,
    key: SecretKey,
    current_epoch: EpochId,
    now: u64,
    fork_version: ForkVersion,
)
    ensures
        ({
            let v = ticket_verdict(t, target, endpoint, key, current_epoch, now, fork_version);
            let signed = t.signature@ == sha256_digest(key@ + ticket_root(t, fork_version));
            let named = signed && t.target_id == target;
            let placed = named && t.endpoint == endpoint;
            let begun = placed && t.epoch <= current_epoch;
            let recent = begun && current_epoch <= t.epoch + 1;
            &&& v is Ok <==> recent && now <= t.expires_at
            &&& v == Err::<(), _>(RelayTicketError::InvalidSignature) <==> !signed
            &&& v == Err::<(), _>(RelayTicketError::TargetMismatch) <==> signed && !named
            &&& v == Err::<(), _>(RelayTicketError::EndpointMismatch) <==> named && !placed
            &&& v == Err::<(), _>(RelayTicketError::EpochFuture) <==> placed && !begun
            &&& v == Err::<(), _>(RelayTicketError::EpochStale) <==> begun && !recent
            &&& v == Err::<(), _>(RelayTicketError::Expired) <==> recent && now > t.expires_at
        }),
{
}

/// An endpoint takes nineteen bytes: the kind of its address, four or six, the address, filled up
/// with zeros to sixteen bytes, and the port, least significant byte first.
pub proof fn law_endpoint_layout(octets4: [u8; 4], octets6: [u8; 16], port: u16, i: int)
    requires
        0 <= i < 16,
    ensures
        ({
            let a = endpoint_bytes(SocketEndpoint { ip: IpAddress::V4(octets4), port });
            let b = endpoint_bytes(SocketEndpoint { ip: IpAddress::V6(octets6), port });
            &&& a.len() == 19
            &&& b.len() == 19
            &&& a[0] == 4
            &&& b[0] == 6
            &&& a[1 + i] == (if i < 4 {
                octets4@[i]
            } else {
                0u8
            })
            &&& b[1 + i] == octets6@[i]
            &&& a[17] + 0x100 * a[18] == port
            &&& b[17] + 0x100 * b[18] == port
        }),
{
    lemma_le_digits_len(port as nat, 2);
    reveal_with_fuel(le_digits, 3);
}

/// A ticket takes 127 bytes: the relay, the target, the endpoint, the epoch in four bytes and the
/// time it expires in eight, least significant byte first, and the signature. Signed is the digest
/// of the letters RTKT, the fork version and all of this but the signature.
pub proof fn law_ticket_layout(t: RelayTicket, fork_version: ForkVersion)
    ensures
        ({
            let b = ticket_bytes(t);
            &&& b.len() == 127
            &&& b.subrange(0, 32) == t.relay_id@
            &&& b.subrange(32, 64) == t.target_id@
            &&& b.subrange(64, 83) == endpoint_bytes(t.endpoint)
            &&& b[83] + 0x100 * b[84] + 0x1_0000 * b[85] + 0x100_0000 * b[86] == t.epoch
            &&& le64_at(b, 87) == t.expires_at
            &&& b.subrange(95, 127) == t.signature@
            &&& ticket_root(t, fork_version) == sha256_digest(
                seq![0x52u8, 0x54u8, 0x4bu8, 0x54u8] + fork_version@ + b.subrange(0, 95),
            )
        }),
{
    let b = ticket_bytes(t);
    let c = ticket_claim(t);
    lemma_claim_parts(t.relay_id, t.target_id, t.endpoint, t.epoch, t.expires_at);
    assert(b.subrange(0, 95) =~= c);
    assert(b.subrange(0, 32) =~= c.subrange(0, 32));
    assert(b.subrange(32, 64) =~= c.subrange(32, 64));
    assert(b.subrange(64, 83) =~= c.subrange(64, 83));
    assert(b.subrange(95, 127) =~= t.signature@);
    let e = le_digits(t.epoch as nat, 4);
    lemma_le_digits_len(t.epoch as nat, 4);
    assert(c.subrange(83, 87)[0] == b[83] && c.subrange(83, 87)[1] == b[84] && c.subrange(
        83,
        87,
    )[2] == b[85] && c.subrange(83, 87)[3] == b[86]);
    assert(e[0] + 0x100 * e[1] + 0x1_0000 * e[2] + 0x100_0000 * e[3] == t.epoch) by {
        reveal_with_fuel(le_digits, 5);
    }
    law_eight_digits_spell_the_number(t.expires_at);
    let x = c.subrange(87, 95);
    assert(forall|i: int| 0 <= i < 8 ==> #[trigger] x[i] == b[87 + i]);
    assert(le64_at(x, 0) == le64_at(b, 87));
    assert(DOMAIN_RELAY_TICKET@ =~= seq![0x52u8, 0x54u8, 0x4bu8, 0x54u8]);
    assert(domain_bytes(DOMAIN_RELAY_TICKET, fork_version) + c =~= seq![
        0x52u8,
        0x54u8,
        0x4bu8,
        0x54u8,
    ] + fork_version@ + b.subrange(0, 95));
}

} // verus!
