use verinode_core::attestation::relay_ticket::{
    DOMAIN_RELAY_TICKET, PeerId, RELAY_TICKET_ENCODED_LEN, RELAY_TICKET_EPOCH_WINDOW, RelayId,
    RelayTicket, RelayTicketError, SocketEndpoint, compute_relay_ticket_signing_root,
    verify_relay_ticket,
};
use verinode_core::attestation::signing::SecretKey;
use verinode_core::attestation::types::EpochId;
use verinode_core::crypto::domain::{DOMAIN_BEACON_ATTESTER, DOMAIN_RANDAO, compute_domain};
use verinode_core::crypto::domain::GENESIS_FORK_VERSION as FORK;

/// The relay's registered key. Under the MAC model this is both the signing
/// and the verification key.
const RELAY_KEY: SecretKey = [0x11; 32];
/// A key the attacker holds; deliberately *not* the relay's.
const ATTACKER_KEY: SecretKey = [0x99; 32];

const RELAY: RelayId = [0xAA; 32];
const EPOCH: EpochId = 10;
const EXPIRES_AT: u64 = 1_000;

fn peer(tag: u8) -> PeerId {
    let mut id = [0u8; 32];
    id[0] = tag;
    id
}

fn stun_endpoint() -> SocketEndpoint {
    SocketEndpoint::v4([203, 0, 113, 7], 3478)
}

/// A ticket the real relay genuinely issued for `target` at `endpoint`.
fn genuine(target: PeerId, endpoint: SocketEndpoint) -> RelayTicket {
    RelayTicket::sign(&RELAY_KEY, RELAY, target, endpoint, EPOCH, EXPIRES_AT, FORK)
}

/// Verify `ticket` as authorization for writing `target` -> `endpoint`,
/// with the epoch and clock both inside every freshness bound.
fn verify_fresh(
    ticket: &RelayTicket,
    target: &PeerId,
    endpoint: &SocketEndpoint,
) -> Result<(), RelayTicketError> {
    verify_relay_ticket(
        ticket,
        target,
        endpoint,
        &RELAY_KEY,
        EPOCH,
        EXPIRES_AT - 1,
        FORK,
    )
}

// -----------------------------------------------------------------------
// Baseline
// -----------------------------------------------------------------------

/// A relay's own ticket authorizes exactly the write it names. Guards
/// against a verifier so strict it rejects legitimate traffic.
#[test]
fn a_valid_ticket_authorizes_the_write_it_names() {
    let target = peer(1);
    let endpoint = stun_endpoint();
    assert_eq!(
        verify_fresh(&genuine(target, endpoint), &target, &endpoint),
        Ok(())
    );
}

// -----------------------------------------------------------------------
// Forgery
// -----------------------------------------------------------------------

/// An attacker who does not hold the relay's key cannot mint a ticket in
/// its name, however well-formed the ticket is. Guards against a
/// verification path that parses the ticket but never checks the MAC.
#[test]
fn a_ticket_signed_with_the_wrong_key_is_rejected() {
    let target = peer(1);
    let endpoint = stun_endpoint();
    let forged = RelayTicket::sign(
        &ATTACKER_KEY,
        RELAY,
        target,
        endpoint,
        EPOCH,
        EXPIRES_AT,
        FORK,
    );
    assert_eq!(
        verify_fresh(&forged, &target, &endpoint),
        Err(RelayTicketError::InvalidSignature)
    );
}

/// A relay cannot be impersonated by re-labelling someone else's genuine
/// ticket: `relay_id` is inside the signing root, so swapping it breaks the
/// MAC even though the attacker's own key signed the original.
#[test]
fn relabelling_a_ticket_with_another_relay_id_breaks_the_signature() {
    let target = peer(1);
    let endpoint = stun_endpoint();
    let attacker_relay = [0xBB; 32];
    let mut ticket = RelayTicket::sign(
        &ATTACKER_KEY,
        attacker_relay,
        target,
        endpoint,
        EPOCH,
        EXPIRES_AT,
        FORK,
    );
    // Claim to be the honest relay, keeping the attacker's own signature.
    ticket.relay_id = RELAY;
    assert_eq!(
        verify_fresh(&ticket, &target, &endpoint),
        Err(RelayTicketError::InvalidSignature)
    );
}

// -----------------------------------------------------------------------
// PROPERTY 1 — target binding is exact
// -----------------------------------------------------------------------

/// **The core cache-poisoning rejection, tested standalone.**
///
/// The relay genuinely issued this ticket — nothing is forged, and the
/// first assertion proves the signature verifies. Presented as
/// authorization to overwrite a *different* peer's cache entry it must
/// still be refused. A verifier that checked only signature validity would
/// pass the second assertion and let one peer redirect another's traffic.
#[test]
fn a_valid_ticket_for_one_peer_cannot_authorize_writing_anothers_entry() {
    let peer_a = peer(1);
    let peer_b = peer(2);
    let endpoint = stun_endpoint();
    let ticket = genuine(peer_a, endpoint);

    // The signature is genuine: this ticket is accepted for its own target.
    assert_eq!(verify_fresh(&ticket, &peer_a, &endpoint), Ok(()));

    // Same untampered ticket, aimed at peer B's cache key.
    assert_eq!(
        verify_fresh(&ticket, &peer_b, &endpoint),
        Err(RelayTicketError::TargetMismatch),
        "a validly-signed ticket for peer A must not authorize a write to peer B"
    );
}

/// Rewriting `target_id` to match the victim does not help either: the
/// field is signed, so the MAC fails before the binding check is reached.
#[test]
fn rewriting_target_id_to_the_victim_breaks_the_signature() {
    let peer_a = peer(1);
    let peer_b = peer(2);
    let endpoint = stun_endpoint();
    let mut ticket = genuine(peer_a, endpoint);
    ticket.target_id = peer_b;
    assert_eq!(
        verify_fresh(&ticket, &peer_b, &endpoint),
        Err(RelayTicketError::InvalidSignature)
    );
}

// -----------------------------------------------------------------------
// Endpoint binding
// -----------------------------------------------------------------------

/// Both halves of the endpoint-swap attack that an unbound endpoint
/// would leave open. Capturing a genuine ticket and pointing the write at an
/// attacker-controlled address fails the binding check; editing the
/// ticket's own endpoint to match fails the MAC.
#[test]
fn a_genuine_ticket_cannot_be_replayed_with_a_swapped_endpoint() {
    let target = peer(1);
    let honest = stun_endpoint();
    let attacker_controlled = SocketEndpoint::v4([198, 51, 100, 66], 9999);
    let ticket = genuine(target, honest);

    assert_eq!(
        verify_fresh(&ticket, &target, &attacker_controlled),
        Err(RelayTicketError::EndpointMismatch)
    );

    let mut edited = ticket;
    edited.endpoint = attacker_controlled;
    assert_eq!(
        verify_fresh(&edited, &target, &attacker_controlled),
        Err(RelayTicketError::InvalidSignature)
    );
}

// -----------------------------------------------------------------------
// PROPERTY 2 — expiry and epoch are enforced as hard as forgery
// -----------------------------------------------------------------------

/// A validly-signed ticket stops being accepted the moment its absolute
/// expiry passes. Guards against replaying an old, genuine ticket forever.
#[test]
fn a_validly_signed_but_expired_ticket_is_rejected() {
    let target = peer(1);
    let endpoint = stun_endpoint();
    let ticket = genuine(target, endpoint);

    // Accepted right up to and including the expiry second.
    assert_eq!(
        verify_relay_ticket(&ticket, &target, &endpoint, &RELAY_KEY, EPOCH, EXPIRES_AT, FORK),
        Ok(())
    );
    // Refused one second later.
    assert_eq!(
        verify_relay_ticket(
            &ticket,
            &target,
            &endpoint,
            &RELAY_KEY,
            EPOCH,
            EXPIRES_AT + 1,
            FORK
        ),
        Err(RelayTicketError::Expired)
    );
}

/// A validly-signed ticket from an epoch outside the acceptance window is
/// rejected as replay. Guards against a verifier that trusts the signature
/// and ignores freshness.
#[test]
fn a_validly_signed_but_stale_epoch_ticket_is_rejected() {
    let target = peer(1);
    let endpoint = stun_endpoint();
    let ticket = genuine(target, endpoint);
    let now = EXPIRES_AT - 1;

    // One epoch of lag is inside the window.
    assert_eq!(
        verify_relay_ticket(
            &ticket,
            &target,
            &endpoint,
            &RELAY_KEY,
            EPOCH + RELAY_TICKET_EPOCH_WINDOW,
            now,
            FORK
        ),
        Ok(())
    );
    // One more is not.
    assert_eq!(
        verify_relay_ticket(
            &ticket,
            &target,
            &endpoint,
            &RELAY_KEY,
            EPOCH + RELAY_TICKET_EPOCH_WINDOW + 1,
            now,
            FORK
        ),
        Err(RelayTicketError::EpochStale)
    );
}

/// A relay cannot mint tickets for epochs that have not started and bank
/// them, which would defeat the epoch window entirely.
#[test]
fn a_ticket_minted_for_a_future_epoch_is_rejected() {
    let target = peer(1);
    let endpoint = stun_endpoint();
    let ticket = genuine(target, endpoint);
    assert_eq!(
        verify_relay_ticket(
            &ticket,
            &target,
            &endpoint,
            &RELAY_KEY,
            EPOCH - 1,
            EXPIRES_AT - 1,
            FORK
        ),
        Err(RelayTicketError::EpochFuture)
    );
}

// -----------------------------------------------------------------------
// Domain separation
// -----------------------------------------------------------------------

/// A MAC produced under any other domain — another message kind, or the
/// same ticket under a different fork version — must not verify as a
/// ticket. Without this, a signature harvested from another subsystem
/// signed with the same key could be replayed as an endpoint claim.
#[test]
fn the_ticket_signing_root_is_domain_separated() {
    let target = peer(1);
    let endpoint = stun_endpoint();

    let ticket_domain = compute_domain(DOMAIN_RELAY_TICKET, FORK);
    let root = |domain| {
        compute_relay_ticket_signing_root(
            &domain, &RELAY, &target, &endpoint, EPOCH, EXPIRES_AT,
        )
    };
    for other in [DOMAIN_BEACON_ATTESTER, DOMAIN_RANDAO] {
        assert_ne!(
            root(ticket_domain),
            root(compute_domain(other, FORK)),
            "identical ticket fields must not share a root across domains"
        );
    }

    // Behaviourally: a ticket signed under one fork version does not
    // verify under another.
    let other_fork = [0x01, 0x00, 0x00, 0x00];
    let ticket = genuine(target, endpoint);
    assert_eq!(
        verify_relay_ticket(
            &ticket,
            &target,
            &endpoint,
            &RELAY_KEY,
            EPOCH,
            EXPIRES_AT - 1,
            other_fork
        ),
        Err(RelayTicketError::InvalidSignature)
    );
}

// -----------------------------------------------------------------------
// Encoding
// -----------------------------------------------------------------------

/// The wire format must round-trip every field. A field the encoder drops
/// or misplaces would silently change the signing root computed by the
/// receiver, breaking either verification or — worse — a binding check.
#[test]
fn encode_decode_round_trips_every_field() {
    for endpoint in [
        stun_endpoint(),
        SocketEndpoint::v6(
            [0x20, 0x01, 0x0d, 0xb8, 0, 0, 0, 0, 0, 0, 0, 0, 0, 0, 0, 1],
            5349,
        ),
    ] {
        let ticket = genuine(peer(7), endpoint);
        let decoded = RelayTicket::decode(&ticket.encode()).expect("round-trip must decode");
        assert_eq!(decoded, ticket);
        assert_eq!(ticket.encode().len(), RELAY_TICKET_ENCODED_LEN);
    }
}

/// Malformed input is refused without panicking, at every truncation
/// length and for every non-canonical encoding. A slice index outside a
/// length check here would be a remotely-triggerable panic on the relay
/// ingress path.
#[test]
fn decode_rejects_malformed_input_without_panicking() {
    let valid = genuine(peer(1), stun_endpoint()).encode();

    // Every truncation, including empty.
    for len in 0..RELAY_TICKET_ENCODED_LEN {
        assert_eq!(
            RelayTicket::decode(&valid[..len]),
            Err(RelayTicketError::Malformed),
            "truncation to {len} bytes must be refused"
        );
    }

    // Over-long input.
    let mut long = [0u8; RELAY_TICKET_ENCODED_LEN + 1];
    long[..RELAY_TICKET_ENCODED_LEN].copy_from_slice(&valid);
    assert_eq!(RelayTicket::decode(&long), Err(RelayTicketError::Malformed));

    // Unknown address-family tag (endpoint tag lives at offset 64).
    let mut bad_family = valid;
    bad_family[64] = 7;
    assert_eq!(
        RelayTicket::decode(&bad_family),
        Err(RelayTicketError::Malformed)
    );

    // Non-canonical IPv4 padding (offsets 69..81 must be zero).
    let mut bad_padding = valid;
    bad_padding[70] = 1;
    assert_eq!(
        RelayTicket::decode(&bad_padding),
        Err(RelayTicketError::Malformed)
    );
}

/// Every byte of the signed prefix must actually be covered by the signing
/// root. Flipping any one of them and re-verifying the ticket **against its
/// own fields** — so no binding or freshness check can mask the result —
/// must fail the MAC. This is what catches a root that forgets a field:
/// omit `expires_at` and an attacker extends any ticket indefinitely; omit
/// `endpoint` and the swap attack above comes straight back.
#[test]
fn flipping_any_signed_byte_invalidates_the_signature() {
    const SIGNED_PREFIX_LEN: usize = RELAY_TICKET_ENCODED_LEN - 32;
    let valid = genuine(peer(1), stun_endpoint()).encode();
    let mut checked = 0usize;

    for i in 0..SIGNED_PREFIX_LEN {
        let mut mutated = valid;
        mutated[i] ^= 0xFF;
        let ticket = match RelayTicket::decode(&mutated) {
            Ok(ticket) => ticket,
            // Non-canonical encodings are refused earlier — also a rejection.
            Err(RelayTicketError::Malformed) => continue,
            Err(other) => panic!("unexpected decode error at byte {i}: {other:?}"),
        };
        checked += 1;
        assert_eq!(
            verify_relay_ticket(
                &ticket,
                &ticket.target_id,
                &ticket.endpoint,
                &RELAY_KEY,
                ticket.epoch,
                0,
                FORK
            ),
            Err(RelayTicketError::InvalidSignature),
            "byte {i} of the ticket is not covered by the signing root"
        );
    }

    assert!(
        checked >= 80,
        "expected most of the signed prefix to be exercised, only {checked} bytes were"
    );
}
