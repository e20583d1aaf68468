//! The envelope validator: a pure function from envelope, registry and prior
//! channel state to the next channel state or a validation error.
//!
//! Checks run in a fixed order: body hash, attestation integrity, channel
//! existence, chain linkage, timestamp ordering, signatures, then the
//! attestation requirement. An attestation whose statement hash or signature
//! is wrong is an error even on channels that do not require attestations.
//! A signature by a key outside the channel's signer set is `UntrustedSigner`;
//! a signature by an allowed key that fails Ed25519 verification merely does
//! not count. Signers are deduplicated by key, and an envelope with zero
//! distinct valid signatures never passes.
use vstd::prelude::*;

use crate::bytes::hash_eq;
use crate::crypto::{ed25519_verifies, ed25519_verify};
use crate::hashes::{envelope_hash, hash_attestation_statement, hash_body, spec_envelope_hash,
    spec_hash_body, spec_hash_statement};
use crate::model::{AttestationV, ChannelState, Envelope, EnvelopeV, SignatureV, StateV};
use crate::registry::{ChannelRegistry, PolicyV};

verus! {

/// Why an envelope was rejected.
#[derive(Clone, Copy, Debug, PartialEq, Eq, Structural)]
pub enum ValidationError {
    /// The body hash in the header does not match the body.
    BodyHashMismatch,
    /// An attestation's statement hash or signature is wrong.
    AttestationInvalid,
    /// The channel policy requires attestations and none is present.
    AttestationRequired,
    /// The `prev` hash does not match the prior state.
    ChainBroken,
    /// The timestamp regressed on an order-enforcing channel.
    TimestampRegression,
    /// Fewer distinct valid signatures than the policy demands.
    InsufficientSigners,
    /// A signature by a key outside the channel's signer set.
    UntrustedSigner,
    /// The channel is not registered.
    UnknownChannel,
}

/// Whether one attestation is internally consistent: its statement hash is
/// the canonical hash of its statement, and its signature verifies over that
/// hash under the issuer key.
pub open spec fn spec_attestation_ok(a: AttestationV) -> bool {
    a.statement_hash == spec_hash_statement(a.statement) && ed25519_verifies(
        a.issuer,
        a.statement_hash,
        a.signature,
    )
}

/// Whether all attestations of an envelope are internally consistent.
pub open spec fn spec_attestations_ok(atts: Seq<AttestationV>) -> bool {
    forall|i: int| 0 <= i < atts.len() ==> spec_attestation_ok(#[trigger] atts[i])
}

/// Whether the header's `prev` matches the prior state: both absent, or equal.
pub open spec fn spec_prev_matches(prev: Option<Seq<u8>>, last: Option<Seq<u8>>) -> bool {
    match (prev, last) {
        (Option::None, Option::None) => true,
        (Option::Some(p), Option::Some(l)) => p == l,
        _ => false,
    }
}

/// Whether a signature verifies over the envelope hash `h`.
pub open spec fn spec_sig_valid(s: SignatureV, h: Seq<u8>) -> bool {
    ed25519_verifies(s.signer, h, s.signature)
}

/// Whether some signature in `sigs` by key `k` verifies over `h`.
pub open spec fn spec_has_valid_signer(sigs: Seq<SignatureV>, h: Seq<u8>, k: Seq<u8>) -> bool {
    exists|i: int| 0 <= i < sigs.len() && sigs[i].signer == k && spec_sig_valid(#[trigger] sigs[i], h)
}

/// The number of distinct keys with at least one valid signature over `h`.
pub open spec fn spec_distinct_valid(sigs: Seq<SignatureV>, h: Seq<u8>) -> nat
    decreases sigs.len(),
{
    if sigs.len() == 0 {
        0
    } else {
        spec_distinct_valid(sigs.drop_last(), h) + if spec_sig_valid(sigs.last(), h)
            && !spec_has_valid_signer(sigs.drop_last(), h, sigs.last().signer) {
            1nat
        } else {
            0nat
        }
    }
}

/// Whether every signature's key is in the channel's signer set.
pub open spec fn spec_signers_allowed(sigs: Seq<SignatureV>, allowed: Seq<Seq<u8>>) -> bool {
    forall|i: int| 0 <= i < sigs.len() ==> allowed.contains(#[trigger] sigs[i].signer)
}

/// The state after accepting `e`.
pub open spec fn spec_next_state(e: EnvelopeV) -> StateV {
    StateV {
        last_hash: Some(spec_envelope_hash(e)),
        last_timestamp: Some(e.header.timestamp),
    }
}

/// The validator: envelope plus registry plus prior state to next state or
/// first failing check.
pub open spec fn spec_validate(
    e: EnvelopeV,
    reg: Map<Seq<char>, PolicyV>,
    st: StateV,
) -> Result<StateV, ValidationError> {
    if spec_hash_body(e.body) != e.header.body_hash {
        Err(ValidationError::BodyHashMismatch)
    } else if !spec_attestations_ok(e.attestations) {
        Err(ValidationError::AttestationInvalid)
    } else if !reg.contains_key(e.header.channel) {
        Err(ValidationError::UnknownChannel)
    } else {
        let policy = reg[e.header.channel];
        if !spec_prev_matches(e.header.prev, st.last_hash) {
            Err(ValidationError::ChainBroken)
        } else if policy.enforce_timestamp_ordering && st.last_timestamp is Some
            && e.header.timestamp < st.last_timestamp->0 {
            Err(ValidationError::TimestampRegression)
        } else if !spec_signers_allowed(e.signatures, policy.allowed_signers) {
            Err(ValidationError::UntrustedSigner)
        } else if spec_distinct_valid(e.signatures, spec_envelope_hash(e)) == 0
            || spec_distinct_valid(e.signatures, spec_envelope_hash(e)) < policy.min_signers {
            Err(ValidationError::InsufficientSigners)
        } else if policy.require_attestations && e.attestations.len() == 0 {
            Err(ValidationError::AttestationRequired)
        } else {
            Ok(spec_next_state(e))
        }
    }
}

/// Whether a key is one of the listed 32-byte keys.
fn keys_contain(keys: &Vec<[u8; 32]>, k: &[u8; 32]) -> (r: bool)
    ensures
        r <==> exists|j: int| 0 <= j < keys@.len() && #[trigger] keys@[j]@ == k@,
{
    let mut i: usize = 0;
    while i < keys.len()
        invariant
            i <= keys@.len(),
            forall|j: int| 0 <= j < i ==> #[trigger] keys@[j]@ != k@,
        decreases keys@.len() - i,
    {
        if hash_eq(&keys[i], k) {
            return true;
        }
        i += 1;
    }
    false
}

/// Validate an envelope against the registry and the prior channel state.
/// Returns the next channel state exactly when `spec_validate` accepts, and
/// the same error it names otherwise. The prior state is never modified.
#[verifier::loop_isolation(false)]
pub fn validate_envelope(
    env: &Envelope,
    registry: &ChannelRegistry,
    prior: &ChannelState,
) -> (r: Result<ChannelState, ValidationError>)
    requires
        registry.wf(),
    ensures
        match spec_validate(env@, registry@, prior@) {
            Ok(st) => r is Ok && r->Ok_0@ == st,
            Err(e) => r is Err && r->Err_0 == e,
        },
{
    // Body hash binds the header to the body.
    let computed_body = hash_body(&env.body);
    if !hash_eq(&computed_body, &env.header.body_hash) {
        return Err(ValidationError::BodyHashMismatch);
    }
    // Every attestation must be internally consistent.
    let ghost vatts = env@.attestations;
    let mut i: usize = 0;
    while i < env.attestations.len()
        invariant
            i <= vatts.len(),
            vatts.len() == env.attestations@.len(),
            forall|j: int| 0 <= j < i ==> spec_attestation_ok(#[trigger] vatts[j]),
        decreases vatts.len() - i,
    {
        let att = &env.attestations[i];
        proof {
            assert(vatts[i as int] == att@);
        }
        let computed = hash_attestation_statement(&att.statement);
        if !hash_eq(&computed, &att.statement_hash) {
            assert(!spec_attestation_ok(vatts[i as int]));
            return Err(ValidationError::AttestationInvalid);
        }
        if !ed25519_verify(&att.issuer, att.statement_hash.as_slice(), &att.signature) {
            assert(!spec_attestation_ok(vatts[i as int]));
            return Err(ValidationError::AttestationInvalid);
        }
        i += 1;
    }
    assert(spec_attestations_ok(vatts));
    // The channel must be registered.
    let policy = match registry.get(env.header.channel.as_str()) {
        Some(p) => p,
        None => {
            return Err(ValidationError::UnknownChannel);
        },
    };
    // Chain linkage: `prev` matches the prior state.
    let prev_ok = match (&env.header.prev, &prior.last_hash) {
        (Option::None, Option::None) => true,
        (Option::Some(p), Option::Some(l)) => hash_eq(p, l),
        _ => false,
    };
    if !prev_ok {
        return Err(ValidationError::ChainBroken);
    }
    // Timestamp ordering, where the policy enforces it.
    if policy.enforce_timestamp_ordering {
        match prior.last_timestamp {
            Some(last) => {
                if env.header.timestamp < last {
                    return Err(ValidationError::TimestampRegression);
                }
            },
            None => {},
        }
    }
    // Signatures: all signers allowed; count distinct keys with a valid
    // signature over the envelope hash.
    let h = envelope_hash(env);
    let ghost vsigs = env@.signatures;
    let ghost hv = spec_envelope_hash(env@);
    let mut seen: Vec<[u8; 32]> = Vec::new();
    let mut i: usize = 0;
    while i < env.signatures.len()
        invariant
            i <= vsigs.len(),
            vsigs.len() == env.signatures@.len(),
            h@ == hv,
            forall|j: int| 0 <= j < i ==> #[trigger] policy@.allowed_signers.contains(
                vsigs[j].signer,
            ),
            seen@.len() == spec_distinct_valid(vsigs.take(i as int), hv),
            forall|j: int| 0 <= j < seen@.len() ==> spec_has_valid_signer(
                vsigs.take(i as int),
                hv,
                #[trigger] seen@[j]@,
            ),
            forall|k: Seq<u8>| #[trigger] spec_has_valid_signer(vsigs.take(i as int), hv, k)
                ==> exists|j: int| 0 <= j < seen@.len() && #[trigger] seen@[j]@ == k,
        decreases vsigs.len() - i,
    {
        let sig = &env.signatures[i];
        proof {
            assert(vsigs[i as int] == sig@);
        }
        if !keys_contain(&policy.allowed_signers, &sig.signer) {
            proof {
                assert forall|j: int| 0 <= j < policy@.allowed_signers.len() implies policy@
                    .allowed_signers[j] != vsigs[i as int].signer by {
                    assert(policy.allowed_signers@[j]@ != sig.signer@);
                }
                assert(!policy@.allowed_signers.contains(vsigs[i as int].signer));
            }
            return Err(ValidationError::UntrustedSigner);
        }
        proof {
            let j = choose|j: int|
                0 <= j < policy.allowed_signers@.len() && #[trigger] policy.allowed_signers@[j]@
                    == sig.signer@;
            assert(policy@.allowed_signers[j] == vsigs[i as int].signer);
            assert(policy@.allowed_signers.contains(vsigs[i as int].signer));
        }
        let valid = ed25519_verify(&sig.signer, h.as_slice(), &sig.signature);
        proof {
            assert(vsigs.take(i + 1 as int).drop_last() =~= vsigs.take(i as int));
            assert(vsigs.take(i + 1 as int).last() == vsigs[i as int]);
        }
        if valid {
            let already = keys_contain(&seen, &sig.signer);
            proof {
                if already {
                    let j = choose|j: int|
                        0 <= j < seen@.len() && #[trigger] seen@[j]@ == sig.signer@;
                    assert(spec_has_valid_signer(vsigs.take(i as int), hv, seen@[j]@));
                    assert(spec_has_valid_signer(vsigs.take(i as int), hv, vsigs[i as int].signer));
                } else {
                    assert forall|j: int| 0 <= j < seen@.len() implies #[trigger] seen@[j]@
                        != vsigs[i as int].signer by {}
                    if spec_has_valid_signer(vsigs.take(i as int), hv, vsigs[i as int].signer) {
                        assert(exists|j: int| 0 <= j < seen@.len() && #[trigger] seen@[j]@
                            == vsigs[i as int].signer);
                        assert(false);
                    }
                }
            }
            if !already {
                let ghost prior_seen = seen@;
                seen.push(sig.signer);
                proof {
                    assert(seen@[seen@.len() - 1]@ == vsigs[i as int].signer);
                    assert(spec_has_valid_signer(
                        vsigs.take(i + 1 as int),
                        hv,
                        vsigs[i as int].signer,
                    ));
                    assert forall|j: int| 0 <= j < seen@.len() implies spec_has_valid_signer(
                        vsigs.take(i + 1 as int),
                        hv,
                        #[trigger] seen@[j]@,
                    ) by {
                        if j < prior_seen.len() {
                            assert(seen@[j] == prior_seen[j]);
                            let m = choose|m: int|
                                0 <= m < vsigs.take(i as int).len() && vsigs.take(
                                    i as int,
                                )[m].signer == prior_seen[j]@ && spec_sig_valid(
                                    #[trigger] vsigs.take(i as int)[m],
                                    hv,
                                );
                            assert(vsigs.take(i + 1 as int)[m] == vsigs.take(i as int)[m]);
                        } else {
                            assert(seen@[j]@ == vsigs[i as int].signer);
                        }
                    }
                    assert forall|k: Seq<u8>| #[trigger] spec_has_valid_signer(
                        vsigs.take(i + 1 as int),
                        hv,
                        k,
                    ) implies exists|j: int| 0 <= j < seen@.len() && #[trigger] seen@[j]@ == k by {
                        if k == vsigs[i as int].signer {
                            assert(seen@[seen@.len() - 1]@ == k);
                        } else {
                            let j = choose|j: int|
                                0 <= j < vsigs.take(i + 1 as int).len() && vsigs.take(
                                    i + 1 as int,
                                )[j].signer == k && spec_sig_valid(
                                    #[trigger] vsigs.take(i + 1 as int)[j],
                                    hv,
                                );
                            assert(vsigs.take(i as int)[j] == vsigs.take(i + 1 as int)[j]);
                            assert(spec_has_valid_signer(vsigs.take(i as int), hv, k));
                            let m = choose|m: int|
                                0 <= m < prior_seen.len() && #[trigger] prior_seen[m]@ == k;
                            assert(seen@[m]@ == k);
                        }
                    }
                }
            } else {
                proof {
                    assert forall|k: Seq<u8>| #[trigger] spec_has_valid_signer(
                        vsigs.take(i + 1 as int),
                        hv,
                        k,
                    ) implies exists|j: int| 0 <= j < seen@.len() && #[trigger] seen@[j]@ == k by {
                        let j2 = choose|j2: int|
                            0 <= j2 < vsigs.take(i + 1 as int).len() && vsigs.take(
                                i + 1 as int,
                            )[j2].signer == k && spec_sig_valid(
                                #[trigger] vsigs.take(i + 1 as int)[j2],
                                hv,
                            );
                        if j2 < i {
                            assert(vsigs.take(i as int)[j2] == vsigs.take(i + 1 as int)[j2]);
                            assert(spec_has_valid_signer(vsigs.take(i as int), hv, k));
                        } else {
                            assert(k == vsigs[i as int].signer);
                            assert(spec_has_valid_signer(vsigs.take(i as int), hv, k));
                        }
                    }
                }
            }
        } else {
            proof {
                assert forall|k: Seq<u8>| #[trigger] spec_has_valid_signer(
                    vsigs.take(i + 1 as int),
                    hv,
                    k,
                ) implies exists|j: int| 0 <= j < seen@.len() && #[trigger] seen@[j]@ == k by {
                    let j2 = choose|j2: int|
                        0 <= j2 < vsigs.take(i + 1 as int).len() && vsigs.take(
                            i + 1 as int,
                        )[j2].signer == k && spec_sig_valid(
                            #[trigger] vsigs.take(i + 1 as int)[j2],
                            hv,
                        );
                    assert(vsigs.take(i as int)[j2] == vsigs.take(i + 1 as int)[j2]);
                    assert(spec_has_valid_signer(vsigs.take(i as int), hv, k));
                }
            }
        }
        i += 1;
    }
    proof {
        assert(vsigs.take(vsigs.len() as int) =~= vsigs);
        assert(spec_signers_allowed(vsigs, policy@.allowed_signers));
    }
    if seen.len() == 0 || seen.len() < policy.min_signers {
        return Err(ValidationError::InsufficientSigners);
    }
    // Attestation requirement.
    if policy.require_attestations && env.attestations.len() == 0 {
        return Err(ValidationError::AttestationRequired);
    }
    Ok(ChannelState { last_hash: Some(h), last_timestamp: Some(env.header.timestamp) })
}

} // verus!
