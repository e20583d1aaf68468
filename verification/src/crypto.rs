//! Ed25519 signing and verification over envelope hashes and attestation
//! statement hashes.
use vstd::prelude::*;

use crate::hashes::{envelope_hash, spec_envelope_hash};
use crate::model::{Attestation, AttestationV, Envelope, EnvelopeV, Signature, SignatureV};

verus! {

/// Whether `sig` is a valid Ed25519 signature of `msg` under the public key
/// bytes `pk`. False whenever `pk` is not a valid public key.
pub uninterp spec fn ed25519_verifies(pk: Seq<u8>, msg: Seq<u8>, sig: Seq<u8>) -> bool;

/// The public key derived from the 32-byte Ed25519 seed `sk`.
pub uninterp spec fn ed25519_public_of(sk: Seq<u8>) -> Seq<u8>;

/// The signature that the key with seed `sk` produces over `msg`; Ed25519
/// signing is deterministic, so this is a function of seed and message alone.
pub uninterp spec fn ed25519_sign_of(sk: Seq<u8>, msg: Seq<u8>) -> Seq<u8>;

/// Relies on `ed25519_dalek::VerifyingKey::{from_bytes, verify}`: whether a
/// signature verifies is a deterministic function of key, message and
/// signature bytes; a rejected key verifies nothing.
#[verifier::external_body]
pub fn ed25519_verify(pk: &[u8; 32], msg: &[u8], sig: &[u8; 64]) -> (r: bool)
    ensures
        r == ed25519_verifies(pk@, msg@, sig@),
{
    match ed25519_dalek::VerifyingKey::from_bytes(pk) {
        Ok(key) => {
            let signature = ed25519_dalek::Signature::from_bytes(sig);
            ed25519_dalek::Verifier::verify(&key, msg, &signature).is_ok()
        },
        Err(_) => false,
    }
}

/// Relies on `ed25519_dalek::SigningKey::{from_bytes, verifying_key}`: the
/// verifying key is derived from the seed alone.
#[verifier::external_body]
fn ed25519_public_key(sk: &[u8; 32]) -> (r: [u8; 32])
    ensures
        r@ == ed25519_public_of(sk@),
{
    ed25519_dalek::SigningKey::from_bytes(sk).verifying_key().to_bytes()
}

/// Relies on `ed25519_dalek::SigningKey::sign`: signing is deterministic
/// (RFC 8032), and the signature it produces verifies under the signer's
/// verifying key.
#[verifier::external_body]
fn ed25519_sign(sk: &[u8; 32], msg: &[u8]) -> (r: [u8; 64])
    ensures
        r@ == ed25519_sign_of(sk@, msg@),
        ed25519_verifies(ed25519_public_of(sk@), msg@, r@),
{
    let key = ed25519_dalek::SigningKey::from_bytes(sk);
    ed25519_dalek::Signer::sign(&key, msg).to_bytes()
}

/// The signature that signing the envelope hash of `e` with seed `sk` appends.
pub open spec fn spec_envelope_signature(e: EnvelopeV, sk: Seq<u8>) -> SignatureV {
    SignatureV {
        signer: ed25519_public_of(sk),
        signature: ed25519_sign_of(sk, spec_envelope_hash(e)),
    }
}

/// Sign an envelope's hash with the key seed `sk` and append the signature.
/// The envelope hash does not cover signatures, so the hash is unchanged and
/// prior signatures stay valid.
pub fn sign_envelope(env: &mut Envelope, sk: &[u8; 32])
    ensures
        final(env)@.header == old(env)@.header,
        final(env)@.body == old(env)@.body,
        final(env)@.attestations == old(env)@.attestations,
        final(env)@.signatures == old(env)@.signatures.push(
            spec_envelope_signature(old(env)@, sk@),
        ),
        spec_envelope_hash(final(env)@) == spec_envelope_hash(old(env)@),
        ed25519_verifies(
            ed25519_public_of(sk@),
            spec_envelope_hash(old(env)@),
            ed25519_sign_of(sk@, spec_envelope_hash(old(env)@)),
        ),
{
    let h = envelope_hash(env);
    let signature = ed25519_sign(sk, h.as_slice());
    let signer = ed25519_public_key(sk);
    env.signatures.push(Signature { signer, signature });
    proof {
        assert(final(env)@.signatures =~= old(env)@.signatures.push(
            spec_envelope_signature(old(env)@, sk@),
        ));
        assert(canon_core_eq(old(env)@, final(env)@));
    }
}

/// Helper fact: the envelope-hash input ignores signatures.
spec fn canon_core_eq(a: EnvelopeV, b: EnvelopeV) -> bool {
    crate::codec::canon_envelope_core(a) == crate::codec::canon_envelope_core(b)
}

/// Sign an attestation's statement hash with the key seed `sk`, filling in the
/// issuer and the signature.
pub fn sign_attestation(att: &mut Attestation, sk: &[u8; 32])
    ensures
        final(att)@.statement == old(att)@.statement,
        final(att)@.statement_hash == old(att)@.statement_hash,
        final(att)@.issuer == ed25519_public_of(sk@),
        final(att)@.signature == ed25519_sign_of(sk@, old(att)@.statement_hash),
        ed25519_verifies(
            ed25519_public_of(sk@),
            old(att)@.statement_hash,
            final(att)@.signature,
        ),
{
    let signature = ed25519_sign(sk, att.statement_hash.as_slice());
    att.signature = signature;
    let issuer = ed25519_public_key(sk);
    att.issuer = issuer;
}

} // verus!
