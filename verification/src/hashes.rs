//! Domain-separated keyed hashing of envelope parts.
//!
//! Each hash domain uses keyed BLAKE3 with a distinct 32-byte key holding an
//! ASCII domain tag, so that body hashes, attestation-statement hashes,
//! payload digests, envelope hashes and Merkle nodes can never collide across
//! domains.
use vstd::prelude::*;

use crate::codec::{canon_body, canon_envelope_core, canon_statement, canon_value, enc_body,
    enc_statement, enc_value, encode_envelope_core};
use crate::model::{AttestationStatement, BodyV, Envelope, EnvelopeBody, EnvelopeV, PayloadValue,
    StatementV, ValueV};

verus! {

/// Key: ASCII "ea-ledger:body-hash", zero-padded to 32 bytes.
pub const BODY_KEY: [u8; 32] = [0x65, 0x61, 0x2d, 0x6c, 0x65, 0x64, 0x67, 0x65, 0x72, 0x3a, 0x62, 0x6f, 0x64, 0x79, 0x2d, 0x68, 0x61, 0x73, 0x68, 0x00, 0x00, 0x00, 0x00, 0x00, 0x00, 0x00, 0x00, 0x00, 0x00, 0x00, 0x00, 0x00];

/// Key: ASCII "ea-ledger:att-stmt", zero-padded to 32 bytes.
pub const STATEMENT_KEY: [u8; 32] = [0x65, 0x61, 0x2d, 0x6c, 0x65, 0x64, 0x67, 0x65, 0x72, 0x3a, 0x61, 0x74, 0x74, 0x2d, 0x73, 0x74, 0x6d, 0x74, 0x00, 0x00, 0x00, 0x00, 0x00, 0x00, 0x00, 0x00, 0x00, 0x00, 0x00, 0x00, 0x00, 0x00];

/// Key: ASCII "ea-ledger:envelope", zero-padded to 32 bytes.
pub const ENVELOPE_KEY: [u8; 32] = [0x65, 0x61, 0x2d, 0x6c, 0x65, 0x64, 0x67, 0x65, 0x72, 0x3a, 0x65, 0x6e, 0x76, 0x65, 0x6c, 0x6f, 0x70, 0x65, 0x00, 0x00, 0x00, 0x00, 0x00, 0x00, 0x00, 0x00, 0x00, 0x00, 0x00, 0x00, 0x00, 0x00];

/// Key: ASCII "ea-ledger:payload", zero-padded to 32 bytes.
pub const PAYLOAD_KEY: [u8; 32] = [0x65, 0x61, 0x2d, 0x6c, 0x65, 0x64, 0x67, 0x65, 0x72, 0x3a, 0x70, 0x61, 0x79, 0x6c, 0x6f, 0x61, 0x64, 0x00, 0x00, 0x00, 0x00, 0x00, 0x00, 0x00, 0x00, 0x00, 0x00, 0x00, 0x00, 0x00, 0x00, 0x00];

/// Key: ASCII "ea-ledger:merkle", zero-padded to 32 bytes.
pub const MERKLE_KEY: [u8; 32] = [0x65, 0x61, 0x2d, 0x6c, 0x65, 0x64, 0x67, 0x65, 0x72, 0x3a, 0x6d, 0x65, 0x72, 0x6b, 0x6c, 0x65, 0x00, 0x00, 0x00, 0x00, 0x00, 0x00, 0x00, 0x00, 0x00, 0x00, 0x00, 0x00, 0x00, 0x00, 0x00, 0x00];

/// The digest that `blake3::keyed_hash` returns for the given key and input.
pub uninterp spec fn blake3_keyed(key: Seq<u8>, data: Seq<u8>) -> Seq<u8>;

/// Relies on `blake3::keyed_hash`: the 32-byte digest is a function of the
/// 32-byte key and the input bytes alone.
#[verifier::external_body]
fn blake3_keyed_hash(key: &[u8; 32], data: &[u8]) -> (r: [u8; 32])
    ensures
        r@ == blake3_keyed(key@, data@),
{
    *blake3::keyed_hash(key, data).as_bytes()
}

/// The canonical hash of an envelope body.
pub open spec fn spec_hash_body(b: BodyV) -> Seq<u8> {
    blake3_keyed(BODY_KEY@, canon_body(b))
}

/// The canonical hash of an attestation statement.
pub open spec fn spec_hash_statement(s: StatementV) -> Seq<u8> {
    blake3_keyed(STATEMENT_KEY@, canon_statement(s))
}

/// The canonical hash of an envelope: header, body and attestations bound,
/// signatures excluded.
pub open spec fn spec_envelope_hash(e: EnvelopeV) -> Seq<u8> {
    blake3_keyed(ENVELOPE_KEY@, canon_envelope_core(e))
}

/// The content-addressable-store digest of a payload.
pub open spec fn spec_payload_digest(v: ValueV) -> Seq<u8> {
    blake3_keyed(PAYLOAD_KEY@, canon_value(v))
}

/// A Merkle tree node over two child hashes.
pub open spec fn spec_merkle_node(l: Seq<u8>, r: Seq<u8>) -> Seq<u8> {
    blake3_keyed(MERKLE_KEY@, l + r)
}

/// Hash an envelope body.
pub fn hash_body(b: &EnvelopeBody) -> (r: [u8; 32])
    ensures
        r@ == spec_hash_body(b@),
{
    let mut data: Vec<u8> = Vec::new();
    enc_body(&mut data, b);
    proof {
        assert(data@ =~= canon_body(b@));
    }
    blake3_keyed_hash(&BODY_KEY, data.as_slice())
}

/// Hash an attestation statement.
pub fn hash_attestation_statement(s: &AttestationStatement) -> (r: [u8; 32])
    ensures
        r@ == spec_hash_statement(s@),
{
    let mut data: Vec<u8> = Vec::new();
    enc_statement(&mut data, s);
    proof {
        assert(data@ =~= canon_statement(s@));
    }
    blake3_keyed_hash(&STATEMENT_KEY, data.as_slice())
}

/// Hash an envelope. The signature list is not part of the hash, so adding a
/// signature leaves the envelope hash unchanged.
pub fn envelope_hash(e: &Envelope) -> (r: [u8; 32])
    ensures
        r@ == spec_envelope_hash(e@),
{
    let data = encode_envelope_core(e);
    blake3_keyed_hash(&ENVELOPE_KEY, data.as_slice())
}

/// Digest of a payload value, used as the content-addressable-store key.
pub fn payload_digest(v: &PayloadValue) -> (r: [u8; 32])
    ensures
        r@ == spec_payload_digest(v@),
{
    let mut data: Vec<u8> = Vec::new();
    enc_value(&mut data, v);
    proof {
        assert(data@ =~= canon_value(v@));
    }
    blake3_keyed_hash(&PAYLOAD_KEY, data.as_slice())
}

/// Hash a pair of Merkle child nodes into their parent.
pub fn merkle_node(l: &[u8; 32], r: &[u8; 32]) -> (h: [u8; 32])
    ensures
        h@ == spec_merkle_node(l@, r@),
{
    let mut data: Vec<u8> = Vec::new();
    data.extend_from_slice(l.as_slice());
    data.extend_from_slice(r.as_slice());
    proof {
        assert(data@ =~= l@ + r@);
    }
    blake3_keyed_hash(&MERKLE_KEY, data.as_slice())
}

/// Determinism of the envelope hash: two envelopes with structurally equal
/// contents hash to the same 32 bytes. The hash is a function of the
/// envelope's view alone, never of object identity.
pub proof fn lemma_envelope_hash_deterministic(e1: &Envelope, e2: &Envelope)
    requires
        e1@ == e2@,
    ensures
        spec_envelope_hash(e1@) == spec_envelope_hash(e2@),
{
}

} // verus!
