//! Canonical byte-level encoding of envelopes and their parts.
//!
//! Every hash input in the crate is produced by this codec: field order is
//! fixed, integers are little-endian, strings and byte strings are
//! length-prefixed, sums carry a leading tag byte. The encoding is a function
//! of the view alone, so structurally equal values yield identical bytes.
use vstd::prelude::*;

use crate::model::{
    Attestation, AttestationStatement, AttestationV, BodyV, Envelope, EnvelopeBody,
    EnvelopeHeader, EnvelopeV, HeaderV, PayloadValue, Signature, SignatureV, StatementV, ValueV,
};
use crate::model::{lemma_view_fields_index, lemma_view_fields_len, lemma_view_values_index,
    lemma_view_values_len, view_fields, view_values};

verus! {

/// Little-endian bytes of a `u16`.
pub open spec fn le16(x: u16) -> Seq<u8> {
    seq![(x & 0xff) as u8, ((x >> 8) & 0xff) as u8]
}

/// Little-endian bytes of a `u64`.
pub open spec fn le64(x: u64) -> Seq<u8> {
    seq![
        (x & 0xff) as u8,
        ((x >> 8) & 0xff) as u8,
        ((x >> 16) & 0xff) as u8,
        ((x >> 24) & 0xff) as u8,
        ((x >> 32) & 0xff) as u8,
        ((x >> 40) & 0xff) as u8,
        ((x >> 48) & 0xff) as u8,
        ((x >> 56) & 0xff) as u8,
    ]
}

/// A length-prefixed byte string.
pub open spec fn canon_bytes(b: Seq<u8>) -> Seq<u8> {
    le64(b.len() as u64) + b
}

/// A length-prefixed UTF-8 string.
pub open spec fn canon_str(s: Seq<char>) -> Seq<u8> {
    canon_bytes(vstd::utf8::encode_utf8(s))
}

/// An optional string: tag byte, then the string if present.
pub open spec fn canon_opt_str(o: Option<Seq<char>>) -> Seq<u8> {
    match o {
        None => seq![0u8],
        Some(s) => seq![1u8] + canon_str(s),
    }
}

/// An optional 32-byte hash: tag byte, then the hash if present.
pub open spec fn canon_opt_hash(o: Option<Seq<u8>>) -> Seq<u8> {
    match o {
        None => seq![0u8],
        Some(h) => seq![1u8] + h,
    }
}

/// Canonical bytes of a payload value.
pub open spec fn canon_value(v: ValueV) -> Seq<u8>
    decreases v, 0nat,
{
    match v {
        ValueV::Null => seq![0u8],
        ValueV::Bool(b) => seq![1u8, if b { 1u8 } else { 0u8 }],
        ValueV::Int(i) => seq![2u8] + le64(i as u64),
        ValueV::Text(s) => seq![3u8] + canon_str(s),
        ValueV::List(items) => seq![4u8] + le64(items.len() as u64) + canon_values(items),
        ValueV::Object(fields) => seq![5u8] + le64(fields.len() as u64) + canon_fields(fields),
    }
}

/// Canonical bytes of a sequence of values, in order.
pub open spec fn canon_values(s: Seq<ValueV>) -> Seq<u8>
    decreases s, 1nat,
{
    if s.len() == 0 {
        Seq::empty()
    } else {
        canon_value(s[0]) + canon_values(s.drop_first())
    }
}

/// Canonical bytes of a sequence of object fields, in order.
pub open spec fn canon_fields(s: Seq<(Seq<char>, ValueV)>) -> Seq<u8>
    decreases s, 1nat,
{
    if s.len() == 0 {
        Seq::empty()
    } else {
        canon_str(s[0].0) + canon_value(s[0].1) + canon_fields(s.drop_first())
    }
}

pub proof fn lemma_canon_values_push(s: Seq<ValueV>, v: ValueV)
    ensures
        canon_values(s.push(v)) == canon_values(s) + canon_value(v),
    decreases s,
{
    if s.len() == 0 {
        reveal_with_fuel(canon_values, 2);
        assert(s.push(v).drop_first() =~= Seq::<ValueV>::empty());
        assert(canon_values(s.push(v)) =~= canon_value(v));
        assert(canon_values(s) + canon_value(v) =~= canon_value(v));
    } else {
        assert(s.push(v).drop_first() =~= s.drop_first().push(v));
        lemma_canon_values_push(s.drop_first(), v);
        assert(canon_values(s.push(v)) =~= canon_values(s) + canon_value(v));
    }
}

pub proof fn lemma_canon_fields_push(s: Seq<(Seq<char>, ValueV)>, f: (Seq<char>, ValueV))
    ensures
        canon_fields(s.push(f)) == canon_fields(s) + canon_str(f.0) + canon_value(f.1),
    decreases s,
{
    if s.len() == 0 {
        reveal_with_fuel(canon_fields, 2);
        assert(s.push(f).drop_first() =~= Seq::<(Seq<char>, ValueV)>::empty());
        assert(canon_fields(s.push(f)) =~= canon_fields(s) + canon_str(f.0) + canon_value(f.1));
    } else {
        assert(s.push(f).drop_first() =~= s.drop_first().push(f));
        lemma_canon_fields_push(s.drop_first(), f);
        assert(canon_fields(s.push(f)) =~= canon_fields(s) + canon_str(f.0) + canon_value(f.1));
    }
}

/// Canonical bytes of a header.
pub open spec fn canon_header(h: HeaderV) -> Seq<u8> {
    canon_str(h.channel) + le16(h.version) + canon_opt_hash(h.prev) + h.body_hash + le64(
        h.timestamp,
    )
}

/// Canonical bytes of a body.
pub open spec fn canon_body(b: BodyV) -> Seq<u8> {
    canon_value(b.payload) + canon_opt_str(b.payload_type)
}

/// Canonical bytes of an attestation statement: tag byte plus canonical inner
/// bytes.
pub open spec fn canon_statement(s: StatementV) -> Seq<u8> {
    match s {
        StatementV::Build { artifact_hash, builder } => seq![1u8] + artifact_hash + canon_str(
            builder,
        ),
        StatementV::Runtime { runtime_id, policy_hash } => seq![2u8] + canon_str(runtime_id)
            + policy_hash,
        StatementV::Policy { bundle_hash, expires_at } => seq![3u8] + bundle_hash + le64(
            expires_at,
        ),
        StatementV::Custom { label, payload_hash } => seq![4u8] + canon_str(label) + payload_hash,
    }
}

/// Canonical bytes of an attestation.
pub open spec fn canon_attestation(a: AttestationV) -> Seq<u8> {
    a.issuer + canon_statement(a.statement) + a.statement_hash + a.signature
}

/// Canonical bytes of an attestation list.
pub open spec fn canon_attestations(s: Seq<AttestationV>) -> Seq<u8>
    decreases s,
{
    if s.len() == 0 {
        Seq::empty()
    } else {
        canon_attestation(s[0]) + canon_attestations(s.drop_first())
    }
}

/// Canonical bytes of a signature.
pub open spec fn canon_signature(s: SignatureV) -> Seq<u8> {
    s.signer + s.signature
}

/// Canonical bytes of a signature list.
pub open spec fn canon_signatures(s: Seq<SignatureV>) -> Seq<u8>
    decreases s,
{
    if s.len() == 0 {
        Seq::empty()
    } else {
        canon_signature(s[0]) + canon_signatures(s.drop_first())
    }
}

pub proof fn lemma_canon_attestations_push(s: Seq<AttestationV>, a: AttestationV)
    ensures
        canon_attestations(s.push(a)) == canon_attestations(s) + canon_attestation(a),
    decreases s,
{
    if s.len() == 0 {
        reveal_with_fuel(canon_attestations, 2);
        assert(s.push(a).drop_first() =~= Seq::<AttestationV>::empty());
        assert(canon_attestations(s.push(a)) =~= canon_attestations(s) + canon_attestation(a));
    } else {
        assert(s.push(a).drop_first() =~= s.drop_first().push(a));
        lemma_canon_attestations_push(s.drop_first(), a);
        assert(canon_attestations(s.push(a)) =~= canon_attestations(s) + canon_attestation(a));
    }
}

pub proof fn lemma_canon_signatures_push(s: Seq<SignatureV>, x: SignatureV)
    ensures
        canon_signatures(s.push(x)) == canon_signatures(s) + canon_signature(x),
    decreases s,
{
    if s.len() == 0 {
        reveal_with_fuel(canon_signatures, 2);
        assert(s.push(x).drop_first() =~= Seq::<SignatureV>::empty());
        assert(canon_signatures(s.push(x)) =~= canon_signatures(s) + canon_signature(x));
    } else {
        assert(s.push(x).drop_first() =~= s.drop_first().push(x));
        lemma_canon_signatures_push(s.drop_first(), x);
        assert(canon_signatures(s.push(x)) =~= canon_signatures(s) + canon_signature(x));
    }
}

/// The hash input of an envelope: header, body and attestations, with the
/// signature list excluded, so that adding a signature does not change the
/// envelope hash.
pub open spec fn canon_envelope_core(e: EnvelopeV) -> Seq<u8> {
    canon_header(e.header) + canon_body(e.body) + le64(e.attestations.len() as u64)
        + canon_attestations(e.attestations)
}

/// Canonical bytes of a whole envelope, signatures included.
pub open spec fn canon_envelope(e: EnvelopeV) -> Seq<u8> {
    canon_envelope_core(e) + le64(e.signatures.len() as u64) + canon_signatures(e.signatures)
}

/// Append the little-endian bytes of `x`.
pub fn enc_u16(out: &mut Vec<u8>, x: u16)
    ensures
        final(out)@ == old(out)@ + le16(x),
{
    out.push((x & 0xff) as u8);
    out.push(((x >> 8) & 0xff) as u8);
    assert(final(out)@ =~= old(out)@ + le16(x));
}

/// Append the little-endian bytes of `x`.
pub fn enc_u64(out: &mut Vec<u8>, x: u64)
    ensures
        final(out)@ == old(out)@ + le64(x),
{
    out.push((x & 0xff) as u8);
    out.push(((x >> 8) & 0xff) as u8);
    out.push(((x >> 16) & 0xff) as u8);
    out.push(((x >> 24) & 0xff) as u8);
    out.push(((x >> 32) & 0xff) as u8);
    out.push(((x >> 40) & 0xff) as u8);
    out.push(((x >> 48) & 0xff) as u8);
    out.push(((x >> 56) & 0xff) as u8);
    assert(final(out)@ =~= old(out)@ + le64(x));
}

/// Append a length-prefixed byte string.
pub fn enc_bytes(out: &mut Vec<u8>, b: &[u8])
    ensures
        final(out)@ == old(out)@ + canon_bytes(b@),
{
    enc_u64(out, b.len() as u64);
    out.extend_from_slice(b);
    assert(final(out)@ =~= old(out)@ + canon_bytes(b@));
}

/// Append a length-prefixed string.
pub fn enc_str(out: &mut Vec<u8>, s: &str)
    ensures
        final(out)@ == old(out)@ + canon_str(s@),
{
    enc_bytes(out, s.as_bytes());
}

/// Append a 32-byte hash verbatim.
pub fn enc_hash(out: &mut Vec<u8>, h: &[u8; 32])
    ensures
        final(out)@ == old(out)@ + h@,
{
    out.extend_from_slice(h.as_slice());
}

/// Append a 64-byte signature verbatim.
pub fn enc_sig(out: &mut Vec<u8>, s: &[u8; 64])
    ensures
        final(out)@ == old(out)@ + s@,
{
    out.extend_from_slice(s.as_slice());
}

/// Append an optional hash with its presence tag.
pub fn enc_opt_hash(out: &mut Vec<u8>, o: &Option<[u8; 32]>)
    ensures
        final(out)@ == old(out)@ + canon_opt_hash(
            match o {
                Some(h) => Some(h@),
                None => None,
            },
        ),
{
    match o {
        None => {
            out.push(0u8);
            assert(final(out)@ =~= old(out)@ + canon_opt_hash(None));
        },
        Some(h) => {
            out.push(1u8);
            enc_hash(out, h);
            assert(final(out)@ =~= old(out)@ + canon_opt_hash(Some(h@)));
        },
    }
}

/// Append an optional string with its presence tag.
pub fn enc_opt_str(out: &mut Vec<u8>, o: &Option<String>)
    ensures
        final(out)@ == old(out)@ + canon_opt_str(
            match o {
                Some(s) => Some(s@),
                None => None,
            },
        ),
{
    match o {
        None => {
            out.push(0u8);
            assert(final(out)@ =~= old(out)@ + canon_opt_str(None));
        },
        Some(s) => {
            out.push(1u8);
            enc_str(out, s.as_str());
            assert(final(out)@ =~= old(out)@ + canon_opt_str(Some(s@)));
        },
    }
}

/// Append the canonical bytes of a payload value.
#[verifier::loop_isolation(false)]
pub fn enc_value(out: &mut Vec<u8>, v: &PayloadValue)
    ensures
        final(out)@ == old(out)@ + canon_value(v@),
    decreases v,
{
    match v {
        PayloadValue::Null => {
            out.push(0u8);
            assert(final(out)@ =~= old(out)@ + canon_value(ValueV::Null));
        },
        PayloadValue::Bool(b) => {
            out.push(1u8);
            if *b {
                out.push(1u8);
            } else {
                out.push(0u8);
            }
            assert(final(out)@ =~= old(out)@ + canon_value(ValueV::Bool(*b)));
        },
        PayloadValue::Int(i) => {
            out.push(2u8);
            enc_u64(out, #[verifier::truncate] (*i as u64));
            assert(final(out)@ =~= old(out)@ + canon_value(ValueV::Int(*i)));
        },
        PayloadValue::Text(s) => {
            out.push(3u8);
            enc_str(out, s.as_str());
            assert(final(out)@ =~= old(out)@ + canon_value(ValueV::Text(s@)));
        },
        PayloadValue::List(items) => {
            out.push(4u8);
            enc_u64(out, items.len() as u64);
            let ghost base = out@;
            let ghost vitems = view_values(items@);
            proof {
                lemma_view_values_len(items@);
            }
            let mut i: usize = 0;
            while i < items.len()
                invariant
                    i <= items.len(),
                    vitems == view_values(items@),
                    vitems.len() == items@.len(),
                    out@ == base + canon_values(vitems.take(i as int)),
                decreases items.len() - i,
            {
                proof {
                    lemma_view_values_index(items@, i as int);
                }
                enc_value(out, &items[i]);
                proof {
                    assert(vitems.take(i + 1 as int) =~= vitems.take(i as int).push(vitems[i as int]));
                    lemma_canon_values_push(vitems.take(i as int), vitems[i as int]);
                }
                i += 1;
            }
            proof {
                assert(vitems.take(items@.len() as int) =~= vitems);
                assert(final(out)@ =~= old(out)@ + canon_value(v@));
            }
        },
        PayloadValue::Object(fields) => {
            out.push(5u8);
            enc_u64(out, fields.len() as u64);
            let ghost base = out@;
            let ghost vfields = view_fields(fields@);
            proof {
                lemma_view_fields_len(fields@);
            }
            let mut i: usize = 0;
            while i < fields.len()
                invariant
                    i <= fields.len(),
                    vfields == view_fields(fields@),
                    vfields.len() == fields@.len(),
                    out@ == base + canon_fields(vfields.take(i as int)),
                decreases fields.len() - i,
            {
                proof {
                    lemma_view_fields_index(fields@, i as int);
                }
                enc_str(out, fields[i].0.as_str());
                enc_value(out, &fields[i].1);
                proof {
                    assert(vfields.take(i + 1 as int) =~= vfields.take(i as int).push(
                        vfields[i as int],
                    ));
                    lemma_canon_fields_push(vfields.take(i as int), vfields[i as int]);
                }
                i += 1;
            }
            proof {
                assert(vfields.take(fields@.len() as int) =~= vfields);
                assert(final(out)@ =~= old(out)@ + canon_value(v@));
            }
        },
    }
}

/// Append the canonical bytes of a header.
pub fn enc_header(out: &mut Vec<u8>, h: &EnvelopeHeader)
    ensures
        final(out)@ == old(out)@ + canon_header(h@),
{
    enc_str(out, h.channel.as_str());
    enc_u16(out, h.version);
    enc_opt_hash(out, &h.prev);
    enc_hash(out, &h.body_hash);
    enc_u64(out, h.timestamp);
    assert(final(out)@ =~= old(out)@ + canon_header(h@));
}

/// Append the canonical bytes of a body.
pub fn enc_body(out: &mut Vec<u8>, b: &EnvelopeBody)
    ensures
        final(out)@ == old(out)@ + canon_body(b@),
{
    enc_value(out, &b.payload);
    enc_opt_str(out, &b.payload_type);
    assert(final(out)@ =~= old(out)@ + canon_body(b@));
}

/// Append the canonical bytes of an attestation statement.
pub fn enc_statement(out: &mut Vec<u8>, s: &AttestationStatement)
    ensures
        final(out)@ == old(out)@ + canon_statement(s@),
{
    match s {
        AttestationStatement::Build { artifact_hash, builder } => {
            out.push(1u8);
            enc_hash(out, artifact_hash);
            enc_str(out, builder.as_str());
        },
        AttestationStatement::Runtime { runtime_id, policy_hash } => {
            out.push(2u8);
            enc_str(out, runtime_id.as_str());
            enc_hash(out, policy_hash);
        },
        AttestationStatement::Policy { bundle_hash, expires_at } => {
            out.push(3u8);
            enc_hash(out, bundle_hash);
            enc_u64(out, *expires_at);
        },
        AttestationStatement::Custom { label, payload_hash } => {
            out.push(4u8);
            enc_str(out, label.as_str());
            enc_hash(out, payload_hash);
        },
    }
    assert(final(out)@ =~= old(out)@ + canon_statement(s@));
}

/// Append the canonical bytes of one attestation.
pub fn enc_attestation(out: &mut Vec<u8>, a: &Attestation)
    ensures
        final(out)@ == old(out)@ + canon_attestation(a@),
{
    enc_hash(out, &a.issuer);
    enc_statement(out, &a.statement);
    enc_hash(out, &a.statement_hash);
    enc_sig(out, &a.signature);
    assert(final(out)@ =~= old(out)@ + canon_attestation(a@));
}

/// Append the canonical bytes of the attestation list, without length prefix.
pub fn enc_attestations(out: &mut Vec<u8>, atts: &Vec<Attestation>)
    ensures
        final(out)@ == old(out)@ + canon_attestations(
            atts@.map_values(|a: Attestation| a@),
        ),
{
    let ghost base = out@;
    let ghost vatts = atts@.map_values(|a: Attestation| a@);
    let mut i: usize = 0;
    while i < atts.len()
        invariant
            i <= atts.len(),
            vatts == atts@.map_values(|a: Attestation| a@),
            vatts.len() == atts@.len(),
            out@ == base + canon_attestations(vatts.take(i as int)),
        decreases atts.len() - i,
    {
        enc_attestation(out, &atts[i]);
        proof {
            assert(vatts.take(i + 1 as int) =~= vatts.take(i as int).push(vatts[i as int]));
            lemma_canon_attestations_push(vatts.take(i as int), vatts[i as int]);
        }
        i += 1;
    }
    proof {
        assert(vatts.take(atts@.len() as int) =~= vatts);
    }
}

/// Append the canonical bytes of the signature list, without length prefix.
pub fn enc_signatures(out: &mut Vec<u8>, sigs: &Vec<Signature>)
    ensures
        final(out)@ == old(out)@ + canon_signatures(sigs@.map_values(|s: Signature| s@)),
{
    let ghost base = out@;
    let ghost vsigs = sigs@.map_values(|s: Signature| s@);
    let mut i: usize = 0;
    while i < sigs.len()
        invariant
            i <= sigs.len(),
            vsigs == sigs@.map_values(|s: Signature| s@),
            vsigs.len() == sigs@.len(),
            out@ == base + canon_signatures(vsigs.take(i as int)),
        decreases sigs.len() - i,
    {
        enc_hash(out, &sigs[i].signer);
        enc_sig(out, &sigs[i].signature);
        proof {
            assert(out@ =~= base + canon_signatures(vsigs.take(i as int)) + canon_signature(
                vsigs[i as int],
            ));
            assert(vsigs.take(i + 1 as int) =~= vsigs.take(i as int).push(vsigs[i as int]));
            lemma_canon_signatures_push(vsigs.take(i as int), vsigs[i as int]);
        }
        i += 1;
    }
    proof {
        assert(vsigs.take(sigs@.len() as int) =~= vsigs);
    }
}

/// The canonical hash input of an envelope: header, body and attestations,
/// signatures excluded.
pub fn encode_envelope_core(e: &Envelope) -> (r: Vec<u8>)
    ensures
        r@ == canon_envelope_core(e@),
{
    let mut out: Vec<u8> = Vec::new();
    enc_header(&mut out, &e.header);
    enc_body(&mut out, &e.body);
    enc_u64(&mut out, e.attestations.len() as u64);
    enc_attestations(&mut out, &e.attestations);
    proof {
        assert(out@ =~= canon_envelope_core(e@));
    }
    out
}

/// The canonical bytes of a whole envelope, signatures included.
pub fn encode_envelope(e: &Envelope) -> (r: Vec<u8>)
    ensures
        r@ == canon_envelope(e@),
{
    let mut out = encode_envelope_core(e);
    enc_u64(&mut out, e.signatures.len() as u64);
    enc_signatures(&mut out, &e.signatures);
    proof {
        assert(out@ =~= canon_envelope(e@));
    }
    out
}

/// The canonical bytes of a payload value alone.
pub fn encode_value_bytes(v: &PayloadValue) -> (r: Vec<u8>)
    ensures
        r@ == canon_value(v@),
{
    let mut out: Vec<u8> = Vec::new();
    enc_value(&mut out, v);
    proof {
        assert(out@ =~= canon_value(v@));
    }
    out
}

} // verus!
