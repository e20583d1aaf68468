use ea_ledger::brainstem::{BrainstemError, BrainstemLedger, ContentAddressableStore};
use ea_ledger::crypto::sign_envelope;
use ea_ledger::hashes::{envelope_hash, hash_body, payload_digest};
use ea_ledger::merkle::verify_inclusion;
use ea_ledger::model::{Envelope, EnvelopeBody, EnvelopeHeader, PayloadValue};
use ea_ledger::registry::{ChannelPolicy, ChannelRegistry, ChannelSpec};
use ed25519_dalek::SigningKey;
use rand_core::OsRng;

fn registry(sk: &SigningKey) -> ChannelRegistry {
    let mut registry = ChannelRegistry::new();
    registry.upsert(ChannelSpec {
        name: "muscle_io".to_string(),
        policy: ChannelPolicy {
            min_signers: 1,
            allowed_signers: vec![sk.verifying_key().to_bytes()],
            require_attestations: false,
            enforce_timestamp_ordering: true,
        },
    });
    registry
}

fn env_with_prev(sk: &SigningKey, ts: u64, domain: &str, prev: Option<[u8; 32]>) -> Envelope {
    let payload = PayloadValue::Object(vec![
        ("n".to_string(), PayloadValue::Int(ts as i64)),
        ("domain".to_string(), PayloadValue::Text(domain.to_string())),
    ]);
    let body = EnvelopeBody { payload, payload_type: Some("test".to_string()) };
    let body_hash = hash_body(&body);
    let header = EnvelopeHeader {
        channel: "muscle_io".to_string(),
        version: 1,
        prev,
        body_hash,
        timestamp: ts,
    };
    let mut env = Envelope { header, body, signatures: Vec::new(), attestations: Vec::new() };
    sign_envelope(&mut env, &sk.to_bytes());
    env
}

fn env(sk: &SigningKey, ts: u64, domain: &str) -> Envelope {
    env_with_prev(sk, ts, domain, None)
}

#[test]
fn append_and_query_with_receipts() {
    let sk = SigningKey::generate(&mut OsRng);
    let mut ledger = BrainstemLedger::new(registry(&sk), 8 * 1024 * 1024, 10);
    let e1 = env(&sk, 1, "alpha");
    let h1 = envelope_hash(&e1);
    let r1 = ledger.append(e1).unwrap();
    assert_eq!(r1.index, 0);
    let r2 = ledger.append(env_with_prev(&sk, 2, "beta", Some(h1))).unwrap();
    assert_eq!(r2.index, 1);
    assert_eq!(ledger.domain_index().offsets_for_domain("alpha"), &[0]);
    let slice = ledger.query_with_proofs(0, 2);
    assert_eq!(slice.entries.len(), 2);
    assert_eq!(slice.receipts.len(), 2);
    assert!(slice.merkle_root.is_some());
    assert!(!slice.receipts[0].merkle_proof.is_empty());
    assert!(!slice.receipts[1].merkle_proof.is_empty());
}

#[test]
fn invariant_blocks_dynamic_code() {
    let sk = SigningKey::generate(&mut OsRng);
    let mut ledger = BrainstemLedger::new(registry(&sk), 8 * 1024 * 1024, 10);
    let mut e = env(&sk, 1, "alpha");
    if let PayloadValue::Object(ref mut fields) = e.body.payload {
        fields.push(("dynamic_code".to_string(), PayloadValue::Bool(true)));
    }
    let err = ledger.append(e).unwrap_err();
    assert!(matches!(err, BrainstemError::InvariantViolation(_)));
    assert_eq!(ledger.len(), 0);
    assert!(!ledger.alerts().is_empty());
}

#[test]
fn emits_alert_on_validation_failure() {
    let sk = SigningKey::generate(&mut OsRng);
    let mut ledger = BrainstemLedger::new(registry(&sk), 8 * 1024 * 1024, 10);
    let mut e = env(&sk, 2, "alpha");
    e.header.prev = Some([0u8; 32]);
    let _ = ledger.append(e);
    assert!(!ledger.alerts().is_empty());
}

#[test]
fn append_and_prove() {
    let sk = SigningKey::generate(&mut OsRng);
    let mut ledger = BrainstemLedger::new(registry(&sk), 8 * 1024 * 1024, 1);
    let e1 = env(&sk, 1, "alpha");
    let h1 = envelope_hash(&e1);
    let r1 = ledger.append(e1).unwrap();
    assert_eq!(r1.index, 0);
    assert_eq!(r1.envelope_hash, h1);
    assert_eq!(r1.merkle_root, h1);
    assert!(r1.merkle_proof.is_empty());
    assert!(verify_inclusion(&r1.envelope_hash, &r1.merkle_proof, r1.index, &r1.merkle_root));

    let e2 = env_with_prev(&sk, 2, "beta", Some(h1));
    let r2 = ledger.append(e2).unwrap();
    assert_eq!(r2.index, 1);
    assert_eq!(r2.merkle_proof, vec![h1]);
    assert!(verify_inclusion(&r2.envelope_hash, &r2.merkle_proof, r2.index, &r2.merkle_root));
}

#[test]
fn chain_break_is_rejected() {
    let sk = SigningKey::generate(&mut OsRng);
    let mut ledger = BrainstemLedger::new(registry(&sk), 8 * 1024 * 1024, 1);
    let e1 = env(&sk, 1, "alpha");
    let h1 = envelope_hash(&e1);
    ledger.append(e1).unwrap();
    ledger.append(env_with_prev(&sk, 2, "beta", Some(h1))).unwrap();
    let bad = env_with_prev(&sk, 3, "alpha", Some([0u8; 32]));
    let err = ledger.append(bad).unwrap_err();
    assert!(matches!(
        err,
        BrainstemError::Validation(ea_ledger::validate::ValidationError::ChainBroken)
    ));
    assert_eq!(ledger.len(), 2);
}

#[test]
fn domain_index_tracks_offsets() {
    let sk = SigningKey::generate(&mut OsRng);
    let mut ledger = BrainstemLedger::new(registry(&sk), 8 * 1024 * 1024, 1);
    let e1 = env(&sk, 1, "alpha");
    let h1 = envelope_hash(&e1);
    ledger.append(e1).unwrap();
    let e2 = env_with_prev(&sk, 2, "beta", Some(h1));
    let h2 = envelope_hash(&e2);
    ledger.append(e2).unwrap();
    ledger.append(env_with_prev(&sk, 3, "alpha", Some(h2))).unwrap();
    assert_eq!(ledger.domain_index().offsets_for_domain("alpha"), &[0, 2]);
    assert_eq!(ledger.domain_index().offsets_for_domain("beta"), &[1]);
    assert_eq!(ledger.domain_index().offsets_for_channel("muscle_io"), &[0, 1, 2]);
    assert!(ledger.domain_index().offsets_for_domain("gamma").is_empty());
}

#[test]
fn cas_put_is_idempotent() {
    let mut store = ContentAddressableStore::new(1024);
    let payload = PayloadValue::Object(vec![(
        "k".to_string(),
        PayloadValue::Text("v".to_string()),
    )]);
    let d1 = store.put(&payload).unwrap();
    let d2 = store.put(&payload).unwrap();
    assert_eq!(d1, d2);
    assert_eq!(d1, payload_digest(&payload));
    assert!(store.get(&d1).is_some());

    let other = PayloadValue::Int(9);
    let d3 = store.put(&other).unwrap();
    assert_ne!(d1, d3);
}

#[test]
fn cas_rejects_oversize_payload() {
    let mut store = ContentAddressableStore::new(4);
    let payload = PayloadValue::Text("a text longer than four canonical bytes".to_string());
    let err = store.put(&payload).unwrap_err();
    assert!(matches!(err, BrainstemError::InvariantViolation(_)));
    assert!(store.get(&payload_digest(&payload)).is_none());
}

#[test]
fn hex_digest_naming() {
    assert_eq!(ea_ledger::bytes::encode_hex(&[0xbe, 0xef]), "beef");
    assert_eq!(ea_ledger::bytes::encode_hex(&[0x00, 0x1a]), "001a");
    assert_eq!(ea_ledger::bytes::encode_hex(&[]), "");
}
