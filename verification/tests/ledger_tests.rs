use ea_ledger::checkpoint::{CheckpointWriter, MerkleSegmenter};
use ea_ledger::crypto::sign_envelope;
use ea_ledger::hashes::{envelope_hash, hash_body};
use ea_ledger::log::AppendLog;
use ea_ledger::model::{Envelope, EnvelopeBody, EnvelopeHeader, PayloadValue};
use ea_ledger::registry::{ChannelPolicy, ChannelRegistry, ChannelSpec};
use ea_ledger::replay::ReplayValidator;
use ea_ledger::validate::ValidationError;
use ed25519_dalek::SigningKey;
use rand_core::OsRng;

fn sample_env(prev: Option<[u8; 32]>, ts: u64, sk: &SigningKey) -> Envelope {
    let body = EnvelopeBody {
        payload: PayloadValue::Object(vec![("n".to_string(), PayloadValue::Int(ts as i64))]),
        payload_type: Some("test".to_string()),
    };
    let body_hash = hash_body(&body);
    let header = EnvelopeHeader {
        channel: "muscle_io".to_string(),
        version: 1,
        prev,
        body_hash,
        timestamp: ts,
    };
    let mut env = Envelope { header, body, signatures: Vec::new(), attestations: Vec::new() };
    sign_envelope(&mut env, &sk.to_bytes());
    env
}

fn registry(sk: &SigningKey) -> ChannelRegistry {
    let mut registry = ChannelRegistry::new();
    registry.upsert(ChannelSpec {
        name: "muscle_io".to_string(),
        policy: ChannelPolicy {
            min_signers: 1,
            allowed_signers: vec![sk.verifying_key().to_bytes()],
            require_attestations: false,
            enforce_timestamp_ordering: true,
        },
    });
    registry
}

#[test]
fn append_and_checkpoint() {
    let sk = SigningKey::generate(&mut OsRng);
    let reg = registry(&sk);
    let mut log = AppendLog::new();
    let mut prev = None;
    for ts in 1..=3 {
        let env = sample_env(prev, ts, &sk);
        prev = Some(envelope_hash(&env));
        log.append(env, &reg).unwrap();
    }
    assert_eq!(log.len(), 3);
    let mut writer = CheckpointWriter::new();
    let cp = writer.maybe_checkpoint(&log, 2).unwrap();
    assert_eq!(cp.length, 3);
    assert!(cp.root.iter().any(|b| *b != 0));
}

#[test]
fn merkle_segmenter_emits_root() {
    let sk = SigningKey::generate(&mut OsRng);
    let mut segmenter = MerkleSegmenter::new(2);
    let mut prev = None;
    for ts in 1..=2 {
        let env = sample_env(prev, ts, &sk);
        prev = Some(envelope_hash(&env));
        let root = segmenter.push(envelope_hash(&env));
        if ts == 2 {
            assert!(root.is_some());
        }
    }
}

#[test]
fn replay_validator_detects_tamper() {
    let sk = SigningKey::generate(&mut OsRng);
    let reg = registry(&sk);
    let validator = ReplayValidator::new(reg);
    let env1 = sample_env(None, 1, &sk);
    let mut env2 = sample_env(Some(envelope_hash(&env1)), 2, &sk);
    // Tamper with the body without updating the hash.
    env2.body.payload = PayloadValue::Object(vec![(
        "n".to_string(),
        PayloadValue::Int(99),
    )]);
    let seq = vec![env1, env2];
    let err = validator.validate_sequence(&seq).unwrap_err();
    assert_eq!(err, ValidationError::BodyHashMismatch);
}

#[test]
fn replay_accepts_appended_log() {
    let sk = SigningKey::generate(&mut OsRng);
    let reg = registry(&sk);
    let mut log = AppendLog::new();
    let mut prev = None;
    for ts in 1..=4 {
        let env = sample_env(prev, ts, &sk);
        prev = Some(envelope_hash(&env));
        log.append(env, &reg).unwrap();
    }
    let entries = log.read(0, log.len());
    let validator = ReplayValidator::new(registry(&sk));
    assert!(validator.validate_sequence(&entries).is_ok());
}

#[test]
fn envelope_hash_is_deterministic() {
    let sk = SigningKey::generate(&mut OsRng);
    let a = sample_env(None, 7, &sk);
    let b = sample_env(None, 7, &sk);
    assert_eq!(envelope_hash(&a), envelope_hash(&b));
    let c = sample_env(None, 8, &sk);
    assert_ne!(envelope_hash(&a), envelope_hash(&c));
}

#[test]
fn chain_closure_after_appends() {
    let sk = SigningKey::generate(&mut OsRng);
    let reg = registry(&sk);
    let mut log = AppendLog::new();
    let mut prev = None;
    for ts in 1..=3 {
        let env = sample_env(prev, ts, &sk);
        prev = Some(envelope_hash(&env));
        log.append(env, &reg).unwrap();
    }
    let entries = log.read(0, log.len());
    assert_eq!(entries[0].header.prev, None);
    for i in 1..entries.len() {
        assert_eq!(entries[i].header.prev, Some(envelope_hash(&entries[i - 1])));
    }
}

#[test]
fn timestamp_regression_is_rejected() {
    let sk = SigningKey::generate(&mut OsRng);
    let reg = registry(&sk);
    let mut log = AppendLog::new();
    log.append(sample_env(None, 10, &sk), &reg).unwrap();
    let err = log.append(sample_env(None, 5, &sk), &reg).unwrap_err();
    assert_eq!(err, ValidationError::TimestampRegression);
    assert_eq!(log.len(), 1);
}

#[test]
fn unknown_channel_is_rejected() {
    let sk = SigningKey::generate(&mut OsRng);
    let reg = ChannelRegistry::new();
    let mut log = AppendLog::new();
    let err = log.append(sample_env(None, 1, &sk), &reg).unwrap_err();
    assert_eq!(err, ValidationError::UnknownChannel);
}

#[test]
fn untrusted_signer_is_rejected() {
    let sk = SigningKey::generate(&mut OsRng);
    let stranger = SigningKey::generate(&mut OsRng);
    let reg = registry(&sk);
    let mut log = AppendLog::new();
    let err = log.append(sample_env(None, 1, &stranger), &reg).unwrap_err();
    assert_eq!(err, ValidationError::UntrustedSigner);
}

#[test]
fn unsigned_envelope_is_rejected() {
    let sk = SigningKey::generate(&mut OsRng);
    let reg = registry(&sk);
    let mut log = AppendLog::new();
    let body = EnvelopeBody { payload: PayloadValue::Null, payload_type: None };
    let body_hash = hash_body(&body);
    let env = Envelope {
        header: EnvelopeHeader {
            channel: "muscle_io".to_string(),
            version: 1,
            prev: None,
            body_hash,
            timestamp: 1,
        },
        body,
        signatures: Vec::new(),
        attestations: Vec::new(),
    };
    let err = log.append(env, &reg).unwrap_err();
    assert_eq!(err, ValidationError::InsufficientSigners);
}

#[test]
fn attestation_required_is_enforced() {
    let sk = SigningKey::generate(&mut OsRng);
    let mut reg = ChannelRegistry::new();
    reg.upsert(ChannelSpec {
        name: "muscle_io".to_string(),
        policy: ChannelPolicy {
            min_signers: 1,
            allowed_signers: vec![sk.verifying_key().to_bytes()],
            require_attestations: true,
            enforce_timestamp_ordering: false,
        },
    });
    let mut log = AppendLog::new();
    let err = log.append(sample_env(None, 1, &sk), &reg).unwrap_err();
    assert_eq!(err, ValidationError::AttestationRequired);
}

#[test]
fn inclusion_proofs_verify_against_current_root() {
    let sk = SigningKey::generate(&mut OsRng);
    let reg = registry(&sk);
    let mut log = AppendLog::new();
    let mut prev = None;
    for ts in 1..=5 {
        let env = sample_env(prev, ts, &sk);
        prev = Some(envelope_hash(&env));
        log.append(env, &reg).unwrap();
    }
    let root = log.merkle_root().unwrap();
    let entries = log.read(0, log.len());
    for i in 0..entries.len() {
        let leaf = envelope_hash(&entries[i]);
        let proof = log.inclusion_proof(i);
        assert!(ea_ledger::merkle::verify_inclusion(&leaf, &proof, i, &root));
        // A proof for one index never validates another leaf.
        if i > 0 {
            let other = envelope_hash(&entries[i - 1]);
            assert!(!ea_ledger::merkle::verify_inclusion(&other, &proof, i, &root));
        }
    }
}

#[test]
fn added_signature_keeps_hash() {
    let sk = SigningKey::generate(&mut OsRng);
    let second = SigningKey::generate(&mut OsRng);
    let mut env = sample_env(None, 3, &sk);
    let before = envelope_hash(&env);
    sign_envelope(&mut env, &second.to_bytes());
    assert_eq!(envelope_hash(&env), before);
    assert_eq!(env.signatures.len(), 2);
}
