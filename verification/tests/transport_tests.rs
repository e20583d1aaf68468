use ea_ledger::crypto::{sign_attestation, sign_envelope};
use ea_ledger::hashes::{envelope_hash, hash_attestation_statement, hash_body};
use ea_ledger::log::AppendLog;
use ea_ledger::model::{
    Attestation, AttestationStatement, Envelope, EnvelopeBody, EnvelopeHeader, PayloadValue,
};
use ea_ledger::registry::{ChannelPolicy, ChannelRegistry, ChannelSpec};
use ea_ledger::transport::{
    encode_frame_header, parse_frame_header, verify_with_expected, AttestationHandshake,
    EnclaveProxyStub, InVmQueue, IpcRequest, IpcResponse, IpcServerCore, MailboxTransport,
    RemoteServerCore, TransportConfig, TransportDomain, TransportError,
};
use ed25519_dalek::SigningKey;
use rand_core::OsRng;

fn sample_env(sk: &SigningKey, ts: u64, prev: Option<[u8; 32]>) -> Envelope {
    let body = EnvelopeBody {
        payload: PayloadValue::Object(vec![("ts".to_string(), PayloadValue::Int(ts as i64))]),
        payload_type: Some("test".to_string()),
    };
    let body_hash = hash_body(&body);
    let mut env = Envelope {
        header: EnvelopeHeader {
            channel: "muscle_io".to_string(),
            version: 1,
            prev,
            body_hash,
            timestamp: ts,
        },
        body,
        signatures: Vec::new(),
        attestations: Vec::new(),
    };
    sign_envelope(&mut env, &sk.to_bytes());
    env
}

fn registry(sk: &SigningKey) -> ChannelRegistry {
    let mut registry = ChannelRegistry::new();
    registry.upsert(ChannelSpec {
        name: "muscle_io".to_string(),
        policy: ChannelPolicy {
            min_signers: 1,
            allowed_signers: vec![sk.verifying_key().to_bytes()],
            require_attestations: false,
            enforce_timestamp_ordering: true,
        },
    });
    registry
}

fn runtime_attestation(runtime_id: &str) -> Attestation {
    let statement = AttestationStatement::Runtime {
        runtime_id: runtime_id.to_string(),
        policy_hash: [0xCD; 32],
    };
    let statement_hash = hash_attestation_statement(&statement);
    let mut att = Attestation {
        issuer: [0u8; 32],
        statement,
        statement_hash,
        signature: [0u8; 64],
    };
    let sk = SigningKey::generate(&mut OsRng);
    sign_attestation(&mut att, &sk.to_bytes());
    att
}

#[test]
fn in_vm_queue_roundtrip() {
    let sk = SigningKey::generate(&mut OsRng);
    let mut queue = InVmQueue::with_registry(registry(&sk));
    let env = sample_env(&sk, 1, None);
    let prev_hash = envelope_hash(&env);
    queue.append(env).unwrap();
    let fetched = queue.read(0, 10).unwrap();
    assert_eq!(fetched.len(), 1);
    assert_eq!(fetched[0].header.timestamp, 1);
    let rx = queue.subscribe().unwrap();
    queue.append(sample_env(&sk, 2, Some(prev_hash))).unwrap();
    let recv = queue.recv(rx).unwrap();
    assert_eq!(recv.header.timestamp, 2);
    assert!(queue.recv(rx).is_none());
}

#[test]
fn attestation_handshake_verifies_runtime() {
    let att = runtime_attestation("enclave-0");
    let handshake = AttestationHandshake {
        nonce: "n-123".to_string(),
        expected_runtime_id: Some("enclave-0".to_string()),
        expected_statement_hash: Some(att.statement_hash),
        presented: Some(att.clone()),
    };
    assert!(handshake.verify().is_ok());

    let bad_runtime = AttestationHandshake {
        nonce: "n-123".to_string(),
        expected_runtime_id: Some("enclave-1".to_string()),
        expected_statement_hash: Some(att.statement_hash),
        presented: Some(att),
    };
    assert!(bad_runtime.verify().is_err());
}

#[test]
fn missing_required_attestation_is_denied() {
    let handshake = AttestationHandshake {
        nonce: "n".to_string(),
        expected_runtime_id: Some("enclave-0".to_string()),
        expected_statement_hash: None,
        presented: None,
    };
    assert!(matches!(handshake.verify().unwrap_err(), TransportError::PermissionDenied));
}

#[test]
fn in_vm_queue_backpressure() {
    let sk = SigningKey::generate(&mut OsRng);
    let mut queue = InVmQueue::with_log(AppendLog::new(), registry(&sk), 1);
    let _rx = queue.subscribe().unwrap();
    let first = sample_env(&sk, 1, None);
    let first_hash = envelope_hash(&first);
    queue.append(first).unwrap();
    // One undrained envelope fills the depth-one queue; the next append is
    // refused without committing.
    let err = queue.append(sample_env(&sk, 2, Some(first_hash))).unwrap_err();
    assert!(matches!(err, TransportError::Backpressure));
    assert_eq!(queue.read(0, 10).unwrap().len(), 1);
}

#[test]
fn mailbox_overflow_errors() {
    let sk = SigningKey::generate(&mut OsRng);
    let mut mailbox = MailboxTransport::with_log(
        "mb0".to_string(),
        4096,
        1,
        registry(&sk),
        None,
        AppendLog::new(),
        4,
    )
    .unwrap();
    let first = sample_env(&sk, 1, None);
    let first_hash = envelope_hash(&first);
    mailbox.append(first).unwrap();
    let err = mailbox.append(sample_env(&sk, 2, Some(first_hash))).unwrap_err();
    match err {
        TransportError::Transport(msg) => assert!(msg.contains("buffer full")),
        other => panic!("expected a ring-full refusal, got {other:?}"),
    }
    assert_eq!(mailbox.read(0, 10).unwrap().len(), 1);
}

#[test]
fn mailbox_rejects_oversize_envelope() {
    let sk = SigningKey::generate(&mut OsRng);
    let mut mailbox = MailboxTransport::with_log(
        "mb0".to_string(),
        16,
        4,
        registry(&sk),
        None,
        AppendLog::new(),
        4,
    )
    .unwrap();
    let err = mailbox.append(sample_env(&sk, 1, None)).unwrap_err();
    assert!(matches!(err, TransportError::Transport(_)));
    assert_eq!(mailbox.read(0, 10).unwrap().len(), 0);
}

#[test]
fn bind_loopback_from_config() {
    let cfg = TransportConfig::loopback(TransportDomain::Ledger);
    assert_eq!(cfg.advertisement.domain, TransportDomain::Ledger);
    let sk = SigningKey::generate(&mut OsRng);
    let mut transport = ea_ledger::transport::Loopback::new(
        registry(&sk),
        cfg.selected.attestation,
    )
    .unwrap();
    let env = sample_env(&sk, 1, None);
    transport.append(env).unwrap();
    let out = transport.read(0, 1).unwrap();
    assert_eq!(out.len(), 1);
    assert_eq!(out[0].header.timestamp, 1);
}

#[test]
fn ipc_server_core_executes_requests() {
    let sk = SigningKey::generate(&mut OsRng);
    let mut server = IpcServerCore::new(registry(&sk), 16);
    let sub = server.subscribe();
    match server.handle_request(IpcRequest::Subscribe) {
        IpcResponse::SubscribeAck => {},
        _ => panic!("expected a subscribe acknowledgement"),
    }
    match server.handle_request(IpcRequest::Append(sample_env(&sk, 1, None))) {
        IpcResponse::AppendOk => {},
        _ => panic!("expected a committed append"),
    }
    match server.handle_request(IpcRequest::Read { offset: 0, limit: 10 }) {
        IpcResponse::ReadOk(items) => {
            assert_eq!(items.len(), 1);
            assert_eq!(items[0].header.timestamp, 1);
        },
        _ => panic!("expected a read result"),
    }
    let evt = server.next_event(sub);
    assert!(evt.is_some());
}

#[test]
fn frame_header_round_trip() {
    for len in [0u32, 1, 255, 256, 65535, 1048576, u32::MAX] {
        let header = encode_frame_header(len);
        assert_eq!(parse_frame_header(&header), len);
    }
    assert_eq!(encode_frame_header(0x01020304), [1, 2, 3, 4]);
}

#[test]
fn remote_append_denied_on_runtime_mismatch() {
    let sk = SigningKey::generate(&mut OsRng);
    let expected_att = runtime_attestation("enclave-A");
    let server_template = AttestationHandshake {
        nonce: "server-n".to_string(),
        expected_runtime_id: Some("enclave-A".to_string()),
        expected_statement_hash: None,
        presented: None,
    };
    let mut server = RemoteServerCore::new(registry(&sk), Some(server_template), 16);

    // A client presenting a runtime attestation for the wrong enclave is
    // denied, and the log does not advance.
    let wrong = AttestationHandshake {
        nonce: "client-n".to_string(),
        expected_runtime_id: None,
        expected_statement_hash: None,
        presented: Some(runtime_attestation("enclave-B")),
    };
    let err = server.append(sample_env(&sk, 1, None), Some(wrong)).unwrap_err();
    assert!(matches!(err, TransportError::PermissionDenied));

    // The right runtime identity is admitted, and only then does the log
    // advance.
    let right = AttestationHandshake {
        nonce: "client-n".to_string(),
        expected_runtime_id: None,
        expected_statement_hash: None,
        presented: Some(expected_att),
    };
    let before = server.read(0, 10, Some(right.duplicate())).unwrap();
    assert_eq!(before.len(), 0);
    server.append(sample_env(&sk, 1, None), Some(right.duplicate())).unwrap();
    let items = server.read(0, 10, Some(right)).unwrap();
    assert_eq!(items.len(), 1);
}

#[test]
fn remote_append_denied_without_attestation() {
    let sk = SigningKey::generate(&mut OsRng);
    let expected_att = runtime_attestation("enclave-A");
    let server_template = AttestationHandshake {
        nonce: "server-n".to_string(),
        expected_runtime_id: Some("enclave-A".to_string()),
        expected_statement_hash: Some(expected_att.statement_hash),
        presented: None,
    };
    let mut server = RemoteServerCore::new(registry(&sk), Some(server_template), 16);
    let err = server.append(sample_env(&sk, 1, None), None).unwrap_err();
    assert!(matches!(err, TransportError::PermissionDenied));
}

#[test]
fn enclave_proxy_is_unsupported() {
    let sk = SigningKey::generate(&mut OsRng);
    let stub = EnclaveProxyStub;
    let err = stub.append(sample_env(&sk, 1, None)).unwrap_err();
    assert!(matches!(err, TransportError::Unsupported));
}
