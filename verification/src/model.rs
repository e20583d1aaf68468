//! The envelope data model: payload values, headers, bodies, signatures,
//! attestations, and their mathematical views.
//!
//! Contracts throughout the crate are stated over the view types (`ValueV`,
//! `HeaderV`, ...), whose fields are `Seq`s and plain integers, so that
//! equality of views is structural equality of contents.
use vstd::prelude::*;

verus! {

/// A structured payload value: a tagged union with a general map arm.
///
/// Payloads are semi-opaque to the ledger; the one field the core reads is the
/// string value under the key `domain`, used for indexing.
pub enum PayloadValue {
    /// Absent / null value.
    Null,
    /// Boolean.
    Bool(bool),
    /// Signed 64-bit integer.
    Int(i64),
    /// Text.
    Text(String),
    /// Ordered list of values.
    List(Vec<PayloadValue>),
    /// Ordered list of key/value fields; a lookup takes the first match.
    Object(Vec<(String, PayloadValue)>),
}

/// View of a payload value.
pub ghost enum ValueV {
    Null,
    Bool(bool),
    Int(i64),
    Text(Seq<char>),
    List(Seq<ValueV>),
    Object(Seq<(Seq<char>, ValueV)>),
}

pub open spec fn view_values(s: Seq<PayloadValue>) -> Seq<ValueV>
    decreases s,
{
    if s.len() == 0 {
        Seq::empty()
    } else {
        seq![s[0]@] + view_values(s.drop_first())
    }
}

pub open spec fn view_fields(s: Seq<(String, PayloadValue)>) -> Seq<(Seq<char>, ValueV)>
    decreases s,
{
    if s.len() == 0 {
        Seq::empty()
    } else {
        seq![(s[0].0@, s[0].1@)] + view_fields(s.drop_first())
    }
}

impl View for PayloadValue {
    type V = ValueV;

    open spec fn view(&self) -> ValueV
        decreases self,
    {
        match self {
            PayloadValue::Null => ValueV::Null,
            PayloadValue::Bool(b) => ValueV::Bool(*b),
            PayloadValue::Int(i) => ValueV::Int(*i),
            PayloadValue::Text(s) => ValueV::Text(s@),
            PayloadValue::List(items) => ValueV::List(view_values(items@)),
            PayloadValue::Object(fields) => ValueV::Object(view_fields(fields@)),
        }
    }
}

pub broadcast proof fn lemma_view_values_len(s: Seq<PayloadValue>)
    ensures
        (#[trigger] view_values(s)).len() == s.len(),
    decreases s,
{
    if s.len() > 0 {
        lemma_view_values_len(s.drop_first());
        assert(view_values(s) == seq![s[0]@] + view_values(s.drop_first()));
    } else {
        assert(view_values(s) == Seq::<ValueV>::empty());
    }
}

pub broadcast proof fn lemma_view_values_index(s: Seq<PayloadValue>, i: int)
    requires
        0 <= i < s.len(),
    ensures
        #[trigger] view_values(s)[i] == s[i]@,
    decreases s,
{
    lemma_view_values_len(s);
    assert(view_values(s) == seq![s[0]@] + view_values(s.drop_first()));
    if i > 0 {
        lemma_view_values_index(s.drop_first(), i - 1);
    }
}

pub broadcast proof fn lemma_view_fields_len(s: Seq<(String, PayloadValue)>)
    ensures
        (#[trigger] view_fields(s)).len() == s.len(),
    decreases s,
{
    if s.len() > 0 {
        lemma_view_fields_len(s.drop_first());
        assert(view_fields(s) == seq![(s[0].0@, s[0].1@)] + view_fields(s.drop_first()));
    } else {
        assert(view_fields(s) == Seq::<(Seq<char>, ValueV)>::empty());
    }
}

pub broadcast proof fn lemma_view_fields_index(s: Seq<(String, PayloadValue)>, i: int)
    requires
        0 <= i < s.len(),
    ensures
        #[trigger] view_fields(s)[i] == (s[i].0@, s[i].1@),
    decreases s,
{
    lemma_view_fields_len(s);
    assert(view_fields(s) == seq![(s[0].0@, s[0].1@)] + view_fields(s.drop_first()));
    if i > 0 {
        lemma_view_fields_index(s.drop_first(), i - 1);
    }
}

/// The string value under `key` in a payload object, if the payload is an
/// object and the value is text; the first matching field wins.
pub open spec fn spec_lookup_text(v: ValueV, key: Seq<char>) -> Option<Seq<char>> {
    match v {
        ValueV::Object(fields) => spec_lookup_text_fields(fields, key),
        _ => None,
    }
}

pub open spec fn spec_lookup_text_fields(
    fields: Seq<(Seq<char>, ValueV)>,
    key: Seq<char>,
) -> Option<Seq<char>>
    decreases fields,
{
    if fields.len() == 0 {
        None
    } else if fields[0].0 == key {
        match fields[0].1 {
            ValueV::Text(s) => Some(s),
            _ => None,
        }
    } else {
        spec_lookup_text_fields(fields.drop_first(), key)
    }
}

/// Whether the payload is an object that contains `key`.
pub open spec fn spec_has_key(v: ValueV, key: Seq<char>) -> bool {
    match v {
        ValueV::Object(fields) => exists|i: int| 0 <= i < fields.len() && fields[i].0 == key,
        _ => false,
    }
}

impl PayloadValue {
    /// Whether this value is an object containing `key`.
    #[verifier::loop_isolation(false)]
    pub fn has_key(&self, key: &str) -> (r: bool)
        ensures
            r == spec_has_key(self@, key@),
    {
        match self {
            PayloadValue::Object(fields) => {
                let ghost vfields = view_fields(fields@);
                proof {
                    lemma_view_fields_len(fields@);
                }
                let mut i: usize = 0;
                while i < fields.len()
                    invariant
                        i <= fields@.len(),
                        forall|j: int| 0 <= j < i ==> #[trigger] vfields[j].0 != key@,
                    decreases fields@.len() - i,
                {
                    proof {
                        lemma_view_fields_index(fields@, i as int);
                    }
                    if crate::bytes::str_eq(fields[i].0.as_str(), key) {
                        proof {
                            assert(self@ == ValueV::Object(vfields));
                            assert(vfields[i as int].0 == key@);
                            assert(spec_has_key(ValueV::Object(vfields), key@));
                        }
                        return true;
                    }
                    i += 1;
                }
                false
            },
            _ => false,
        }
    }

    /// The string value under `key`, if this value is an object and the first
    /// field named `key` holds text.
    #[verifier::loop_isolation(false)]
    pub fn lookup_text(&self, key: &str) -> (r: Option<String>)
        ensures
            match r {
                Some(s) => spec_lookup_text(self@, key@) == Some(s@),
                None => spec_lookup_text(self@, key@) is None,
            },
    {
        match self {
            PayloadValue::Object(fields) => {
                let ghost vfields = view_fields(fields@);
                proof {
                    lemma_view_fields_len(fields@);
                    assert(vfields.skip(0) =~= vfields);
                }
                let mut i: usize = 0;
                while i < fields.len()
                    invariant
                        i <= fields@.len(),
                        spec_lookup_text_fields(vfields, key@) == spec_lookup_text_fields(
                            vfields.skip(i as int),
                            key@,
                        ),
                    decreases fields@.len() - i,
                {
                    proof {
                        lemma_view_fields_index(fields@, i as int);
                        assert(vfields.skip(i as int)[0] == vfields[i as int]);
                        assert(vfields.skip(i as int).drop_first() =~= vfields.skip(i + 1 as int));
                    }
                    if crate::bytes::str_eq(fields[i].0.as_str(), key) {
                        match &fields[i].1 {
                            PayloadValue::Text(s) => {
                                return Some(s.clone());
                            },
                            _ => {
                                return None;
                            },
                        }
                    }
                    i += 1;
                }
                proof {
                    assert(vfields.skip(vfields.len() as int) =~= Seq::<
                        (Seq<char>, ValueV),
                    >::empty());
                }
                None
            },
            _ => None,
        }
    }
}

impl Clone for PayloadValue {
    /// Deep copy; the copy has the same view.
    #[verifier::loop_isolation(false)]
    fn clone(&self) -> (res: Self)
        ensures
            res@ == self@,
        decreases self,
    {
        match self {
            PayloadValue::Null => PayloadValue::Null,
            PayloadValue::Bool(b) => PayloadValue::Bool(*b),
            PayloadValue::Int(i) => PayloadValue::Int(*i),
            PayloadValue::Text(s) => PayloadValue::Text(s.clone()),
            PayloadValue::List(items) => {
                let mut out: Vec<PayloadValue> = Vec::new();
                let mut i: usize = 0;
                while i < items.len()
                    invariant
                        i <= items@.len(),
                        out@.len() == i,
                        forall|j: int| 0 <= j < i ==> #[trigger] out@[j]@ == items@[j]@,
                    decreases items@.len() - i,
                {
                    proof {
                        assert(decreases_to!(*items => items@));
                        assert(decreases_to!(items@ => items@[i as int]));
                    }
                    let c = items[i].clone();
                    out.push(c);
                    i += 1;
                }
                proof {
                    lemma_view_values_len(out@);
                    lemma_view_values_len(items@);
                    assert forall|j: int| 0 <= j < out@.len() implies #[trigger] view_values(
                        out@,
                    )[j] == view_values(items@)[j] by {
                        lemma_view_values_index(out@, j);
                        lemma_view_values_index(items@, j);
                    }
                    assert(view_values(out@) =~= view_values(items@));
                }
                PayloadValue::List(out)
            },
            PayloadValue::Object(fields) => {
                let mut out: Vec<(String, PayloadValue)> = Vec::new();
                let mut i: usize = 0;
                while i < fields.len()
                    invariant
                        i <= fields@.len(),
                        out@.len() == i,
                        forall|j: int| 0 <= j < i ==> #[trigger] out@[j].0@ == fields@[j].0@
                            && out@[j].1@ == fields@[j].1@,
                    decreases fields@.len() - i,
                {
                    proof {
                        assert(decreases_to!(*fields => fields@));
                        assert(decreases_to!(fields@ => fields@[i as int]));
                        assert(decreases_to!(fields@[i as int] => fields@[i as int].1));
                    }
                    let k = fields[i].0.clone();
                    let v = fields[i].1.clone();
                    out.push((k, v));
                    i += 1;
                }
                proof {
                    lemma_view_fields_len(out@);
                    lemma_view_fields_len(fields@);
                    assert forall|j: int| 0 <= j < out@.len() implies #[trigger] view_fields(
                        out@,
                    )[j] == view_fields(fields@)[j] by {
                        lemma_view_fields_index(out@, j);
                        lemma_view_fields_index(fields@, j);
                    }
                    assert(view_fields(out@) =~= view_fields(fields@));
                }
                PayloadValue::Object(out)
            },
        }
    }
}

/// Envelope header.
pub struct EnvelopeHeader {
    /// Channel this envelope belongs to.
    pub channel: String,
    /// Producer-assigned schema version.
    pub version: u16,
    /// Hash of the previous envelope in the log, or `None` at genesis.
    pub prev: Option<[u8; 32]>,
    /// Canonical hash of the body.
    pub body_hash: [u8; 32],
    /// Milliseconds since epoch.
    pub timestamp: u64,
}

/// View of an envelope header.
pub ghost struct HeaderV {
    pub channel: Seq<char>,
    pub version: u16,
    pub prev: Option<Seq<u8>>,
    pub body_hash: Seq<u8>,
    pub timestamp: u64,
}

impl View for EnvelopeHeader {
    type V = HeaderV;

    open spec fn view(&self) -> HeaderV {
        HeaderV {
            channel: self.channel@,
            version: self.version,
            prev: match self.prev {
                Some(h) => Some(h@),
                None => None,
            },
            body_hash: self.body_hash@,
            timestamp: self.timestamp,
        }
    }
}

/// Envelope body.
pub struct EnvelopeBody {
    /// Structured payload.
    pub payload: PayloadValue,
    /// Optional producer-declared payload type.
    pub payload_type: Option<String>,
}

/// View of an envelope body.
pub ghost struct BodyV {
    pub payload: ValueV,
    pub payload_type: Option<Seq<char>>,
}

impl View for EnvelopeBody {
    type V = BodyV;

    open spec fn view(&self) -> BodyV {
        BodyV {
            payload: self.payload@,
            payload_type: match &self.payload_type {
                Some(t) => Some(t@),
                None => None,
            },
        }
    }
}

/// A single Ed25519 signature over the envelope hash.
#[derive(Clone, Copy)]
pub struct Signature {
    /// Signer public key bytes.
    pub signer: [u8; 32],
    /// Signature bytes.
    pub signature: [u8; 64],
}

/// View of a signature.
pub ghost struct SignatureV {
    pub signer: Seq<u8>,
    pub signature: Seq<u8>,
}

impl View for Signature {
    type V = SignatureV;

    open spec fn view(&self) -> SignatureV {
        SignatureV { signer: self.signer@, signature: self.signature@ }
    }
}

/// The statement carried by an attestation.
pub enum AttestationStatement {
    /// A build provenance statement.
    Build {
        /// Hash of the built artifact.
        artifact_hash: [u8; 32],
        /// Builder identity.
        builder: String,
    },
    /// A runtime identity statement.
    Runtime {
        /// Runtime (e.g. enclave) identity.
        runtime_id: String,
        /// Hash of the policy in force.
        policy_hash: [u8; 32],
    },
    /// A policy bundle statement.
    Policy {
        /// Hash of the policy bundle.
        bundle_hash: [u8; 32],
        /// Expiry, milliseconds since epoch.
        expires_at: u64,
    },
    /// A custom statement.
    Custom {
        /// Label chosen by the issuer.
        label: String,
        /// Hash of the custom payload.
        payload_hash: [u8; 32],
    },
}

/// View of an attestation statement.
pub ghost enum StatementV {
    Build { artifact_hash: Seq<u8>, builder: Seq<char> },
    Runtime { runtime_id: Seq<char>, policy_hash: Seq<u8> },
    Policy { bundle_hash: Seq<u8>, expires_at: u64 },
    Custom { label: Seq<char>, payload_hash: Seq<u8> },
}

impl View for AttestationStatement {
    type V = StatementV;

    open spec fn view(&self) -> StatementV {
        match self {
            AttestationStatement::Build { artifact_hash, builder } => StatementV::Build {
                artifact_hash: artifact_hash@,
                builder: builder@,
            },
            AttestationStatement::Runtime { runtime_id, policy_hash } => StatementV::Runtime {
                runtime_id: runtime_id@,
                policy_hash: policy_hash@,
            },
            AttestationStatement::Policy { bundle_hash, expires_at } => StatementV::Policy {
                bundle_hash: bundle_hash@,
                expires_at: *expires_at,
            },
            AttestationStatement::Custom { label, payload_hash } => StatementV::Custom {
                label: label@,
                payload_hash: payload_hash@,
            },
        }
    }
}

/// A signed third-party statement accompanying an envelope.
pub struct Attestation {
    /// Issuer public key bytes.
    pub issuer: [u8; 32],
    /// The statement itself.
    pub statement: AttestationStatement,
    /// Canonical hash of the statement.
    pub statement_hash: [u8; 32],
    /// Ed25519 signature by the issuer over the statement hash.
    pub signature: [u8; 64],
}

/// View of an attestation.
pub ghost struct AttestationV {
    pub issuer: Seq<u8>,
    pub statement: StatementV,
    pub statement_hash: Seq<u8>,
    pub signature: Seq<u8>,
}

impl View for Attestation {
    type V = AttestationV;

    open spec fn view(&self) -> AttestationV {
        AttestationV {
            issuer: self.issuer@,
            statement: self.statement@,
            statement_hash: self.statement_hash@,
            signature: self.signature@,
        }
    }
}

impl Clone for EnvelopeHeader {
    /// Copy; the copy has the same view.
    fn clone(&self) -> (res: Self)
        ensures
            res@ == self@,
    {
        EnvelopeHeader {
            channel: self.channel.clone(),
            version: self.version,
            prev: self.prev,
            body_hash: self.body_hash,
            timestamp: self.timestamp,
        }
    }
}

impl Clone for EnvelopeBody {
    /// Deep copy; the copy has the same view.
    fn clone(&self) -> (res: Self)
        ensures
            res@ == self@,
    {
        EnvelopeBody {
            payload: self.payload.clone(),
            payload_type: match &self.payload_type {
                Some(t) => Some(t.clone()),
                None => None,
            },
        }
    }
}

impl Clone for AttestationStatement {
    /// Copy; the copy has the same view.
    fn clone(&self) -> (res: Self)
        ensures
            res@ == self@,
    {
        match self {
            AttestationStatement::Build { artifact_hash, builder } => AttestationStatement::Build {
                artifact_hash: *artifact_hash,
                builder: builder.clone(),
            },
            AttestationStatement::Runtime { runtime_id, policy_hash } => {
                AttestationStatement::Runtime {
                    runtime_id: runtime_id.clone(),
                    policy_hash: *policy_hash,
                }
            },
            AttestationStatement::Policy { bundle_hash, expires_at } => {
                AttestationStatement::Policy {
                    bundle_hash: *bundle_hash,
                    expires_at: *expires_at,
                }
            },
            AttestationStatement::Custom { label, payload_hash } => AttestationStatement::Custom {
                label: label.clone(),
                payload_hash: *payload_hash,
            },
        }
    }
}

impl Clone for Attestation {
    /// Deep copy; the copy has the same view.
    fn clone(&self) -> (res: Self)
        ensures
            res@ == self@,
    {
        Attestation {
            issuer: self.issuer,
            statement: self.statement.clone(),
            statement_hash: self.statement_hash,
            signature: self.signature,
        }
    }
}

/// The atomic ledger unit: a signed, hash-linked message envelope.
pub struct Envelope {
    /// Header with chain linkage.
    pub header: EnvelopeHeader,
    /// Body with the structured payload.
    pub body: EnvelopeBody,
    /// Ordered signatures over the envelope hash.
    pub signatures: Vec<Signature>,
    /// Ordered attestations.
    pub attestations: Vec<Attestation>,
}

/// View of an envelope.
pub ghost struct EnvelopeV {
    pub header: HeaderV,
    pub body: BodyV,
    pub signatures: Seq<SignatureV>,
    pub attestations: Seq<AttestationV>,
}

impl View for Envelope {
    type V = EnvelopeV;

    open spec fn view(&self) -> EnvelopeV {
        EnvelopeV {
            header: self.header@,
            body: self.body@,
            signatures: self.signatures@.map_values(|s: Signature| s@),
            attestations: self.attestations@.map_values(|a: Attestation| a@),
        }
    }
}

impl Clone for Envelope {
    /// Deep copy; the copy has the same view.
    fn clone(&self) -> (res: Self)
        ensures
            res@ == self@,
    {
        let mut signatures: Vec<Signature> = Vec::new();
        let mut i: usize = 0;
        while i < self.signatures.len()
            invariant
                i <= self.signatures@.len(),
                signatures@ =~= self.signatures@.take(i as int),
            decreases self.signatures@.len() - i,
        {
            signatures.push(self.signatures[i]);
            proof {
                assert(signatures@ =~= self.signatures@.take(i + 1 as int));
            }
            i += 1;
        }
        proof {
            assert(self.signatures@.take(self.signatures@.len() as int) =~= self.signatures@);
        }
        let mut attestations: Vec<Attestation> = Vec::new();
        let mut j: usize = 0;
        while j < self.attestations.len()
            invariant
                j <= self.attestations@.len(),
                attestations@.len() == j,
                forall|m: int| 0 <= m < j ==> #[trigger] attestations@[m]@ == self.attestations@[m]@,
            decreases self.attestations@.len() - j,
        {
            let a = self.attestations[j].clone();
            attestations.push(a);
            j += 1;
        }
        let res = Envelope {
            header: self.header.clone(),
            body: self.body.clone(),
            signatures,
            attestations,
        };
        proof {
            assert(res@.signatures =~= self@.signatures);
            assert(res@.attestations =~= self@.attestations);
        }
        res
    }
}

/// Per-channel validation state: the hash and timestamp of the latest
/// accepted envelope. The initial state is `(None, None)`.
#[derive(Clone, Copy)]
pub struct ChannelState {
    /// Hash of the last accepted envelope.
    pub last_hash: Option<[u8; 32]>,
    /// Timestamp of the last accepted envelope.
    pub last_timestamp: Option<u64>,
}

/// View of a channel state.
pub ghost struct StateV {
    pub last_hash: Option<Seq<u8>>,
    pub last_timestamp: Option<u64>,
}

impl View for ChannelState {
    type V = StateV;

    open spec fn view(&self) -> StateV {
        StateV {
            last_hash: match self.last_hash {
                Some(h) => Some(h@),
                None => None,
            },
            last_timestamp: self.last_timestamp,
        }
    }
}

impl ChannelState {
    /// The empty state, before any envelope was accepted.
    pub fn initial() -> (r: ChannelState)
        ensures
            r@ == initial_state(),
    {
        ChannelState { last_hash: None, last_timestamp: None }
    }
}

/// The initial (genesis) channel state.
pub open spec fn initial_state() -> StateV {
    StateV { last_hash: None, last_timestamp: None }
}

} // verus!
