//! The single-writer orchestrator: invariant checks, content-addressable
//! payload storage, validated append, domain indexing, structured alerts,
//! checkpoints, and receipts with inclusion proofs.
use vstd::prelude::*;

use crate::bytes::{hash_eq, str_eq};
use crate::checkpoint::CheckpointWriter;
use crate::codec::{canon_value, encode_value_bytes};
use crate::hashes::{envelope_hash, payload_digest, spec_envelope_hash, spec_payload_digest};
use crate::log::{leaves_of, spec_fill_prev, spec_tail_state, AppendLog};
use crate::merkle::{fold_proof, hashes_of, merkle_root_of, proof_for};
use crate::model::{spec_has_key, spec_lookup_text, Envelope, EnvelopeV, PayloadValue, ValueV};
use crate::registry::{ChannelRegistry, PolicyV};
use crate::validate::{spec_validate, ValidationError};

verus! {

/// Errors surfaced by the orchestrator.
#[derive(Debug)]
pub enum BrainstemError {
    /// The envelope failed validation.
    Validation(ValidationError),
    /// A payload broke an orchestrator invariant: reserved keys, or a payload
    /// over the configured size ceiling.
    InvariantViolation(String),
    /// The payload store failed.
    Storage(String),
}

/// A structured alert recorded on validation or invariant failures.
pub struct Alert {
    /// Human-readable summary.
    pub message: String,
    /// The underlying validation error, if there was one.
    pub error: Option<ValidationError>,
}

/// A receipt proving inclusion of an envelope in the log.
#[derive(Debug)]
pub struct Receipt {
    /// Zero-based index in the log.
    pub index: usize,
    /// Hash of the envelope.
    pub envelope_hash: [u8; 32],
    /// Merkle root at the time of issuance.
    pub merkle_root: [u8; 32],
    /// Sibling path, leaf to root.
    pub merkle_proof: Vec<[u8; 32]>,
}

/// A slice of the log with a receipt per envelope.
pub struct QuerySlice {
    /// Returned envelopes.
    pub entries: Vec<Envelope>,
    /// Receipts proving inclusion of each returned envelope.
    pub receipts: Vec<Receipt>,
    /// Merkle root at query time; `None` for an empty log.
    pub merkle_root: Option<[u8; 32]>,
}

/// One stored payload of the content-addressable store.
struct CasEntry {
    digest: [u8; 32],
    bytes: Vec<u8>,
}

/// The map a store's entry list denotes.
spec fn cas_map_of(s: Seq<CasEntry>) -> Map<Seq<u8>, Seq<u8>>
    decreases s.len(),
{
    if s.len() == 0 {
        Map::empty()
    } else {
        cas_map_of(s.drop_last()).insert(s.last().digest@, s.last().bytes@)
    }
}

spec fn cas_unique(s: Seq<CasEntry>) -> bool {
    forall|i: int, j: int| 0 <= i < j < s.len() ==> s[i].digest@ != s[j].digest@
}

proof fn lemma_cas_map_contains(s: Seq<CasEntry>, d: Seq<u8>)
    ensures
        cas_map_of(s).contains_key(d) <==> exists|i: int| 0 <= i < s.len() && s[i].digest@ == d,
    decreases s.len(),
{
    if s.len() > 0 {
        lemma_cas_map_contains(s.drop_last(), d);
        if cas_map_of(s).contains_key(d) {
            if s.last().digest@ != d {
                let i = choose|i: int|
                    0 <= i < s.drop_last().len() && s.drop_last()[i].digest@ == d;
                assert(s[i].digest@ == d);
            }
        }
        if exists|i: int| 0 <= i < s.len() && s[i].digest@ == d {
            let i = choose|i: int| 0 <= i < s.len() && s[i].digest@ == d;
            if i < s.len() - 1 {
                assert(s.drop_last()[i].digest@ == d);
            }
        }
    }
}

proof fn lemma_cas_map_lookup(s: Seq<CasEntry>, i: int)
    requires
        cas_unique(s),
        0 <= i < s.len(),
    ensures
        cas_map_of(s).contains_key(s[i].digest@),
        cas_map_of(s)[s[i].digest@] == s[i].bytes@,
    decreases s.len(),
{
    if i == s.len() - 1 {
    } else {
        assert(s.drop_last()[i] == s[i]);
        lemma_cas_map_lookup(s.drop_last(), i);
        assert(s[i].digest@ != s.last().digest@);
    }
}

/// The store after a put of payload `v`: unchanged when the digest is already
/// present, extended by the canonical bytes under the digest otherwise.
pub open spec fn spec_cas_put(m: Map<Seq<u8>, Seq<u8>>, v: ValueV) -> Map<Seq<u8>, Seq<u8>> {
    if m.contains_key(spec_payload_digest(v)) {
        m
    } else {
        m.insert(spec_payload_digest(v), canon_value(v))
    }
}

/// Idempotence of the store: a second put of the same payload changes
/// nothing, and the digest it yields is the same function of the payload.
pub proof fn lemma_cas_put_idempotent(m: Map<Seq<u8>, Seq<u8>>, v: ValueV)
    ensures
        spec_cas_put(spec_cas_put(m, v), v) == spec_cas_put(m, v),
{
    assert(spec_cas_put(m, v).contains_key(spec_payload_digest(v)));
}

/// Deduplicating storage of canonical payload bytes keyed by payload digest.
pub struct ContentAddressableStore {
    entries: Vec<CasEntry>,
    max_bytes: usize,
}

impl View for ContentAddressableStore {
    type V = Map<Seq<u8>, Seq<u8>>;

    closed spec fn view(&self) -> Map<Seq<u8>, Seq<u8>> {
        cas_map_of(self.entries@)
    }
}

impl ContentAddressableStore {
    /// At most one entry per digest.
    pub closed spec fn wf(&self) -> bool {
        cas_unique(self.entries@)
    }

    /// The configured payload size ceiling, in canonical bytes.
    pub closed spec fn max_bytes(&self) -> usize {
        self.max_bytes
    }

    /// Create an empty store with the given payload size ceiling.
    pub fn new(max_bytes: usize) -> (r: ContentAddressableStore)
        ensures
            r.wf(),
            r@ == Map::<Seq<u8>, Seq<u8>>::empty(),
            r.max_bytes() == max_bytes,
    {
        ContentAddressableStore { entries: Vec::new(), max_bytes }
    }

    /// Store a payload under its digest. Oversize payloads are rejected; a
    /// payload whose digest is already present leaves the store unchanged, so
    /// repeated puts of the same payload write at most once and always return
    /// the same digest.
    #[verifier::loop_isolation(false)]
    pub fn put(&mut self, payload: &PayloadValue) -> (r: Result<[u8; 32], BrainstemError>)
        requires
            old(self).wf(),
        ensures
            final(self).wf(),
            final(self).max_bytes() == old(self).max_bytes(),
            if canon_value(payload@).len() > old(self).max_bytes() {
                &&& r is Err
                &&& r->Err_0 is InvariantViolation
                &&& r->Err_0->InvariantViolation_0@ == "payload exceeds the size ceiling"@
                &&& final(self)@ == old(self)@
            } else {
                r is Ok && r->Ok_0@ == spec_payload_digest(payload@) && final(self)@
                    == spec_cas_put(old(self)@, payload@)
            },
    {
        let bytes = encode_value_bytes(payload);
        if bytes.len() > self.max_bytes {
            return Err(
                BrainstemError::InvariantViolation("payload exceeds the size ceiling".to_owned()),
            );
        }
        let digest = payload_digest(payload);
        let mut i: usize = 0;
        while i < self.entries.len()
            invariant
                i <= self.entries@.len(),
                forall|j: int| 0 <= j < i ==> #[trigger] self.entries@[j].digest@ != digest@,
            decreases self.entries@.len() - i,
        {
            if hash_eq(&self.entries[i].digest, &digest) {
                proof {
                    lemma_cas_map_lookup(self.entries@, i as int);
                }
                return Ok(digest);
            }
            i += 1;
        }
        proof {
            lemma_cas_map_contains(self.entries@, digest@);
        }
        self.entries.push(CasEntry { digest, bytes });
        proof {
            assert(self.entries@.drop_last() =~= old(self).entries@);
        }
        Ok(digest)
    }

    /// Load the stored bytes under a digest, if present.
    #[verifier::loop_isolation(false)]
    pub fn get(&self, digest: &[u8; 32]) -> (r: Option<Vec<u8>>)
        requires
            self.wf(),
        ensures
            match r {
                Some(b) => self@.contains_key(digest@) && b@ == self@[digest@],
                None => !self@.contains_key(digest@),
            },
    {
        let mut i: usize = 0;
        while i < self.entries.len()
            invariant
                i <= self.entries@.len(),
                forall|j: int| 0 <= j < i ==> #[trigger] self.entries@[j].digest@ != digest@,
            decreases self.entries@.len() - i,
        {
            if hash_eq(&self.entries[i].digest, digest) {
                proof {
                    lemma_cas_map_lookup(self.entries@, i as int);
                }
                let mut out: Vec<u8> = Vec::new();
                let bytes = &self.entries[i].bytes;
                let mut j: usize = 0;
                while j < bytes.len()
                    invariant
                        j <= bytes@.len(),
                        out@ =~= bytes@.take(j as int),
                    decreases bytes@.len() - j,
                {
                    out.push(bytes[j]);
                    proof {
                        assert(out@ =~= bytes@.take(j + 1 as int));
                    }
                    j += 1;
                }
                proof {
                    assert(bytes@.take(bytes@.len() as int) =~= bytes@);
                }
                return Some(out);
            }
            i += 1;
        }
        proof {
            lemma_cas_map_contains(self.entries@, digest@);
        }
        None
    }
}

/// The index list map: channel or domain to the ordered log offsets.
spec fn idx_map_of(s: Seq<(String, Vec<usize>)>) -> Map<Seq<char>, Seq<usize>>
    decreases s.len(),
{
    if s.len() == 0 {
        Map::empty()
    } else {
        idx_map_of(s.drop_last()).insert(s.last().0@, s.last().1@)
    }
}

spec fn idx_unique(s: Seq<(String, Vec<usize>)>) -> bool {
    forall|i: int, j: int| 0 <= i < j < s.len() ==> s[i].0@ != s[j].0@
}

proof fn lemma_idx_map_contains(s: Seq<(String, Vec<usize>)>, k: Seq<char>)
    ensures
        idx_map_of(s).contains_key(k) <==> exists|i: int| 0 <= i < s.len() && s[i].0@ == k,
    decreases s.len(),
{
    if s.len() > 0 {
        lemma_idx_map_contains(s.drop_last(), k);
        if idx_map_of(s).contains_key(k) {
            if s.last().0@ != k {
                let i = choose|i: int| 0 <= i < s.drop_last().len() && s.drop_last()[i].0@ == k;
                assert(s[i].0@ == k);
            }
        }
        if exists|i: int| 0 <= i < s.len() && s[i].0@ == k {
            let i = choose|i: int| 0 <= i < s.len() && s[i].0@ == k;
            if i < s.len() - 1 {
                assert(s.drop_last()[i].0@ == k);
            }
        }
    }
}

proof fn lemma_idx_map_lookup(s: Seq<(String, Vec<usize>)>, i: int)
    requires
        idx_unique(s),
        0 <= i < s.len(),
    ensures
        idx_map_of(s).contains_key(s[i].0@),
        idx_map_of(s)[s[i].0@] == s[i].1@,
    decreases s.len(),
{
    if i == s.len() - 1 {
    } else {
        assert(s.drop_last()[i] == s[i]);
        lemma_idx_map_lookup(s.drop_last(), i);
        assert(s[i].0@ != s.last().0@);
    }
}

proof fn lemma_idx_map_update(s: Seq<(String, Vec<usize>)>, i: int, e: (String, Vec<usize>))
    requires
        idx_unique(s),
        0 <= i < s.len(),
        e.0@ == s[i].0@,
    ensures
        idx_map_of(s.update(i, e)) == idx_map_of(s).insert(e.0@, e.1@),
    decreases s.len(),
{
    let t = s.update(i, e);
    if i == s.len() - 1 {
        assert(t.drop_last() =~= s.drop_last());
        assert(idx_map_of(t) =~= idx_map_of(s).insert(e.0@, e.1@));
    } else {
        assert(t.drop_last() =~= s.drop_last().update(i, e));
        assert(s.drop_last()[i] == s[i]);
        lemma_idx_map_update(s.drop_last(), i, e);
        assert(s[i].0@ != s.last().0@);
        assert(t.last() == s.last());
        assert(idx_map_of(t) =~= idx_map_of(s).insert(e.0@, e.1@));
    }
}

/// An index map after recording offset `i` under key `k`: the offset is
/// appended to the key's list, which starts empty for a new key.
pub open spec fn spec_index_push(
    m: Map<Seq<char>, Seq<usize>>,
    k: Seq<char>,
    i: usize,
) -> Map<Seq<char>, Seq<usize>> {
    m.insert(
        k,
        (if m.contains_key(k) {
            m[k]
        } else {
            Seq::empty()
        }).push(i),
    )
}

/// Record offset `idx` under `key` in an index list.
#[verifier::loop_isolation(false)]
fn idx_bump(list: &mut Vec<(String, Vec<usize>)>, key: &str, idx: usize)
    requires
        idx_unique(old(list)@),
    ensures
        idx_unique(final(list)@),
        idx_map_of(final(list)@) == spec_index_push(idx_map_of(old(list)@), key@, idx),
{
    let ghost old_list = list@;
    let mut i: usize = 0;
    while i < list.len()
        invariant
            list@ == old_list,
            i <= old_list.len(),
            forall|j: int| 0 <= j < i ==> #[trigger] old_list[j].0@ != key@,
        decreases old_list.len() - i,
    {
        if str_eq(list[i].0.as_str(), key) {
            proof {
                lemma_idx_map_lookup(old_list, i as int);
            }
            let pair = list.remove(i);
            let (k, mut v) = pair;
            v.push(idx);
            list.insert(i, (k, v));
            proof {
                let e = list@[i as int];
                assert(list@ =~= old_list.update(i as int, e));
                lemma_idx_map_update(old_list, i as int, e);
                assert(idx_map_of(list@) =~= spec_index_push(idx_map_of(old_list), key@, idx));
            }
            return ;
        }
        i += 1;
    }
    proof {
        lemma_idx_map_contains(old_list, key@);
    }
    let mut v: Vec<usize> = Vec::new();
    v.push(idx);
    list.push((key.to_owned(), v));
    proof {
        assert(list@.drop_last() =~= old_list);
        assert(v@ =~= Seq::<usize>::empty().push(idx));
        assert(idx_map_of(list@) =~= spec_index_push(idx_map_of(old_list), key@, idx));
    }
}

/// Look up the offsets recorded under `key`, empty when absent.
#[verifier::loop_isolation(false)]
fn idx_lookup(list: &Vec<(String, Vec<usize>)>, key: &str) -> (r: Vec<usize>)
    requires
        idx_unique(list@),
    ensures
        r@ == (if idx_map_of(list@).contains_key(key@) {
            idx_map_of(list@)[key@]
        } else {
            Seq::<usize>::empty()
        }),
{
    let mut i: usize = 0;
    while i < list.len()
        invariant
            i <= list@.len(),
            forall|j: int| 0 <= j < i ==> #[trigger] list@[j].0@ != key@,
        decreases list@.len() - i,
    {
        if str_eq(list[i].0.as_str(), key) {
            proof {
                lemma_idx_map_lookup(list@, i as int);
            }
            let src = &list[i].1;
            let mut out: Vec<usize> = Vec::new();
            let mut j: usize = 0;
            while j < src.len()
                invariant
                    j <= src@.len(),
                    out@ =~= src@.take(j as int),
                decreases src@.len() - j,
            {
                out.push(src[j]);
                proof {
                    assert(out@ =~= src@.take(j + 1 as int));
                }
                j += 1;
            }
            proof {
                assert(src@.take(src@.len() as int) =~= src@);
            }
            return out;
        }
        i += 1;
    }
    proof {
        lemma_idx_map_contains(list@, key@);
    }
    Vec::new()
}

/// Secondary mappings from channel name and from the payload's `domain`
/// field to the ordered log offsets, in append order.
pub struct DomainIndex {
    by_channel: Vec<(String, Vec<usize>)>,
    by_domain: Vec<(String, Vec<usize>)>,
}

impl DomainIndex {
    /// Each key appears once per mapping.
    pub closed spec fn wf(&self) -> bool {
        idx_unique(self.by_channel@) && idx_unique(self.by_domain@)
    }

    /// Offsets per channel name.
    pub closed spec fn channels(&self) -> Map<Seq<char>, Seq<usize>> {
        idx_map_of(self.by_channel@)
    }

    /// Offsets per payload domain.
    pub closed spec fn domains(&self) -> Map<Seq<char>, Seq<usize>> {
        idx_map_of(self.by_domain@)
    }

    /// Create an empty index.
    pub fn new() -> (r: DomainIndex)
        ensures
            r.wf(),
            r.channels() == Map::<Seq<char>, Seq<usize>>::empty(),
            r.domains() == Map::<Seq<char>, Seq<usize>>::empty(),
    {
        DomainIndex { by_channel: Vec::new(), by_domain: Vec::new() }
    }

    /// Record an appended envelope: its offset is appended to its channel's
    /// list, and to its domain's list when the payload carries a string
    /// `domain` field.
    pub fn index_envelope(&mut self, idx: usize, env: &Envelope)
        requires
            old(self).wf(),
        ensures
            final(self).wf(),
            final(self).channels() == spec_index_push(
                old(self).channels(),
                env@.header.channel,
                idx,
            ),
            final(self).domains() == (match spec_lookup_text(env@.body.payload, "domain"@) {
                Some(d) => spec_index_push(old(self).domains(), d, idx),
                None => old(self).domains(),
            }),
    {
        idx_bump(&mut self.by_channel, env.header.channel.as_str(), idx);
        match env.body.payload.lookup_text("domain") {
            Some(domain) => {
                idx_bump(&mut self.by_domain, domain.as_str(), idx);
            },
            None => {},
        }
    }

    /// The offsets of the envelopes appended on `channel`, in append order.
    pub fn offsets_for_channel(&self, channel: &str) -> (r: Vec<usize>)
        requires
            self.wf(),
        ensures
            r@ == (if self.channels().contains_key(channel@) {
                self.channels()[channel@]
            } else {
                Seq::<usize>::empty()
            }),
    {
        idx_lookup(&self.by_channel, channel)
    }

    /// The offsets of the envelopes whose payload `domain` equals `domain`,
    /// in append order.
    pub fn offsets_for_domain(&self, domain: &str) -> (r: Vec<usize>)
        requires
            self.wf(),
        ensures
            r@ == (if self.domains().contains_key(domain@) {
                self.domains()[domain@]
            } else {
                Seq::<usize>::empty()
            }),
    {
        idx_lookup(&self.by_domain, domain)
    }
}

/// The payload keys the orchestrator always rejects.
pub open spec fn spec_reserved(v: ValueV) -> bool {
    spec_has_key(v, "dynamic_code"@) || spec_has_key(v, "shared_memory"@)
}

/// The message carried when a reserved key is rejected.
pub open spec fn spec_reserved_message(v: ValueV) -> Seq<char> {
    if spec_has_key(v, "dynamic_code"@) {
        "dynamic code payloads are not permitted"@
    } else {
        "shared memory references are not permitted"@
    }
}

/// Reject payloads that carry reserved keys, naming the offending key in the
/// carried message; a payload with both reserved keys is reported for the
/// dynamic-code key.
pub fn enforce_invariants(payload: &PayloadValue) -> (r: Result<(), BrainstemError>)
    ensures
        match r {
            Ok(_) => !spec_reserved(payload@),
            Err(e) => {
                &&& spec_reserved(payload@)
                &&& e is InvariantViolation
                &&& e->InvariantViolation_0@ == spec_reserved_message(payload@)
            },
        },
{
    if payload.has_key("dynamic_code") {
        return Err(
            BrainstemError::InvariantViolation(
                "dynamic code payloads are not permitted".to_owned(),
            ),
        );
    }
    if payload.has_key("shared_memory") {
        return Err(
            BrainstemError::InvariantViolation(
                "shared memory references are not permitted".to_owned(),
            ),
        );
    }
    Ok(())
}

/// The single-writer front door: the only authority that mutates the log, the
/// payload store, the domain index and the checkpoint writer.
pub struct BrainstemLedger {
    log: AppendLog,
    registry: ChannelRegistry,
    store: ContentAddressableStore,
    checkpoint_writer: CheckpointWriter,
    checkpoint_interval: usize,
    alerts: Vec<Alert>,
    index: DomainIndex,
}

impl BrainstemLedger {
    /// All components well-formed.
    pub closed spec fn wf(&self) -> bool {
        self.log.wf() && self.registry.wf() && self.store.wf() && self.index.wf()
    }

    /// The envelopes appended so far.
    pub closed spec fn log_view(&self) -> Seq<EnvelopeV> {
        self.log@
    }

    /// The registry in force.
    pub closed spec fn registry_view(&self) -> Map<Seq<char>, PolicyV> {
        self.registry@
    }

    /// The payload store contents.
    pub closed spec fn store_view(&self) -> Map<Seq<u8>, Seq<u8>> {
        self.store@
    }

    /// The payload size ceiling.
    pub closed spec fn max_payload_bytes(&self) -> usize {
        self.store.max_bytes()
    }

    /// The offsets per channel.
    pub closed spec fn channels(&self) -> Map<Seq<char>, Seq<usize>> {
        self.index.channels()
    }

    /// The offsets per payload domain.
    pub closed spec fn domains(&self) -> Map<Seq<char>, Seq<usize>> {
        self.index.domains()
    }

    /// The error fields of the alerts recorded so far.
    pub closed spec fn alerts_view(&self) -> Seq<Option<ValidationError>> {
        self.alerts@.map_values(|a: Alert| a.error)
    }

    /// Create an orchestrator over an empty log, an empty store with the
    /// given payload ceiling, and the given checkpoint interval.
    pub fn new(registry: ChannelRegistry, max_payload_bytes: usize, checkpoint_interval: usize) -> (r:
        BrainstemLedger)
        requires
            registry.wf(),
        ensures
            r.wf(),
            r.log_view() == Seq::<EnvelopeV>::empty(),
            r.registry_view() == registry@,
            r.store_view() == Map::<Seq<u8>, Seq<u8>>::empty(),
            r.max_payload_bytes() == max_payload_bytes,
            r.alerts_view() == Seq::<Option<ValidationError>>::empty(),
            r.channels() == Map::<Seq<char>, Seq<usize>>::empty(),
            r.domains() == Map::<Seq<char>, Seq<usize>>::empty(),
    {
        let r = BrainstemLedger {
            log: AppendLog::new(),
            registry,
            store: ContentAddressableStore::new(max_payload_bytes),
            checkpoint_writer: CheckpointWriter::new(),
            checkpoint_interval,
            alerts: Vec::new(),
            index: DomainIndex::new(),
        };
        proof {
            assert(r.alerts_view() =~= Seq::<Option<ValidationError>>::empty());
        }
        r
    }

    /// Append an envelope through the full pipeline: reserved-key invariants,
    /// hash self-checks, validation against the log tail, payload storage,
    /// the validated log append, domain indexing, and a receipt whose
    /// inclusion proof folds back to the returned Merkle root. Errors leave
    /// the log, store and index unchanged and record one alert.
    #[verifier::rlimit(100)]
    pub fn append(&mut self, env: Envelope) -> (r: Result<Receipt, BrainstemError>)
        requires
            old(self).wf(),
        ensures
            final(self).wf(),
            final(self).registry_view() == old(self).registry_view(),
            final(self).max_payload_bytes() == old(self).max_payload_bytes(),
            ({
                let tail = spec_tail_state(old(self).log_view());
                let filled = spec_fill_prev(env@, tail.last_hash);
                let newlog = old(self).log_view().push(filled);
                if spec_reserved(env@.body.payload) {
                    &&& r is Err
                    &&& r->Err_0 is InvariantViolation
                    &&& r->Err_0->InvariantViolation_0@ == spec_reserved_message(env@.body.payload)
                    &&& final(self).log_view() == old(self).log_view()
                    &&& final(self).store_view() == old(self).store_view()
                    &&& final(self).channels() == old(self).channels()
                    &&& final(self).domains() == old(self).domains()
                    &&& final(self).alerts_view() == old(self).alerts_view().push(None)
                } else {
                    match spec_validate(filled, old(self).registry_view(), tail) {
                        Err(e) => {
                            &&& r is Err
                            &&& r->Err_0 is Validation
                            &&& r->Err_0->Validation_0 == e
                            &&& final(self).log_view() == old(self).log_view()
                            &&& final(self).store_view() == old(self).store_view()
                            &&& final(self).channels() == old(self).channels()
                            &&& final(self).domains() == old(self).domains()
                            &&& final(self).alerts_view() == old(self).alerts_view().push(Some(e))
                        },
                        Ok(_) => {
                            if canon_value(env@.body.payload).len() > old(
                                self,
                            ).max_payload_bytes() {
                                &&& r is Err
                                &&& r->Err_0 is InvariantViolation
                                &&& r->Err_0->InvariantViolation_0@
                                    == "payload exceeds the size ceiling"@
                                &&& final(self).log_view() == old(self).log_view()
                                &&& final(self).store_view() == old(self).store_view()
                                &&& final(self).channels() == old(self).channels()
                                &&& final(self).domains() == old(self).domains()
                                &&& final(self).alerts_view() == old(self).alerts_view().push(None)
                            } else {
                                &&& r is Ok
                                &&& final(self).log_view() == newlog
                                &&& final(self).store_view() == spec_cas_put(
                                    old(self).store_view(),
                                    env@.body.payload,
                                )
                                &&& final(self).channels() == spec_index_push(
                                    old(self).channels(),
                                    filled.header.channel,
                                    old(self).log_view().len() as usize,
                                )
                                &&& final(self).domains() == (match spec_lookup_text(
                                    env@.body.payload,
                                    "domain"@,
                                ) {
                                    Some(d) => spec_index_push(
                                        old(self).domains(),
                                        d,
                                        old(self).log_view().len() as usize,
                                    ),
                                    None => old(self).domains(),
                                })
                                &&& final(self).alerts_view() == old(self).alerts_view()
                                &&& r->Ok_0.index == old(self).log_view().len()
                                &&& r->Ok_0.envelope_hash@ == spec_envelope_hash(filled)
                                &&& r->Ok_0.merkle_root@ == merkle_root_of(leaves_of(newlog))
                                &&& hashes_of(r->Ok_0.merkle_proof@) == proof_for(
                                    leaves_of(newlog),
                                    r->Ok_0.index as int,
                                )
                                &&& fold_proof(
                                    r->Ok_0.envelope_hash@,
                                    hashes_of(r->Ok_0.merkle_proof@),
                                    r->Ok_0.index as int,
                                ) == r->Ok_0.merkle_root@
                            }
                        },
                    }
                }
            }),
    {
        match enforce_invariants(&env.body.payload) {
            Ok(_) => {},
            Err(e) => {
                self.alerts.push(
                    Alert { message: "reserved payload key rejected".to_owned(), error: None },
                );
                proof {
                    assert(self.alerts_view() =~= old(self).alerts_view().push(None));
                }
                return Err(e);
            },
        }
        let ghost tail = spec_tail_state(self.log@);
        let ghost filled0 = spec_fill_prev(env@, tail.last_hash);
        // Fill the chain link from the log tail, then self-check and validate
        // before anything is stored.
        let mut env = env;
        let prior = self.tail_state();
        if env.header.prev.is_none() {
            env.header.prev = prior.last_hash;
        }
        proof {
            assert(env@ == filled0);
        }
        match crate::validate::validate_envelope(&env, &self.registry, &prior) {
            Ok(_) => {},
            Err(e) => {
                self.alerts.push(
                    Alert { message: "validation failure".to_owned(), error: Some(e) },
                );
                proof {
                    assert(self.alerts_view() =~= old(self).alerts_view().push(Some(e)));
                }
                return Err(BrainstemError::Validation(e));
            },
        }
        // Store the payload; oversize payloads are rejected before the log
        // grows.
        match self.store.put(&env.body.payload) {
            Ok(_) => {},
            Err(e) => {
                self.alerts.push(
                    Alert { message: "payload exceeds the size ceiling".to_owned(), error: None },
                );
                proof {
                    assert(self.alerts_view() =~= old(self).alerts_view().push(None));
                }
                return Err(e);
            },
        }
        // Validated append; the log re-checks the same conditions.
        let index = self.log.len();
        let env_hash = envelope_hash(&env);
        proof {
            assert(spec_fill_prev(env@, tail.last_hash) == env@);
        }
        match self.log.append(env.clone(), &self.registry) {
            Ok(_) => {},
            Err(e) => {
                proof {
                    assert(false);
                }
                self.alerts.push(Alert { message: "validation failure".to_owned(), error: Some(e) });
                return Err(BrainstemError::Validation(e));
            },
        }
        self.index.index_envelope(index, &env);
        let merkle_root = match self.log.merkle_root() {
            Some(root) => root,
            None => {
                proof {
                    assert(false);
                }
                [0u8; 32]
            },
        };
        let merkle_proof = self.log.inclusion_proof(index);
        // A checkpoint emitted here always agrees with the root just
        // computed, so the disagreement case cannot arise.
        match self.checkpoint_writer.maybe_checkpoint(&self.log, self.checkpoint_interval) {
            Some(cp) => {
                proof {
                    assert(cp.root@ == merkle_root@);
                }
            },
            None => {},
        }
        proof {
            crate::merkle::lemma_proof_folds_to_root(leaves_of(self.log@), index as int);
            assert(leaves_of(self.log@)[index as int] == spec_envelope_hash(self.log@[index as int]));
        }
        Ok(Receipt { index, envelope_hash: env_hash, merkle_root, merkle_proof })
    }

    /// The channel state that the log tail induces.
    fn tail_state(&self) -> (r: crate::model::ChannelState)
        ensures
            r@ == spec_tail_state(self.log@),
    {
        let len = self.log.len();
        if len == 0 {
            crate::model::ChannelState::initial()
        } else {
            let last = self.log.read(len - 1, 1);
            proof {
                assert(last@.map_values(|e: Envelope| e@) =~= self.log@.subrange(
                    len - 1 as int,
                    len as int,
                ));
                assert(last@.map_values(|e: Envelope| e@).len() == last@.len());
                assert(last@.map_values(|e: Envelope| e@)[0] == last@[0]@);
                assert(last@[0]@ == self.log@.last());
            }
            let e = &last[0];
            crate::model::ChannelState {
                last_hash: Some(envelope_hash(e)),
                last_timestamp: Some(e.header.timestamp),
            }
        }
    }

    /// Read a slice of the log with a receipt per envelope; every receipt's
    /// proof folds back to the root current at query time.
    #[verifier::loop_isolation(false)]
    pub fn query_with_proofs(&self, offset: usize, limit: usize) -> (r: QuerySlice)
        requires
            self.wf(),
        ensures
            r.entries@.map_values(|e: Envelope| e@) == crate::log::spec_read_slice(
                self.log_view(),
                offset as int,
                limit as int,
            ),
            match r.merkle_root {
                Some(h) => self.log_view().len() > 0 && h@ == merkle_root_of(
                    leaves_of(self.log_view()),
                ),
                None => self.log_view().len() == 0,
            },
            r.receipts@.len() == r.entries@.len(),
            ({
                let start = if offset <= self.log_view().len() {
                    offset as int
                } else {
                    self.log_view().len() as int
                };
                forall|i: int|
                    0 <= i < r.receipts@.len() ==> {
                        let rc = #[trigger] r.receipts@[i];
                        &&& rc.index == start + i
                        &&& rc.envelope_hash@ == spec_envelope_hash(self.log_view()[start + i])
                        &&& rc.merkle_root@ == merkle_root_of(leaves_of(self.log_view()))
                        &&& hashes_of(rc.merkle_proof@) == proof_for(
                            leaves_of(self.log_view()),
                            start + i,
                        )
                        &&& fold_proof(
                            rc.envelope_hash@,
                            hashes_of(rc.merkle_proof@),
                            start + i,
                        ) == rc.merkle_root@
                    }
            }),
    {
        let entries = self.log.read(offset, limit);
        let merkle_root = self.log.merkle_root();
        let len = self.log.len();
        let start = if offset <= len {
            offset
        } else {
            len
        };
        let root_bytes: [u8; 32] = match &merkle_root {
            Some(h) => *h,
            None => [0u8; 32],
        };
        let mut receipts: Vec<Receipt> = Vec::new();
        let mut i: usize = 0;
        proof {
            assert(entries@.map_values(|e: Envelope| e@).len() == entries@.len());
        }
        while i < entries.len()
            invariant
                i <= entries@.len(),
                start + entries@.len() <= self.log_view().len(),
                receipts@.len() == i,
                forall|j: int|
                    0 <= j < i ==> {
                        let rc = #[trigger] receipts@[j];
                        &&& rc.index == start + j
                        &&& rc.envelope_hash@ == spec_envelope_hash(self.log_view()[start + j])
                        &&& rc.merkle_root@ == merkle_root_of(leaves_of(self.log_view()))
                        &&& hashes_of(rc.merkle_proof@) == proof_for(
                            leaves_of(self.log_view()),
                            start + j,
                        )
                        &&& fold_proof(
                            rc.envelope_hash@,
                            hashes_of(rc.merkle_proof@),
                            start + j,
                        ) == rc.merkle_root@
                    },
            decreases entries@.len() - i,
        {
            let idx = start + i;
            proof {
                assert(entries@.map_values(|e: Envelope| e@)[i as int] == entries@[i as int]@);
                assert(entries@[i as int]@ == self.log_view()[idx as int]);
            }
            let eh = envelope_hash(&entries[i]);
            let merkle_proof = self.log.inclusion_proof(idx);
            proof {
                assert(self.log_view().len() > 0);
                crate::merkle::lemma_proof_folds_to_root(leaves_of(self.log_view()), idx as int);
                assert(leaves_of(self.log_view())[idx as int] == spec_envelope_hash(
                    self.log_view()[idx as int],
                ));
            }
            receipts.push(
                Receipt { index: idx, envelope_hash: eh, merkle_root: root_bytes, merkle_proof },
            );
            i += 1;
        }
        QuerySlice { entries, receipts, merkle_root }
    }

    /// The alerts recorded so far; each carries the validation error that
    /// caused it, where there was one.
    pub fn alerts(&self) -> (r: &Vec<Alert>)
        ensures
            r@.len() == self.alerts_view().len(),
            forall|i: int| 0 <= i < r@.len() ==> #[trigger] r@[i].error == self.alerts_view()[i],
    {
        &self.alerts
    }

    /// The domain index built from all successful appends.
    pub fn domain_index(&self) -> (r: &DomainIndex)
        requires
            self.wf(),
        ensures
            r.wf(),
            r.channels() == self.channels(),
            r.domains() == self.domains(),
    {
        &self.index
    }

    /// The number of envelopes appended so far.
    pub fn len(&self) -> (r: usize)
        ensures
            r == self.log_view().len(),
    {
        self.log.len()
    }
}

} // verus!
