//! Transport state machines: the attestation handshake, the in-process queue
//! with bounded broadcast fan-out and backpressure, the loopback adapter, the
//! bounded mailbox, the framed IPC protocol, and the remote adapter's
//! per-call admission gate.
//!
//! Everything here is the decision logic of the transports; sockets, tasks
//! and streams live outside the library and drive these machines.
use vstd::prelude::*;

use crate::bytes::{hash_eq, str_eq};
use vstd::pervasive::unreached;
use vstd::pervasive::VecAdditionalExecFns;
use crate::codec::encode_envelope;
use crate::hashes::{hash_attestation_statement, spec_hash_statement};
use crate::log::{spec_fill_prev, spec_read_slice, spec_tail_state, AppendLog};
use crate::model::{Attestation, AttestationV, Envelope, EnvelopeV, StatementV};
use crate::registry::{ChannelRegistry, PolicyV};
use crate::validate::{spec_validate, ValidationError};

verus! {

/// Errors surfaced by transports.
#[derive(Debug)]
pub enum TransportError {
    /// The broadcast queue is full; retriable.
    Backpressure,
    /// The attestation handshake failed.
    PermissionDenied,
    /// A malformed or unexpected frame.
    Frame,
    /// The envelope failed validation.
    Validation(ValidationError),
    /// An underlying transport condition, described in text.
    Transport(String),
    /// The adapter is not implemented.
    Unsupported,
}

/// The default broadcast queue depth.
pub const DEFAULT_QUEUE_DEPTH: usize = 1024;

/// Attestation handshake parameters enforced per adapter and per call.
pub struct AttestationHandshake {
    /// Nonce bound into the attestation evidence.
    pub nonce: String,
    /// Expected runtime identity, if pinned.
    pub expected_runtime_id: Option<String>,
    /// Expected attestation statement hash, if pre-shared.
    pub expected_statement_hash: Option<[u8; 32]>,
    /// Evidence presented by the peer.
    pub presented: Option<Attestation>,
}

/// View of a handshake.
pub ghost struct HandshakeV {
    pub nonce: Seq<char>,
    pub expected_runtime_id: Option<Seq<char>>,
    pub expected_statement_hash: Option<Seq<u8>>,
    pub presented: Option<AttestationV>,
}

impl View for AttestationHandshake {
    type V = HandshakeV;

    open spec fn view(&self) -> HandshakeV {
        HandshakeV {
            nonce: self.nonce@,
            expected_runtime_id: match &self.expected_runtime_id {
                Some(s) => Some(s@),
                None => None,
            },
            expected_statement_hash: match self.expected_statement_hash {
                Some(h) => Some(h@),
                None => None,
            },
            presented: match &self.presented {
                Some(a) => Some(a@),
                None => None,
            },
        }
    }
}

/// Whether a handshake passes: an expectation with no presented attestation
/// denies; a presented statement whose canonical hash differs from the
/// expected one denies; a presented Runtime statement whose runtime id
/// differs from the expected one denies.
pub open spec fn spec_handshake_ok(h: HandshakeV) -> bool {
    match h.presented {
        None => h.expected_runtime_id is None && h.expected_statement_hash is None,
        Some(att) => {
            &&& (match h.expected_statement_hash {
                Some(e) => spec_hash_statement(att.statement) == e,
                None => true,
            })
            &&& (match (h.expected_runtime_id, att.statement) {
                (Some(rid), StatementV::Runtime { runtime_id, .. }) => runtime_id == rid,
                _ => true,
            })
        },
    }
}

impl AttestationHandshake {
    /// Verify that the presented attestation satisfies the expectations;
    /// denial is `PermissionDenied`.
    pub fn verify(&self) -> (r: Result<(), TransportError>)
        ensures
            r is Ok <==> spec_handshake_ok(self@),
            r is Err ==> r->Err_0 is PermissionDenied,
    {
        match &self.presented {
            None => {
                if self.expected_runtime_id.is_some() || self.expected_statement_hash.is_some() {
                    Err(TransportError::PermissionDenied)
                } else {
                    Ok(())
                }
            },
            Some(att) => {
                let computed = hash_attestation_statement(&att.statement);
                match &self.expected_statement_hash {
                    Some(expected) => {
                        if !hash_eq(expected, &computed) {
                            return Err(TransportError::PermissionDenied);
                        }
                    },
                    None => {},
                }
                match (&self.expected_runtime_id, &att.statement) {
                    (
                        Some(expected_runtime),
                        crate::model::AttestationStatement::Runtime { runtime_id, .. },
                    ) => {
                        if !str_eq(runtime_id.as_str(), expected_runtime.as_str()) {
                            return Err(TransportError::PermissionDenied);
                        }
                    },
                    _ => {},
                }
                Ok(())
            },
        }
    }

    /// Deep copy; the copy has the same view.
    pub fn duplicate(&self) -> (r: AttestationHandshake)
        ensures
            r@ == self@,
    {
        AttestationHandshake {
            nonce: self.nonce.clone(),
            expected_runtime_id: match &self.expected_runtime_id {
                Some(s) => Some(s.clone()),
                None => None,
            },
            expected_statement_hash: self.expected_statement_hash,
            presented: match &self.presented {
                Some(a) => Some(a.clone()),
                None => None,
            },
        }
    }
}

/// The handshake a server checks: its own template's expectations, with the
/// caller's presented evidence substituted when the caller supplied any.
pub open spec fn spec_merged_handshake(
    expected: Option<HandshakeV>,
    provided: Option<HandshakeV>,
) -> HandshakeV {
    match expected {
        Some(t) => match provided {
            Some(p) => HandshakeV { presented: p.presented, ..t },
            None => t,
        },
        None => match provided {
            Some(p) => p,
            None => HandshakeV {
                nonce: Seq::empty(),
                expected_runtime_id: None,
                expected_statement_hash: None,
                presented: None,
            },
        },
    }
}

/// View of an optional handshake.
pub open spec fn opt_handshake_view(o: &Option<AttestationHandshake>) -> Option<HandshakeV> {
    match o {
        Some(h) => Some(h@),
        None => None,
    }
}

/// Verify a caller-supplied handshake against the server's expected template.
/// The template's expectations always apply; the caller contributes only the
/// presented evidence. Denial is `PermissionDenied`.
pub fn verify_with_expected(
    expected: &Option<AttestationHandshake>,
    provided: Option<AttestationHandshake>,
) -> (r: Result<(), TransportError>)
    ensures
        r is Ok <==> spec_handshake_ok(
            spec_merged_handshake(opt_handshake_view(expected), opt_handshake_view(&provided)),
        ),
        r is Err ==> r->Err_0 is PermissionDenied,
{
    let merged: AttestationHandshake = match expected {
        Some(template) => {
            let mut h = template.duplicate();
            match provided {
                Some(p) => {
                    h.presented = p.presented;
                    h
                },
                None => h,
            }
        },
        None => match provided {
            Some(p) => p,
            None => AttestationHandshake {
                nonce: String::new(),
                expected_runtime_id: None,
                expected_statement_hash: None,
                presented: None,
            },
        },
    };
    proof {
        assert(merged@ == spec_merged_handshake(
            opt_handshake_view(expected),
            opt_handshake_view(&provided),
        ));
    }
    merged.verify()
}

/// A bounded broadcast queue: a history of published envelopes and one cursor
/// per subscriber. Publishing fails with backpressure when some subscriber
/// lags by the full depth.
pub struct BroadcastQueue {
    depth: usize,
    events: Vec<Envelope>,
    cursors: Vec<usize>,
}

impl BroadcastQueue {
    /// The configured depth.
    pub closed spec fn depth(&self) -> usize {
        self.depth
    }

    /// All envelopes published so far.
    pub closed spec fn events(&self) -> Seq<EnvelopeV> {
        self.events@.map_values(|e: Envelope| e@)
    }

    /// One read position per subscriber.
    pub closed spec fn cursors(&self) -> Seq<usize> {
        self.cursors@
    }

    /// Cursors never pass the end of the history, and the depth is positive.
    pub closed spec fn wf(&self) -> bool {
        &&& forall|i: int| 0 <= i < self.cursors@.len() ==> #[trigger] self.cursors@[i]
            <= self.events@.len()
        &&& self.depth >= 1
    }

    /// Whether some subscriber has a full queue's worth of undelivered
    /// envelopes.
    pub open spec fn saturated(&self) -> bool {
        exists|i: int|
            0 <= i < self.cursors().len() && #[trigger] self.cursors()[i] + self.depth()
                <= self.events().len()
    }

    /// Create a queue; a depth of zero is raised to one.
    pub fn new(depth: usize) -> (r: BroadcastQueue)
        ensures
            r.wf(),
            r.depth() == (if depth >= 1 {
                depth
            } else {
                1
            }),
            r.events() == Seq::<EnvelopeV>::empty(),
            r.cursors() == Seq::<usize>::empty(),
    {
        let d = if depth >= 1 {
            depth
        } else {
            1
        };
        let r = BroadcastQueue { depth: d, events: Vec::new(), cursors: Vec::new() };
        proof {
            assert(r.events() =~= Seq::<EnvelopeV>::empty());
        }
        r
    }

    /// Register a new subscriber; it observes every envelope published after
    /// this call, in order.
    pub fn subscribe(&mut self) -> (r: usize)
        requires
            old(self).wf(),
        ensures
            final(self).wf(),
            r == old(self).cursors().len(),
            final(self).cursors() == old(self).cursors().push(old(self).events().len() as usize),
            final(self).events() == old(self).events(),
            final(self).depth() == old(self).depth(),
    {
        let id = self.cursors.len();
        let pos = self.events.len();
        self.cursors.push(pos);
        proof {
            assert(pos == old(self).events().len());
        }
        id
    }

    /// Whether some subscriber currently lags by the full depth.
    #[verifier::loop_isolation(false)]
    pub fn is_saturated(&self) -> (r: bool)
        requires
            self.wf(),
        ensures
            r == self.saturated(),
    {
        let mut i: usize = 0;
        while i < self.cursors.len()
            invariant
                i <= self.cursors@.len(),
                forall|j: int| 0 <= j < i ==> #[trigger] self.cursors@[j] + self.depth
                    > self.events@.len(),
            decreases self.cursors@.len() - i,
        {
            if self.events.len() - self.cursors[i] >= self.depth {
                proof {
                    assert(self.cursors()[i as int] + self.depth() <= self.events().len());
                }
                return true;
            }
            i += 1;
        }
        false
    }

    /// Publish an envelope to all subscribers, unless one of them is a full
    /// depth behind; then nothing changes and the caller sees backpressure.
    #[verifier::loop_isolation(false)]
    pub fn try_publish(&mut self, env: Envelope) -> (r: Result<(), TransportError>)
        requires
            old(self).wf(),
        ensures
            final(self).wf(),
            final(self).depth() == old(self).depth(),
            final(self).cursors() == old(self).cursors(),
            if old(self).saturated() {
                r is Err && r->Err_0 is Backpressure && final(self).events() == old(self).events()
            } else {
                r is Ok && final(self).events() == old(self).events().push(env@)
            },
    {
        if self.is_saturated() {
            return Err(TransportError::Backpressure);
        }
        self.events.push(env);
        proof {
            assert(self.events() =~= old(self).events().push(env@));
        }
        Ok(())
    }

    /// The backpressure bound: a subscriber that never drains saturates the
    /// queue once the published history outruns its cursor by the full depth,
    /// and every publish from then on is refused, so the log and the history
    /// cannot advance past those envelopes until the subscriber drains.
    pub proof fn lemma_backpressure_bound(&self, sub: int)
        requires
            0 <= sub < self.cursors().len(),
            self.cursors()[sub] + self.depth() <= self.events().len(),
        ensures
            self.saturated(),
    {
    }

    /// Receive the next undelivered envelope for subscriber `sub`, if any.
    pub fn recv(&mut self, sub: usize) -> (r: Option<Envelope>)
        requires
            old(self).wf(),
            sub < old(self).cursors().len(),
        ensures
            final(self).wf(),
            final(self).events() == old(self).events(),
            final(self).depth() == old(self).depth(),
            if old(self).cursors()[sub as int] < old(self).events().len() {
                r is Some && r->0@ == old(self).events()[old(self).cursors()[sub as int] as int]
                    && final(self).cursors() == old(self).cursors().update(
                    sub as int,
                    (old(self).cursors()[sub as int] + 1) as usize,
                )
            } else {
                r is None && final(self).cursors() == old(self).cursors()
            },
    {
        let pos = self.cursors[sub];
        if pos < self.events.len() {
            let e = self.events[pos].clone();
            self.cursors.set(sub, pos + 1);
            Some(e)
        } else {
            None
        }
    }
}

/// In-process transport: an append-only log with broadcast fan-out. Appends
/// check backpressure before anything is committed, so a refused append
/// leaves the log unchanged.
pub struct InVmQueue {
    log: AppendLog,
    registry: ChannelRegistry,
    queue: BroadcastQueue,
}

impl InVmQueue {
    /// Components well-formed.
    pub closed spec fn wf(&self) -> bool {
        self.log.wf() && self.registry.wf() && self.queue.wf()
    }

    /// The envelopes appended so far.
    pub closed spec fn log_view(&self) -> Seq<EnvelopeV> {
        self.log@
    }

    /// The registry in force.
    pub closed spec fn registry_view(&self) -> Map<Seq<char>, PolicyV> {
        self.registry@
    }

    /// The broadcast side.
    pub closed spec fn queue_view(&self) -> BroadcastQueue {
        self.queue
    }

    /// Create a queue with an empty registry and the default depth.
    pub fn new() -> (r: InVmQueue)
        ensures
            r.wf(),
            r.log_view() == Seq::<EnvelopeV>::empty(),
            r.registry_view() == Map::<Seq<char>, PolicyV>::empty(),
            r.queue_view().depth() == DEFAULT_QUEUE_DEPTH,
            r.queue_view().events() == Seq::<EnvelopeV>::empty(),
            r.queue_view().cursors() == Seq::<usize>::empty(),
    {
        Self::with_registry(ChannelRegistry::new())
    }

    /// Create a queue with an explicit registry and the default depth.
    pub fn with_registry(registry: ChannelRegistry) -> (r: InVmQueue)
        requires
            registry.wf(),
        ensures
            r.wf(),
            r.log_view() == Seq::<EnvelopeV>::empty(),
            r.registry_view() == registry@,
            r.queue_view().depth() == DEFAULT_QUEUE_DEPTH,
            r.queue_view().events() == Seq::<EnvelopeV>::empty(),
            r.queue_view().cursors() == Seq::<usize>::empty(),
    {
        Self::with_log(AppendLog::new(), registry, DEFAULT_QUEUE_DEPTH)
    }

    /// Create a queue over a provided log with an explicit depth; a depth of
    /// zero is raised to one.
    pub fn with_log(log: AppendLog, registry: ChannelRegistry, queue_depth: usize) -> (r: InVmQueue)
        requires
            log.wf(),
            registry.wf(),
        ensures
            r.wf(),
            r.log_view() == log@,
            r.registry_view() == registry@,
            r.queue_view().depth() == (if queue_depth >= 1 {
                queue_depth
            } else {
                1
            }),
            r.queue_view().events() == Seq::<EnvelopeV>::empty(),
            r.queue_view().cursors() == Seq::<usize>::empty(),
    {
        InVmQueue { log, registry, queue: BroadcastQueue::new(queue_depth) }
    }

    /// Append an envelope: refuse with backpressure while a subscriber is a
    /// full depth behind, validate against the log tail otherwise, and
    /// publish to all subscribers on success. A refused or invalid append
    /// leaves the log unchanged.
    pub fn append(&mut self, env: Envelope) -> (r: Result<(), TransportError>)
        requires
            old(self).wf(),
        ensures
            final(self).wf(),
            final(self).registry_view() == old(self).registry_view(),
            final(self).queue_view().depth() == old(self).queue_view().depth(),
            final(self).queue_view().cursors() == old(self).queue_view().cursors(),
            ({
                let tail = spec_tail_state(old(self).log_view());
                let filled = spec_fill_prev(env@, tail.last_hash);
                if old(self).queue_view().saturated() {
                    &&& r is Err
                    &&& r->Err_0 is Backpressure
                    &&& final(self).log_view() == old(self).log_view()
                    &&& final(self).queue_view().events() == old(self).queue_view().events()
                } else {
                    match spec_validate(filled, old(self).registry_view(), tail) {
                        Ok(_) => {
                            &&& r is Ok
                            &&& final(self).log_view() == old(self).log_view().push(filled)
                            &&& final(self).queue_view().events() == old(
                                self,
                            ).queue_view().events().push(filled)
                        },
                        Err(e) => {
                            &&& r is Err
                            &&& r->Err_0 is Validation
                            &&& r->Err_0->Validation_0 == e
                            &&& final(self).log_view() == old(self).log_view()
                            &&& final(self).queue_view().events() == old(
                                self,
                            ).queue_view().events()
                        },
                    }
                }
            }),
    {
        if self.queue.is_saturated() {
            return Err(TransportError::Backpressure);
        }
        let ghost tail = spec_tail_state(self.log@);
        let ghost filled = spec_fill_prev(env@, tail.last_hash);
        match self.log.append(env, &self.registry) {
            Ok(_) => {},
            Err(e) => {
                return Err(TransportError::Validation(e));
            },
        }
        // Deliver the filled envelope the log now ends with.
        let len = self.log.len();
        let mut got = self.log.read(len - 1, 1);
        proof {
            assert(got@.map_values(|e: Envelope| e@).len() == got@.len());
            assert(got@.map_values(|e: Envelope| e@)[0] == got@[0]@);
            assert(got@[0]@ == filled);
        }
        let filled_env = match got.pop() {
            Some(e) => e,
            None => unreached(),
        };
        match self.queue.try_publish(filled_env) {
            Ok(_) => Ok(()),
            Err(_) => {
                proof {
                    assert(false);
                }
                Ok(())
            },
        }
    }

    /// Read a slice of the log.
    pub fn read(&self, offset: usize, limit: usize) -> (r: Result<Vec<Envelope>, TransportError>)
        ensures
            r is Ok,
            r->Ok_0@.map_values(|e: Envelope| e@) == spec_read_slice(
                self.log_view(),
                offset as int,
                limit as int,
            ),
    {
        Ok(self.log.read(offset, limit))
    }

    /// Subscribe; the returned id receives every envelope published later.
    pub fn subscribe(&mut self) -> (r: Result<usize, TransportError>)
        requires
            old(self).wf(),
        ensures
            final(self).wf(),
            final(self).log_view() == old(self).log_view(),
            final(self).registry_view() == old(self).registry_view(),
            r is Ok && r->Ok_0 == old(self).queue_view().cursors().len(),
            final(self).queue_view().cursors() == old(self).queue_view().cursors().push(
                old(self).queue_view().events().len() as usize,
            ),
            final(self).queue_view().events() == old(self).queue_view().events(),
            final(self).queue_view().depth() == old(self).queue_view().depth(),
    {
        Ok(self.queue.subscribe())
    }

    /// Receive the next undelivered envelope for a subscriber.
    pub fn recv(&mut self, sub: usize) -> (r: Option<Envelope>)
        requires
            old(self).wf(),
            sub < old(self).queue_view().cursors().len(),
        ensures
            final(self).wf(),
            final(self).log_view() == old(self).log_view(),
            final(self).registry_view() == old(self).registry_view(),
            final(self).queue_view().events() == old(self).queue_view().events(),
            final(self).queue_view().depth() == old(self).queue_view().depth(),
            ({
                let q = old(self).queue_view();
                if q.cursors()[sub as int] < q.events().len() {
                    r is Some && r->0@ == q.events()[q.cursors()[sub as int] as int]
                        && final(self).queue_view().cursors() == q.cursors().update(
                        sub as int,
                        (q.cursors()[sub as int] + 1) as usize,
                    )
                } else {
                    r is None && final(self).queue_view().cursors() == q.cursors()
                }
            }),
    {
        self.queue.recv(sub)
    }
}

/// Loopback adapter: the in-process queue behind an attestation gate checked
/// at construction.
pub struct Loopback {
    queue: InVmQueue,
    attestation: Option<AttestationHandshake>,
}

impl Loopback {
    /// Components well-formed.
    pub closed spec fn wf(&self) -> bool {
        self.queue.wf()
    }

    /// The envelopes appended so far.
    pub closed spec fn log_view(&self) -> Seq<EnvelopeV> {
        self.queue.log_view()
    }

    /// The broadcast side.
    pub closed spec fn queue_view(&self) -> BroadcastQueue {
        self.queue.queue_view()
    }

    /// The registry in force.
    pub closed spec fn registry_view(&self) -> Map<Seq<char>, PolicyV> {
        self.queue.registry_view()
    }

    /// Create a loopback adapter over an empty log; construction succeeds
    /// exactly when no handshake was supplied or the supplied handshake meets
    /// its own expectations, and is refused with `PermissionDenied` otherwise.
    pub fn new(registry: ChannelRegistry, attestation: Option<AttestationHandshake>) -> (r: Result<
        Loopback,
        TransportError,
    >)
        requires
            registry.wf(),
        ensures
            ({
                let admitted = match attestation {
                    Some(h) => spec_handshake_ok(h@),
                    None => true,
                };
                match r {
                    Ok(l) => {
                        &&& admitted
                        &&& l.wf()
                        &&& l.log_view() == Seq::<EnvelopeV>::empty()
                        &&& l.registry_view() == registry@
                        &&& l.queue_view().depth() == DEFAULT_QUEUE_DEPTH
                        &&& l.queue_view().events() == Seq::<EnvelopeV>::empty()
                        &&& l.queue_view().cursors() == Seq::<usize>::empty()
                    },
                    Err(e) => !admitted && e is PermissionDenied,
                }
            }),
    {
        match &attestation {
            Some(handshake) => {
                match handshake.verify() {
                    Ok(_) => {},
                    Err(e) => {
                        return Err(e);
                    },
                }
            },
            None => {},
        }
        Ok(Loopback { queue: InVmQueue::with_registry(registry), attestation })
    }

    /// Append through the in-process queue.
    pub fn append(&mut self, env: Envelope) -> (r: Result<(), TransportError>)
        requires
            old(self).wf(),
        ensures
            final(self).wf(),
            ({
                let tail = spec_tail_state(old(self).log_view());
                let filled = spec_fill_prev(env@, tail.last_hash);
                if old(self).queue_view().saturated() {
                    r is Err && r->Err_0 is Backpressure && final(self).log_view() == old(
                        self,
                    ).log_view()
                } else {
                    match spec_validate(filled, old(self).registry_view(), tail) {
                        Ok(_) => r is Ok && final(self).log_view() == old(self).log_view().push(
                            filled,
                        ),
                        Err(e) => r is Err && r->Err_0 is Validation && r->Err_0->Validation_0 == e
                            && final(self).log_view() == old(self).log_view(),
                    }
                }
            }),
    {
        self.queue.append(env)
    }

    /// Read a slice of the log.
    pub fn read(&self, offset: usize, limit: usize) -> (r: Result<Vec<Envelope>, TransportError>)
        ensures
            r is Ok,
            r->Ok_0@.map_values(|e: Envelope| e@) == spec_read_slice(
                self.log_view(),
                offset as int,
                limit as int,
            ),
    {
        self.queue.read(offset, limit)
    }

    /// Subscribe to envelopes appended after this call.
    pub fn subscribe(&mut self) -> (r: Result<usize, TransportError>)
        requires
            old(self).wf(),
        ensures
            final(self).wf(),
            final(self).log_view() == old(self).log_view(),
            r is Ok && r->Ok_0 == old(self).queue_view().cursors().len(),
            final(self).queue_view().cursors() == old(self).queue_view().cursors().push(
                old(self).queue_view().events().len() as usize,
            ),
            final(self).queue_view().events() == old(self).queue_view().events(),
    {
        self.queue.subscribe()
    }

    /// Receive the next undelivered envelope for a subscriber.
    pub fn recv(&mut self, sub: usize) -> (r: Option<Envelope>)
        requires
            old(self).wf(),
            sub < old(self).queue_view().cursors().len(),
        ensures
            final(self).wf(),
            final(self).log_view() == old(self).log_view(),
            final(self).queue_view().events() == old(self).queue_view().events(),
            ({
                let q = old(self).queue_view();
                if q.cursors()[sub as int] < q.events().len() {
                    r is Some && r->0@ == q.events()[q.cursors()[sub as int] as int]
                } else {
                    r is None
                }
            }),
    {
        self.queue.recv(sub)
    }
}

/// Mailbox transport: a fixed ring of bounded slots between two trust
/// domains. An envelope whose canonical encoding exceeds the slot size is
/// refused, and a full ring refuses rather than overwriting.
pub struct MailboxTransport {
    mailbox: String,
    slot_bytes: usize,
    slots: usize,
    log: AppendLog,
    registry: ChannelRegistry,
    buffer: Vec<Envelope>,
    queue: BroadcastQueue,
}

impl MailboxTransport {
    /// Components well-formed.
    pub closed spec fn wf(&self) -> bool {
        self.log.wf() && self.registry.wf() && self.queue.wf() && self.buffer@.len() <= self.slots
    }

    /// The envelopes appended so far.
    pub closed spec fn log_view(&self) -> Seq<EnvelopeV> {
        self.log@
    }

    /// The envelopes currently occupying ring slots.
    pub closed spec fn buffer_view(&self) -> Seq<EnvelopeV> {
        self.buffer@.map_values(|e: Envelope| e@)
    }

    /// The configured slot size in bytes.
    pub closed spec fn slot_bytes(&self) -> usize {
        self.slot_bytes
    }

    /// The configured number of slots.
    pub closed spec fn slots(&self) -> usize {
        self.slots
    }

    /// The broadcast side.
    pub closed spec fn queue_view(&self) -> BroadcastQueue {
        self.queue
    }

    /// The registry in force.
    pub closed spec fn registry_view(&self) -> Map<Seq<char>, PolicyV> {
        self.registry@
    }

    /// Create a mailbox adapter over its own empty log; construction succeeds
    /// exactly when no handshake was supplied or the supplied handshake meets
    /// its own expectations, and is refused with `PermissionDenied` otherwise.
    pub fn new(
        mailbox: String,
        slot_bytes: usize,
        slots: usize,
        registry: ChannelRegistry,
        attestation: Option<AttestationHandshake>,
    ) -> (r: Result<MailboxTransport, TransportError>)
        requires
            registry.wf(),
        ensures
            ({
                let admitted = match attestation {
                    Some(h) => spec_handshake_ok(h@),
                    None => true,
                };
                match r {
                    Ok(m) => {
                        &&& admitted
                        &&& m.wf()
                        &&& m.log_view() == Seq::<EnvelopeV>::empty()
                        &&& m.buffer_view() == Seq::<EnvelopeV>::empty()
                        &&& m.slot_bytes() == slot_bytes
                        &&& m.slots() == slots
                        &&& m.registry_view() == registry@
                        &&& m.queue_view().depth() == DEFAULT_QUEUE_DEPTH
                        &&& m.queue_view().events() == Seq::<EnvelopeV>::empty()
                        &&& m.queue_view().cursors() == Seq::<usize>::empty()
                    },
                    Err(e) => !admitted && e is PermissionDenied,
                }
            }),
    {
        Self::with_log(mailbox, slot_bytes, slots, registry, attestation, AppendLog::new(),
            DEFAULT_QUEUE_DEPTH)
    }

    /// Create a mailbox adapter over a provided log and queue depth; a depth
    /// of zero is raised to one. Construction succeeds exactly when no
    /// handshake was supplied or the supplied handshake meets its own
    /// expectations, and is refused with `PermissionDenied` otherwise.
    pub fn with_log(
        mailbox: String,
        slot_bytes: usize,
        slots: usize,
        registry: ChannelRegistry,
        attestation: Option<AttestationHandshake>,
        log: AppendLog,
        queue_depth: usize,
    ) -> (r: Result<MailboxTransport, TransportError>)
        requires
            registry.wf(),
            log.wf(),
        ensures
            ({
                let admitted = match attestation {
                    Some(h) => spec_handshake_ok(h@),
                    None => true,
                };
                match r {
                    Ok(m) => {
                        &&& admitted
                        &&& m.wf()
                        &&& m.log_view() == log@
                        &&& m.buffer_view() == Seq::<EnvelopeV>::empty()
                        &&& m.slot_bytes() == slot_bytes
                        &&& m.slots() == slots
                        &&& m.registry_view() == registry@
                        &&& m.queue_view().depth() == (if queue_depth >= 1 {
                            queue_depth
                        } else {
                            1
                        })
                        &&& m.queue_view().events() == Seq::<EnvelopeV>::empty()
                        &&& m.queue_view().cursors() == Seq::<usize>::empty()
                    },
                    Err(e) => !admitted && e is PermissionDenied,
                }
            }),
    {
        match &attestation {
            Some(handshake) => {
                match handshake.verify() {
                    Ok(_) => {},
                    Err(e) => {
                        return Err(e);
                    },
                }
            },
            None => {},
        }
        let m = MailboxTransport {
            mailbox,
            slot_bytes,
            slots,
            log,
            registry,
            buffer: Vec::new(),
            queue: BroadcastQueue::new(queue_depth),
        };
        proof {
            assert(m.buffer_view() =~= Seq::<EnvelopeV>::empty());
        }
        Ok(m)
    }

    /// Append an envelope: refuse when its canonical encoding exceeds the
    /// slot size, when the ring is full, or when a subscriber saturates the
    /// queue; validate and commit otherwise. A refused append changes
    /// nothing.
    #[verifier::rlimit(100)]
    pub fn append(&mut self, env: Envelope) -> (r: Result<(), TransportError>)
        requires
            old(self).wf(),
        ensures
            final(self).wf(),
            final(self).slot_bytes() == old(self).slot_bytes(),
            final(self).slots() == old(self).slots(),
            ({
                let tail = spec_tail_state(old(self).log_view());
                let filled = spec_fill_prev(env@, tail.last_hash);
                if crate::codec::canon_envelope(env@).len() > old(self).slot_bytes() {
                    &&& r is Err
                    &&& r->Err_0 is Transport
                    &&& r->Err_0->Transport_0@ == "envelope exceeds the mailbox slot size"@
                    &&& final(self).log_view() == old(self).log_view()
                    &&& final(self).buffer_view() == old(self).buffer_view()
                } else if old(self).buffer_view().len() >= old(self).slots() {
                    &&& r is Err
                    &&& r->Err_0 is Transport
                    &&& r->Err_0->Transport_0@ == "mailbox buffer full"@
                    &&& final(self).log_view() == old(self).log_view()
                    &&& final(self).buffer_view() == old(self).buffer_view()
                } else if old(self).queue_view().saturated() {
                    &&& r is Err
                    &&& r->Err_0 is Backpressure
                    &&& final(self).log_view() == old(self).log_view()
                    &&& final(self).buffer_view() == old(self).buffer_view()
                } else {
                    match spec_validate(filled, old(self).registry_view(), tail) {
                        Ok(_) => {
                            &&& r is Ok
                            &&& final(self).log_view() == old(self).log_view().push(filled)
                            &&& final(self).buffer_view() == old(self).buffer_view().push(filled)
                            &&& final(self).queue_view().events() == old(
                                self,
                            ).queue_view().events().push(filled)
                        },
                        Err(e) => {
                            &&& r is Err
                            &&& r->Err_0 is Validation
                            &&& r->Err_0->Validation_0 == e
                            &&& final(self).log_view() == old(self).log_view()
                            &&& final(self).buffer_view() == old(self).buffer_view()
                        },
                    }
                }
            }),
    {
        let encoded = encode_envelope(&env);
        if encoded.len() > self.slot_bytes {
            return Err(
                TransportError::Transport("envelope exceeds the mailbox slot size".to_owned()),
            );
        }
        if self.buffer.len() >= self.slots {
            return Err(TransportError::Transport("mailbox buffer full".to_owned()));
        }
        if self.queue.is_saturated() {
            return Err(TransportError::Backpressure);
        }
        let ghost tail = spec_tail_state(self.log@);
        let ghost filled = spec_fill_prev(env@, tail.last_hash);
        match self.log.append(env, &self.registry) {
            Ok(_) => {},
            Err(e) => {
                return Err(TransportError::Validation(e));
            },
        }
        let len = self.log.len();
        let mut got = self.log.read(len - 1, 1);
        proof {
            assert(got@.map_values(|e: Envelope| e@).len() == got@.len());
            assert(got@.map_values(|e: Envelope| e@)[0] == got@[0]@);
            assert(got@[0]@ == filled);
        }
        let filled_env = match got.pop() {
            Some(e) => e,
            None => unreached(),
        };
        let for_ring = filled_env.clone();
        self.buffer.push(for_ring);
        proof {
            assert(self.buffer_view() =~= old(self).buffer_view().push(filled));
        }
        match self.queue.try_publish(filled_env) {
            Ok(_) => Ok(()),
            Err(_) => {
                proof {
                    assert(false);
                }
                Ok(())
            },
        }
    }

    /// Read a slice of the log.
    pub fn read(&self, offset: usize, limit: usize) -> (r: Result<Vec<Envelope>, TransportError>)
        ensures
            r is Ok,
            r->Ok_0@.map_values(|e: Envelope| e@) == spec_read_slice(
                self.log_view(),
                offset as int,
                limit as int,
            ),
    {
        Ok(self.log.read(offset, limit))
    }

    /// Subscribe to envelopes appended after this call.
    pub fn subscribe(&mut self) -> (r: Result<usize, TransportError>)
        requires
            old(self).wf(),
        ensures
            final(self).wf(),
            final(self).log_view() == old(self).log_view(),
            final(self).buffer_view() == old(self).buffer_view(),
            r is Ok && r->Ok_0 == old(self).queue_view().cursors().len(),
            final(self).queue_view().events() == old(self).queue_view().events(),
    {
        Ok(self.queue.subscribe())
    }
}

/// Placeholder for the enclave-proxy adapter: every operation is refused as
/// unsupported.
pub struct EnclaveProxyStub;

impl EnclaveProxyStub {
    /// Enclave-bound append; always refused.
    pub fn append(&self, env: Envelope) -> (r: Result<(), TransportError>)
        ensures
            r is Err && r->Err_0 is Unsupported,
    {
        let _ = env;
        Err(TransportError::Unsupported)
    }
}

/// Logical domain that publishes capability advertisements.
#[derive(Clone, Copy, Debug, PartialEq, Eq, Structural)]
pub enum TransportDomain {
    /// Ledger nodes.
    Ledger,
    /// Companion runtimes.
    Arda,
    /// Muscle runtimes.
    Muscle,
}

/// Adapter kinds supported by the transport layer.
pub enum AdapterKind {
    /// In-process loopback for single-process deployments.
    Loopback,
    /// Remote streaming between tiers.
    QuicGrpc {
        /// Endpoint or authority string.
        endpoint: String,
        /// Optional ALPN for the handshake.
        alpn: Option<String>,
    },
    /// Bounded ring for enclave or accelerator boundaries.
    Mailbox {
        /// Mailbox identifier.
        mailbox: String,
        /// Maximum bytes per slot.
        slot_bytes: usize,
        /// Number of slots in the ring.
        slots: usize,
    },
    /// Unix domain sockets.
    UnixIpc {
        /// Socket path.
        path: String,
    },
    /// Enclave proxy placeholder.
    EnclaveProxy,
}

/// View of an adapter kind.
pub ghost enum AdapterKindV {
    Loopback,
    QuicGrpc { endpoint: Seq<char>, alpn: Option<Seq<char>> },
    Mailbox { mailbox: Seq<char>, slot_bytes: usize, slots: usize },
    UnixIpc { path: Seq<char> },
    EnclaveProxy,
}

impl View for AdapterKind {
    type V = AdapterKindV;

    open spec fn view(&self) -> AdapterKindV {
        match self {
            AdapterKind::Loopback => AdapterKindV::Loopback,
            AdapterKind::QuicGrpc { endpoint, alpn } => AdapterKindV::QuicGrpc {
                endpoint: endpoint@,
                alpn: match alpn {
                    Some(a) => Some(a@),
                    None => None,
                },
            },
            AdapterKind::Mailbox { mailbox, slot_bytes, slots } => AdapterKindV::Mailbox {
                mailbox: mailbox@,
                slot_bytes: *slot_bytes,
                slots: *slots,
            },
            AdapterKind::UnixIpc { path } => AdapterKindV::UnixIpc { path: path@ },
            AdapterKind::EnclaveProxy => AdapterKindV::EnclaveProxy,
        }
    }
}

impl Clone for AdapterKind {
    /// Deep copy; the copy has the same view.
    fn clone(&self) -> (res: Self)
        ensures
            res@ == self@,
    {
        match self {
            AdapterKind::Loopback => AdapterKind::Loopback,
            AdapterKind::QuicGrpc { endpoint, alpn } => AdapterKind::QuicGrpc {
                endpoint: endpoint.clone(),
                alpn: match alpn {
                    Some(a) => Some(a.clone()),
                    None => None,
                },
            },
            AdapterKind::Mailbox { mailbox, slot_bytes, slots } => AdapterKind::Mailbox {
                mailbox: mailbox.clone(),
                slot_bytes: *slot_bytes,
                slots: *slots,
            },
            AdapterKind::UnixIpc { path } => AdapterKind::UnixIpc { path: path.clone() },
            AdapterKind::EnclaveProxy => AdapterKind::EnclaveProxy,
        }
    }
}

/// One adapter a node can accept, with optional attestation requirements.
pub struct AdapterCapability {
    /// Adapter kind and parameters.
    pub adapter: AdapterKind,
    /// Optional feature labels.
    pub features: Vec<String>,
    /// Optional attestation handshake requirements.
    pub attestation: Option<AttestationHandshake>,
}

/// View of an adapter capability.
pub ghost struct AdapterCapabilityV {
    pub adapter: AdapterKindV,
    pub features: Seq<Seq<char>>,
    pub attestation: Option<HandshakeV>,
}

impl View for AdapterCapability {
    type V = AdapterCapabilityV;

    open spec fn view(&self) -> AdapterCapabilityV {
        AdapterCapabilityV {
            adapter: self.adapter@,
            features: self.features@.map_values(|s: String| s@),
            attestation: match &self.attestation {
                Some(h) => Some(h@),
                None => None,
            },
        }
    }
}

impl Clone for AdapterCapability {
    /// Deep copy; the copy has the same view.
    fn clone(&self) -> (res: Self)
        ensures
            res@ == self@,
    {
        let mut features: Vec<String> = Vec::new();
        let mut i: usize = 0;
        while i < self.features.len()
            invariant
                i <= self.features@.len(),
                features@.len() == i,
                forall|j: int| 0 <= j < i ==> #[trigger] features@[j]@ == self.features@[j]@,
            decreases self.features@.len() - i,
        {
            let f = self.features[i].clone();
            features.push(f);
            i += 1;
        }
        let res = AdapterCapability {
            adapter: self.adapter.clone(),
            features,
            attestation: match &self.attestation {
                Some(h) => Some(h.duplicate()),
                None => None,
            },
        };
        proof {
            assert(res@.features =~= self@.features);
        }
        res
    }
}

/// Capability advertisement for a node: what it speaks and within what
/// limits.
pub struct CapabilityAdvertisement {
    /// Logical domain publishing the capability.
    pub domain: TransportDomain,
    /// Supported protocol versions.
    pub supported_versions: Vec<String>,
    /// Maximum envelope size accepted.
    pub max_message_bytes: usize,
    /// Adapters the node can accept.
    pub adapters: Vec<AdapterCapability>,
}

impl CapabilityAdvertisement {
    /// A loopback-only advertisement.
    pub fn loopback(domain: TransportDomain) -> (r: CapabilityAdvertisement)
        ensures
            r.domain == domain,
            r.adapters@.len() == 1,
            r.adapters@[0]@.adapter is Loopback,
            r.adapters@[0]@.attestation is None,
    {
        let mut supported_versions: Vec<String> = Vec::new();
        supported_versions.push("1.0.x".to_owned());
        let mut features: Vec<String> = Vec::new();
        features.push("inproc".to_owned());
        features.push("latency-opt".to_owned());
        let mut adapters: Vec<AdapterCapability> = Vec::new();
        adapters.push(
            AdapterCapability { adapter: AdapterKind::Loopback, features, attestation: None },
        );
        CapabilityAdvertisement {
            domain,
            supported_versions,
            max_message_bytes: 1048576,
            adapters,
        }
    }
}

/// Transport configuration: the advertisement and the adapter selected after
/// negotiation.
pub struct TransportConfig {
    /// Capability advertisement to emit or consume.
    pub advertisement: CapabilityAdvertisement,
    /// Adapter selected after negotiation.
    pub selected: AdapterCapability,
}

impl TransportConfig {
    /// A loopback configuration with defaults.
    pub fn loopback(domain: TransportDomain) -> (r: TransportConfig)
        ensures
            r.advertisement.domain == domain,
            r.selected@.adapter is Loopback,
            r.selected@.attestation is None,
    {
        let advertisement = CapabilityAdvertisement::loopback(domain);
        let selected = advertisement.adapters[0].clone();
        TransportConfig { advertisement, selected }
    }

    /// A Unix-socket configuration for the given path.
    pub fn unix_ipc(path: String) -> (r: TransportConfig)
        ensures
            r.advertisement.domain == TransportDomain::Ledger,
            r.selected@.adapter is UnixIpc,
            r.selected@.adapter->UnixIpc_path == path@,
            r.selected@.attestation is None,
    {
        let selected = AdapterCapability {
            adapter: AdapterKind::UnixIpc { path },
            features: Vec::new(),
            attestation: None,
        };
        let mut supported_versions: Vec<String> = Vec::new();
        supported_versions.push("1.0.x".to_owned());
        let mut adapters: Vec<AdapterCapability> = Vec::new();
        adapters.push(selected.clone());
        let advertisement = CapabilityAdvertisement {
            domain: TransportDomain::Ledger,
            supported_versions,
            max_message_bytes: 1048576,
            adapters,
        };
        TransportConfig { advertisement, selected }
    }

    /// A remote-streaming configuration for the given endpoint.
    pub fn remote(endpoint: String) -> (r: TransportConfig)
        ensures
            r.advertisement.domain == TransportDomain::Ledger,
            r.selected@.adapter is QuicGrpc,
            r.selected@.adapter->QuicGrpc_endpoint == endpoint@,
            r.selected@.attestation is None,
    {
        let selected = AdapterCapability {
            adapter: AdapterKind::QuicGrpc { endpoint, alpn: None },
            features: Vec::new(),
            attestation: None,
        };
        let mut supported_versions: Vec<String> = Vec::new();
        supported_versions.push("1.0.x".to_owned());
        let mut adapters: Vec<AdapterCapability> = Vec::new();
        adapters.push(selected.clone());
        let advertisement = CapabilityAdvertisement {
            domain: TransportDomain::Ledger,
            supported_versions,
            max_message_bytes: 1048576,
            adapters,
        };
        TransportConfig { advertisement, selected }
    }
}

/// A request over the framed IPC protocol.
pub enum IpcRequest {
    /// Append the envelope.
    Append(Envelope),
    /// Read a slice of the log.
    Read {
        /// Start offset.
        offset: usize,
        /// Maximum number of entries.
        limit: usize,
    },
    /// Start a subscription on this connection.
    Subscribe,
}

/// A response over the framed IPC protocol.
pub enum IpcResponse {
    /// The append was committed.
    AppendOk,
    /// The requested slice.
    ReadOk(Vec<Envelope>),
    /// The subscription is live.
    SubscribeAck,
    /// The request failed; the text describes why.
    Error(String),
}

/// A server-pushed event for subscribers.
pub enum IpcEvent {
    /// A newly appended envelope.
    Envelope(Envelope),
}

/// Big-endian length header of a frame.
pub open spec fn be32(x: u32) -> Seq<u8> {
    seq![
        ((x >> 24) & 0xff) as u8,
        ((x >> 16) & 0xff) as u8,
        ((x >> 8) & 0xff) as u8,
        (x & 0xff) as u8,
    ]
}

/// Encode a frame length as the 4-byte big-endian header.
pub fn encode_frame_header(len: u32) -> (r: [u8; 4])
    ensures
        r@ == be32(len),
{
    let mut out = [0u8; 4];
    out[0] = ((len >> 24) & 0xff) as u8;
    out[1] = ((len >> 16) & 0xff) as u8;
    out[2] = ((len >> 8) & 0xff) as u8;
    out[3] = (len & 0xff) as u8;
    proof {
        assert(out@ =~= be32(len));
    }
    out
}

/// Decode a 4-byte big-endian header back into the frame length; inverse of
/// `encode_frame_header`.
pub fn parse_frame_header(h: &[u8; 4]) -> (r: u32)
    ensures
        be32(r) == h@,
{
    let b0 = h[0];
    let b1 = h[1];
    let b2 = h[2];
    let b3 = h[3];
    let r = ((b0 as u32) << 24) | ((b1 as u32) << 16) | ((b2 as u32) << 8) | (b3 as u32);
    proof {
        assert((((b0 as u32) << 24) | ((b1 as u32) << 16) | ((b2 as u32) << 8) | (b3 as u32))
            >> 24 & 0xff == b0 as u32) by (bit_vector);
        assert((((b0 as u32) << 24) | ((b1 as u32) << 16) | ((b2 as u32) << 8) | (b3 as u32))
            >> 16 & 0xff == b1 as u32) by (bit_vector);
        assert((((b0 as u32) << 24) | ((b1 as u32) << 16) | ((b2 as u32) << 8) | (b3 as u32)) >> 8
            & 0xff == b2 as u32) by (bit_vector);
        assert((((b0 as u32) << 24) | ((b1 as u32) << 16) | ((b2 as u32) << 8) | (b3 as u32))
            & 0xff == b3 as u32) by (bit_vector);
        assert(be32(r) =~= h@);
    }
    r
}

/// The length round-trips through the frame header.
pub proof fn lemma_frame_header_round_trip(x: u32, y: u32)
    requires
        be32(x) == be32(y),
    ensures
        x == y,
{
    assert(be32(x)[0] == be32(y)[0] && be32(x)[1] == be32(y)[1] && be32(x)[2] == be32(y)[2]
        && be32(x)[3] == be32(y)[3]);
    assert((((x >> 24) & 0xff) as u8 == ((y >> 24) & 0xff) as u8 && ((x >> 16) & 0xff) as u8 == ((y
        >> 16) & 0xff) as u8 && ((x >> 8) & 0xff) as u8 == ((y >> 8) & 0xff) as u8 && (x
        & 0xff) as u8 == (y & 0xff) as u8) ==> x == y) by (bit_vector);
}

/// The IPC server's decision core: one shared log with broadcast fan-out;
/// the surrounding connection handling decodes frames, feeds requests in,
/// and writes the responses and subscription events out.
pub struct IpcServerCore {
    queue: InVmQueue,
}

impl IpcServerCore {
    /// Components well-formed.
    pub closed spec fn wf(&self) -> bool {
        self.queue.wf()
    }

    /// The envelopes appended so far.
    pub closed spec fn log_view(&self) -> Seq<EnvelopeV> {
        self.queue.log_view()
    }

    /// The registry in force.
    pub closed spec fn registry_view(&self) -> Map<Seq<char>, PolicyV> {
        self.queue.registry_view()
    }

    /// The broadcast side.
    pub closed spec fn queue_view(&self) -> BroadcastQueue {
        self.queue.queue_view()
    }

    /// Create a server core over an empty log.
    pub fn new(registry: ChannelRegistry, queue_depth: usize) -> (r: IpcServerCore)
        requires
            registry.wf(),
        ensures
            r.wf(),
            r.log_view() == Seq::<EnvelopeV>::empty(),
            r.registry_view() == registry@,
            r.queue_view().events() == Seq::<EnvelopeV>::empty(),
            r.queue_view().cursors() == Seq::<usize>::empty(),
    {
        IpcServerCore { queue: InVmQueue::with_log(AppendLog::new(), registry, queue_depth) }
    }

    /// Execute one decoded request and produce the response frame to send
    /// back. `Append` commits through the validating queue; `Read` copies a
    /// slice; `Subscribe` acknowledges, and the connection then registers a
    /// subscriber via `subscribe`.
    pub fn handle_request(&mut self, req: IpcRequest) -> (r: IpcResponse)
        requires
            old(self).wf(),
        ensures
            final(self).wf(),
            final(self).registry_view() == old(self).registry_view(),
            match req {
                IpcRequest::Append(env) => {
                    let tail = spec_tail_state(old(self).log_view());
                    let filled = spec_fill_prev(env@, tail.last_hash);
                    if old(self).queue_view().saturated() {
                        r is Error && final(self).log_view() == old(self).log_view()
                    } else {
                        match spec_validate(filled, old(self).registry_view(), tail) {
                            Ok(_) => r is AppendOk && final(self).log_view() == old(
                                self,
                            ).log_view().push(filled) && final(self).queue_view().events() == old(
                                self,
                            ).queue_view().events().push(filled),
                            Err(_) => r is Error && final(self).log_view() == old(self).log_view(),
                        }
                    }
                },
                IpcRequest::Read { offset, limit } => {
                    &&& r is ReadOk
                    &&& r->ReadOk_0@.map_values(|e: Envelope| e@) == spec_read_slice(
                        old(self).log_view(),
                        offset as int,
                        limit as int,
                    )
                    &&& final(self).log_view() == old(self).log_view()
                    &&& final(self).queue_view() == old(self).queue_view()
                },
                IpcRequest::Subscribe => {
                    &&& r is SubscribeAck
                    &&& final(self).log_view() == old(self).log_view()
                    &&& final(self).queue_view() == old(self).queue_view()
                },
            },
    {
        match req {
            IpcRequest::Append(env) => {
                match self.queue.append(env) {
                    Ok(_) => IpcResponse::AppendOk,
                    Err(_) => IpcResponse::Error("append refused".to_owned()),
                }
            },
            IpcRequest::Read { offset, limit } => {
                match self.queue.read(offset, limit) {
                    Ok(items) => IpcResponse::ReadOk(items),
                    Err(_) => IpcResponse::Error("read failed".to_owned()),
                }
            },
            IpcRequest::Subscribe => IpcResponse::SubscribeAck,
        }
    }

    /// Register a subscriber for a connection that sent `Subscribe`.
    pub fn subscribe(&mut self) -> (r: usize)
        requires
            old(self).wf(),
        ensures
            final(self).wf(),
            final(self).log_view() == old(self).log_view(),
            final(self).registry_view() == old(self).registry_view(),
            r == old(self).queue_view().cursors().len(),
            final(self).queue_view().cursors() == old(self).queue_view().cursors().push(
                old(self).queue_view().events().len() as usize,
            ),
            final(self).queue_view().events() == old(self).queue_view().events(),
    {
        match self.queue.subscribe() {
            Ok(id) => id,
            Err(_) => unreached(),
        }
    }

    /// Receive the next event for a subscriber, for the connection to frame
    /// and push.
    pub fn next_event(&mut self, sub: usize) -> (r: Option<IpcEvent>)
        requires
            old(self).wf(),
            sub < old(self).queue_view().cursors().len(),
        ensures
            final(self).wf(),
            final(self).log_view() == old(self).log_view(),
            final(self).registry_view() == old(self).registry_view(),
            final(self).queue_view().events() == old(self).queue_view().events(),
            ({
                let q = old(self).queue_view();
                if q.cursors()[sub as int] < q.events().len() {
                    r is Some && r->0 is Envelope && r->0->Envelope_0@ == q.events()[q.cursors()[
                        sub as int] as int]
                } else {
                    r is None
                }
            }),
    {
        match self.queue.recv(sub) {
            Some(e) => Some(IpcEvent::Envelope(e)),
            None => None,
        }
    }
}

/// Interpret the response to an `Append` request on the client side.
pub fn append_response_result(resp: IpcResponse) -> (r: Result<(), TransportError>)
    ensures
        match resp {
            IpcResponse::AppendOk => r is Ok,
            IpcResponse::Error(_) => r is Err && r->Err_0 is Transport,
            _ => r is Err && r->Err_0 is Frame,
        },
{
    match resp {
        IpcResponse::AppendOk => Ok(()),
        IpcResponse::Error(msg) => Err(TransportError::Transport(msg)),
        _ => Err(TransportError::Frame),
    }
}

/// Interpret the response to a `Read` request on the client side.
pub fn read_response_result(resp: IpcResponse) -> (r: Result<Vec<Envelope>, TransportError>)
    ensures
        match resp {
            IpcResponse::ReadOk(items) => r is Ok && r->Ok_0@ == items@,
            IpcResponse::Error(_) => r is Err && r->Err_0 is Transport,
            _ => r is Err && r->Err_0 is Frame,
        },
{
    match resp {
        IpcResponse::ReadOk(items) => Ok(items),
        IpcResponse::Error(msg) => Err(TransportError::Transport(msg)),
        _ => Err(TransportError::Frame),
    }
}

/// The remote streaming adapter's server core: every call carries a
/// handshake, checked against the server's expected template before any work;
/// a failed handshake denies without touching the log.
pub struct RemoteServerCore {
    expected: Option<AttestationHandshake>,
    queue: InVmQueue,
}

impl RemoteServerCore {
    /// Components well-formed.
    pub closed spec fn wf(&self) -> bool {
        self.queue.wf()
    }

    /// The envelopes appended so far.
    pub closed spec fn log_view(&self) -> Seq<EnvelopeV> {
        self.queue.log_view()
    }

    /// The registry in force.
    pub closed spec fn registry_view(&self) -> Map<Seq<char>, PolicyV> {
        self.queue.registry_view()
    }

    /// The broadcast side.
    pub closed spec fn queue_view(&self) -> BroadcastQueue {
        self.queue.queue_view()
    }

    /// The handshake template callers are checked against.
    pub closed spec fn expected_view(&self) -> Option<HandshakeV> {
        opt_handshake_view(&self.expected)
    }

    /// Create a server core with an expected handshake template.
    pub fn new(
        registry: ChannelRegistry,
        expected: Option<AttestationHandshake>,
        queue_depth: usize,
    ) -> (r: RemoteServerCore)
        requires
            registry.wf(),
        ensures
            r.wf(),
            r.log_view() == Seq::<EnvelopeV>::empty(),
            r.registry_view() == registry@,
            r.expected_view() == opt_handshake_view(&expected),
            r.queue_view().events() == Seq::<EnvelopeV>::empty(),
            r.queue_view().cursors() == Seq::<usize>::empty(),
    {
        RemoteServerCore {
            expected,
            queue: InVmQueue::with_log(AppendLog::new(), registry, queue_depth),
        }
    }

    /// Append with a per-call handshake. A call whose handshake fails the
    /// expected template is denied with `PermissionDenied` and the log is
    /// untouched.
    pub fn append(&mut self, env: Envelope, handshake: Option<AttestationHandshake>) -> (r: Result<
        (),
        TransportError,
    >)
        requires
            old(self).wf(),
        ensures
            final(self).wf(),
            final(self).registry_view() == old(self).registry_view(),
            final(self).expected_view() == old(self).expected_view(),
            ({
                let merged = spec_merged_handshake(
                    old(self).expected_view(),
                    opt_handshake_view(&handshake),
                );
                if !spec_handshake_ok(merged) {
                    &&& r is Err
                    &&& r->Err_0 is PermissionDenied
                    &&& final(self).log_view() == old(self).log_view()
                    &&& final(self).queue_view().events() == old(self).queue_view().events()
                } else {
                    let tail = spec_tail_state(old(self).log_view());
                    let filled = spec_fill_prev(env@, tail.last_hash);
                    if old(self).queue_view().saturated() {
                        r is Err && r->Err_0 is Backpressure && final(self).log_view() == old(
                            self,
                        ).log_view()
                    } else {
                        match spec_validate(filled, old(self).registry_view(), tail) {
                            Ok(_) => r is Ok && final(self).log_view() == old(
                                self,
                            ).log_view().push(filled),
                            Err(e) => r is Err && r->Err_0 is Validation && r->Err_0->Validation_0
                                == e && final(self).log_view() == old(self).log_view(),
                        }
                    }
                }
            }),
    {
        match verify_with_expected(&self.expected, handshake) {
            Ok(_) => {},
            Err(e) => {
                return Err(e);
            },
        }
        self.queue.append(env)
    }

    /// Read with a per-call handshake; denial leaves nothing observable.
    pub fn read(
        &self,
        offset: usize,
        limit: usize,
        handshake: Option<AttestationHandshake>,
    ) -> (r: Result<Vec<Envelope>, TransportError>)
        requires
            self.wf(),
        ensures
            ({
                let merged = spec_merged_handshake(
                    self.expected_view(),
                    opt_handshake_view(&handshake),
                );
                if !spec_handshake_ok(merged) {
                    r is Err && r->Err_0 is PermissionDenied
                } else {
                    r is Ok && r->Ok_0@.map_values(|e: Envelope| e@) == spec_read_slice(
                        self.log_view(),
                        offset as int,
                        limit as int,
                    )
                }
            }),
    {
        match verify_with_expected(&self.expected, handshake) {
            Ok(_) => {},
            Err(e) => {
                return Err(e);
            },
        }
        self.queue.read(offset, limit)
    }

    /// Subscribe with a per-call handshake.
    pub fn subscribe(&mut self, handshake: Option<AttestationHandshake>) -> (r: Result<
        usize,
        TransportError,
    >)
        requires
            old(self).wf(),
        ensures
            final(self).wf(),
            final(self).log_view() == old(self).log_view(),
            final(self).registry_view() == old(self).registry_view(),
            final(self).expected_view() == old(self).expected_view(),
            ({
                let merged = spec_merged_handshake(
                    old(self).expected_view(),
                    opt_handshake_view(&handshake),
                );
                if !spec_handshake_ok(merged) {
                    r is Err && r->Err_0 is PermissionDenied && final(self).queue_view().cursors()
                        == old(self).queue_view().cursors()
                } else {
                    r is Ok && r->Ok_0 == old(self).queue_view().cursors().len()
                        && final(self).queue_view().cursors() == old(
                        self,
                    ).queue_view().cursors().push(old(self).queue_view().events().len() as usize)
                }
            }),
            final(self).queue_view().events() == old(self).queue_view().events(),
    {
        match verify_with_expected(&self.expected, handshake) {
            Ok(_) => {},
            Err(e) => {
                return Err(e);
            },
        }
        self.queue.subscribe()
    }

    /// Receive the next event for a subscriber's stream.
    pub fn next_event(&mut self, sub: usize) -> (r: Option<Envelope>)
        requires
            old(self).wf(),
            sub < old(self).queue_view().cursors().len(),
        ensures
            final(self).wf(),
            final(self).log_view() == old(self).log_view(),
            final(self).registry_view() == old(self).registry_view(),
            final(self).expected_view() == old(self).expected_view(),
            final(self).queue_view().events() == old(self).queue_view().events(),
            ({
                let q = old(self).queue_view();
                if q.cursors()[sub as int] < q.events().len() {
                    r is Some && r->0@ == q.events()[q.cursors()[sub as int] as int]
                } else {
                    r is None
                }
            }),
    {
        self.queue.recv(sub)
    }
}

} // verus!
