//! The append-only log: an ordered sequence of envelopes with hash chaining,
//! Merkle root, and per-offset inclusion proofs.
//!
//! The log is a single-writer data structure: it validates on every append, so
//! its chain invariant holds even for callers that bypass the orchestrator.
use vstd::prelude::*;

use crate::hashes::{envelope_hash, spec_envelope_hash};
use crate::merkle::{fold_proof, hashes_of, inclusion_proof_for, compute_merkle_root,
    lemma_proof_folds_to_root, merkle_root_of, proof_for};
use crate::model::{ChannelState, Envelope, EnvelopeV, HeaderV, StateV, initial_state};
use crate::registry::ChannelRegistry;
use crate::validate::{spec_next_state, spec_validate, validate_envelope, ValidationError};

verus! {

/// The leaf hashes of a sequence of envelopes.
pub open spec fn leaves_of(entries: Seq<EnvelopeV>) -> Seq<Seq<u8>> {
    entries.map_values(|e: EnvelopeV| spec_envelope_hash(e))
}

/// The channel state that the tail of the log induces: the hash and timestamp
/// of the last envelope, or the initial state for an empty log.
pub open spec fn spec_tail_state(entries: Seq<EnvelopeV>) -> StateV {
    if entries.len() == 0 {
        initial_state()
    } else {
        spec_next_state(entries.last())
    }
}

/// `e` with its `prev` filled from `prev` when absent.
pub open spec fn spec_fill_prev(e: EnvelopeV, prev: Option<Seq<u8>>) -> EnvelopeV {
    if e.header.prev is None {
        EnvelopeV { header: HeaderV { prev, ..e.header }, ..e }
    } else {
        e
    }
}

/// Chain closure: each envelope's `prev` is the hash of its predecessor, and
/// the first envelope has none.
pub open spec fn chain_ok(entries: Seq<EnvelopeV>) -> bool {
    forall|i: int|
        0 <= i < entries.len() ==> (#[trigger] entries[i].header.prev) == (if i == 0 {
            None
        } else {
            Some(spec_envelope_hash(entries[i - 1]))
        })
}

/// The slice that a read with the given offset and limit yields: up to
/// `limit` entries starting at `offset`, clipped to the sequence.
pub open spec fn spec_read_slice(s: Seq<EnvelopeV>, offset: int, limit: int) -> Seq<EnvelopeV> {
    let start = if offset <= s.len() {
        offset
    } else {
        s.len() as int
    };
    let count = if limit <= s.len() - start {
        limit
    } else {
        s.len() - start
    };
    s.subrange(start, start + count)
}

/// In-memory append-only log.
pub struct AppendLog {
    entries: Vec<Envelope>,
}

impl View for AppendLog {
    type V = Seq<EnvelopeV>;

    closed spec fn view(&self) -> Seq<EnvelopeV> {
        self.entries@.map_values(|e: Envelope| e@)
    }
}

impl AppendLog {
    /// Chain closure holds of everything the log stores.
    pub open spec fn wf(&self) -> bool {
        chain_ok(self@)
    }

    /// Create a new empty log.
    pub fn new() -> (r: AppendLog)
        ensures
            r.wf(),
            r@ == Seq::<EnvelopeV>::empty(),
    {
        let r = AppendLog { entries: Vec::new() };
        proof {
            assert(r@ =~= Seq::<EnvelopeV>::empty());
        }
        r
    }

    /// The number of envelopes in the log.
    pub fn len(&self) -> (r: usize)
        ensures
            r == self@.len(),
    {
        self.entries.len()
    }

    /// Append an envelope after validation. The expected `prev` is the hash
    /// of the last envelope; an absent `prev` is filled with it before
    /// validation. On success the log grows by exactly the filled envelope;
    /// on error it is unchanged and the validator's error is returned.
    #[verifier::rlimit(60)]
    #[verifier::loop_isolation(false)]
    pub fn append(&mut self, env: Envelope, registry: &ChannelRegistry) -> (r: Result<
        (),
        ValidationError,
    >)
        requires
            registry.wf(),
            old(self).wf(),
        ensures
            final(self).wf(),
            ({
                let filled = spec_fill_prev(env@, spec_tail_state(old(self)@).last_hash);
                match spec_validate(filled, registry@, spec_tail_state(old(self)@)) {
                    Ok(st) => r is Ok && final(self)@ == old(self)@.push(filled),
                    Err(e) => r is Err && r->Err_0 == e && final(self)@ == old(self)@,
                }
            }),
    {
        let ghost old_view = self@;
        let ghost orig_env = env@;
        let mut env = env;
        let prior: ChannelState = if self.entries.len() == 0 {
            ChannelState::initial()
        } else {
            let last = &self.entries[self.entries.len() - 1];
            proof {
                assert(old_view.last() == self.entries@[self.entries@.len() - 1]@);
            }
            ChannelState {
                last_hash: Some(envelope_hash(last)),
                last_timestamp: Some(last.header.timestamp),
            }
        };
        proof {
            assert(prior@ == spec_tail_state(old_view));
        }
        if env.header.prev.is_none() {
            env.header.prev = prior.last_hash;
        }
        proof {
            assert(env@ == spec_fill_prev(orig_env, spec_tail_state(old_view).last_hash));
        }
        match validate_envelope(&env, registry, &prior) {
            Ok(_) => {
                let ghost filled = env@;
                self.entries.push(env);
                proof {
                    assert(self@ =~= old_view.push(filled));
                    let newv = old_view.push(filled);
                    assert(crate::validate::spec_prev_matches(
                        filled.header.prev,
                        spec_tail_state(old_view).last_hash,
                    ));
                    assert forall|i: int| 0 <= i < newv.len() implies (
                    #[trigger] newv[i].header.prev) == (if i == 0 {
                        None
                    } else {
                        Some(spec_envelope_hash(newv[i - 1]))
                    }) by {
                        if i < old_view.len() {
                            assert(newv[i] == old_view[i]);
                            if i > 0 {
                                assert(newv[i - 1] == old_view[i - 1]);
                            }
                        } else {
                            if old_view.len() > 0 {
                                assert(newv[i - 1] == old_view.last());
                            }
                        }
                    }
                }
                Ok(())
            },
            Err(e) => Err(e),
        }
    }

    /// Copy out a slice of the log: up to `limit` envelopes starting at
    /// `offset`; an offset at or beyond the end yields an empty vector.
    #[verifier::loop_isolation(false)]
    pub fn read(&self, offset: usize, limit: usize) -> (r: Vec<Envelope>)
        ensures
            r@.map_values(|e: Envelope| e@) == spec_read_slice(self@, offset as int, limit as int),
    {
        let len = self.entries.len();
        let start = if offset <= len {
            offset
        } else {
            len
        };
        let avail = len - start;
        let take_n = if limit <= avail {
            limit
        } else {
            avail
        };
        let mut out: Vec<Envelope> = Vec::new();
        let mut i: usize = 0;
        while i < take_n
            invariant
                i <= take_n,
                start + take_n <= self.entries@.len(),
                out@.len() == i,
                forall|j: int| 0 <= j < i ==> #[trigger] out@[j]@ == self@[start + j],
            decreases take_n - i,
        {
            let e = self.entries[start + i].clone();
            out.push(e);
            i += 1;
        }
        proof {
            assert(out@.map_values(|e: Envelope| e@) =~= spec_read_slice(
                self@,
                offset as int,
                limit as int,
            ));
        }
        out
    }

    /// The Merkle root over the current entries; `None` exactly when the log
    /// is empty.
    #[verifier::rlimit(30)]
    pub fn merkle_root(&self) -> (r: Option<[u8; 32]>)
        ensures
            match r {
                Some(h) => self@.len() > 0 && h@ == merkle_root_of(leaves_of(self@)),
                None => self@.len() == 0,
            },
    {
        let leaves = self.leaf_hashes();
        let r = compute_merkle_root(&leaves);
        proof {
            assert(hashes_of(leaves@).len() == leaves@.len());
            assert(leaves_of(self@).len() == self@.len());
        }
        r
    }

    /// The inclusion proof for the envelope at `index`: sibling hashes from
    /// leaf to root. Folding it over the leaf hash reproduces the root.
    #[verifier::rlimit(30)]
    pub fn inclusion_proof(&self, index: usize) -> (r: Vec<[u8; 32]>)
        requires
            index < self@.len(),
        ensures
            hashes_of(r@) == proof_for(leaves_of(self@), index as int),
            fold_proof(spec_envelope_hash(self@[index as int]), hashes_of(r@), index as int)
                == merkle_root_of(leaves_of(self@)),
    {
        let leaves = self.leaf_hashes();
        let r = inclusion_proof_for(&leaves, index);
        proof {
            assert(hashes_of(leaves@).len() == leaves@.len());
            assert(leaves_of(self@).len() == self@.len());
            lemma_proof_folds_to_root(leaves_of(self@), index as int);
            assert(leaves_of(self@)[index as int] == spec_envelope_hash(self@[index as int]));
        }
        r
    }

    /// The envelope hash of every entry, in order.
    #[verifier::loop_isolation(false)]
    pub fn leaf_hashes(&self) -> (r: Vec<[u8; 32]>)
        ensures
            hashes_of(r@) == leaves_of(self@),
    {
        let mut out: Vec<[u8; 32]> = Vec::new();
        let mut i: usize = 0;
        while i < self.entries.len()
            invariant
                i <= self.entries@.len(),
                out@.len() == i,
                forall|j: int| 0 <= j < i ==> #[trigger] out@[j]@ == spec_envelope_hash(self@[j]),
            decreases self.entries@.len() - i,
        {
            let h = envelope_hash(&self.entries[i]);
            out.push(h);
            i += 1;
        }
        proof {
            assert(hashes_of(out@) =~= leaves_of(self@));
        }
        out
    }
}

} // verus!
