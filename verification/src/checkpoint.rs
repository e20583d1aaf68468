//! Periodic checkpoints: `{length, root}` records that external auditors can
//! pin, and a windowed Merkle segmenter.
use vstd::prelude::*;

use crate::log::{leaves_of, AppendLog};
use crate::merkle::{compute_merkle_root, hashes_of, merkle_root_of};

verus! {

/// A `{length, root}` pair recording the log state at emission time.
#[derive(Clone, Copy, Debug)]
pub struct Checkpoint {
    /// Log length at checkpoint time.
    pub length: usize,
    /// Merkle root at checkpoint time.
    pub root: [u8; 32],
}

/// Emits a checkpoint whenever the log has grown by at least the configured
/// interval since the last one.
pub struct CheckpointWriter {
    last_len: usize,
}

impl CheckpointWriter {
    /// The length the log had when the last checkpoint was emitted.
    pub closed spec fn last_len(&self) -> usize {
        self.last_len
    }

    /// Create a new writer that has emitted nothing.
    pub fn new() -> (r: CheckpointWriter)
        ensures
            r.last_len() == 0,
    {
        CheckpointWriter { last_len: 0 }
    }

    /// Emit a checkpoint if the log advanced by at least `interval` since the
    /// last one; the checkpoint carries the current length and Merkle root.
    /// An empty log yields nothing.
    pub fn maybe_checkpoint(&mut self, log: &AppendLog, interval: usize) -> (r: Option<Checkpoint>)
        ensures
            match r {
                Some(cp) => log@.len() >= old(self).last_len() + interval && log@.len() > 0
                    && cp.length == log@.len() && cp.root@ == merkle_root_of(leaves_of(log@))
                    && final(self).last_len() == log@.len(),
                None => (log@.len() < old(self).last_len() + interval || log@.len() == 0)
                    && final(self).last_len() == old(self).last_len(),
            },
    {
        let len = log.len();
        if interval <= len && self.last_len <= len - interval {
            match log.merkle_root() {
                Some(root) => {
                    self.last_len = len;
                    Some(Checkpoint { length: len, root })
                },
                None => None,
            }
        } else {
            None
        }
    }
}

/// Windowed segmenter: collects envelope hashes and emits the Merkle root of
/// each full window.
pub struct MerkleSegmenter {
    window: usize,
    queue: Vec<[u8; 32]>,
}

impl MerkleSegmenter {
    /// The configured window size.
    pub closed spec fn window(&self) -> usize {
        self.window
    }

    /// The hashes collected since the last emitted segment.
    pub closed spec fn pending(&self) -> Seq<Seq<u8>> {
        hashes_of(self.queue@)
    }

    /// Create a new segmenter with a fixed window size.
    pub fn new(window: usize) -> (r: MerkleSegmenter)
        ensures
            r.window() == window,
            r.pending() == Seq::<Seq<u8>>::empty(),
    {
        let r = MerkleSegmenter { window, queue: Vec::new() };
        proof {
            assert(r.pending() =~= Seq::<Seq<u8>>::empty());
        }
        r
    }

    /// Push one envelope hash; when the window fills, emit the Merkle root of
    /// the window and start over.
    pub fn push(&mut self, env_hash: [u8; 32]) -> (r: Option<[u8; 32]>)
        ensures
            match r {
                Some(root) => old(self).pending().len() + 1 == old(self).window() && root@
                    == merkle_root_of(old(self).pending().push(env_hash@)) && final(self).pending()
                    == Seq::<Seq<u8>>::empty(),
                None => old(self).pending().len() + 1 != old(self).window() && final(self).pending()
                    == old(self).pending().push(env_hash@),
            },
            final(self).window() == old(self).window(),
    {
        self.queue.push(env_hash);
        proof {
            assert(self.pending() =~= old(self).pending().push(env_hash@));
        }
        if self.queue.len() == self.window {
            match compute_merkle_root(&self.queue) {
                Some(root) => {
                    self.queue.clear();
                    proof {
                        assert(self.pending() =~= Seq::<Seq<u8>>::empty());
                    }
                    Some(root)
                },
                None => None,
            }
        } else {
            None
        }
    }
}

} // verus!
