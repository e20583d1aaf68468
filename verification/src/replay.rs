//! The replay validator: re-runs the envelope validator over a serialized
//! sequence from the empty state, for recovery and audit.
use vstd::prelude::*;

use crate::model::{ChannelState, Envelope, EnvelopeV, StateV, initial_state};
use crate::log::spec_tail_state;
use crate::registry::{ChannelRegistry, PolicyV};
use crate::validate::{spec_validate, validate_envelope, ValidationError};

verus! {

/// Replaying a sequence from state `st`: validate each envelope in order,
/// threading the state; stop at the first error.
pub open spec fn spec_replay(
    entries: Seq<EnvelopeV>,
    reg: Map<Seq<char>, PolicyV>,
    st: StateV,
) -> Result<StateV, ValidationError>
    decreases entries.len(),
{
    if entries.len() == 0 {
        Ok(st)
    } else {
        match spec_validate(entries[0], reg, st) {
            Ok(st2) => spec_replay(entries.drop_first(), reg, st2),
            Err(e) => Err(e),
        }
    }
}

/// Unrolling a replay from the back: replaying `entries.push(e)` succeeds
/// exactly when replaying `entries` succeeds and `e` validates against the
/// resulting state.
pub proof fn lemma_replay_snoc(
    entries: Seq<EnvelopeV>,
    e: EnvelopeV,
    reg: Map<Seq<char>, PolicyV>,
    st: StateV,
)
    ensures
        spec_replay(entries.push(e), reg, st) == (match spec_replay(entries, reg, st) {
            Ok(tl) => spec_validate(e, reg, tl),
            Err(err) => Err(err),
        }),
    decreases entries.len(),
{
    if entries.len() == 0 {
        reveal_with_fuel(spec_replay, 2);
        assert(entries.push(e)[0] == e);
        assert(entries.push(e).drop_first() =~= Seq::<EnvelopeV>::empty());
    } else {
        assert(entries.push(e)[0] == entries[0]);
        assert(entries.push(e).drop_first() =~= entries.drop_first().push(e));
        match spec_validate(entries[0], reg, st) {
            Ok(st2) => {
                lemma_replay_snoc(entries.drop_first(), e, reg, st2);
            },
            Err(_) => {},
        }
    }
}

/// A successful replay from the empty state ends in the same state the log
/// tail induces: the hash and timestamp of the last envelope.
pub proof fn lemma_replay_state(entries: Seq<EnvelopeV>, reg: Map<Seq<char>, PolicyV>)
    requires
        spec_replay(entries, reg, initial_state()) is Ok,
    ensures
        spec_replay(entries, reg, initial_state())->Ok_0 == spec_tail_state(entries),
    decreases entries.len(),
{
    if entries.len() > 0 {
        lemma_replay_prefix_state(entries, initial_state(), reg);
    }
}

proof fn lemma_replay_prefix_state(
    entries: Seq<EnvelopeV>,
    st: StateV,
    reg: Map<Seq<char>, PolicyV>,
)
    requires
        entries.len() > 0,
        spec_replay(entries, reg, st) is Ok,
    ensures
        spec_replay(entries, reg, st)->Ok_0 == spec_tail_state(entries),
    decreases entries.len(),
{
    let st2 = spec_validate(entries[0], reg, st)->Ok_0;
    if entries.len() == 1 {
        assert(entries.drop_first() =~= Seq::<EnvelopeV>::empty());
        assert(entries.last() == entries[0]);
    } else {
        lemma_replay_prefix_state(entries.drop_first(), st2, reg);
        assert(entries.drop_first().last() == entries.last());
    }
}

/// Replay equivalence: replaying an extended log from the empty state
/// succeeds exactly when replaying the old log succeeds and the new envelope
/// validates against the state at the tail of the old log, which is the state
/// `AppendLog::append` validates against. A log in which every append
/// succeeded therefore replays without error, and a log that replays without
/// error could have been produced by appends alone.
pub proof fn lemma_replay_equivalence(
    entries: Seq<EnvelopeV>,
    e: EnvelopeV,
    reg: Map<Seq<char>, PolicyV>,
)
    ensures
        spec_replay(entries.push(e), reg, initial_state()) is Ok <==> (spec_replay(
            entries,
            reg,
            initial_state(),
        ) is Ok && spec_validate(e, reg, spec_tail_state(entries)) is Ok),
{
    lemma_replay_snoc(entries, e, reg, initial_state());
    if spec_replay(entries, reg, initial_state()) is Ok {
        lemma_replay_state(entries, reg);
    }
}

/// Re-validates a serialized sequence from the empty state under one
/// registry.
pub struct ReplayValidator {
    registry: ChannelRegistry,
}

impl ReplayValidator {
    /// The registry the validator replays under.
    pub closed spec fn registry(&self) -> Map<Seq<char>, PolicyV> {
        self.registry@
    }

    /// Whether the held registry is well-formed.
    pub closed spec fn wf(&self) -> bool {
        self.registry.wf()
    }

    /// Create a validator that replays under `registry`.
    pub fn new(registry: ChannelRegistry) -> (r: ReplayValidator)
        requires
            registry.wf(),
        ensures
            r.wf(),
            r.registry() == registry@,
    {
        ReplayValidator { registry }
    }

    /// Validate a sequence of envelopes starting from the empty state.
    /// Succeeds exactly when the whole sequence replays, and returns the
    /// first validation error otherwise.
    #[verifier::rlimit(60)]
    #[verifier::loop_isolation(false)]
    pub fn validate_sequence(&self, entries: &Vec<Envelope>) -> (r: Result<(), ValidationError>)
        requires
            self.wf(),
        ensures
            ({
                let vs = entries@.map_values(|e: Envelope| e@);
                match spec_replay(vs, self.registry(), initial_state()) {
                    Ok(_) => r is Ok,
                    Err(e) => r is Err && r->Err_0 == e,
                }
            }),
    {
        let ghost vs = entries@.map_values(|e: Envelope| e@);
        let mut state = ChannelState::initial();
        let mut i: usize = 0;
        proof {
            assert(vs.skip(0) =~= vs);
        }
        while i < entries.len()
            invariant
                i <= vs.len(),
                vs.len() == entries@.len(),
                spec_replay(vs, self.registry(), initial_state()) == spec_replay(
                    vs.skip(i as int),
                    self.registry(),
                    state@,
                ),
            decreases vs.len() - i,
        {
            proof {
                assert(vs.skip(i as int)[0] == vs[i as int]);
                assert(vs.skip(i as int).drop_first() =~= vs.skip(i + 1 as int));
            }
            match validate_envelope(&entries[i], &self.registry, &state) {
                Ok(next) => {
                    state = next;
                },
                Err(e) => {
                    return Err(e);
                },
            }
            i += 1;
        }
        proof {
            assert(vs.skip(vs.len() as int) =~= Seq::<EnvelopeV>::empty());
        }
        Ok(())
    }
}

} // verus!
