//! The channel registry: a mapping from channel names to policies.
//!
//! A policy fixes the signer set, the signature threshold, whether
//! attestations are required, and whether timestamps must be non-decreasing.
//! The registry is read-only during validation; the operator may upsert.
use vstd::prelude::*;

use crate::bytes::str_eq;
use vstd::pervasive::VecAdditionalExecFns;

verus! {

/// Policy of one channel.
pub struct ChannelPolicy {
    /// Minimum number of distinct valid signatures.
    pub min_signers: usize,
    /// Public keys allowed to sign on this channel.
    pub allowed_signers: Vec<[u8; 32]>,
    /// Whether envelopes must carry at least one attestation.
    pub require_attestations: bool,
    /// Whether timestamps must not regress within the channel.
    pub enforce_timestamp_ordering: bool,
}

/// View of a channel policy.
pub ghost struct PolicyV {
    pub min_signers: usize,
    pub allowed_signers: Seq<Seq<u8>>,
    pub require_attestations: bool,
    pub enforce_timestamp_ordering: bool,
}

impl View for ChannelPolicy {
    type V = PolicyV;

    open spec fn view(&self) -> PolicyV {
        PolicyV {
            min_signers: self.min_signers,
            allowed_signers: self.allowed_signers@.map_values(|k: [u8; 32]| k@),
            require_attestations: self.require_attestations,
            enforce_timestamp_ordering: self.enforce_timestamp_ordering,
        }
    }
}

/// A named channel with its policy.
pub struct ChannelSpec {
    /// Channel name, unique within a registry.
    pub name: String,
    /// The channel's policy.
    pub policy: ChannelPolicy,
}

/// The map that a list of channel specs denotes; a later entry with the same
/// name overrides an earlier one.
pub open spec fn map_of(s: Seq<ChannelSpec>) -> Map<Seq<char>, PolicyV>
    decreases s.len(),
{
    if s.len() == 0 {
        Map::empty()
    } else {
        map_of(s.drop_last()).insert(s.last().name@, s.last().policy@)
    }
}

/// Unique names in a channel-spec list.
pub open spec fn unique_names(s: Seq<ChannelSpec>) -> bool {
    forall|i: int, j: int| 0 <= i < j < s.len() ==> s[i].name@ != s[j].name@
}

proof fn lemma_map_of_contains(s: Seq<ChannelSpec>, name: Seq<char>)
    ensures
        map_of(s).contains_key(name) <==> exists|i: int| 0 <= i < s.len() && s[i].name@ == name,
    decreases s.len(),
{
    if s.len() > 0 {
        lemma_map_of_contains(s.drop_last(), name);
        if map_of(s).contains_key(name) {
            if s.last().name@ != name {
                let i = choose|i: int|
                    0 <= i < s.drop_last().len() && s.drop_last()[i].name@ == name;
                assert(s[i].name@ == name);
            }
        }
        if exists|i: int| 0 <= i < s.len() && s[i].name@ == name {
            let i = choose|i: int| 0 <= i < s.len() && s[i].name@ == name;
            if i < s.len() - 1 {
                assert(s.drop_last()[i].name@ == name);
            }
        }
    }
}

proof fn lemma_map_of_lookup(s: Seq<ChannelSpec>, i: int)
    requires
        unique_names(s),
        0 <= i < s.len(),
    ensures
        map_of(s).contains_key(s[i].name@),
        map_of(s)[s[i].name@] == s[i].policy@,
    decreases s.len(),
{
    if i == s.len() - 1 {
    } else {
        assert(s.drop_last()[i] == s[i]);
        lemma_map_of_lookup(s.drop_last(), i);
        assert(s[i].name@ != s.last().name@);
    }
}

proof fn lemma_map_of_update(s: Seq<ChannelSpec>, i: int, spec: ChannelSpec)
    requires
        unique_names(s),
        0 <= i < s.len(),
        spec.name@ == s[i].name@,
    ensures
        map_of(s.update(i, spec)) == map_of(s).insert(spec.name@, spec.policy@),
    decreases s.len(),
{
    let t = s.update(i, spec);
    if i == s.len() - 1 {
        assert(t.drop_last() =~= s.drop_last());
        assert(map_of(t) =~= map_of(s).insert(spec.name@, spec.policy@));
    } else {
        assert(t.drop_last() =~= s.drop_last().update(i, spec));
        assert(s.drop_last()[i] == s[i]);
        lemma_map_of_update(s.drop_last(), i, spec);
        assert(s[i].name@ != s.last().name@);
        assert(t.last() == s.last());
        assert(map_of(t) =~= map_of(s).insert(spec.name@, spec.policy@));
    }
}

/// Registry mapping channel names to policies.
pub struct ChannelRegistry {
    channels: Vec<ChannelSpec>,
}

impl View for ChannelRegistry {
    type V = Map<Seq<char>, PolicyV>;

    closed spec fn view(&self) -> Map<Seq<char>, PolicyV> {
        map_of(self.channels@)
    }
}

impl ChannelRegistry {
    /// Channel names are unique.
    pub closed spec fn wf(&self) -> bool {
        unique_names(self.channels@)
    }

    /// Create an empty registry.
    pub fn new() -> (r: ChannelRegistry)
        ensures
            r.wf(),
            r@ == Map::<Seq<char>, PolicyV>::empty(),
    {
        ChannelRegistry { channels: Vec::new() }
    }

    /// Insert or replace the policy of the named channel.
    #[verifier::loop_isolation(false)]
    pub fn upsert(&mut self, spec: ChannelSpec)
        requires
            old(self).wf(),
        ensures
            final(self).wf(),
            final(self)@ == old(self)@.insert(spec.name@, spec.policy@),
    {
        let ghost old_channels = self.channels@;
        let mut i: usize = 0;
        while i < self.channels.len()
            invariant
                self.channels@ == old_channels,
                i <= old_channels.len(),
                forall|j: int| 0 <= j < i ==> old_channels[j].name@ != spec.name@,
            decreases old_channels.len() - i,
        {
            if str_eq(self.channels[i].name.as_str(), spec.name.as_str()) {
                proof {
                    lemma_map_of_update(old_channels, i as int, spec);
                }
                self.channels.set(i, spec);
                proof {
                    assert(self.channels@ =~= old_channels.update(i as int, spec));
                }
                return ;
            }
            i += 1;
        }
        self.channels.push(spec);
        proof {
            assert(self.channels@.drop_last() =~= old_channels);
        }
    }

    /// Look up the policy of a channel.
    #[verifier::loop_isolation(false)]
    pub fn get(&self, name: &str) -> (r: Option<&ChannelPolicy>)
        requires
            self.wf(),
        ensures
            match r {
                Some(p) => self@.contains_key(name@) && p@ == self@[name@],
                None => !self@.contains_key(name@),
            },
    {
        let mut i: usize = 0;
        while i < self.channels.len()
            invariant
                i <= self.channels@.len(),
                forall|j: int| 0 <= j < i ==> self.channels@[j].name@ != name@,
            decreases self.channels@.len() - i,
        {
            if str_eq(self.channels[i].name.as_str(), name) {
                proof {
                    lemma_map_of_lookup(self.channels@, i as int);
                }
                return Some(&self.channels[i].policy);
            }
            i += 1;
        }
        proof {
            lemma_map_of_contains(self.channels@, name@);
        }
        None
    }
}

} // verus!
