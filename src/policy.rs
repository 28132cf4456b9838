use vstd::prelude::*;

use crate::binary64::Binary64;

verus! {

/// The numeric kind a perturbed field is stored as.
#[derive(Clone, Copy, Debug, PartialEq, Eq, Structural)]
pub enum Unit {
    /// Rounded to an integer, halves away from zero.
    Integer,
    /// Kept at full precision.
    Float,
}

/// How one field is perturbed: the mechanism and its privacy parameters.
///
/// The parameters are binary64 values; `seed`, when present, makes every draw
/// for this policy reproducible.
#[derive(Clone, Debug)]
pub enum NoisePolicy {
    Laplace {
        mu: Binary64,
        sensitivity: Binary64,
        epsilon: Binary64,
        seed: Option<String>,
        unit: Unit,
    },
    Gaussian {
        mu: Binary64,
        sensitivity: Binary64,
        epsilon: Binary64,
        delta: Binary64,
        seed: Option<String>,
        unit: Unit,
    },
}

impl NoisePolicy {
    /// `sensitivity > 0` and `epsilon > 0`, both finite; for the Gaussian
    /// mechanism also `0 < delta < 1`.
    pub open spec fn params_valid(&self) -> bool {
        match *self {
            NoisePolicy::Laplace { sensitivity, epsilon, .. } => sensitivity.spec_is_positive()
                && epsilon.spec_is_positive(),
            NoisePolicy::Gaussian { sensitivity, epsilon, delta, .. } =>
                sensitivity.spec_is_positive() && epsilon.spec_is_positive()
                    && delta.spec_is_fraction(),
        }
    }

    pub open spec fn spec_seed(&self) -> Option<String> {
        match *self {
            NoisePolicy::Laplace { seed, .. } => seed,
            NoisePolicy::Gaussian { seed, .. } => seed,
        }
    }

    pub open spec fn spec_unit(&self) -> Unit {
        match *self {
            NoisePolicy::Laplace { unit, .. } => unit,
            NoisePolicy::Gaussian { unit, .. } => unit,
        }
    }

    pub fn has_valid_params(&self) -> (r: bool)
        ensures
            r == self.params_valid(),
    {
        match self {
            NoisePolicy::Laplace { sensitivity, epsilon, .. } => sensitivity.is_positive()
                && epsilon.is_positive(),
            NoisePolicy::Gaussian { sensitivity, epsilon, delta, .. } => sensitivity.is_positive()
                && epsilon.is_positive() && delta.is_fraction(),
        }
    }

    pub fn seed(&self) -> (r: &Option<String>)
        ensures
            *r == self.spec_seed(),
    {
        match self {
            NoisePolicy::Laplace { seed, .. } => seed,
            NoisePolicy::Gaussian { seed, .. } => seed,
        }
    }

    pub fn unit(&self) -> (r: Unit)
        ensures
            r == self.spec_unit(),
    {
        match self {
            NoisePolicy::Laplace { unit, .. } => *unit,
            NoisePolicy::Gaussian { unit, .. } => *unit,
        }
    }
}

/// Why the policies of a source could not be had.
#[derive(Clone, Copy, Debug, PartialEq, Eq, Structural)]
pub enum ConfigError {
    /// No configuration exists for the source.
    Missing,
    /// The configuration text is malformed or a policy lacks a parameter.
    Parse,
}

/// The policies of one source, by field name. Names are unique.
#[derive(Debug)]
pub struct PolicyMap {
    entries: Vec<(String, NoisePolicy)>,
}

impl View for PolicyMap {
    type V = Map<Seq<char>, NoisePolicy>;

    closed spec fn view(&self) -> Map<Seq<char>, NoisePolicy> {
        Map::new(
            |k: Seq<char>| exists|i: int| 0 <= i < self.entries@.len() && #[trigger] self.entries@[i].0@ == k,
            |k: Seq<char>|
                self.entries@[choose|i: int|
                    0 <= i < self.entries@.len() && #[trigger] self.entries@[i].0@ == k].1,
        )
    }
}

impl PolicyMap {
    /// No two entries share a name.
    pub closed spec fn wf(&self) -> bool {
        forall|i: int, j: int|
            0 <= i < self.entries@.len() && 0 <= j < self.entries@.len() && i != j
                ==> #[trigger] self.entries@[i].0@ != #[trigger] self.entries@[j].0@
    }

    proof fn lemma_entry_in_view(&self, i: int)
        requires
            self.wf(),
            0 <= i < self.entries@.len(),
        ensures
            self@.contains_key(self.entries@[i].0@),
            self@[self.entries@[i].0@] == self.entries@[i].1,
    {
        let k = self.entries@[i].0@;
        assert(self.entries@[i].0@ == k);
        let j = choose|j: int| 0 <= j < self.entries@.len() && #[trigger] self.entries@[j].0@ == k;
        assert(self.entries@[j].0@ == k);
    }

    /// A map without policies.
    pub fn new() -> (r: PolicyMap)
        ensures
            r.wf(),
            r@ == Map::<Seq<char>, NoisePolicy>::empty(),
    {
        let r = PolicyMap { entries: Vec::new() };
        assert(r@ =~= Map::<Seq<char>, NoisePolicy>::empty());
        r
    }

    pub fn len(&self) -> (r: usize)
        requires
            self.wf(),
        ensures
            r == self@.len(),
    {
        proof {
            self.lemma_view_len();
        }
        self.entries.len()
    }

    proof fn lemma_view_len(&self)
        requires
            self.wf(),
        ensures
            self@.dom().finite(),
            self@.len() == self.entries@.len(),
        decreases self.entries@.len(),
    {
        let n = self.entries@.len();
        let keys = Seq::new(n, |i: int| self.entries@[i].0@);
        assert(keys.no_duplicates());
        assert(self@.dom() =~= keys.to_set()) by {
            assert forall|k: Seq<char>| self@.dom().contains(k) implies keys.to_set().contains(k) by {
                let i = choose|i: int| 0 <= i < n && #[trigger] self.entries@[i].0@ == k;
                assert(keys[i] == k);
            }
            assert forall|k: Seq<char>| keys.to_set().contains(k) implies self@.dom().contains(k) by {
                let i = choose|i: int| 0 <= i < n && keys[i] == k;
                assert(self.entries@[i].0@ == k);
            }
        }
        keys.unique_seq_to_set();
    }

    /// The index of the entry named `name`, if any.
    fn find(&self, name: &String) -> (r: Option<usize>)
        requires
            self.wf(),
        ensures
            match r {
                Some(i) => i < self.entries@.len() && self.entries@[i as int].0@ == name@,
                None => !self@.contains_key(name@),
            },
    {
        let mut i: usize = 0;
        while i < self.entries.len()
            invariant
                i <= self.entries@.len(),
                forall|j: int| 0 <= j < i ==> #[trigger] self.entries@[j].0@ != name@,
            decreases self.entries@.len() - i,
        {
            if self.entries[i].0 == *name {
                return Some(i);
            }
            i = i + 1;
        }
        None
    }

    /// The policy of the field `name`, if it has one.
    pub fn get(&self, name: &String) -> (r: Option<&NoisePolicy>)
        requires
            self.wf(),
        ensures
            r.is_some() == self@.contains_key(name@),
            r matches Some(p) ==> *p == self@[name@],
    {
        match self.find(name) {
            Some(i) => {
                proof {
                    self.lemma_entry_in_view(i as int);
                }
                Some(&self.entries[i].1)
            },
            None => None,
        }
    }

    /// Sets the policy of the field `name`, replacing any it had.
    pub fn insert(&mut self, name: String, policy: NoisePolicy)
        requires
            old(self).wf(),
        ensures
            final(self).wf(),
            final(self)@ == old(self)@.insert(name@, policy),
    {
        let ghost pre = *self;
        let ghost key = name@;
        match self.find(&name) {
            Some(i) => {
                self.entries.set(i, (name, policy));
                proof {
                    assert forall|a: int, b: int|
                        0 <= a < self.entries@.len() && 0 <= b < self.entries@.len() && a != b
                            implies #[trigger] self.entries@[a].0@ != #[trigger] self.entries@[b].0@ by {
                        assert(pre.entries@[a].0@ != pre.entries@[b].0@);
                    }
                    assert forall|k: Seq<char>| #[trigger] self@.contains_key(k) == pre@.insert(key, policy).contains_key(k) by {
                        if self@.contains_key(k) {
                            let j = choose|j: int| 0 <= j < self.entries@.len() && #[trigger] self.entries@[j].0@ == k;
                            if j != i {
                                assert(pre.entries@[j].0@ == k);
                            }
                        }
                        if pre@.contains_key(k) {
                            let j = choose|j: int| 0 <= j < pre.entries@.len() && #[trigger] pre.entries@[j].0@ == k;
                            assert(self.entries@[j].0@ == k);
                        }
                        if k == key {
                            assert(self.entries@[i as int].0@ == k);
                        }
                    }
                    assert forall|k: Seq<char>| #[trigger] self@.contains_key(k) implies self@[k] == pre@.insert(key, policy)[k] by {
                        let j = choose|j: int| 0 <= j < self.entries@.len() && #[trigger] self.entries@[j].0@ == k;
                        self.lemma_entry_in_view(j);
                        if j != i {
                            pre.lemma_entry_in_view(j);
                        }
                    }
                    assert(self@ =~= pre@.insert(key, policy));
                }
            },
            None => {
                self.entries.push((name, policy));
                proof {
                    let n = pre.entries@.len() as int;
                    assert forall|a: int, b: int|
                        0 <= a < self.entries@.len() && 0 <= b < self.entries@.len() && a != b
                            implies #[trigger] self.entries@[a].0@ != #[trigger] self.entries@[b].0@ by {
                        if a < n && b < n {
                            assert(pre.entries@[a].0@ != pre.entries@[b].0@);
                        } else if a == n {
                            assert(pre.entries@[b].0@ == self.entries@[b].0@);
                        } else {
                            assert(pre.entries@[a].0@ == self.entries@[a].0@);
                        }
                    }
                    assert forall|k: Seq<char>| #[trigger] self@.contains_key(k) == pre@.insert(key, policy).contains_key(k) by {
                        if self@.contains_key(k) {
                            let j = choose|j: int| 0 <= j < self.entries@.len() && #[trigger] self.entries@[j].0@ == k;
                            if j < n {
                                assert(pre.entries@[j].0@ == k);
                            }
                        }
                        if pre@.contains_key(k) {
                            let j = choose|j: int| 0 <= j < pre.entries@.len() && #[trigger] pre.entries@[j].0@ == k;
                            assert(self.entries@[j].0@ == k);
                        }
                        if k == key {
                            assert(self.entries@[n].0@ == k);
                        }
                    }
                    assert forall|k: Seq<char>| #[trigger] self@.contains_key(k) implies self@[k] == pre@.insert(key, policy)[k] by {
                        let j = choose|j: int| 0 <= j < self.entries@.len() && #[trigger] self.entries@[j].0@ == k;
                        self.lemma_entry_in_view(j);
                        if j < n {
                            pre.lemma_entry_in_view(j);
                        }
                    }
                    assert(self@ =~= pre@.insert(key, policy));
                }
            },
        }
    }
}

/// The policies to apply for a source, given how loading its configuration
/// went: a source without configuration, or with configuration that does not
/// parse, gets no policies, so none of its fields is perturbed.
pub fn policies_or_none(loaded: Result<PolicyMap, ConfigError>) -> (r: PolicyMap)
    requires
        loaded matches Ok(m) ==> m.wf(),
    ensures
        r.wf(),
        match loaded {
            Ok(m) => r == m,
            Err(_) => r@ == Map::<Seq<char>, NoisePolicy>::empty(),
        },
{
    match loaded {
        Ok(m) => m,
        Err(_) => PolicyMap::new(),
    }
}

} // verus!
