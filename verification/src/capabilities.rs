//! The one call that clears a capability set, and the record it leaves.
use vstd::prelude::*;
use crate::namespace::CapabilitySet;

verus! {

/// One call of `caps::clear`: the set it was handed and what it answered. Its fields are
/// private to this module, where only `clear_capability_set` makes one.
pub struct Clearing {
    set: CapabilitySet,
    outcome: Result<(), String>,
}

impl Clearing {
    /// The set that `caps::clear` was handed.
    pub closed spec fn cleared_set(&self) -> CapabilitySet {
        self.set
    }

    /// What `caps::clear` answered: `Ok`, or the text of the capability error.
    pub closed spec fn answer(&self) -> Result<(), String> {
        self.outcome
    }

    /// What `caps::clear` answered.
    pub fn outcome(&self) -> (r: &Result<(), String>)
        ensures
            *r == self.answer(),
    {
        &self.outcome
    }

    /// The set that `caps::clear` was handed.
    pub fn set(&self) -> (r: CapabilitySet)
        ensures
            r == self.cleared_set(),
    {
        self.set
    }
}

/// Calls `caps::clear(None, set)`, which clears every capability in `set` for the calling
/// thread, and records the set it handed on with the answer, the error turned into its text.
/// Whether it succeeds depends on the process; the text of a `caps::errors::CapsError` starts
/// with `caps error: `.
#[verifier::external_body]
pub(crate) fn clear_capability_set(set: CapabilitySet) -> (r: Clearing)
    ensures
        r.cleared_set() == set,
        r.answer() matches Err(e) ==> "caps error: "@.is_prefix_of(e@),
{
    let cset = match set {
        CapabilitySet::Effective => caps::CapSet::Effective,
        CapabilitySet::Permitted => caps::CapSet::Permitted,
        CapabilitySet::Inheritable => caps::CapSet::Inheritable,
        CapabilitySet::Ambient => caps::CapSet::Ambient,
        CapabilitySet::Bounding => caps::CapSet::Bounding,
    };
    Clearing { set, outcome: caps::clear(None, cset).map_err(|e| e.to_string()) }
}

} // verus!
