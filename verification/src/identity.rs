//! The real user of this process, as the one call that asks for it reports it.
use vstd::prelude::*;

verus! {

/// The real user id of this process. Its field is private to this module, where only
/// `real_user_id` makes one.
pub struct RealUid {
    value: u32,
}

impl RealUid {
    /// The user id.
    pub closed spec fn uid(&self) -> u32 {
        self.value
    }

    /// The user id.
    pub fn get(&self) -> (r: u32)
        ensures
            r == self.uid(),
    {
        self.value
    }
}

/// Calls `nix::unistd::getuid` and records the raw user id: the real user id of the calling
/// process. It depends on the process, so nothing is stated of it.
#[verifier::external_body]
pub(crate) fn real_user_id() -> (r: RealUid) {
    RealUid { value: nix::unistd::getuid().as_raw() }
}

} // verus!
