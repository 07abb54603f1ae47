use vstd::prelude::*;

verus! {

/// The error taxonomy of the engine. Every failing operation reports one of
/// these kinds and leaves the engine's state exactly as it found it.
#[derive(Clone, Copy, PartialEq, Eq, Structural, Debug)]
pub enum EntangleError {
    /// A record already exists at the deterministic address the operation
    /// would create: the registration or pair initialization was retried.
    DuplicateInitialization,
    /// The asset's recorded collection membership does not match the
    /// expected collection.
    MembershipMismatch,
    /// The caller lacks the required custody or administrative right.
    AuthorizationError,
    /// A disentangle or lock was attempted on a one-way collection.
    IrreversibleCollection,
    /// A vault slot does not hold the expected unit count. Unreachable under
    /// correct serialization; never silently repaired.
    StateInconsistency,
    /// A referenced record, asset or metadata entry cannot be read.
    ResourceUnavailable,
}

impl EntangleError {
    /// A short description of the error kind.
    pub fn describe(&self) -> (r: &'static str)
        ensures
            r@.len() > 0,
    {
        let r = match self {
            EntangleError::DuplicateInitialization => "record already initialized",
            EntangleError::MembershipMismatch => "collection membership mismatch",
            EntangleError::AuthorizationError => "caller lacks required custody",
            EntangleError::IrreversibleCollection => "collection is one-way",
            EntangleError::StateInconsistency => "vault state inconsistent",
            EntangleError::ResourceUnavailable => "record or metadata unavailable",
        };
        proof {
            reveal_strlit("record already initialized");
            reveal_strlit("collection membership mismatch");
            reveal_strlit("caller lacks required custody");
            reveal_strlit("collection is one-way");
            reveal_strlit("vault state inconsistent");
            reveal_strlit("record or metadata unavailable");
        }
        r
    }
}

} // verus!
