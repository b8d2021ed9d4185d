use vstd::prelude::*;

verus! {

/// A release of the assistant itself, kept so that a new release can migrate
/// the data that an earlier one stored.
#[derive(Debug, Clone, Copy, PartialEq, Eq)]
pub struct PreviousVersion {
    /// The identifier of that release.
    pub delegate_key: [u8; 32],
    /// The hash of that release's code.
    pub code_hash: [u8; 32],
    /// Its version number, for logs.
    pub version: u32,
}

/// The earlier releases of the assistant, oldest first.  The list is fixed at
/// build time; an entry is added here before each new release.
pub fn previous_upgrade_assistant_keys() -> (r: Vec<PreviousVersion>)
    ensures
        r@.len() == 0,
{
    Vec::new()
}

} // verus!
