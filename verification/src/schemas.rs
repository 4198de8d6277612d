//! Input shapes of the externally callable tool operations.

use vstd::prelude::*;

verus! {

/// Input of the create-application tool: the candidate name (alphanumeric,
/// hyphens, underscores, at most 255 characters, alphanumeric first
/// character).
#[derive(Debug)]
pub struct CreateAppInput {
    pub name: String,
}

} // verus!
