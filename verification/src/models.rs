//! The persisted entity: an application record.

use vstd::prelude::*;

verus! {

/// An application record as the store persists it: a generated, immutable
/// `id`, a user-supplied unique `name`, and the insertion timestamp in
/// milliseconds since the epoch.
#[derive(Debug, Clone)]
pub struct Application {
    pub id: String,
    pub name: String,
    pub created_at: i64,
}

impl Application {
    /// An equal copy of the record.
    pub fn duplicate(&self) -> (r: Application)
        ensures
            r == *self,
    {
        Application { id: self.id.clone(), name: self.name.clone(), created_at: self.created_at }
    }
}

} // verus!
