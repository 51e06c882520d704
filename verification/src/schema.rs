//! The version of the library database's schema.
use vstd::prelude::*;

verus! {

/// The schema version that this library writes.
pub const SCHEMA_VERSION: i32 = 1;

/// Whether a database at `current_version` must be migrated: it is older than the current
/// schema.
pub fn needs_migration(current_version: i32) -> (r: bool)
    ensures
        r == (current_version < SCHEMA_VERSION),
{
    current_version < SCHEMA_VERSION
}

} // verus!
