//! The migration of the database schema: the scripts `db/1.sql`,
//! `db/2.sql`, ... of the assets are applied in order from the version
//! after the stored one, as long as they exist.
use crate::text::{push_signed_decimal, signed_decimal, string_of};
use vstd::prelude::*;

verus! {

/// The version of the stored schema: 0 when none is recorded yet.
pub fn stored_version(recorded: Option<i32>) -> (r: i32)
    ensures
        r == match recorded {
            Some(v) => v,
            None => 0,
        },
{
    match recorded {
        Some(v) => v,
        None => 0,
    }
}

/// The path, relative to the assets, of the script that upgrades the
/// schema from `version` to the next version.
pub fn migration_script(version: i32) -> (r: String)
    requires
        version < i32::MAX,
    ensures
        r@ == "db/"@ + signed_decimal(version + 1) + ".sql"@,
{
    let mut s: String = string_of("db/");
    push_signed_decimal(&mut s, (version + 1) as i64);
    s.append(".sql");
    s
}

/// The step of the migration at `version`, knowing whether the script to
/// the next version exists: apply it and go on from the next version, or
/// stop at `version`.
pub fn migration_step(version: i32, next_script_exists: bool) -> (r: Option<i32>)
    requires
        version < i32::MAX,
    ensures
        next_script_exists ==> r == Some((version + 1) as i32),
        !next_script_exists ==> r is None,
{
    if next_script_exists {
        Some(version + 1)
    } else {
        None
    }
}

/// Whether the recorded version must be updated and the migration
/// committed: only when some script was applied.
pub fn migration_applied(final_version: i32, table_version: i32) -> (r: bool)
    ensures
        r == (final_version != table_version),
{
    final_version != table_version
}

} // verus!
