use vstd::prelude::*;

verus! {

/// The version of the history database schema this program writes.
pub const CURRENT_SCHEMA_VERSION: u16 = 3;

/// What bringing a history database up to the current schema takes.
#[derive(Debug, Clone, Copy, PartialEq, Eq, Structural)]
pub struct MigrationPlan {
    /// Say that an upgrade is under way.
    pub announce: bool,
    /// Add the template column and fill it from each command (version 1).
    pub add_cmd_tpl: bool,
    /// Add the session column (version 2).
    pub add_session_id: bool,
    /// Add the table of commands selected in the interface (version 3).
    pub add_selected_commands: bool,
    /// Record the current version once done.
    pub record_version: bool,
}

/// Why a history database cannot be used.
#[derive(Debug, Clone, Copy, PartialEq, Eq, Structural)]
pub enum SchemaError {
    /// Its schema is newer than this program knows.
    NewerThanSupported(u16),
}

/// The steps that bring a database at `current_version` (0 when it records none) up to
/// `CURRENT_SCHEMA_VERSION`: each step of a later version than it has, and the announcement
/// and the record of the version when there is any. A newer database is refused.
pub fn migration_plan(current_version: u16) -> (r: Result<MigrationPlan, SchemaError>)
    ensures
        match r {
            Err(SchemaError::NewerThanSupported(v)) => current_version > CURRENT_SCHEMA_VERSION
                && v == current_version,
            Ok(p) => current_version <= CURRENT_SCHEMA_VERSION && p == (MigrationPlan {
                announce: current_version < CURRENT_SCHEMA_VERSION,
                add_cmd_tpl: current_version < 1,
                add_session_id: current_version < 2,
                add_selected_commands: current_version < 3,
                record_version: current_version < CURRENT_SCHEMA_VERSION,
            }),
        },
{
    if current_version > CURRENT_SCHEMA_VERSION {
        return Err(SchemaError::NewerThanSupported(current_version));
    }
    Ok(
        MigrationPlan {
            announce: current_version < CURRENT_SCHEMA_VERSION,
            add_cmd_tpl: current_version < 1,
            add_session_id: current_version < 2,
            add_selected_commands: current_version < 3,
            record_version: current_version < CURRENT_SCHEMA_VERSION,
        },
    )
}

} // verus!
