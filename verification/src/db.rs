//! The database: which one the bot connects to, and how a server's row is found.
use vstd::prelude::*;
use vstd::string::StringExecFns;

use crate::config::Config;
use crate::text::{decimal, decimal_string};

verus! {

/// The database that the bot connects to.
#[derive(Debug, Clone)]
pub enum DbTarget {
    /// The database at this URI, from the `db` section of the configuration.
    External(String),
    /// The bot's own SQLite file.
    Sqlite,
}

/// The configured database, or the bot's own SQLite file when none is configured.
pub fn db_target(config: &Config) -> (r: DbTarget)
    ensures
        match config.db {
            Some(d) => r matches DbTarget::External(u) && u@ == d.uri@,
            None => r is Sqlite,
        },
{
    match &config.db {
        Some(d) => DbTarget::External(d.uri.clone()),
        None => DbTarget::Sqlite,
    }
}

/// The URI of the configured database.
pub fn external_db_uri(config: &Config) -> (r: Result<String, String>)
    ensures
        match config.db {
            Some(d) => r matches Ok(u) && u@ == d.uri@,
            None => r matches Err(e) && e@ == "no db connection config was provided"@,
        },
{
    match &config.db {
        Some(d) => Ok(d.uri.clone()),
        None => Err(String::from_str("no db connection config was provided")),
    }
}

/// The URL of the SQLite file at `path`, opened for reading and writing and created when
/// missing.
pub fn sqlite_url(path: &str) -> (r: String)
    ensures
        r@ == "sqlite:"@ + path@ + "?mode=rwc"@,
{
    String::from_str("sqlite:").concat(path).concat("?mode=rwc")
}

/// The key of a server's row: its id as an `i64`, which ids above `i64::MAX` do not have.
pub fn guild_db_id(guild_id: u64) -> (r: Result<i64, String>)
    ensures
        guild_id <= i64::MAX ==> r == Ok::<i64, String>(guild_id as i64),
        guild_id > i64::MAX ==> (r matches Err(e) && e@ == decimal(guild_id as nat)
            + " could not be converted to i64"@),
{
    if guild_id <= 9223372036854775807u64 {
        Ok(guild_id as i64)
    } else {
        Err(decimal_string(guild_id).concat(" could not be converted to i64"))
    }
}

/// How inserting a server's row went.
#[derive(Debug, Clone)]
pub enum InsertOutcome {
    /// The row was inserted.
    Inserted,
    /// The row was already there, so nothing was inserted.
    AlreadyThere,
    /// The database failed, with this message.
    Failed(String),
}

/// Inserting goes on to the lookup unless the database failed.
pub fn after_insert(outcome: InsertOutcome) -> (r: Result<(), String>)
    ensures
        match outcome {
            InsertOutcome::Failed(e) => r == Err::<(), String>(e),
            _ => r is Ok,
        },
{
    match outcome {
        InsertOutcome::Failed(e) => Err(e),
        _ => Ok(()),
    }
}

/// The row that the lookup after the insert found; its absence is an error.
pub fn server_after_upsert<T>(found: Option<T>) -> (r: Result<T, String>)
    ensures
        match found {
            Some(row) => r == Ok::<T, String>(row),
            None => r matches Err(e) && e@ == "critical: server was not found immediately after upsert"@,
        },
{
    match found {
        Some(row) => Ok(row),
        None => Err(String::from_str("critical: server was not found immediately after upsert")),
    }
}

} // verus!
