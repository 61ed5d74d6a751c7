//! Storage settings and the textual forms in which mount settings are stored.
use vstd::prelude::*;

use crate::errors::DbError;
use crate::mount::{Audience, MountMode};
use crate::text::{has_prefix, str_eq, str_starts_with};

verus! {

broadcast use vstd::string::group_string_axioms;

/// How the daemon connects to its SQLite database. The acquire timeout is in seconds.
#[derive(Debug, Clone)]
pub struct DbConfig {
    pub database_url: String,
    pub max_connections: u32,
    pub min_connections: u32,
    pub acquire_timeout_secs: u64,
}

impl DbConfig {
    /// Settings for `database_url`: at most 10 connections, at least 1, 5 s to acquire one.
    pub fn new(database_url: String) -> (c: DbConfig)
        ensures
            c.database_url@ == database_url@,
            c.max_connections == 10,
            c.min_connections == 1,
            c.acquire_timeout_secs == 5,
    {
        DbConfig { database_url, max_connections: 10, min_connections: 1, acquire_timeout_secs: 5 }
    }
}

impl Default for DbConfig {
    /// The database `memo.db` in the working directory.
    fn default() -> (c: DbConfig)
        ensures
            c.database_url@ == "sqlite://memo.db"@,
            c.max_connections == 10,
            c.min_connections == 1,
            c.acquire_timeout_secs == 5,
    {
        DbConfig::new("sqlite://memo.db".to_owned())
    }
}

/// Why settings are refused before any connection is attempted, if they are.
pub open spec fn db_config_problem(c: DbConfig) -> Option<Seq<char>> {
    if !has_prefix(c.database_url@, "sqlite:"@) {
        Some("database_url must start with sqlite:"@)
    } else if c.min_connections > c.max_connections {
        Some("min_connections must be <= max_connections"@)
    } else {
        None
    }
}

/// Checks the settings that must hold before a pool is opened: a SQLite URL and pool
/// bounds with the minimum not above the maximum.
pub fn validate_db_config(config: &DbConfig) -> (r: Result<(), DbError>)
    ensures
        match db_config_problem(*config) {
            None => r is Ok,
            Some(m) => r matches Err(DbError::Connection(msg)) && msg@ == m,
        },
{
    if !str_starts_with(config.database_url.as_str(), "sqlite:") {
        return Err(DbError::Connection("database_url must start with sqlite:".to_owned()));
    }
    if config.min_connections > config.max_connections {
        return Err(DbError::Connection("min_connections must be <= max_connections".to_owned()));
    }
    Ok(())
}

/// The stored form of a mount mode.
pub open spec fn mount_mode_text(mode: MountMode) -> Seq<char> {
    match mode {
        MountMode::ReadOnly => "ro"@,
        MountMode::ReadWrite => "rw"@,
    }
}

/// The stored form of an audience.
pub open spec fn audience_text(audience: Audience) -> Seq<char> {
    match audience {
        Audience::Shared => "shared"@,
        Audience::AgentOnly => "agent-only"@,
        Audience::HumanOnly => "human-only"@,
    }
}

/// The stored form of `mode`.
pub fn mount_mode_to_db(mode: &MountMode) -> (s: &'static str)
    ensures
        s@ == mount_mode_text(*mode),
{
    match mode {
        MountMode::ReadOnly => "ro",
        MountMode::ReadWrite => "rw",
    }
}

/// The mount mode stored as `s`, if any.
pub open spec fn mount_mode_from_text(s: Seq<char>) -> Option<MountMode> {
    if s == "ro"@ {
        Some(MountMode::ReadOnly)
    } else if s == "rw"@ {
        Some(MountMode::ReadWrite)
    } else {
        None
    }
}

/// The audience stored as `s`, if any.
pub open spec fn audience_from_text(s: Seq<char>) -> Option<Audience> {
    if s == "shared"@ {
        Some(Audience::Shared)
    } else if s == "agent-only"@ {
        Some(Audience::AgentOnly)
    } else if s == "human-only"@ {
        Some(Audience::HumanOnly)
    } else {
        None
    }
}

/// Reads a stored mount mode; anything but `ro` and `rw` is a query error naming the value.
pub fn mount_mode_from_db(value: &str) -> (r: Result<MountMode, DbError>)
    ensures
        match mount_mode_from_text(value@) {
            Some(m) => r == Ok::<MountMode, DbError>(m),
            None => r matches Err(DbError::Query(msg)) && msg@ == "invalid mount mode: "@
                + value@,
        },
{
    if str_eq(value, "ro") {
        Ok(MountMode::ReadOnly)
    } else if str_eq(value, "rw") {
        Ok(MountMode::ReadWrite)
    } else {
        Err(DbError::Query("invalid mount mode: ".to_owned().concat(value)))
    }
}

/// The stored form of `audience`.
pub fn audience_to_db(audience: &Audience) -> (s: &'static str)
    ensures
        s@ == audience_text(*audience),
{
    match audience {
        Audience::Shared => "shared",
        Audience::AgentOnly => "agent-only",
        Audience::HumanOnly => "human-only",
    }
}

/// Reads a stored audience; anything but `shared`, `agent-only` and `human-only` is a
/// query error naming the value.
pub fn audience_from_db(value: &str) -> (r: Result<Audience, DbError>)
    ensures
        match audience_from_text(value@) {
            Some(a) => r == Ok::<Audience, DbError>(a),
            None => r matches Err(DbError::Query(msg)) && msg@ == "invalid audience: "@
                + value@,
        },
{
    if str_eq(value, "shared") {
        Ok(Audience::Shared)
    } else if str_eq(value, "agent-only") {
        Ok(Audience::AgentOnly)
    } else if str_eq(value, "human-only") {
        Ok(Audience::HumanOnly)
    } else {
        Err(DbError::Query("invalid audience: ".to_owned().concat(value)))
    }
}

/// Reading back a stored mount mode gives the mode that was stored, and only stored
/// forms are read as modes.
pub proof fn lemma_mount_mode_db_round_trip(mode: MountMode, s: Seq<char>)
    ensures
        mount_mode_from_text(mount_mode_text(mode)) == Some(mode),
        mount_mode_from_text(s) matches Some(m) ==> mount_mode_text(m) == s,
{
    reveal_strlit("ro");
    reveal_strlit("rw");
    assert("ro"@ != "rw"@) by {
        assert("ro"@[1] != "rw"@[1]);
    }
}

/// Reading back a stored audience gives the audience that was stored, and only stored
/// forms are read as audiences.
pub proof fn lemma_audience_db_round_trip(audience: Audience, s: Seq<char>)
    ensures
        audience_from_text(audience_text(audience)) == Some(audience),
        audience_from_text(s) matches Some(a) ==> audience_text(a) == s,
{
    reveal_strlit("shared");
    reveal_strlit("agent-only");
    reveal_strlit("human-only");
    assert("shared"@ != "agent-only"@ && "shared"@ != "human-only"@) by {
        assert("shared"@.len() != "agent-only"@.len());
    }
    assert("agent-only"@ != "human-only"@) by {
        assert("agent-only"@[0] != "human-only"@[0]);
    }
}

} // verus!
