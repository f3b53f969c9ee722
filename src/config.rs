use vstd::prelude::*;
use vstd::string::StringExecFns;

verus! {

/// How the pool of connections to the database file is sized and configured.
#[derive(PartialEq, Eq, Structural, Clone, Copy, Debug)]
pub struct PoolSettings {
    /// Connections kept open while idle.
    pub min_idle: u32,
    /// Connections open at once, at most.
    pub max_size: u32,
    /// How long a caller waits for a free connection, in seconds.
    pub acquire_timeout_secs: u64,
    /// How long a statement waits for a lock before it fails, in milliseconds.
    pub busy_timeout_ms: u32,
}

/// The pool's settings: 5 idle, at most 15 open, 10 s to acquire, 5 s busy wait.
pub fn pool_settings() -> (r: PoolSettings)
    ensures
        r == (PoolSettings {
            min_idle: 5,
            max_size: 15,
            acquire_timeout_secs: 10,
            busy_timeout_ms: 5000,
        }),
{
    PoolSettings { min_idle: 5, max_size: 15, acquire_timeout_secs: 10, busy_timeout_ms: 5000 }
}

/// The statements every new connection runs: foreign keys on, write-ahead logging,
/// extended result codes. The busy wait is set from `PoolSettings::busy_timeout_ms`.
pub open spec fn connection_pragmas_text() -> Seq<char> {
    "PRAGMA foreign_keys = ON;
     PRAGMA journal_mode = WAL;
     PRAGMA extended_result_codes = ON;"@
}

pub fn connection_pragmas() -> (r: &'static str)
    ensures
        r@ == connection_pragmas_text(),
{
    "PRAGMA foreign_keys = ON;
     PRAGMA journal_mode = WAL;
     PRAGMA extended_result_codes = ON;"
}

/// Where the database file lives unless another path is given.
pub fn get_default_db_path() -> (r: String)
    ensures
        r@ == "./database/vulnerabilities.db"@,
{
    String::from_str("./database/vulnerabilities.db")
}

} // verus!
