//! Service configuration: where to listen and where the database
//! lives, each with a default that works for local development.

use vstd::prelude::*;

verus! {

/// Where the service listens and where its database file lives.
#[derive(Clone, Debug, PartialEq, Eq)]
pub struct Config {
    pub bind_addr: String,
    pub db_path: String,
}

/// The bind address used when none is configured.
pub open spec fn default_bind_addr() -> Seq<char> {
    "0.0.0.0:8080"@
}

/// The database path used when none is configured.
pub open spec fn default_db_path() -> Seq<char> {
    "tally.sqlite"@
}

/// A configured value, or the default when there is none.
pub open spec fn setting_or(value: Option<String>, default: Seq<char>) -> Seq<char> {
    match value {
        Some(v) => v@,
        None => default,
    }
}

impl Config {
    /// The configuration from the values of `TALLY_ADDR` and
    /// `TALLY_DB` (`None` where a variable is unset or unreadable),
    /// with the development defaults in their place.
    pub fn from_vars(addr: Option<String>, db: Option<String>) -> (c: Config)
        ensures
            c.bind_addr@ == setting_or(addr, default_bind_addr()),
            c.db_path@ == setting_or(db, default_db_path()),
            addr matches Some(a) ==> c.bind_addr == a,
            addr is None ==> c.bind_addr@ == "0.0.0.0:8080"@,
            db matches Some(d) ==> c.db_path == d,
            db is None ==> c.db_path@ == "tally.sqlite"@,
    {
        let bind_addr = match addr {
            Some(a) => a,
            None => "0.0.0.0:8080".to_owned(),
        };
        let db_path = match db {
            Some(d) => d,
            None => "tally.sqlite".to_owned(),
        };
        Config { bind_addr, db_path }
    }
}

/// Law: a set variable is used exactly as given, whatever it holds;
/// an unset one gives the default.
pub proof fn law_set_value_used_verbatim(value: String, default: Seq<char>)
    ensures
        setting_or(Some(value), default) == value@,
        setting_or(None, default) == default,
        default_bind_addr() == "0.0.0.0:8080"@,
        default_db_path() == "tally.sqlite"@,
{
}

} // verus!
