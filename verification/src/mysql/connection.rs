//! Opening a connection to MySQL or MariaDB.
use vstd::prelude::*;

use crate::adapter::ConnectionConfig;

verus! {

/// The adapter for MySQL and MariaDB.
#[derive(Debug, Clone, Copy)]
pub struct MySqlAdapter;

impl MySqlAdapter {
    /// The statement that makes every transaction of a new session read-only;
    /// none where writing is allowed.
    pub fn session_statement(&self, config: &ConnectionConfig) -> (r: Option<&'static str>)
        ensures
            r == (if config.read_only {
                Some("SET SESSION TRANSACTION READ ONLY")
            } else {
                None
            }),
    {
        if config.read_only {
            Some("SET SESSION TRANSACTION READ ONLY")
        } else {
            None
        }
    }
}

} // verus!
