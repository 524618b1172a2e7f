//! Opening a connection to PostgreSQL.
use vstd::prelude::*;

use crate::adapter::ConnectionConfig;

verus! {

/// The adapter for PostgreSQL.
#[derive(Debug, Clone, Copy)]
pub struct PostgresAdapter;

impl PostgresAdapter {
    /// The session parameter, with its value, that makes every transaction
    /// read-only; none where writing is allowed.
    pub fn session_option(&self, config: &ConnectionConfig) -> (r: Option<
        (&'static str, &'static str),
    >)
        ensures
            r == (if config.read_only {
                Some(("default_transaction_read_only", "on"))
            } else {
                None
            }),
    {
        if config.read_only {
            Some(("default_transaction_read_only", "on"))
        } else {
            None
        }
    }
}

} // verus!
