//! How PostgreSQL writes SQL.
use vstd::prelude::*;

use crate::adapter::{Dialect, ParamStyle};

verus! {

/// PostgreSQL's dialect.
pub open spec fn spec_postgres_dialect() -> Dialect {
    Dialect {
        name: "postgres",
        quote_open: '"',
        quote_close: '"',
        param_style: ParamStyle::Dollar,
        supports_schemas: true,
        supports_sequences: true,
        supports_drop_table_cascade: true,
        supports_drop_if_exists: true,
    }
}

/// PostgreSQL's dialect: standard quotes around identifiers, `$1`, `$2` and so
/// on for parameters.
#[verifier::when_used_as_spec(spec_postgres_dialect)]
pub fn postgres_dialect() -> (r: Dialect)
    ensures
        r == spec_postgres_dialect(),
{
    Dialect {
        name: "postgres",
        quote_open: '"',
        quote_close: '"',
        param_style: ParamStyle::Dollar,
        supports_schemas: true,
        supports_sequences: true,
        supports_drop_table_cascade: true,
        supports_drop_if_exists: true,
    }
}

/// A quoted identifier.
pub open spec fn ident(name: Seq<char>) -> Seq<char> {
    postgres_dialect().quoted(name)
}

/// A quoted table name behind its quoted schema.
pub open spec fn qualified(schema: Seq<char>, name: Seq<char>) -> Seq<char> {
    postgres_dialect().qualified(schema, name)
}

/// Quotes an identifier.
pub fn quote_ident(name: &str) -> (r: String)
    ensures
        r@ == ident(name@),
{
    postgres_dialect().quote_ident(name)
}

/// Quotes a table name behind its schema.
pub fn quote_qualified(schema: &str, name: &str) -> (r: String)
    ensures
        r@ == qualified(schema@, name@),
{
    postgres_dialect().quote_qualified(schema, name)
}

/// PostgreSQL quotes names with double quotes, binds parameters by number, keeps
/// tables in schemas, has sequences, and drops a table only where it is there,
/// with what depends on it.
pub proof fn lemma_dialect(name: Seq<char>)
    ensures
        ident(name).len() >= 2,
        ident(name)[0] == '"',
        ident(name).last() == '"',
        postgres_dialect().param_style == ParamStyle::Dollar,
        postgres_dialect().supports_schemas,
        postgres_dialect().supports_sequences,
        postgres_dialect().supports_drop_if_exists,
        postgres_dialect().supports_drop_table_cascade,
        postgres_dialect().name@ == "postgres"@,
{
}

} // verus!
