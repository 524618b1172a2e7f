//! How MySQL writes SQL.
use vstd::prelude::*;

use crate::adapter::{Dialect, ParamStyle};

verus! {

/// MySQL's dialect.
pub open spec fn spec_mysql_dialect() -> Dialect {
    Dialect {
        name: "mysql",
        quote_open: '`',
        quote_close: '`',
        param_style: ParamStyle::Question,
        supports_schemas: true,
        supports_sequences: false,
        supports_drop_table_cascade: false,
        supports_drop_if_exists: true,
    }
}

/// MySQL's dialect: backticks around identifiers, `?` for parameters. Its
/// databases serve as schemas. Only MariaDB has sequences, so none are
/// claimed; `DROP TABLE ... CASCADE` is parsed but ignored, so it is not
/// written.
#[verifier::when_used_as_spec(spec_mysql_dialect)]
pub fn mysql_dialect() -> (r: Dialect)
    ensures
        r == spec_mysql_dialect(),
{
    Dialect {
        name: "mysql",
        quote_open: '`',
        quote_close: '`',
        param_style: ParamStyle::Question,
        supports_schemas: true,
        supports_sequences: false,
        supports_drop_table_cascade: false,
        supports_drop_if_exists: true,
    }
}

/// A quoted identifier.
pub open spec fn ident(name: Seq<char>) -> Seq<char> {
    mysql_dialect().quoted(name)
}

/// A quoted table name behind its quoted database.
pub open spec fn qualified(schema: Seq<char>, name: Seq<char>) -> Seq<char> {
    mysql_dialect().qualified(schema, name)
}

/// Quotes an identifier.
pub fn quote_ident(name: &str) -> (r: String)
    ensures
        r@ == ident(name@),
{
    mysql_dialect().quote_ident(name)
}

/// Quotes a table name behind its database.
pub fn quote_qualified(schema: &str, name: &str) -> (r: String)
    ensures
        r@ == qualified(schema@, name@),
{
    mysql_dialect().quote_qualified(schema, name)
}

/// The identifiers of a list, each quoted.
pub open spec fn idents(names: Seq<Seq<char>>) -> Seq<Seq<char>> {
    names.map_values(|n: Seq<char>| ident(n))
}

/// Quotes each identifier of a list and joins them with commas.
pub fn quote_list(names: &Vec<String>) -> (r: String)
    ensures
        r@ == crate::text::joined(idents(crate::text::texts(names@)), ", "@),
{
    let mut quoted: Vec<String> = Vec::new();
    for i in 0..names.len()
        invariant
            quoted@.len() == i,
            forall|k: int| 0 <= k < i ==> (#[trigger] quoted@[k])@ == ident(names@[k]@),
    {
        quoted.push(quote_ident(names[i].as_str()));
    }
    assert(crate::text::texts(quoted@) =~= idents(crate::text::texts(names@)));
    crate::text::join(&quoted, ", ")
}

/// MySQL quotes names with backticks, binds parameters by question marks, keeps
/// tables in schemas, has no sequences of its own, and drops a table only where
/// it is there, without what depends on it.
pub proof fn lemma_dialect(name: Seq<char>)
    ensures
        ident(name).len() >= 2,
        ident(name)[0] == '`',
        ident(name).last() == '`',
        mysql_dialect().param_style == ParamStyle::Question,
        mysql_dialect().supports_schemas,
        !mysql_dialect().supports_sequences,
        mysql_dialect().supports_drop_if_exists,
        !mysql_dialect().supports_drop_table_cascade,
        mysql_dialect().name@ == "mysql"@,
{
}

} // verus!
