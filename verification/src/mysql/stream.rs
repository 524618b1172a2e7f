//! Reading a table.
use vstd::prelude::*;

use crate::adapter::{self, StreamOptions};
use crate::error::DdbCoreError;
use crate::mysql::dialect;
use crate::mysql::query;
use crate::mysql::statements;
use crate::schema::TableRef;
use crate::text;
use crate::value::{self, Value};

verus! {

/// A query and the values to bind to it, in order.
#[derive(Debug, Clone)]
pub struct StreamPlan {
    pub sql: String,
    pub binds: Vec<Value>,
}

/// The columns to read: all of them, or those that were asked for in the
/// order in which they were.
pub open spec fn select_list(wanted: Option<Vec<String>>) -> Seq<char> {
    match wanted {
        Some(names) => text::joined(dialect::idents(text::texts(names@)), ", "@),
        None => "*"@,
    }
}

/// A condition on a column, with a place for its bound.
pub open spec fn condition_text(column: Seq<char>, c: adapter::Condition) -> Seq<char> {
    match c {
        adapter::Condition::AtLeast(_) => dialect::ident(column) + " >= ?"@,
        adapter::Condition::Below(_) => dialect::ident(column) + " < ?"@,
    }
}

/// The `WHERE` clause of a key range.
pub open spec fn where_text(options: StreamOptions) -> Seq<char> {
    match options.key_range {
        Some(range) => " WHERE "@ + text::joined(
            range.conditions().map_values(
                |c: adapter::Condition| condition_text(range.column@, c),
            ),
            " AND "@,
        ),
        None => Seq::<char>::empty(),
    }
}

/// The query that reads a table.
pub open spec fn select_text(table: TableRef, options: StreamOptions) -> Seq<char> {
    "SELECT "@ + select_list(options.columns) + " FROM "@ + dialect::qualified(
        table.schema@,
        table.name@,
    ) + where_text(options)
}

fn condition(column: &str, operator: &str) -> (r: String)
    ensures
        r@ == dialect::ident(column@) + operator@,
{
    let mut out = dialect::quote_ident(column);
    out.append(operator);
    out
}

fn where_clause(options: &StreamOptions) -> (r: String)
    ensures
        r@ == where_text(*options),
{
    match &options.key_range {
        Some(range) => {
            let mut parts: Vec<String> = Vec::new();
            if range.lower.is_some() {
                parts.push(condition(range.column.as_str(), " >= ?"));
            }
            if range.upper.is_some() {
                parts.push(condition(range.column.as_str(), " < ?"));
            }
            assert(text::texts(parts@) =~= range.conditions().map_values(
                |c: adapter::Condition| condition_text(range.column@, c),
            ));
            let mut out = " WHERE ".to_string();
            out.append(text::join(&parts, " AND ").as_str());
            out
        },
        None => {
            let out = String::new();
            assert(out@ =~= where_text(*options));
            out
        },
    }
}

/// The query that reads `table`, and the bounds of its key range as
/// parameters. The batch size is only checked: rows come one at a time.
pub fn plan_stream(table: &TableRef, options: &StreamOptions) -> (r: Result<
    StreamPlan,
    DdbCoreError,
>)
    ensures
        match r {
            Ok(plan) => {
                &&& options.problem() is None
                &&& !value::has_array(options.spec_bounds())
                &&& plan.sql@ == select_text(*table, *options)
                &&& value::models(plan.binds@) == options.spec_bounds()
                &&& statements::read_query(plan.sql@) matches Some(query)
                    && statements::reads_what_is_asked(
                    query,
                    value::models(plan.binds@),
                    *table,
                    *options,
                )
            },
            Err(e) => if options.problem() is Some {
                e.is_query(options.problem()->0)
            } else {
                &&& value::has_array(options.spec_bounds())
                &&& e.is_unsupported(
                    "MySQL has no array type; array parameters are not supported"@,
                )
            },
        },
{
    match options.check() {
        Ok(_) => {},
        Err(e) => {
            return Err(e);
        },
    }
    let binds = options.bounds();
    match query::reject_array_params(binds.as_slice()) {
        Ok(_) => {},
        Err(e) => {
            return Err(e);
        },
    }
    let columns = match &options.columns {
        Some(names) => dialect::quote_list(names),
        None => "*".to_string(),
    };
    let mut sql = "SELECT ".to_string();
    sql.append(columns.as_str());
    sql.append(" FROM ");
    sql.append(dialect::quote_qualified(table.schema.as_str(), table.name.as_str()).as_str());
    sql.append(where_clause(options).as_str());
    proof {
        statements::lemma_query_reads_what_is_asked(*table, *options);
    }
    Ok(StreamPlan { sql, binds })
}

} // verus!
