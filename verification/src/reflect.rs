//! What the engines share when they reflect a schema.
use vstd::prelude::*;

use crate::error::DdbCoreError;
use crate::schema::{Table, TableRef};

verus! {

/// What is said of a table that is not there.
pub open spec fn not_found_text(table: TableRef) -> Seq<char> {
    "table "@ + table.schema@ + "."@ + table.name@ + " not found"@
}

/// The one table that a reflection by name found: the last, where there is
/// any.
pub fn only_table(tables: Vec<Table>, table: &TableRef) -> (r: Result<Table, DdbCoreError>)
    ensures
        match r {
            Ok(found) => tables@.len() > 0 && found == tables@.last(),
            Err(e) => tables@.len() == 0 && e.is_reflection(not_found_text(*table)),
        },
{
    let mut tables = tables;
    match tables.pop() {
        Some(found) => Ok(found),
        None => {
            let mut message = "table ".to_string();
            message.append(table.schema.as_str());
            message.append(".");
            message.append(table.name.as_str());
            message.append(" not found");
            Err(DdbCoreError::Reflection(message))
        },
    }
}

} // verus!
