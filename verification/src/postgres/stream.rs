//! Reading a table through a server-side cursor.
use vstd::prelude::*;

use crate::adapter::{self, StreamOptions};
use crate::error::DdbCoreError;
use crate::number;
use crate::postgres::bulk;
use crate::postgres::dialect;
use crate::postgres::query;
use crate::postgres::statements;
use crate::postgres::types::{self, EnumTypes};
use crate::scalar;
use crate::schema::TableRef;
use crate::text;
use crate::types::{Category, TypeCategory};
use crate::value::{self, Value, ValueModel};

verus! {

/// Whether the row decoder reads a category correctly. Everything else
/// arrives in a binary format of its own, and taking those bytes for text
/// would corrupt data. That goes for a time with its time zone too: only the
/// time without one has a decoder. And it goes for arrays of byte strings:
/// byte strings have a decoder, arrays of them do not.
pub open spec fn native(c: Category) -> bool
    decreases c,
{
    match c {
        Category::Boolean => true,
        Category::SmallInt => true,
        Category::Integer => true,
        Category::BigInt => true,
        Category::Decimal { .. } => true,
        Category::Real => true,
        Category::Double => true,
        Category::Char { .. } => true,
        Category::VarChar { .. } => true,
        Category::Text => true,
        Category::Binary { .. } => true,
        Category::VarBinary { .. } => true,
        Category::Blob => true,
        Category::Date => true,
        Category::Time { with_timezone, .. } => !with_timezone,
        Category::Timestamp { .. } => true,
        Category::Uuid => true,
        Category::Json { .. } => true,
        Category::Array { element } => native(*element) && !(*element is Blob || *element is Binary
            || *element is VarBinary),
        _ => false,
    }
}

/// Whether the row decoder reads a category correctly.
pub fn decodes_natively(category: &TypeCategory) -> (r: bool)
    ensures
        r == native(category@),
    decreases category,
{
    match category {
        TypeCategory::Boolean
        | TypeCategory::SmallInt
        | TypeCategory::Integer
        | TypeCategory::BigInt
        | TypeCategory::Decimal { .. }
        | TypeCategory::Real
        | TypeCategory::Double
        | TypeCategory::Char { .. }
        | TypeCategory::VarChar { .. }
        | TypeCategory::Text
        | TypeCategory::Binary { .. }
        | TypeCategory::VarBinary { .. }
        | TypeCategory::Blob
        | TypeCategory::Date
        | TypeCategory::Timestamp { .. }
        | TypeCategory::Uuid
        | TypeCategory::Json { .. } => true,
        TypeCategory::Time { with_timezone, .. } => !*with_timezone,
        TypeCategory::Array { element } => decodes_natively(&**element) && !matches!(
            &**element,
            TypeCategory::Blob | TypeCategory::Binary { .. } | TypeCategory::VarBinary { .. }
        ),
        _ => false,
    }
}

/// The name that the driver gives to PostgreSQL's type for a category, where
/// there is exactly one. An array of arrays is of the same type as its
/// elements.
pub open spec fn wire_name(c: Category) -> Option<Seq<char>>
    decreases c,
{
    match c {
        Category::Boolean => Some("BOOL"@),
        Category::SmallInt => Some("INT2"@),
        Category::Integer => Some("INT4"@),
        Category::BigInt => Some("INT8"@),
        Category::Decimal { .. } => Some("NUMERIC"@),
        Category::Real => Some("FLOAT4"@),
        Category::Double => Some("FLOAT8"@),
        Category::Char { .. } => Some("CHAR"@),
        Category::VarChar { .. } => Some("VARCHAR"@),
        Category::Text => Some("TEXT"@),
        Category::Binary { .. } => Some("BYTEA"@),
        Category::VarBinary { .. } => Some("BYTEA"@),
        Category::Blob => Some("BYTEA"@),
        Category::Date => Some("DATE"@),
        Category::Time { with_timezone, .. } => if with_timezone {
            Some("TIMETZ"@)
        } else {
            Some("TIME"@)
        },
        Category::Timestamp { with_timezone, .. } => if with_timezone {
            Some("TIMESTAMPTZ"@)
        } else {
            Some("TIMESTAMP"@)
        },
        Category::Interval => Some("INTERVAL"@),
        Category::Uuid => Some("UUID"@),
        Category::Json { binary } => if binary {
            Some("JSONB"@)
        } else {
            Some("JSON"@)
        },
        Category::Array { element } => match wire_name(*element) {
            Some(name) => if *element is Array {
                Some(name)
            } else {
                Some(name + "[]"@)
            },
            None => None,
        },
        _ => None,
    }
}

/// Whether a decoder reads its cells as what they are: it is neither the
/// fallback nor for an array whose elements have no decoder.
pub open spec fn reads(decoder: query::ColumnDecoder) -> bool {
    decoder != query::ColumnDecoder::Fallback && decoder != query::ColumnDecoder::Array(
        query::ArrayKind::Unsupported,
    )
}

/// The decoders of the categories that are no arrays, by their wire names.
pub proof fn lemma_scalar_decoders(c: Category)
    requires
        native(c),
        !(c is Array),
    ensures
        wire_name(c) is Some,
        !text::ends_with(wire_name(c)->0, "[]"@),
        query::scalar_named(wire_name(c)->0) != query::ColumnDecoder::Fallback,
        !(query::scalar_named(wire_name(c)->0) is Array),
        !(c is Blob || c is Binary || c is VarBinary) ==> query::kind_named(wire_name(c)->0)
            != query::ArrayKind::Unsupported,
{
    let name = wire_name(c)->0;
    reveal_strlit("[]");
    reveal_strlit("BOOL");
    reveal_strlit("INT2");
    reveal_strlit("INT4");
    reveal_strlit("INT8");
    reveal_strlit("NUMERIC");
    reveal_strlit("FLOAT4");
    reveal_strlit("FLOAT8");
    reveal_strlit("CHAR");
    reveal_strlit("VARCHAR");
    reveal_strlit("TEXT");
    reveal_strlit("BYTEA");
    reveal_strlit("DATE");
    reveal_strlit("TIME");
    reveal_strlit("TIMESTAMP");
    reveal_strlit("TIMESTAMPTZ");
    reveal_strlit("UUID");
    reveal_strlit("JSON");
    reveal_strlit("JSONB");
    assert(name.len() > 0 && name.last() != ']');
    if text::ends_with(name, "[]"@) {
        assert(name.skip(name.len() - 2)[1] == name.last());
        assert("[]"@[1] == ']');
    }
}

/// Every column that is read as it is has a decoder for the type that it
/// arrives as. So no such column comes through the fallback, and none is
/// refused for its elements.
pub proof fn lemma_native_columns_are_decoded(c: Category)
    requires
        native(c),
    ensures
        wire_name(c) is Some,
        reads(query::decoder_named(wire_name(c)->0)),
        c is Array ==> query::decoder_named(wire_name(c)->0) is Array,
    decreases c,
{
    match c {
        Category::Array { element } => {
            if *element is Array {
                lemma_native_columns_are_decoded(*element);
            } else {
                lemma_scalar_decoders(*element);
                reveal_strlit("[]");
                let name = wire_name(*element)->0;
                let whole = name + "[]"@;
                assert(whole.skip(whole.len() - 2) =~= "[]"@);
                assert(whole.take(whole.len() - 2) =~= name);
            }
        },
        _ => lemma_scalar_decoders(c),
    }
}

/// A column of the table: its name and its `format_type()` string.
#[derive(Debug, Clone)]
pub struct ColumnType {
    pub name: String,
    pub native_type: String,
}

/// One entry of the select list: the column as it is where its type decodes
/// natively, and its text otherwise.
pub open spec fn select_item(name: Seq<char>, native_type: Seq<char>) -> Seq<char> {
    let quoted = dialect::ident(name);
    if native(types::pg_category(native_type, Map::empty())) {
        quoted
    } else {
        quoted + "::text AS "@ + quoted
    }
}

/// The entry for a column that was asked for by name. A name that the table
/// does not have stands as it is, for the engine to refuse.
pub open spec fn projected_item(columns: Seq<ColumnType>, name: Seq<char>) -> Seq<char>
    decreases columns.len(),
{
    if columns.len() == 0 {
        dialect::ident(name)
    } else if columns[0].name@ == name {
        select_item(name, columns[0].native_type@)
    } else {
        projected_item(columns.drop_first(), name)
    }
}

/// The select list: all columns in the table's order, or those that were
/// asked for in the order in which they were.
pub open spec fn select_list(columns: Seq<ColumnType>, wanted: Option<Vec<String>>) -> Seq<
    Seq<char>,
> {
    match wanted {
        Some(names) => text::texts(names@).map_values(|n: Seq<char>| projected_item(columns, n)),
        None => columns.map_values(|c: ColumnType| select_item(c.name@, c.native_type@)),
    }
}

/// A bound as a literal: a cursor's query takes no parameters. Quotes are
/// doubled, so that no text ends its literal.
pub open spec fn literal(v: ValueModel) -> Seq<char> {
    match v {
        ValueModel::Null => "NULL"@,
        _ => seq!['\''] + text::doubled(bulk::scalar_text(v), '\'') + seq!['\''],
    }
}

/// The text in a literal reads back as what the value stands for: no value
/// can end its literal or reach beyond it.
pub proof fn lemma_literal_read_back(v: ValueModel)
    requires
        !(v is Null),
    ensures
        literal(v).len() >= 2,
        literal(v)[0] == '\'',
        literal(v).last() == '\'',
        text::undoubled(literal(v).subrange(1, literal(v).len() - 1), '\'') == bulk::scalar_text(v),
{
    let inner = text::doubled(bulk::scalar_text(v), '\'');
    text::lemma_undoubled_doubled(bulk::scalar_text(v), '\'');
    assert(literal(v).subrange(1, literal(v).len() - 1) =~= inner);
}

/// A condition on a column.
pub open spec fn condition_text(column: Seq<char>, c: adapter::Condition) -> Seq<char> {
    match c {
        adapter::Condition::AtLeast(v) => dialect::ident(column) + " >= "@ + literal(v),
        adapter::Condition::Below(v) => dialect::ident(column) + " < "@ + literal(v),
    }
}

/// The `WHERE` clause of a key range.
pub open spec fn where_text(options: StreamOptions) -> Seq<char> {
    match options.key_range {
        Some(range) => " WHERE "@ + text::joined(
            range.conditions().map_values(
                |c: adapter::Condition| condition_text(range.column@, c),
            ),
            " AND "@,
        ),
        None => Seq::<char>::empty(),
    }
}

/// The query that reads a table.
pub open spec fn select_text(
    table: TableRef,
    columns: Seq<ColumnType>,
    options: StreamOptions,
) -> Seq<char> {
    "SELECT "@ + text::joined(select_list(columns, options.columns), ", "@) + " FROM "@
        + dialect::qualified(table.schema@, table.name@) + where_text(options)
}

/// What is said of a table without columns.
pub open spec fn no_columns_text(table: TableRef) -> Seq<char> {
    "table "@ + table.schema@ + "."@ + table.name@ + " has no columns or does not exist"@
}

fn item_for(name: &str, native_type: &str) -> (r: String)
    ensures
        r@ == select_item(name@, native_type@),
{
    let enums = EnumTypes::new();
    let mut out = dialect::quote_ident(name);
    if !decodes_natively(&types::map_pg_type(native_type, &enums)) {
        let again = out.clone();
        out.append("::text AS ");
        out.append(again.as_str());
    }
    out
}

fn projected(columns: &Vec<ColumnType>, name: &str) -> (r: String)
    ensures
        r@ == projected_item(columns@, name@),
{
    assert(columns@.skip(0) =~= columns@);
    for i in 0..columns.len()
        invariant
            projected_item(columns@, name@) == projected_item(columns@.skip(i as int), name@),
    {
        assert(columns@.skip(i as int)[0] == columns@[i as int]);
        assert(columns@.skip(i as int).drop_first() =~= columns@.skip(i + 1));
        if text::same_text(columns[i].name.as_str(), name) {
            return item_for(name, columns[i].native_type.as_str());
        }
    }
    assert(columns@.skip(columns@.len() as int).len() == 0);
    dialect::quote_ident(name)
}

fn list_items(columns: &Vec<ColumnType>, wanted: &Option<Vec<String>>) -> (r: Vec<String>)
    ensures
        text::texts(r@) == select_list(columns@, *wanted),
{
    let mut items: Vec<String> = Vec::new();
    match wanted {
        Some(names) => {
            for i in 0..names.len()
                invariant
                    items@.len() == i,
                    forall|k: int|
                        0 <= k < i ==> (#[trigger] items@[k])@ == projected_item(
                            columns@,
                            names@[k]@,
                        ),
            {
                items.push(projected(columns, names[i].as_str()));
            }
        },
        None => {
            for i in 0..columns.len()
                invariant
                    items@.len() == i,
                    forall|k: int|
                        0 <= k < i ==> (#[trigger] items@[k])@ == select_item(
                            columns@[k].name@,
                            columns@[k].native_type@,
                        ),
            {
                items.push(item_for(columns[i].name.as_str(), columns[i].native_type.as_str()));
            }
        },
    }
    assert(text::texts(items@) =~= select_list(columns@, *wanted));
    items
}

fn push_literal(out: &mut String, v: &Value)
    requires
        !(v@ is Array),
    ensures
        final(out)@ == old(out)@ + literal(v@),
{
    match v {
        Value::Null => out.append("NULL"),
        _ => {
            let plain = bulk::scalar_literal(v);
            out.push('\'');
            text::push_doubled(out, plain.as_str(), '\'');
            out.push('\'');
        },
    }
    assert(out@ =~= old(out)@ + literal(v@));
}

fn condition(column: &str, operator: &str, v: &Value) -> (r: String)
    requires
        !(v@ is Array),
    ensures
        r@ == dialect::ident(column@) + operator@ + literal(v@),
{
    let mut out = dialect::quote_ident(column);
    out.append(operator);
    push_literal(&mut out, v);
    out
}

fn where_clause(options: &StreamOptions) -> (r: String)
    requires
        !value::has_array(options.spec_bounds()),
    ensures
        r@ == where_text(*options),
{
    match &options.key_range {
        Some(range) => {
            let ghost bounds = options.spec_bounds();
            let ghost conditions = range.conditions();
            let mut parts: Vec<String> = Vec::new();
            if let Some(lower) = &range.lower {
                assert(conditions[0] == adapter::Condition::AtLeast(lower@));
                assert(bounds[0] == lower@);
                parts.push(condition(range.column.as_str(), " >= ", lower));
            }
            if let Some(upper) = &range.upper {
                let ghost last = conditions.len() - 1;
                assert(conditions[last] == adapter::Condition::Below(upper@));
                assert(bounds[last] == upper@);
                parts.push(condition(range.column.as_str(), " < ", upper));
            }
            assert(text::texts(parts@) =~= conditions.map_values(
                |c: adapter::Condition| condition_text(range.column@, c),
            ));
            let mut out = " WHERE ".to_string();
            out.append(text::join(&parts, " AND ").as_str());
            out
        },
        None => {
            let out = String::new();
            assert(out@ =~= where_text(*options));
            out
        },
    }
}

/// Builds the query that reads `table`, from its columns as the catalog lists
/// them: those that decode natively pass as they are, the others as their
/// text.
pub fn build_select(
    table: &TableRef,
    columns: &Vec<ColumnType>,
    options: &StreamOptions,
) -> (r: Result<String, DdbCoreError>)
    ensures
        match r {
            Ok(sql) => {
                &&& options.problem() is None
                &&& !value::has_array(options.spec_bounds())
                &&& columns@.len() > 0
                &&& sql@ == select_text(*table, columns@, *options)
                &&& statements::read_query(sql@) matches Some(query)
                    && statements::reads_what_is_asked(query, *table, columns@, *options)
            },
            Err(e) => if options.problem() is Some {
                e.is_query(options.problem()->0)
            } else if value::has_array(options.spec_bounds()) {
                e.is_unsupported("array parameter binding is not implemented yet"@)
            } else {
                columns@.len() == 0 && e.is_query(no_columns_text(*table))
            },
        },
{
    match options.check() {
        Ok(_) => {},
        Err(e) => {
            return Err(e);
        },
    }
    let bounds = options.bounds();
    match query::reject_array_params(bounds.as_slice()) {
        Ok(_) => {},
        Err(e) => {
            return Err(e);
        },
    }
    if columns.len() == 0 {
        let mut message = "table ".to_string();
        message.append(table.schema.as_str());
        message.append(".");
        message.append(table.name.as_str());
        message.append(" has no columns or does not exist");
        return Err(DdbCoreError::Query(message));
    }
    let items = list_items(columns, &options.columns);
    let mut sql = "SELECT ".to_string();
    sql.append(text::join(&items, ", ").as_str());
    sql.append(" FROM ");
    sql.append(dialect::quote_qualified(table.schema.as_str(), table.name.as_str()).as_str());
    sql.append(where_clause(options).as_str());
    proof {
        statements::lemma_query_reads_what_is_asked(*table, columns@, *options);
    }
    Ok(sql)
}

/// A cursor's name, from the bytes of a UUID.
pub open spec fn cursor_text(uuid: Seq<u8>) -> Seq<char> {
    "ddbcore_cursor_"@ + number::hex(uuid)
}

/// The cursor's name for a UUID.
pub fn cursor_name_for(uuid: &[u8; 16]) -> (r: String)
    ensures
        r@ == cursor_text(uuid@),
{
    let mut name = "ddbcore_cursor_".to_string();
    number::push_hex(&mut name, uuid.as_slice());
    name
}

/// Whether these are the bytes of a random UUID: version 4, and the variant
/// of RFC 4122.
pub open spec fn is_random_uuid(uuid: Seq<u8>) -> bool {
    uuid.len() == 16 && uuid[6] / 16 == 4 && uuid[8] / 64 == 2
}

/// A name for a new cursor, from a random UUID.
pub fn cursor_name() -> (r: String)
    ensures
        exists|uuid: Seq<u8>| is_random_uuid(uuid) && r@ == #[trigger] cursor_text(uuid),
{
    let uuid = scalar::random_uuid();
    let name = cursor_name_for(&uuid);
    assert(is_random_uuid(uuid@) && name@ == cursor_text(uuid@));
    name
}

/// The statement that opens a cursor.
pub fn declare_statement(cursor: &str, sql: &str) -> (r: String)
    ensures
        r@ == "DECLARE "@ + cursor@ + " NO SCROLL CURSOR FOR "@ + sql@,
        !cursor@.contains(' ') ==> statements::read_declare(r@) == Some((cursor@, sql@)),
{
    proof {
        statements::lemma_cursor_statements(cursor@, sql@, 1);
    }
    let mut out = "DECLARE ".to_string();
    out.append(cursor);
    out.append(" NO SCROLL CURSOR FOR ");
    out.append(sql);
    out
}

/// The statement that fetches the next batch.
pub fn fetch_statement(cursor: &str, batch_size: usize) -> (r: String)
    ensures
        r@ == "FETCH FORWARD "@ + number::digits(batch_size as nat) + " FROM "@ + cursor@,
        statements::read_fetch(r@) == Some((batch_size as nat, cursor@)),
{
    proof {
        statements::lemma_cursor_statements(cursor@, cursor@, batch_size as nat);
    }
    let mut out = "FETCH FORWARD ".to_string();
    number::push_nat(&mut out, batch_size as u64);
    out.append(" FROM ");
    out.append(cursor);
    out
}

/// Whether a batch of `rows` rows ends the reading: it does where it is not
/// full.
pub open spec fn ends_reading(rows: nat, batch_size: nat) -> bool {
    rows < batch_size
}

/// Whether a batch of `rows` rows ends the reading.
pub fn is_last(rows: usize, batch_size: usize) -> (r: bool)
    ensures
        r == (rows < batch_size),
        r == ends_reading(rows as nat, batch_size as nat),
{
    rows < batch_size
}

/// How many rows the `k`-th fetch gives from a table of `total` rows.
pub open spec fn fetched(total: nat, batch_size: nat, k: nat) -> nat {
    if total <= k * batch_size {
        0
    } else if total - k * batch_size < batch_size {
        (total - k * batch_size) as nat
    } else {
        batch_size
    }
}

/// Reading up to the first batch that is not full reads every row, whether or
/// not the rows fill their batches.
pub proof fn lemma_reading_is_complete(total: nat, batch_size: nat)
    requires
        batch_size >= 1,
    ensures
        forall|k: nat|
            k < total / batch_size ==> !(#[trigger] fetched(total, batch_size, k) < batch_size),
        fetched(total, batch_size, total / batch_size) < batch_size,
        (total / batch_size) * batch_size + fetched(total, batch_size, total / batch_size) == total,
{
    let full = total / batch_size;
    assert(total == batch_size * full + total % batch_size && total % batch_size < batch_size)
        by (nonlinear_arith)
        requires
            batch_size >= 1,
            full == total / batch_size,
    ;
    assert(batch_size * full == full * batch_size) by (nonlinear_arith);
    assert forall|k: nat| k < full implies !(#[trigger] fetched(total, batch_size, k)
        < batch_size) by {
        assert((k + 1) * batch_size <= full * batch_size) by (nonlinear_arith)
            requires
                k + 1 <= full,
        ;
        assert((k + 1) * batch_size == k * batch_size + batch_size) by (nonlinear_arith);
    }
}

} // verus!
