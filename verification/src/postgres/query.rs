//! Running queries: which decoder fits a column, and which parameters can be
//! bound.
use vstd::prelude::*;

use crate::error::DdbCoreError;
use crate::postgres::kinds;
use crate::postgres::round_trip;
use crate::text;
use crate::value::{self, Value, ValueModel};

verus! {

/// How the cells of a column are decoded.
#[derive(Debug, Clone, Copy, PartialEq, Eq)]
pub enum ColumnDecoder {
    Bool,
    I16,
    I32,
    I64,
    Dec,
    F32,
    F64,
    Str,
    Bytes,
    Date,
    Time,
    TsNaive,
    TsUtc,
    Uuid,
    Json,
    Array(ArrayKind),
    /// A wire type without a decoder: text where it is text, and raw bytes
    /// otherwise. Binary data is never taken for text.
    Fallback,
}

/// How the elements of an array column are decoded.
#[derive(Debug, Clone, Copy, PartialEq, Eq)]
pub enum ArrayKind {
    Bool,
    I16,
    I32,
    I64,
    Dec,
    F32,
    F64,
    Str,
    Date,
    Time,
    TsNaive,
    TsUtc,
    Uuid,
    Json,
    Unsupported,
}

/// The decoder for the elements of an array, by the element type's name. The
/// driver calls PostgreSQL's `bpchar` by the name `CHAR`.
pub open spec fn kind_named(name: Seq<char>) -> ArrayKind {
    if name == "BOOL"@ {
        ArrayKind::Bool
    } else if name == "INT2"@ {
        ArrayKind::I16
    } else if name == "INT4"@ {
        ArrayKind::I32
    } else if name == "INT8"@ {
        ArrayKind::I64
    } else if name == "NUMERIC"@ {
        ArrayKind::Dec
    } else if name == "FLOAT4"@ {
        ArrayKind::F32
    } else if name == "FLOAT8"@ {
        ArrayKind::F64
    } else if name == "TEXT"@
        || name == "VARCHAR"@
        || name == "BPCHAR"@
        || name == "CHAR"@
        || name == "NAME"@
        || name == "CITEXT"@ {
        ArrayKind::Str
    } else if name == "DATE"@ {
        ArrayKind::Date
    } else if name == "TIME"@ {
        ArrayKind::Time
    } else if name == "TIMESTAMP"@ {
        ArrayKind::TsNaive
    } else if name == "TIMESTAMPTZ"@ {
        ArrayKind::TsUtc
    } else if name == "UUID"@ {
        ArrayKind::Uuid
    } else if name == "JSON"@ || name == "JSONB"@ {
        ArrayKind::Json
    } else {
        ArrayKind::Unsupported
    }
}

/// The decoder for a column that is no array, by the type's name. A timestamp
/// without a time zone stays a wall-clock time: stamping it UTC would change
/// what it means.
pub open spec fn scalar_named(name: Seq<char>) -> ColumnDecoder {
    if name == "BOOL"@ {
        ColumnDecoder::Bool
    } else if name == "INT2"@ {
        ColumnDecoder::I16
    } else if name == "INT4"@ {
        ColumnDecoder::I32
    } else if name == "INT8"@ {
        ColumnDecoder::I64
    } else if name == "NUMERIC"@ {
        ColumnDecoder::Dec
    } else if name == "FLOAT4"@ {
        ColumnDecoder::F32
    } else if name == "FLOAT8"@ {
        ColumnDecoder::F64
    } else if name == "TEXT"@
        || name == "VARCHAR"@
        || name == "BPCHAR"@
        || name == "CHAR"@
        || name == "NAME"@
        || name == "CITEXT"@ {
        ColumnDecoder::Str
    } else if name == "BYTEA"@ {
        ColumnDecoder::Bytes
    } else if name == "DATE"@ {
        ColumnDecoder::Date
    } else if name == "TIME"@ {
        ColumnDecoder::Time
    } else if name == "TIMESTAMP"@ {
        ColumnDecoder::TsNaive
    } else if name == "TIMESTAMPTZ"@ {
        ColumnDecoder::TsUtc
    } else if name == "UUID"@ {
        ColumnDecoder::Uuid
    } else if name == "JSON"@ || name == "JSONB"@ {
        ColumnDecoder::Json
    } else {
        ColumnDecoder::Fallback
    }
}

/// The decoder for a column, by the type's name.
pub open spec fn decoder_named(name: Seq<char>) -> ColumnDecoder {
    if text::ends_with(name, "[]"@) {
        ColumnDecoder::Array(kind_named(name.take(name.len() - 2)))
    } else {
        scalar_named(name)
    }
}

/// The decoder for the elements of an array.
pub fn array_kind(name: &[char]) -> (r: ArrayKind)
    ensures
        r == kind_named(name@),
{
    if text::is_text(name, "BOOL") {
        ArrayKind::Bool
    } else if text::is_text(name, "INT2") {
        ArrayKind::I16
    } else if text::is_text(name, "INT4") {
        ArrayKind::I32
    } else if text::is_text(name, "INT8") {
        ArrayKind::I64
    } else if text::is_text(name, "NUMERIC") {
        ArrayKind::Dec
    } else if text::is_text(name, "FLOAT4") {
        ArrayKind::F32
    } else if text::is_text(name, "FLOAT8") {
        ArrayKind::F64
    } else if text::is_text(name, "TEXT")
        || text::is_text(name, "VARCHAR")
        || text::is_text(name, "BPCHAR")
        || text::is_text(name, "CHAR")
        || text::is_text(name, "NAME")
        || text::is_text(name, "CITEXT") {
        ArrayKind::Str
    } else if text::is_text(name, "DATE") {
        ArrayKind::Date
    } else if text::is_text(name, "TIME") {
        ArrayKind::Time
    } else if text::is_text(name, "TIMESTAMP") {
        ArrayKind::TsNaive
    } else if text::is_text(name, "TIMESTAMPTZ") {
        ArrayKind::TsUtc
    } else if text::is_text(name, "UUID") {
        ArrayKind::Uuid
    } else if text::is_text(name, "JSON") || text::is_text(name, "JSONB") {
        ArrayKind::Json
    } else {
        ArrayKind::Unsupported
    }
}

fn scalar_decoder(name: &[char]) -> (r: ColumnDecoder)
    ensures
        r == scalar_named(name@),
{
    if text::is_text(name, "BOOL") {
        ColumnDecoder::Bool
    } else if text::is_text(name, "INT2") {
        ColumnDecoder::I16
    } else if text::is_text(name, "INT4") {
        ColumnDecoder::I32
    } else if text::is_text(name, "INT8") {
        ColumnDecoder::I64
    } else if text::is_text(name, "NUMERIC") {
        ColumnDecoder::Dec
    } else if text::is_text(name, "FLOAT4") {
        ColumnDecoder::F32
    } else if text::is_text(name, "FLOAT8") {
        ColumnDecoder::F64
    } else if text::is_text(name, "TEXT")
        || text::is_text(name, "VARCHAR")
        || text::is_text(name, "BPCHAR")
        || text::is_text(name, "CHAR")
        || text::is_text(name, "NAME")
        || text::is_text(name, "CITEXT") {
        ColumnDecoder::Str
    } else if text::is_text(name, "BYTEA") {
        ColumnDecoder::Bytes
    } else if text::is_text(name, "DATE") {
        ColumnDecoder::Date
    } else if text::is_text(name, "TIME") {
        ColumnDecoder::Time
    } else if text::is_text(name, "TIMESTAMP") {
        ColumnDecoder::TsNaive
    } else if text::is_text(name, "TIMESTAMPTZ") {
        ColumnDecoder::TsUtc
    } else if text::is_text(name, "UUID") {
        ColumnDecoder::Uuid
    } else if text::is_text(name, "JSON") || text::is_text(name, "JSONB") {
        ColumnDecoder::Json
    } else {
        ColumnDecoder::Fallback
    }
}

/// The decoder for a column.
pub fn column_decoder(column_type: &str) -> (r: ColumnDecoder)
    ensures
        r == decoder_named(column_type@),
        !text::ends_with(column_type@, "[]"@) ==> forall|v: ValueModel|
            !(v is Null) && !(v is Array) ==> (#[trigger] round_trip::is_of(r, v)
                <==> kinds::type_holds(column_type@, v)),
{
    proof {
        assert forall|v: ValueModel| !(v is Null) && !(v is Array) implies (
        #[trigger] round_trip::is_of(scalar_named(column_type@), v) <==> kinds::type_holds(
            column_type@,
            v,
        )) by {
            kinds::lemma_decoder_gives_kind(column_type@, v);
        }
    }
    let name = text::chars_of(column_type);
    if text::has_suffix(name.as_slice(), "[]") {
        proof {
            reveal_strlit("[]");
        }
        let n: usize = name.len() - 2;
        let element = vstd::slice::slice_subrange(name.as_slice(), 0, n);
        assert(element@ =~= name@.take(n as int));
        ColumnDecoder::Array(array_kind(element))
    } else {
        scalar_decoder(name.as_slice())
    }
}

/// The decoders of a result's columns, settled once from the names of their
/// types and then applied to every row.
#[derive(Debug, Clone)]
pub struct RowDecoder(pub Vec<ColumnDecoder>);

impl RowDecoder {
    /// The decoders for columns with these type names.
    pub fn for_columns(type_names: &Vec<String>) -> (r: RowDecoder)
        ensures
            r.0@ == text::texts(type_names@).map_values(|n: Seq<char>| decoder_named(n)),
    {
        let mut decoders: Vec<ColumnDecoder> = Vec::new();
        for i in 0..type_names.len()
            invariant
                decoders@.len() == i,
                forall|k: int|
                    0 <= k < i ==> #[trigger] decoders@[k] == decoder_named(type_names@[k]@),
        {
            decoders.push(column_decoder(type_names[i].as_str()));
        }
        assert(decoders@ =~= text::texts(type_names@).map_values(|n: Seq<char>| decoder_named(n)));
        RowDecoder(decoders)
    }
}

/// The column decoder that reads what an element decoder reads.
pub open spec fn scalar_of_kind(kind: ArrayKind) -> Option<ColumnDecoder> {
    match kind {
        ArrayKind::Bool => Some(ColumnDecoder::Bool),
        ArrayKind::I16 => Some(ColumnDecoder::I16),
        ArrayKind::I32 => Some(ColumnDecoder::I32),
        ArrayKind::I64 => Some(ColumnDecoder::I64),
        ArrayKind::Dec => Some(ColumnDecoder::Dec),
        ArrayKind::F32 => Some(ColumnDecoder::F32),
        ArrayKind::F64 => Some(ColumnDecoder::F64),
        ArrayKind::Str => Some(ColumnDecoder::Str),
        ArrayKind::Date => Some(ColumnDecoder::Date),
        ArrayKind::Time => Some(ColumnDecoder::Time),
        ArrayKind::TsNaive => Some(ColumnDecoder::TsNaive),
        ArrayKind::TsUtc => Some(ColumnDecoder::TsUtc),
        ArrayKind::Uuid => Some(ColumnDecoder::Uuid),
        ArrayKind::Json => Some(ColumnDecoder::Json),
        ArrayKind::Unsupported => None,
    }
}

/// The elements of an array are decoded as a column of their type would be.
pub proof fn lemma_elements_decode_as_scalars(name: Seq<char>)
    ensures
        scalar_of_kind(kind_named(name)) matches Some(decoder) ==> scalar_named(name) == decoder,
{
    reveal_strlit("BYTEA");
    reveal_strlit("DATE");
    reveal_strlit("TIME");
    reveal_strlit("TIMESTAMP");
    reveal_strlit("TIMESTAMPTZ");
    reveal_strlit("UUID");
    reveal_strlit("JSON");
    reveal_strlit("JSONB");
    assert("BYTEA"@.len() == 5 && "BYTEA"@[0] == 'B');
    assert("DATE"@.len() == 4 && "TIME"@.len() == 4 && "TIMESTAMP"@.len() == 9);
    assert("TIMESTAMPTZ"@.len() == 11 && "UUID"@.len() == 4 && "JSON"@.len() == 4);
    assert("JSONB"@[0] == 'J');
}

/// What a cell says: null where the engine has none.
pub open spec fn cell_model(cell: Option<Value>) -> ValueModel {
    match cell {
        Some(v) => v@,
        None => ValueModel::Null,
    }
}

/// A cell as a value: null where the engine has none.
pub fn cell_value(cell: Option<Value>) -> (r: Value)
    ensures
        r@ == cell_model(cell),
{
    match cell {
        Some(v) => v,
        None => Value::Null,
    }
}

/// Refuses arrays whose elements have no decoder, rather than guess.
pub fn check_array_kind(kind: ArrayKind) -> (r: Result<(), DdbCoreError>)
    ensures
        r is Ok <==> kind != ArrayKind::Unsupported,
        r matches Err(e) ==> e.is_query("unsupported array element type"@),
{
    match kind {
        ArrayKind::Unsupported => Err(
            DdbCoreError::Query("unsupported array element type".to_string()),
        ),
        _ => Ok(()),
    }
}

/// What an array cell says: null where the engine has none, and otherwise its
/// elements in order, null where one is missing.
pub open spec fn array_model(cell: Option<Vec<Option<Value>>>) -> ValueModel {
    match cell {
        Some(items) => ValueModel::Array(items@.map_values(|c: Option<Value>| cell_model(c))),
        None => ValueModel::Null,
    }
}

/// An array cell as a value.
pub fn array_value(cell: Option<Vec<Option<Value>>>) -> (r: Value)
    ensures
        r@ == array_model(cell),
{
    match cell {
        Some(items) => {
            let mut values: Vec<Value> = Vec::new();
            for i in 0..items.len()
                invariant
                    values@.len() == i,
                    forall|k: int| 0 <= k < i ==> (#[trigger] values@[k])@ == cell_model(items@[k]),
            {
                match &items[i] {
                    Some(v) => values.push(v.clone()),
                    None => values.push(Value::Null),
                }
            }
            let r = Value::Array(values);
            assert(r@->Array_0 =~= items@.map_values(|c: Option<Value>| cell_model(c)));
            r
        },
        None => Value::Null,
    }
}

/// How a cell without a decoder was read: as text, or, where it is none, as
/// bytes.
pub enum FallbackCell {
    Text(Option<String>),
    Bytes(Option<Vec<u8>>),
}

/// What a cell without a decoder says.
pub open spec fn fallback_model(cell: FallbackCell) -> ValueModel {
    match cell {
        FallbackCell::Text(Some(s)) => ValueModel::Text(s@),
        FallbackCell::Bytes(Some(b)) => ValueModel::Binary(b@),
        _ => ValueModel::Null,
    }
}

/// A cell without a decoder as a value.
pub fn fallback_value(cell: FallbackCell) -> (r: Value)
    ensures
        r@ == fallback_model(cell),
{
    match cell {
        FallbackCell::Text(Some(s)) => Value::Text(s),
        FallbackCell::Text(None) => Value::Null,
        FallbackCell::Bytes(Some(b)) => Value::Binary(b),
        FallbackCell::Bytes(None) => Value::Null,
    }
}

/// Refuses array parameters: binding null in their place would lose data.
pub fn reject_array_params(params: &[Value]) -> (r: Result<(), DdbCoreError>)
    ensures
        r is Ok <==> !value::has_array(value::models(params@)),
        r matches Err(e) ==> e.is_unsupported("array parameter binding is not implemented yet"@),
{
    if value::any_array(params) {
        return Err(
            DdbCoreError::Unsupported("array parameter binding is not implemented yet".to_string()),
        );
    }
    Ok(())
}

/// A cell's value is the value that it holds, an array's values are its
/// elements, as many and in order, and what is missing is null. What has no
/// decoder is its text where it was read as text, and its bytes otherwise.
pub proof fn lemma_cells_say_what_they_hold(
    cell: Option<Value>,
    items: Option<Vec<Option<Value>>>,
    other: FallbackCell,
)
    ensures
        cell_model(cell) == (if cell is Some {
            cell->0@
        } else {
            ValueModel::Null
        }),
        items is None ==> array_model(items) is Null,
        items matches Some(list) ==> array_model(items) matches ValueModel::Array(values)
            && values.len() == list@.len() && forall|i: int|
            0 <= i < list@.len() ==> #[trigger] values[i] == cell_model(list@[i]),
        fallback_model(other) is Text ==> (other matches FallbackCell::Text(Some(s))
            && fallback_model(other) == ValueModel::Text(s@)),
        fallback_model(other) is Binary ==> (other matches FallbackCell::Bytes(Some(b))
            && fallback_model(other) == ValueModel::Binary(b@)),
        other matches FallbackCell::Text(Some(s)) ==> fallback_model(other) is Text,
        other matches FallbackCell::Bytes(Some(b)) ==> fallback_model(other) is Binary,
{
}

} // verus!
