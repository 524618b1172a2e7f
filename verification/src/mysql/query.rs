//! Running queries: which decoder fits a column, what a cell becomes, and
//! which parameters can be bound.
use vstd::prelude::*;

use crate::error::DdbCoreError;
use crate::mysql::kinds;
use crate::scalar::{self, DateTimeValue, DateValue, DecimalModel, DecimalValue, FloatValue};
use crate::scalar::{JsonDocument, TimeValue};
use crate::text;
use crate::value::{self, Value, ValueModel};

verus! {

/// How the cells of a column are read off the wire.
#[derive(Debug, Clone, Copy, PartialEq, Eq, Structural)]
pub enum ColumnDecoder {
    I8,
    I16,
    I32,
    I64,
    U8,
    U16,
    U32,
    U64,
    Dec,
    F32,
    F64,
    Str,
    Bytes,
    Date,
    Time,
    DateTime,
    Json,
    Uuid,
    /// A wire type without a decoder, such as a geometry: text where it is
    /// text, and raw bytes otherwise. Binary data is never taken for text.
    Fallback,
}

/// The decoder for a column, by the type's name. Unsigned columns are read as
/// unsigned numbers: reading `INT UNSIGNED` as a signed number would lose the
/// upper half of its range.
pub open spec fn decoder_named(name: Seq<char>) -> ColumnDecoder {
    if name == "BOOLEAN"@ || name == "TINYINT"@ {
        ColumnDecoder::I8
    } else if name == "SMALLINT"@ {
        ColumnDecoder::I16
    } else if name == "MEDIUMINT"@ || name == "INT"@ {
        ColumnDecoder::I32
    } else if name == "BIGINT"@ {
        ColumnDecoder::I64
    } else if name == "TINYINT UNSIGNED"@ {
        ColumnDecoder::U8
    } else if name == "SMALLINT UNSIGNED"@ {
        ColumnDecoder::U16
    } else if name == "MEDIUMINT UNSIGNED"@ || name == "INT UNSIGNED"@ {
        ColumnDecoder::U32
    } else if name == "BIGINT UNSIGNED"@ {
        ColumnDecoder::U64
    } else if name == "YEAR"@ {
        ColumnDecoder::U16
    } else if name == "DECIMAL"@ {
        ColumnDecoder::Dec
    } else if name == "FLOAT"@ {
        ColumnDecoder::F32
    } else if name == "DOUBLE"@ {
        ColumnDecoder::F64
    } else if name == "VARCHAR"@
        || name == "CHAR"@
        || name == "TEXT"@
        || name == "VAR_STRING"@
        || name == "STRING"@
        || name == "ENUM"@ {
        ColumnDecoder::Str
    } else if name == "BLOB"@
        || name == "VARBINARY"@
        || name == "BINARY"@
        || name == "BIT"@ {
        ColumnDecoder::Bytes
    } else if name == "DATE"@ {
        ColumnDecoder::Date
    } else if name == "TIME"@ {
        ColumnDecoder::Time
    } else if name == "DATETIME"@ || name == "TIMESTAMP"@ {
        ColumnDecoder::DateTime
    } else if name == "JSON"@ {
        ColumnDecoder::Json
    } else if name == "UUID"@ {
        ColumnDecoder::Uuid
    } else {
        ColumnDecoder::Fallback
    }
}

/// The decoder for a column.
pub fn column_decoder(column_type: &str) -> (r: ColumnDecoder)
    ensures
        r == decoder_named(column_type@),
        r != ColumnDecoder::Fallback ==> forall|cell: Cell| #[trigger]
            kinds::is_cell_of(r, cell) && !(cell is Null) ==> kinds::reads_as_kind(
                column_type@,
                cell_model(cell),
            ),
{
    proof {
        kinds::lemma_decoder_reads_kind(column_type@);
    }
    let chars = text::chars_of(column_type);
    let name = chars.as_slice();
    if text::is_text(name, "BOOLEAN") || text::is_text(name, "TINYINT") {
        ColumnDecoder::I8
    } else if text::is_text(name, "SMALLINT") {
        ColumnDecoder::I16
    } else if text::is_text(name, "MEDIUMINT") || text::is_text(name, "INT") {
        ColumnDecoder::I32
    } else if text::is_text(name, "BIGINT") {
        ColumnDecoder::I64
    } else if text::is_text(name, "TINYINT UNSIGNED") {
        ColumnDecoder::U8
    } else if text::is_text(name, "SMALLINT UNSIGNED") {
        ColumnDecoder::U16
    } else if text::is_text(name, "MEDIUMINT UNSIGNED") || text::is_text(name, "INT UNSIGNED") {
        ColumnDecoder::U32
    } else if text::is_text(name, "BIGINT UNSIGNED") {
        ColumnDecoder::U64
    } else if text::is_text(name, "YEAR") {
        ColumnDecoder::U16
    } else if text::is_text(name, "DECIMAL") {
        ColumnDecoder::Dec
    } else if text::is_text(name, "FLOAT") {
        ColumnDecoder::F32
    } else if text::is_text(name, "DOUBLE") {
        ColumnDecoder::F64
    } else if text::is_text(name, "VARCHAR")
        || text::is_text(name, "CHAR")
        || text::is_text(name, "TEXT")
        || text::is_text(name, "VAR_STRING")
        || text::is_text(name, "STRING")
        || text::is_text(name, "ENUM") {
        ColumnDecoder::Str
    } else if text::is_text(name, "BLOB")
        || text::is_text(name, "VARBINARY")
        || text::is_text(name, "BINARY")
        || text::is_text(name, "BIT") {
        ColumnDecoder::Bytes
    } else if text::is_text(name, "DATE") {
        ColumnDecoder::Date
    } else if text::is_text(name, "TIME") {
        ColumnDecoder::Time
    } else if text::is_text(name, "DATETIME") || text::is_text(name, "TIMESTAMP") {
        ColumnDecoder::DateTime
    } else if text::is_text(name, "JSON") {
        ColumnDecoder::Json
    } else if text::is_text(name, "UUID") {
        ColumnDecoder::Uuid
    } else {
        ColumnDecoder::Fallback
    }
}

/// The decoders of a result's columns, settled once from the names of their
/// types and then applied to every row.
#[derive(Debug, Clone)]
pub struct RowDecoder(pub Vec<ColumnDecoder>);

impl RowDecoder {
    /// The decoders for columns with these type names.
    pub fn for_columns(type_names: &Vec<String>) -> (r: RowDecoder)
        ensures
            r.0@ == text::texts(type_names@).map_values(|n: Seq<char>| decoder_named(n)),
    {
        let mut decoders: Vec<ColumnDecoder> = Vec::new();
        for i in 0..type_names.len()
            invariant
                decoders@.len() == i,
                forall|k: int|
                    0 <= k < i ==> #[trigger] decoders@[k] == decoder_named(type_names@[k]@),
        {
            decoders.push(column_decoder(type_names[i].as_str()));
        }
        assert(decoders@ =~= text::texts(type_names@).map_values(|n: Seq<char>| decoder_named(n)));
        RowDecoder(decoders)
    }
}

/// A cell as it came off the wire.
#[derive(Debug, Clone)]
pub enum Cell {
    Null,
    I8(i8),
    I16(i16),
    I32(i32),
    I64(i64),
    U8(u8),
    U16(u16),
    U32(u32),
    U64(u64),
    Dec(DecimalValue),
    F32(FloatValue),
    F64(FloatValue),
    Str(String),
    Bytes(Vec<u8>),
    Date(DateValue),
    Time(TimeValue),
    DateTime(DateTimeValue),
    Json(JsonDocument),
    Uuid([u8; 16]),
}

/// What a cell says. Numbers widen to the next larger kind where their own
/// does not hold them, and an unsigned number of 64 bits becomes a decimal.
/// Dates with a time stay wall-clock times: stamping them UTC would change
/// what they mean.
pub open spec fn cell_model(cell: Cell) -> ValueModel {
    match cell {
        Cell::Null => ValueModel::Null,
        Cell::I8(n) => ValueModel::SmallInt(n as i16),
        Cell::I16(n) => ValueModel::SmallInt(n),
        Cell::I32(n) => ValueModel::Integer(n),
        Cell::I64(n) => ValueModel::BigInt(n),
        Cell::U8(n) => ValueModel::SmallInt(n as i16),
        Cell::U16(n) => ValueModel::Integer(n as i32),
        Cell::U32(n) => ValueModel::BigInt(n as i64),
        Cell::U64(n) => ValueModel::Decimal(
            DecimalModel { negative: false, coefficient: n as nat, scale: 0 },
        ),
        Cell::Dec(d) => ValueModel::Decimal(d@),
        Cell::F32(f) => ValueModel::Real(f@),
        Cell::F64(f) => ValueModel::Double(f@),
        Cell::Str(s) => ValueModel::Text(s@),
        Cell::Bytes(b) => ValueModel::Binary(b@),
        Cell::Date(d) => ValueModel::Date(d@),
        Cell::Time(t) => ValueModel::Time(t@),
        Cell::DateTime(t) => ValueModel::TimestampNaive(t@),
        Cell::Json(j) => ValueModel::Json(j@),
        Cell::Uuid(u) => ValueModel::Uuid(u@),
    }
}

/// A cell as a value. A one-byte number stays a number even where its column
/// was declared as a boolean: the wire does not say so, and callers that need
/// a boolean ask the reflected schema.
pub fn cell_value(cell: Cell) -> (r: Value)
    ensures
        r@ == cell_model(cell),
        kinds::says_its_content(cell, r@),
{
    proof {
        kinds::lemma_cell_says_its_content(cell);
    }
    match cell {
        Cell::Null => Value::Null,
        Cell::I8(n) => Value::SmallInt(n as i16),
        Cell::I16(n) => Value::SmallInt(n),
        Cell::I32(n) => Value::Integer(n),
        Cell::I64(n) => Value::BigInt(n),
        Cell::U8(n) => Value::SmallInt(n as i16),
        Cell::U16(n) => Value::Integer(n as i32),
        Cell::U32(n) => Value::BigInt(n as i64),
        Cell::U64(n) => Value::Decimal(DecimalValue::from_u64(n)),
        Cell::Dec(d) => Value::Decimal(d),
        Cell::F32(f) => Value::Real(f),
        Cell::F64(f) => Value::Double(f),
        Cell::Str(s) => Value::Text(s),
        Cell::Bytes(b) => Value::Binary(b),
        Cell::Date(d) => Value::Date(d),
        Cell::Time(t) => Value::Time(t),
        Cell::DateTime(t) => Value::TimestampNaive(t),
        Cell::Json(j) => Value::Json(j),
        Cell::Uuid(u) => Value::Uuid(u),
    }
}

/// The whole number that a cell holds, if it holds one.
pub open spec fn number_in_cell(cell: Cell) -> Option<int> {
    match cell {
        Cell::I8(n) => Some(n as int),
        Cell::I16(n) => Some(n as int),
        Cell::I32(n) => Some(n as int),
        Cell::I64(n) => Some(n as int),
        Cell::U8(n) => Some(n as int),
        Cell::U16(n) => Some(n as int),
        Cell::U32(n) => Some(n as int),
        Cell::U64(n) => Some(n as int),
        _ => None,
    }
}

/// The whole number that a value is, if it is one.
pub open spec fn number_in_value(v: ValueModel) -> Option<int> {
    match v {
        ValueModel::SmallInt(n) => Some(n as int),
        ValueModel::Integer(n) => Some(n as int),
        ValueModel::BigInt(n) => Some(n as int),
        ValueModel::Decimal(d) => if d.scale == 0 {
            Some(d.signed())
        } else {
            None
        },
        _ => None,
    }
}

/// No whole number changes on its way into a value, signed or unsigned, over
/// the whole range of its column.
pub proof fn lemma_numbers_are_kept(cell: Cell)
    ensures
        number_in_cell(cell) is Some ==> number_in_value(cell_model(cell)) == number_in_cell(cell),
{
}

/// Refuses array parameters: binding null in their place would lose data.
pub fn reject_array_params(params: &[Value]) -> (r: Result<(), DdbCoreError>)
    ensures
        r is Ok <==> !value::has_array(value::models(params@)),
        r matches Err(e) ==> e.is_unsupported(
            "MySQL has no array type; array parameters are not supported"@,
        ),
{
    if value::any_array(params) {
        return Err(
            DdbCoreError::Unsupported(
                "MySQL has no array type; array parameters are not supported".to_string(),
            ),
        );
    }
    Ok(())
}

/// What is bound for a value: a moment as its wall-clock time in UTC, a UUID
/// as its text, and anything else as it is.
pub open spec fn bound_model(v: ValueModel) -> ValueModel {
    match v {
        ValueModel::Timestamp(t) => ValueModel::TimestampNaive(t),
        ValueModel::Uuid(u) => ValueModel::Text(scalar::uuid_text(u)),
        other => other,
    }
}

/// What is bound for a value. Arrays are refused before.
pub fn bound_value(v: &Value) -> (r: Value)
    requires
        !(v@ is Array),
    ensures
        r@ == bound_model(v@),
        kinds::stands_for(r@, v@),
{
    proof {
        kinds::lemma_bound_value_stands_for_it(v@);
    }
    match v {
        Value::Timestamp(t) => Value::TimestampNaive(*t),
        Value::Uuid(u) => Value::Text(scalar::render_uuid(u)),
        other => other.clone(),
    }
}

} // verus!
