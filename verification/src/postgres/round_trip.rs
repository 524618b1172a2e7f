//! What PostgreSQL's bulk loads and cursors promise together: rows that were
//! written read back. What the server does in between enters as which values
//! it holds for the fields that it was sent.
use vstd::prelude::*;

use crate::postgres::bulk;
use crate::postgres::dialect;
use crate::postgres::laws;
use crate::postgres::lossless;
use crate::postgres::query;
use crate::postgres::query::ColumnDecoder;
use crate::postgres::reading;
pub use crate::postgres::reading::FloatReading;
use crate::postgres::stream;
use crate::postgres::stream::ColumnType;
use crate::postgres::types;
use crate::types::Category;
use crate::value;
use crate::value::ValueModel;

verus! {

// ---------------------------------------------------------------------------
// Values
// ---------------------------------------------------------------------------

/// Whether a value that is neither null nor an array is of the kind that a
/// decoder gives.
pub open spec fn is_of(decoder: ColumnDecoder, v: ValueModel) -> bool {
    match decoder {
        ColumnDecoder::Bool => v is Boolean,
        ColumnDecoder::I16 => v is SmallInt,
        ColumnDecoder::I32 => v is Integer,
        ColumnDecoder::I64 => v is BigInt,
        ColumnDecoder::Dec => v is Decimal,
        ColumnDecoder::F32 => v is Real,
        ColumnDecoder::F64 => v is Double,
        ColumnDecoder::Str => v is Text,
        ColumnDecoder::Bytes => v is Binary,
        ColumnDecoder::Date => v is Date,
        ColumnDecoder::Time => v is Time,
        ColumnDecoder::TsNaive => v is TimestampNaive,
        ColumnDecoder::TsUtc => v is Timestamp,
        ColumnDecoder::Uuid => v is Uuid,
        ColumnDecoder::Json => v is Json,
        ColumnDecoder::Array(_) => false,
        ColumnDecoder::Fallback => false,
    }
}

/// Whether a cell can stand in a column with this decoder: it is null, or of
/// the kind that the decoder gives, or an array of nulls and of elements of
/// that kind.
pub open spec fn fits(decoder: ColumnDecoder, v: ValueModel) -> bool {
    v is Null || match decoder {
        ColumnDecoder::Array(kind) => v matches ValueModel::Array(items) && forall|i: int|
            0 <= i < items.len() ==> fits_element(kind, #[trigger] items[i]),
        _ => is_of(decoder, v),
    }
}

/// Whether a value can stand in an array with these elements.
pub open spec fn fits_element(kind: query::ArrayKind, v: ValueModel) -> bool {
    v is Null || (query::scalar_of_kind(kind) matches Some(decoder) && is_of(decoder, v))
}

/// Whether a value has a text of its own: a floating-point number is the one
/// that is read in its text, and a time is no leap second.
pub open spec fn is_faithful(v: ValueModel, floats: FloatReading) -> bool {
    match v {
        ValueModel::Real(f) => (floats.single)(f.text) == f.bits,
        ValueModel::Double(f) => (floats.double)(f.text) == f.bits,
        ValueModel::Array(items) => forall|i: int|
            0 <= i < items.len() ==> is_faithful_element(#[trigger] items[i], floats),
        _ => lossless::distinct_text(v),
    }
}

/// Whether an element of an array has a text of its own.
pub open spec fn is_faithful_element(v: ValueModel, floats: FloatReading) -> bool {
    match v {
        ValueModel::Real(f) => (floats.single)(f.text) == f.bits,
        ValueModel::Double(f) => (floats.double)(f.text) == f.bits,
        _ => lossless::distinct_text(v),
    }
}

/// Whether a column holds this value for a field that it was sent: it equals a
/// value of the column that the field says. A decimal may have taken on the
/// column's scale, and a document another form.
pub open spec fn holds_for(
    decoder: ColumnDecoder,
    field: Option<Seq<char>>,
    v: ValueModel,
    floats: FloatReading,
) -> bool {
    exists|sent: ValueModel| #[trigger]
        is_field(decoder, sent, field, floats) && value::same_value(sent, v)
}

/// Whether a field, as PostgreSQL reads it, says a value of a column.
pub open spec fn is_field(
    decoder: ColumnDecoder,
    v: ValueModel,
    field: Option<Seq<char>>,
    floats: FloatReading,
) -> bool {
    &&& fits(decoder, v)
    &&& is_faithful(v, floats)
    &&& reading::field_says(field, v, floats)
}

/// Values of one kind that one text says are equal.
proof fn lemma_same_text(
    decoder: ColumnDecoder,
    text: Seq<char>,
    a: ValueModel,
    b: ValueModel,
    floats: FloatReading,
)
    requires
        is_of(decoder, a),
        is_of(decoder, b),
        is_faithful_element(a, floats),
        is_faithful_element(b, floats),
        reading::reads_as(text, a, floats),
        reading::reads_as(text, b, floats),
    ensures
        value::same_value(a, b),
{
    reading::lemma_text_says_one_value(text, a, b, floats);
}

/// Arrays that one literal says are equal, element for element.
proof fn lemma_same_literal(
    kind: query::ArrayKind,
    e: laws::Element,
    xs: Seq<ValueModel>,
    ys: Seq<ValueModel>,
    floats: FloatReading,
)
    requires
        forall|i: int| 0 <= i < xs.len() ==> fits_element(kind, #[trigger] xs[i]),
        forall|i: int| 0 <= i < ys.len() ==> fits_element(kind, #[trigger] ys[i]),
        forall|i: int| 0 <= i < xs.len() ==> is_faithful_element(#[trigger] xs[i], floats),
        forall|i: int| 0 <= i < ys.len() ==> is_faithful_element(#[trigger] ys[i], floats),
        reading::element_says(e, ValueModel::Array(xs), floats),
        reading::element_says(e, ValueModel::Array(ys), floats),
    ensures
        value::same_value(ValueModel::Array(xs), ValueModel::Array(ys)),
{
    let es = e->List_0;
    assert(e is List);
    assert forall|i: int| 0 <= i < xs.len() implies value::same_value(#[trigger] xs[i], ys[i]) by {
        assert(reading::element_says(es[i], xs[i], floats));
        assert(reading::element_says(es[i], ys[i], floats));
        assert(fits_element(kind, ys[i]));
        assert(is_faithful_element(ys[i], floats));
        if let laws::Element::Text(text) = es[i] {
            lemma_same_text(query::scalar_of_kind(kind)->0, text, xs[i], ys[i], floats);
        }
    }
}

/// Values of one column that a field stands for are equal: what the server
/// holds for the field of a value equals that value.
pub proof fn lemma_field_is_lossless(
    decoder: ColumnDecoder,
    field: Option<Seq<char>>,
    a: ValueModel,
    b: ValueModel,
    floats: FloatReading,
)
    requires
        is_field(decoder, a, field, floats),
        is_field(decoder, b, field, floats),
    ensures
        value::same_value(a, b),
{
    if let ColumnDecoder::Array(kind) = decoder {
        if let ValueModel::Array(xs) = a {
            if let ValueModel::Array(ys) = b {
                let (e, _) = laws::read_element(field->0)->0;
                lemma_same_literal(kind, e, xs, ys, floats);
            }
        }
    } else if !(a is Null) && !(b is Null) {
        lemma_same_text(decoder, field->0, a, b, floats);
    }
}

/// What has a text of its own is a value of its kind.
proof fn lemma_faithful_is_proper(decoder: ColumnDecoder, v: ValueModel, floats: FloatReading)
    requires
        fits(decoder, v),
        is_faithful(v, floats),
    ensures
        reading::is_proper(v, floats),
{
    if let ValueModel::Array(items) = v {
        assert forall|i: int| 0 <= i < items.len() implies reading::is_proper(
            #[trigger] items[i],
            floats,
        ) by {
            assert(is_faithful_element(items[i], floats));
            if let ColumnDecoder::Array(kind) = decoder {
                assert(fits_element(kind, items[i]));
            }
        }
    }
}

// ---------------------------------------------------------------------------
// Rows
// ---------------------------------------------------------------------------

/// What reading batch by batch up to the first that is not full yields of the
/// rows behind a cursor.
pub open spec fn read_through(rows: Seq<Seq<ValueModel>>, batch_size: nat) -> Seq<Seq<ValueModel>>
    recommends
        batch_size >= 1,
    decreases rows.len(),
{
    let n = stream::fetched(rows.len(), batch_size, 0);
    if stream::ends_reading(n, batch_size) || n == 0 {
        rows.take(n as int)
    } else {
        rows.take(n as int) + read_through(rows.skip(n as int), batch_size)
    }
}

/// Reading yields every row once and in order, whatever the batch size.
pub proof fn lemma_reading_yields_every_row(rows: Seq<Seq<ValueModel>>, batch_size: nat)
    requires
        batch_size >= 1,
    ensures
        read_through(rows, batch_size) == rows,
    decreases rows.len(),
{
    let n = stream::fetched(rows.len(), batch_size, 0);
    assert(0 * batch_size == 0) by (nonlinear_arith);
    if n < batch_size {
        assert(rows.take(n as int) =~= rows);
    } else {
        lemma_reading_yields_every_row(rows.skip(n as int), batch_size);
        assert(rows.take(n as int) + rows.skip(n as int) =~= rows);
    }
}

/// The category of a column as reading takes it.
pub open spec fn category_of(column: ColumnType) -> Category {
    types::pg_category(column.native_type@, Map::empty())
}

/// The decoder of a column that is read as it is.
pub open spec fn decoder_of(column: ColumnType) -> ColumnDecoder {
    query::decoder_named(stream::wire_name(category_of(column))->0)
}

/// Whether rows fit the columns of a table, and every value has a text of its
/// own.
pub open spec fn fit_columns(
    columns: Seq<ColumnType>,
    rows: Seq<Seq<ValueModel>>,
    floats: FloatReading,
) -> bool {
    &&& forall|i: int| 0 <= i < rows.len() ==> (#[trigger] rows[i]).len() == columns.len()
    &&& forall|i: int, k: int|
        0 <= i < rows.len() && 0 <= k < columns.len() ==> {
            &&& fits(decoder_of(columns[k]), #[trigger] rows[i][k])
            &&& is_faithful(rows[i][k], floats)
        }
}

/// Whether a table holds these rows behind a load of this text: a row for each
/// line, and in each column a value for the line's field.
pub open spec fn holds_loaded(
    columns: Seq<ColumnType>,
    text: Seq<char>,
    table: Seq<Seq<ValueModel>>,
    floats: FloatReading,
) -> bool {
    let lines = laws::read_lines(text);
    &&& table.len() == lines.len()
    &&& forall|i: int| 0 <= i < table.len() ==> (#[trigger] table[i]).len() == columns.len()
    &&& forall|i: int, k: int|
        0 <= i < table.len() && 0 <= k < columns.len() ==> holds_for(
            decoder_of(columns[k]),
            lines[i][k],
            #[trigger] table[i][k],
            floats,
        )
}

/// Rows in another order.
pub open spec fn arranged(rows: Seq<Seq<ValueModel>>, order: Seq<int>) -> Seq<Seq<ValueModel>> {
    order.map_values(|i: int| rows[i])
}

/// Rows that were written to an empty table read back. What was sent is the
/// text of every row, and every row is counted. Every column is selected as it
/// is, and arrives as a type that has a decoder. And from a server that holds what it was sent, whatever
/// the order in which it returns rows and whatever the batch size, come exactly
/// as many rows, each equal to the one that was written.
pub proof fn lemma_written_rows_read_back(
    columns: Seq<ColumnType>,
    rows: Seq<Seq<ValueModel>>,
    table: Seq<Seq<ValueModel>>,
    order: Seq<int>,
    batch_size: nat,
    floats: FloatReading,
)
    requires
        columns.len() > 0,
        forall|k: int| 0 <= k < columns.len() ==> stream::native(
            category_of(#[trigger] columns[k]),
        ),
        fit_columns(columns, rows, floats),
        holds_loaded(columns, laws::sent(rows) + laws::loaded(rows).text, table, floats),
        value::is_order(order, table.len()),
        batch_size >= 1,
    ensures
        laws::loaded(rows).total == rows.len(),
        stream::select_list(columns, None) == columns.map_values(
            |c: ColumnType| dialect::ident(c.name@),
        ),
        forall|k: int|
            0 <= k < columns.len() ==> stream::reads(decoder_of(#[trigger] columns[k])),
        read_through(arranged(table, order), batch_size).len() == rows.len(),
        forall|i: int|
            0 <= i < rows.len() ==> value::same_cells(
                #[trigger] read_through(arranged(table, order), batch_size)[i],
                rows[order[i]],
            ),
{
    let lines = laws::read_lines(laws::copy_text(rows));
    laws::lemma_load_is_complete(rows);
    laws::lemma_rows_read_back(rows);
    lemma_reading_yields_every_row(arranged(table, order), batch_size);
    assert forall|k: int| 0 <= k < columns.len() implies stream::reads(
        decoder_of(#[trigger] columns[k]),
    ) by {
        stream::lemma_native_columns_are_decoded(category_of(columns[k]));
    }
    assert(stream::select_list(columns, None) =~= columns.map_values(
        |c: ColumnType| dialect::ident(c.name@),
    ));
    assert(lines.len() == rows.len());
    assert forall|i: int| 0 <= i < rows.len() implies value::same_cells(
        #[trigger] arranged(table, order)[i],
        rows[order[i]],
    ) by {
        let n = order[i];
        assert(arranged(table, order)[i] == table[n]);
        assert(table[n].len() == columns.len() && rows[n].len() == columns.len());
        assert(lines[n] == laws::copy_fields(rows[n]));
        assert forall|k: int| 0 <= k < columns.len() implies value::same_value(
            #[trigger] table[n][k],
            rows[n][k],
        ) by {
            let decoder = decoder_of(columns[k]);
            let field = lines[n][k];
            assert(holds_for(decoder, field, table[n][k], floats));
            let sent = choose|sent: ValueModel| #[trigger]
                is_field(decoder, sent, field, floats) && value::same_value(sent, table[n][k]);
            assert(fits(decoder, rows[n][k]) && is_faithful(rows[n][k], floats));
            lemma_faithful_is_proper(decoder, rows[n][k], floats);
            laws::lemma_value_read_back(rows[n][k]);
            reading::lemma_cell_says_its_value(rows[n][k], floats);
            assert(field == bulk::copy_field(rows[n][k]));
            lemma_field_is_lossless(decoder, field, sent, rows[n][k], floats);
            value::lemma_equality_is_symmetric(sent, table[n][k]);
            value::lemma_equality_is_transitive(table[n][k], sent, rows[n][k]);
        }
    }
}

} // verus!
