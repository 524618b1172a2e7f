use ddbcore::mysql::bulk::{insert_statement, sized_row, InsertBatch, BATCH_SIZE, BYTE_BUDGET, MAX_PLACEHOLDERS};
use ddbcore::mysql::query::{cell_value, column_decoder, reject_array_params, Cell, ColumnDecoder, RowDecoder};
use ddbcore::mysql::stream::plan_stream;
use ddbcore::scalar::DecimalValue;
use ddbcore::{DdbCoreError, KeyRange, Row, StreamOptions, TableRef, Value};

fn s(x: &str) -> String {
    x.to_string()
}

fn table() -> TableRef {
    TableRef { schema: s("db"), name: s("t") }
}

fn options() -> StreamOptions {
    StreamOptions { batch_size: 10, columns: None, key_range: None }
}

fn range(lower: Option<Value>, upper: Option<Value>) -> Option<KeyRange> {
    Some(KeyRange { column: s("id"), lower, upper })
}

#[test]
fn columns_have_decoders_by_their_type() {
    assert_eq!(column_decoder("TINYINT"), ColumnDecoder::I8);
    assert_eq!(column_decoder("BOOLEAN"), ColumnDecoder::I8);
    assert_eq!(column_decoder("INT UNSIGNED"), ColumnDecoder::U32);
    assert_eq!(column_decoder("BIGINT UNSIGNED"), ColumnDecoder::U64);
    assert_eq!(column_decoder("YEAR"), ColumnDecoder::U16);
    assert_eq!(column_decoder("TIMESTAMP"), ColumnDecoder::DateTime);
    assert_eq!(column_decoder("GEOMETRY"), ColumnDecoder::Fallback);
    let row = RowDecoder::for_columns(&vec![s("JSON"), s("ENUM"), s("BIT")]);
    assert_eq!(row.0, vec![ColumnDecoder::Json, ColumnDecoder::Str, ColumnDecoder::Bytes]);
}

#[test]
fn numbers_keep_their_value() {
    assert_eq!(cell_value(Cell::I8(-128)), Value::SmallInt(-128));
    assert_eq!(cell_value(Cell::U8(255)), Value::SmallInt(255));
    assert_eq!(cell_value(Cell::U16(65535)), Value::Integer(65535));
    assert_eq!(cell_value(Cell::U32(u32::MAX)), Value::BigInt(4294967295));
    assert_eq!(cell_value(Cell::U64(u64::MAX)), Value::Decimal(DecimalValue::from_u64(u64::MAX)));
    assert_eq!(cell_value(Cell::I64(i64::MIN)), Value::BigInt(i64::MIN));
    assert_eq!(cell_value(Cell::Null), Value::Null);
    assert_eq!(cell_value(Cell::Bytes(vec![1, 2])), Value::Binary(vec![1, 2]));
}

#[test]
fn array_parameters_are_refused() {
    assert!(reject_array_params(&[Value::Integer(1), Value::Null]).is_ok());
    assert_eq!(
        reject_array_params(&[Value::Null, Value::Array(Vec::new())]),
        Err(DdbCoreError::Unsupported(s("MySQL has no array type; array parameters are not supported")))
    );
}

#[test]
fn a_whole_table_is_read() {
    let plan = plan_stream(&table(), &options()).unwrap();
    assert_eq!(plan.sql, "SELECT * FROM `db`.`t`");
    assert_eq!(plan.binds, Vec::new());
}

#[test]
fn a_projection_and_a_half_open_range_are_read() {
    let mut o = options();
    o.columns = Some(vec![s("b"), s("a`")]);
    o.key_range = range(Some(Value::Integer(1)), Some(Value::Integer(9)));
    let plan = plan_stream(&table(), &o).unwrap();
    assert_eq!(plan.sql, "SELECT `b`, `a``` FROM `db`.`t` WHERE `id` >= ? AND `id` < ?");
    assert_eq!(plan.binds, vec![Value::Integer(1), Value::Integer(9)]);
    o.key_range = range(None, Some(Value::Integer(9)));
    assert_eq!(plan_stream(&table(), &o).unwrap().sql, "SELECT `b`, `a``` FROM `db`.`t` WHERE `id` < ?");
}

#[test]
fn options_that_say_nothing_are_refused() {
    let refused = |o: StreamOptions| plan_stream(&table(), &o).err().unwrap();
    let mut o = options();
    o.batch_size = 0;
    o.columns = Some(Vec::new());
    assert_eq!(refused(o), DdbCoreError::Query(s("batch_size must be >= 1")));
    let mut o = options();
    o.columns = Some(Vec::new());
    o.key_range = range(None, None);
    assert_eq!(refused(o), DdbCoreError::Query(s("columns projection must not be empty")));
    let mut o = options();
    o.key_range = range(None, None);
    assert_eq!(refused(o), DdbCoreError::Query(s("key_range must set at least one bound")));
    let mut o = options();
    o.key_range = range(Some(Value::Array(Vec::new())), None);
    assert_eq!(
        refused(o),
        DdbCoreError::Unsupported(s("MySQL has no array type; array parameters are not supported"))
    );
}

#[test]
fn the_statement_has_a_place_for_each_cell() {
    assert_eq!(insert_statement(&table(), 2, 3), "INSERT INTO `db`.`t` VALUES (?, ?), (?, ?), (?, ?)");
    assert_eq!(insert_statement(&table(), 1, 1), "INSERT INTO `db`.`t` VALUES (?)");
    assert_eq!(insert_statement(&table(), 7, 11).matches('?').count(), 77);
}

#[test]
fn full_batches_are_written_in_order() {
    let mut batch = InsertBatch::new();
    let mut written: Vec<Row> = Vec::new();
    let total = 2 * BATCH_SIZE + 1;
    for i in 0..total {
        if let Some(rows) = batch.push(Row(vec![Value::BigInt(i as i64)])).unwrap() {
            assert_eq!(rows.len(), BATCH_SIZE);
            written.extend(rows);
        }
    }
    written.extend(batch.finish().unwrap());
    let expected: Vec<Row> = (0..total).map(|i| Row(vec![Value::BigInt(i as i64)])).collect();
    assert_eq!(written, expected);
}

#[test]
fn placeholders_are_capped() {
    let width = 1000;
    let mut batch = InsertBatch::new();
    let mut first = 0;
    for _ in 0..100 {
        if let Some(rows) = batch.push(Row(vec![Value::Null; width])).unwrap() {
            first = rows.len();
            break;
        }
    }
    assert_eq!(first, MAX_PLACEHOLDERS / width);
}

#[test]
fn bytes_are_budgeted() {
    let big = Row(vec![Value::Text("x".repeat(BYTE_BUDGET / 3))]);
    let mut batch = InsertBatch::new();
    assert_eq!(batch.push(big.clone()).unwrap(), None);
    assert_eq!(batch.push(big.clone()).unwrap(), None);
    assert_eq!(batch.push(big.clone()).unwrap().unwrap().len(), 2);
    assert_eq!(batch.finish().unwrap().len(), 1);
    let huge = Row(vec![Value::Binary(vec![0; BYTE_BUDGET + 1])]);
    assert_eq!(sized_row(&huge), BYTE_BUDGET + 1);
    let mut batch = InsertBatch::new();
    assert_eq!(batch.push(huge.clone()).unwrap(), None);
    assert_eq!(batch.push(huge).unwrap().unwrap().len(), 1);
    assert_eq!(sized_row(&Row(vec![Value::Text(s("é")), Value::Null])), 82);
}

#[test]
fn array_values_are_not_written() {
    let mut batch = InsertBatch::new();
    assert_eq!(
        batch.push(Row(vec![Value::Array(vec![Value::Null])])),
        Err(DdbCoreError::Unsupported(s("MySQL has no array type; array values cannot be bulk-written")))
    );
    assert!(batch.finish().is_none());
}
