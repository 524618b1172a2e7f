use ddbcore::postgres::bulk::{
    copy_statement, write_array_literal, write_copy_line, write_copy_value, CopyBuffer, FLUSH_EVERY,
};
use ddbcore::scalar::{DateTimeValue, DateValue, DecimalValue, FloatValue, JsonDocument, TimeValue};
use ddbcore::{Row, TableRef, Value};

fn cell(v: Value) -> String {
    let mut out = String::new();
    write_copy_value(&mut out, &v);
    out
}

fn text(s: &str) -> Value {
    Value::Text(s.to_string())
}

#[test]
fn null_is_a_marker_that_no_text_is() {
    assert_eq!(cell(Value::Null), "\\N");
    assert_eq!(cell(text("\\N")), "\\\\N");
    assert_eq!(cell(text("")), "");
}

#[test]
fn texts_are_escaped() {
    assert_eq!(cell(text("a\tb\nc\rd\\e")), "a\\tb\\nc\\rd\\\\e");
    assert_eq!(cell(text("plain ünïcode")), "plain ünïcode");
}

#[test]
fn scalars_are_plain_tokens() {
    assert_eq!(cell(Value::Boolean(true)), "t");
    assert_eq!(cell(Value::Boolean(false)), "f");
    assert_eq!(cell(Value::SmallInt(-7)), "-7");
    assert_eq!(cell(Value::Integer(i32::MIN)), "-2147483648");
    assert_eq!(cell(Value::BigInt(i64::MAX)), "9223372036854775807");
    assert_eq!(cell(Value::Decimal(DecimalValue::new(false, 1050, 2).unwrap())), "10.50");
    assert_eq!(cell(Value::Double(FloatValue::new(1.5f64.to_bits(), "1.5".to_string()).unwrap())), "1.5");
    assert_eq!(cell(Value::Real(FloatValue::new(f32::NAN.to_bits() as u64, "NaN".to_string()).unwrap())), "NaN");
    let date = DateValue::new(2024, 2, 29).unwrap();
    let time = TimeValue::new(1, 2, 3, 500_000_000).unwrap();
    assert_eq!(cell(Value::Date(date)), "2024-02-29");
    assert_eq!(cell(Value::Time(time)), "01:02:03.500");
    assert_eq!(cell(Value::Timestamp(DateTimeValue { date, time })), "2024-02-29 01:02:03.500+00:00");
    assert_eq!(cell(Value::TimestampNaive(DateTimeValue { date, time })), "2024-02-29 01:02:03.500");
    assert_eq!(cell(Value::Uuid([0xab; 16])), "abababab-abab-abab-abab-abababababab");
}

#[test]
fn bytes_are_hexadecimal_behind_an_escaped_marker() {
    assert_eq!(cell(Value::Binary(vec![0, 255, 16])), "\\\\x00ff10");
    assert_eq!(cell(Value::Binary(Vec::new())), "\\\\x");
}

#[test]
fn json_is_compact_and_escaped() {
    let doc = JsonDocument::parse("{ \"k\": \"a\\tb\" }").unwrap();
    assert_eq!(cell(Value::Json(doc)), "{\"k\":\"a\\\\tb\"}");
}

#[test]
fn array_elements_are_quoted_and_nulls_are_not() {
    let mut out = String::new();
    write_array_literal(
        &mut out,
        &vec![
            text("a,b"),
            Value::Null,
            text("NULL"),
            text("q\"\\"),
            Value::Array(vec![Value::Integer(1), Value::Array(Vec::new())]),
        ],
    );
    assert_eq!(out, "{\"a,b\",NULL,\"NULL\",\"q\\\"\\\\\",{\"1\",{}}}");
}

#[test]
fn an_array_goes_through_both_escapes() {
    assert_eq!(cell(Value::Array(vec![text("a\\\tb")])), "{\"a\\\\\\\\\\tb\"}");
    assert_eq!(cell(Value::Array(vec![Value::Binary(vec![1])])), "{\"\\\\\\\\x01\"}");
}

#[test]
fn a_row_is_one_line() {
    let mut out = String::new();
    write_copy_line(&mut out, &Row(vec![Value::Integer(1), text("x\ny"), Value::Null]));
    write_copy_line(&mut out, &Row(vec![text("z")]));
    write_copy_line(&mut out, &Row(Vec::new()));
    assert_eq!(out, "1\tx\\ny\t\\N\nz\n\n");
}

#[test]
fn the_statement_quotes_its_table() {
    let table = TableRef { schema: "pub\"lic".to_string(), name: "t".to_string() };
    assert_eq!(copy_statement(&table), "COPY \"pub\"\"lic\".\"t\" FROM STDIN WITH (FORMAT text)");
}

#[test]
fn chunks_together_are_all_rows_in_order() {
    let mut buffer = CopyBuffer::new();
    let mut sent = String::new();
    let mut expected = String::new();
    let mut chunks = 0;
    let total = 2 * FLUSH_EVERY + 3;
    for i in 0..total {
        let row = Row(vec![Value::BigInt(i as i64)]);
        write_copy_line(&mut expected, &row);
        if let Some(chunk) = buffer.push(&row) {
            assert_eq!(chunk.lines().count(), FLUSH_EVERY);
            sent.push_str(&chunk);
            chunks += 1;
        }
    }
    assert_eq!(buffer.total(), total as u64);
    let (last, count) = buffer.finish();
    assert_eq!(chunks, 2);
    assert_eq!(count, total as u64);
    sent.push_str(&last.unwrap());
    assert_eq!(sent, expected);
}

#[test]
fn an_empty_load_sends_nothing() {
    assert_eq!(CopyBuffer::new().finish(), (None, 0));
}
