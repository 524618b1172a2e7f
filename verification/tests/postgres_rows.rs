use ddbcore::postgres::query::{
    array_value, cell_value, check_array_kind, column_decoder, fallback_value, reject_array_params,
    ArrayKind, ColumnDecoder, FallbackCell, RowDecoder,
};
use ddbcore::postgres::stream::{
    build_select, cursor_name, cursor_name_for, declare_statement, decodes_natively,
    fetch_statement, is_last, ColumnType,
};
use ddbcore::postgres::types::{map_pg_type, EnumTypes};
use ddbcore::{DdbCoreError, KeyRange, StreamOptions, TableRef, TypeCategory, Value};

fn s(x: &str) -> String {
    x.to_string()
}

fn table() -> TableRef {
    TableRef { schema: s("public"), name: s("t") }
}

fn columns() -> Vec<ColumnType> {
    vec![
        ColumnType { name: s("id"), native_type: s("integer") },
        ColumnType { name: s("mood"), native_type: s("mood") },
        ColumnType { name: s("at"), native_type: s("time with time zone") },
        ColumnType { name: s("tags"), native_type: s("text[]") },
    ]
}

fn options() -> StreamOptions {
    StreamOptions { batch_size: 2, columns: None, key_range: None }
}

#[test]
fn types_map_into_categories() {
    let enums = EnumTypes::new();
    let map = |t: &str| map_pg_type(t, &enums);
    assert_eq!(map("character varying(255)"), TypeCategory::VarChar { length: Some(255) });
    assert_eq!(map("numeric(10,2)"), TypeCategory::Decimal { precision: Some(10), scale: Some(2) });
    assert_eq!(
        map("timestamp(3) with time zone"),
        TypeCategory::Timestamp { precision: Some(3), with_timezone: true }
    );
    assert_eq!(
        map("timestamp without time zone"),
        TypeCategory::Timestamp { precision: None, with_timezone: false }
    );
    assert_eq!(map("time with time zone"), TypeCategory::Time { precision: None, with_timezone: true });
    assert_eq!(map(" bytea "), TypeCategory::Blob);
    assert_eq!(map("jsonb"), TypeCategory::Json { binary: true });
    assert_eq!(map("json"), TypeCategory::Json { binary: false });
    assert_eq!(map("bit(8)"), TypeCategory::Bit { length: Some(8) });
    assert_eq!(map("integer[]"), TypeCategory::Array { element: Box::new(TypeCategory::Integer) });
    assert_eq!(map("hstore"), TypeCategory::Unsupported { native_type: s("hstore") });
    assert_eq!(map("time(6) without time zone"), TypeCategory::Time { precision: Some(6), with_timezone: false });
    assert_eq!(map("time"), TypeCategory::Time { precision: None, with_timezone: false });
    assert_eq!(map("timestamp"), TypeCategory::Timestamp { precision: None, with_timezone: false });
    assert_eq!(map("timestamptz"), TypeCategory::Timestamp { precision: None, with_timezone: true });
    assert_eq!(map("timestamptz(3)"), TypeCategory::Timestamp { precision: Some(3), with_timezone: true });
    assert_eq!(map("timetz"), TypeCategory::Time { precision: None, with_timezone: true });
    assert_eq!(map("bit varying(16)"), TypeCategory::Bit { length: Some(16) });
    assert_eq!(map("bit"), TypeCategory::Bit { length: None });
}

#[test]
fn a_name_that_only_begins_like_a_built_in_type_is_another_type() {
    let enums = EnumTypes::new();
    for name in vec!["timeline", "timestamp_range", "timezone with time zone", "bitmap", "bits"] {
        assert_eq!(map_pg_type(name, &enums), TypeCategory::Unsupported { native_type: s(name) });
    }
    let columns = vec![
        ColumnType { name: s("span"), native_type: s("timeline") },
        ColumnType { name: s("flags"), native_type: s("bitmap[]") },
    ];
    assert_eq!(
        build_select(&table(), &columns, &options()).unwrap(),
        "SELECT \"span\"::text AS \"span\", \"flags\"::text AS \"flags\" FROM \"public\".\"t\""
    );
}

#[test]
fn user_types_are_enumerations() {
    let mut enums = EnumTypes::new();
    enums.add_label(s("mood"), s("sad"));
    enums.add_label(s("mood"), s("happy"));
    assert_eq!(map_pg_type("mood", &enums), TypeCategory::Enum { values: vec![s("sad"), s("happy")] });
    assert_eq!(map_pg_type("other", &enums), TypeCategory::Unsupported { native_type: s("other") });
}

#[test]
fn columns_have_decoders() {
    assert_eq!(column_decoder("INT4"), ColumnDecoder::I32);
    assert_eq!(column_decoder("INT4[]"), ColumnDecoder::Array(ArrayKind::I32));
    assert_eq!(column_decoder("TIMESTAMP"), ColumnDecoder::TsNaive);
    assert_eq!(column_decoder("TIMESTAMPTZ"), ColumnDecoder::TsUtc);
    assert_eq!(column_decoder("CITEXT"), ColumnDecoder::Str);
    assert_eq!(column_decoder("CHAR"), ColumnDecoder::Str);
    assert_eq!(column_decoder("CHAR[]"), ColumnDecoder::Array(ArrayKind::Str));
    assert_eq!(column_decoder("BYTEA"), ColumnDecoder::Bytes);
    assert_eq!(column_decoder("BYTEA[]"), ColumnDecoder::Array(ArrayKind::Unsupported));
    assert_eq!(column_decoder("mood[]"), ColumnDecoder::Array(ArrayKind::Unsupported));
    assert_eq!(column_decoder("int4"), ColumnDecoder::Fallback);
    let row = RowDecoder::for_columns(&vec![s("BOOL"), s("JSONB")]);
    assert_eq!(row.0, vec![ColumnDecoder::Bool, ColumnDecoder::Json]);
}

#[test]
fn missing_cells_are_null() {
    assert_eq!(cell_value(None), Value::Null);
    assert_eq!(cell_value(Some(Value::Integer(1))), Value::Integer(1));
    assert_eq!(array_value(None), Value::Null);
    assert_eq!(
        array_value(Some(vec![Some(Value::Integer(1)), None])),
        Value::Array(vec![Value::Integer(1), Value::Null])
    );
    assert_eq!(fallback_value(FallbackCell::Text(Some(s("a")))), Value::Text(s("a")));
    assert_eq!(fallback_value(FallbackCell::Bytes(Some(vec![9]))), Value::Binary(vec![9]));
    assert_eq!(fallback_value(FallbackCell::Text(None)), Value::Null);
    assert_eq!(fallback_value(FallbackCell::Bytes(None)), Value::Null);
}

#[test]
fn arrays_of_unknown_elements_are_refused() {
    assert!(check_array_kind(ArrayKind::Json).is_ok());
    assert_eq!(
        check_array_kind(ArrayKind::Unsupported),
        Err(DdbCoreError::Query(s("unsupported array element type")))
    );
}

#[test]
fn array_parameters_cannot_be_bound() {
    assert!(reject_array_params(&[Value::Null]).is_ok());
    assert_eq!(
        reject_array_params(&[Value::Array(Vec::new())]),
        Err(DdbCoreError::Unsupported(s("array parameter binding is not implemented yet")))
    );
}

#[test]
fn only_some_categories_decode_natively() {
    assert!(decodes_natively(&TypeCategory::Uuid));
    assert!(decodes_natively(&TypeCategory::Array { element: Box::new(TypeCategory::Date) }));
    assert!(!decodes_natively(&TypeCategory::Array { element: Box::new(TypeCategory::Interval) }));
    assert!(!decodes_natively(&TypeCategory::Interval));
    assert!(!decodes_natively(&TypeCategory::Enum { values: Vec::new() }));
    assert!(!decodes_natively(&TypeCategory::Unsupported { native_type: s("hstore") }));
    assert!(decodes_natively(&TypeCategory::Time { precision: None, with_timezone: false }));
    assert!(!decodes_natively(&TypeCategory::Time { precision: None, with_timezone: true }));
}

#[test]
fn arrays_of_byte_strings_are_read_as_text() {
    let bytes = vec![
        TypeCategory::Blob,
        TypeCategory::Binary { length: Some(4) },
        TypeCategory::VarBinary { length: None },
    ];
    for category in bytes {
        assert!(decodes_natively(&category));
        let array = TypeCategory::Array { element: Box::new(category) };
        assert!(!decodes_natively(&array));
        assert!(!decodes_natively(&TypeCategory::Array { element: Box::new(array) }));
    }
    let columns = vec![
        ColumnType { name: s("one"), native_type: s("bytea") },
        ColumnType { name: s("many"), native_type: s("bytea[]") },
    ];
    assert_eq!(
        build_select(&table(), &columns, &options()).unwrap(),
        "SELECT \"one\", \"many\"::text AS \"many\" FROM \"public\".\"t\""
    );
}

#[test]
fn what_does_not_decode_is_read_as_text() {
    assert_eq!(
        build_select(&table(), &columns(), &options()).unwrap(),
        "SELECT \"id\", \"mood\"::text AS \"mood\", \"at\"::text AS \"at\", \"tags\" FROM \"public\".\"t\""
    );
}

#[test]
fn a_projection_keeps_its_order() {
    let mut o = options();
    o.columns = Some(vec![s("mood"), s("id"), s("nope")]);
    o.key_range = Some(KeyRange {
        column: s("id"),
        lower: Some(Value::Integer(5)),
        upper: Some(Value::Text(s("o'clock"))),
    });
    assert_eq!(
        build_select(&table(), &columns(), &o).unwrap(),
        "SELECT \"mood\"::text AS \"mood\", \"id\", \"nope\" FROM \"public\".\"t\" WHERE \"id\" >= '5' AND \"id\" < 'o''clock'"
    );
    o.key_range = Some(KeyRange { column: s("id"), lower: Some(Value::Null), upper: None });
    assert!(build_select(&table(), &columns(), &o).unwrap().ends_with(" WHERE \"id\" >= NULL"));
}

#[test]
fn selects_that_cannot_be_are_refused() {
    let refused = |c: Vec<ColumnType>, o: StreamOptions| build_select(&table(), &c, &o).err().unwrap();
    assert_eq!(
        refused(Vec::new(), options()),
        DdbCoreError::Query(s("table public.t has no columns or does not exist"))
    );
    let mut o = options();
    o.batch_size = 0;
    assert_eq!(refused(columns(), o), DdbCoreError::Query(s("batch_size must be >= 1")));
    let mut o = options();
    o.key_range = Some(KeyRange { column: s("id"), lower: Some(Value::Array(Vec::new())), upper: None });
    assert_eq!(
        refused(columns(), o),
        DdbCoreError::Unsupported(s("array parameter binding is not implemented yet"))
    );
}

#[test]
fn cursors_are_named_at_random() {
    assert_eq!(cursor_name_for(&[0x0f; 16]), "ddbcore_cursor_0f0f0f0f0f0f0f0f0f0f0f0f0f0f0f0f");
    let a = cursor_name();
    let b = cursor_name();
    assert_ne!(a, b);
    assert_eq!(a.len(), "ddbcore_cursor_".len() + 32);
    assert_eq!(a.chars().nth("ddbcore_cursor_".len() + 12), Some('4'));
    assert!("89ab".contains(a.chars().nth("ddbcore_cursor_".len() + 16).unwrap()));
    let mut bytes = [0u8; 16];
    bytes[0] = 0xa1;
    bytes[15] = 0x7f;
    assert_eq!(cursor_name_for(&bytes), "ddbcore_cursor_a100000000000000000000000000007f");
}

#[test]
fn cursors_are_declared_and_fetched_from() {
    assert_eq!(declare_statement("c", "SELECT 1"), "DECLARE c NO SCROLL CURSOR FOR SELECT 1");
    assert_eq!(fetch_statement("c", 500), "FETCH FORWARD 500 FROM c");
}

#[test]
fn reading_ends_with_a_short_batch() {
    assert!(!is_last(2, 2));
    assert!(is_last(1, 2));
    for total in 0..20usize {
        for size in 1..6usize {
            let mut left = total;
            let mut read = 0;
            loop {
                let batch = left.min(size);
                left -= batch;
                read += batch;
                if is_last(batch, size) {
                    break;
                }
            }
            assert_eq!(read, total);
        }
    }
}
