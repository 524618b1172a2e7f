use ddbcore::mysql::ddl::{category_to_mysql_type, render_ddl};
use ddbcore::mysql::query::{bound_value, cell_value, Cell};
use ddbcore::mysql::reflect;
use ddbcore::mysql::reflect::{ColumnRow, ForeignKeyRow, TableParts, UniqueRow};
use ddbcore::postgres::bulk::{write_copy_line, write_copy_value};
use ddbcore::postgres::query::{column_decoder, ArrayKind, ColumnDecoder};
use ddbcore::postgres::stream::decodes_natively;
use ddbcore::postgres::types::{map_pg_type, EnumTypes};
use ddbcore::scalar::{DateTimeValue, DateValue, DecimalValue, JsonDocument, TimeValue};
use ddbcore::testkit::contract::{check_recreated, find_table, original_definition};
use ddbcore::{Catalog, KeyRange, Row, Schema, TypeCategory, Value};

fn text(s: &str) -> Value {
    Value::Text(s.to_string())
}

/// The fields of a line of bulk data.
fn read_line(line: &str) -> Vec<Option<String>> {
    line.split('\t')
        .map(|field| {
            if field == "\\N" {
                return None;
            }
            let mut out = String::new();
            let mut chars = field.chars();
            while let Some(c) = chars.next() {
                if c != '\\' {
                    out.push(c);
                    continue;
                }
                match chars.next() {
                    Some('t') => out.push('\t'),
                    Some('n') => out.push('\n'),
                    Some('r') => out.push('\r'),
                    Some(other) => out.push(other),
                    None => out.push('\\'),
                }
            }
            Some(out)
        })
        .collect()
}

#[test]
fn bulk_data_reads_back() {
    let texts = ["", "\\N", "\\", "a\tb", "line\nend\r", "\\t", "ü\\\\\n\t"];
    let mut out = String::new();
    for s in texts {
        write_copy_line(&mut out, &Row(vec![text(s), Value::Null, text(s)]));
    }
    assert!(out.ends_with('\n'));
    let lines: Vec<&str> = out[..out.len() - 1].split('\n').collect();
    assert_eq!(lines.len(), texts.len());
    for (line, s) in lines.iter().zip(texts) {
        assert_eq!(read_line(line), vec![Some(s.to_string()), None, Some(s.to_string())]);
    }
}

#[test]
fn different_values_are_written_differently() {
    let date = |d| DateValue::new(2024, 1, d).unwrap();
    let time = |n| TimeValue::new(1, 2, 3, n).unwrap();
    let values = vec![
        vec![Value::Integer(-1), Value::Integer(1), Value::Integer(10), Value::Integer(0)],
        vec![
            Value::Decimal(DecimalValue::new(false, 10, 1).unwrap()),
            Value::Decimal(DecimalValue::new(false, 100, 2).unwrap()),
            Value::Decimal(DecimalValue::new(true, 10, 1).unwrap()),
            Value::Decimal(DecimalValue::new(false, 1, 0).unwrap()),
        ],
        vec![Value::Binary(vec![]), Value::Binary(vec![0]), Value::Binary(vec![0, 0])],
        vec![Value::Date(date(1)), Value::Date(date(11))],
        vec![Value::Time(time(0)), Value::Time(time(1)), Value::Time(time(1_000)), Value::Time(time(1_000_000))],
        vec![
            Value::Timestamp(DateTimeValue { date: date(1), time: time(0) }),
            Value::Timestamp(DateTimeValue { date: date(1), time: time(100) }),
        ],
        vec![Value::Boolean(true), Value::Boolean(false)],
        vec![text(""), text("\\N"), text("N"), Value::Null],
    ];
    for kind in values {
        let mut cells: Vec<String> = Vec::new();
        for v in &kind {
            let mut out = String::new();
            write_copy_value(&mut out, v);
            assert!(!cells.contains(&out), "{out}");
            cells.push(out);
        }
    }
}

#[test]
fn a_leap_second_is_written_like_the_next_second() {
    let leap = TimeValue::new(1, 2, 3, 1_000_000_000).unwrap();
    let next = TimeValue::new(1, 2, 4, 0).unwrap();
    assert_eq!(leap.text(), next.text());
}

#[test]
fn neighbouring_ranges_share_no_key() {
    let range = |lower: i32, upper: i32| KeyRange {
        column: "id".to_string(),
        lower: Some(Value::Integer(lower)),
        upper: Some(Value::Integer(upper)),
    };
    let holds = |r: &KeyRange, key: i32| {
        let bounds = r.bounds();
        match (&bounds[0], &bounds[1]) {
            (Value::Integer(lower), Value::Integer(upper)) => *lower <= key && key < *upper,
            _ => panic!("not a number"),
        }
    };
    let first = range(0, 5);
    let second = range(5, 9);
    for key in -2..12 {
        let both = holds(&first, key) && holds(&second, key);
        let one = holds(&first, key) || holds(&second, key);
        assert!(!both);
        assert_eq!(one, (0..9).contains(&key));
    }
}

#[test]
fn an_unknown_type_is_kept_even_in_an_array() {
    let enums = EnumTypes::new();
    assert_eq!(
        map_pg_type(" hstore[][] ", &enums),
        TypeCategory::Array {
            element: Box::new(TypeCategory::Array {
                element: Box::new(TypeCategory::Unsupported { native_type: "hstore".to_string() })
            })
        }
    );
}

#[test]
fn elements_decode_as_scalars_do() {
    let pairs = vec![
        ("BOOL", ArrayKind::Bool, ColumnDecoder::Bool),
        ("INT2", ArrayKind::I16, ColumnDecoder::I16),
        ("NUMERIC", ArrayKind::Dec, ColumnDecoder::Dec),
        ("CITEXT", ArrayKind::Str, ColumnDecoder::Str),
        ("TIMESTAMPTZ", ArrayKind::TsUtc, ColumnDecoder::TsUtc),
        ("JSONB", ArrayKind::Json, ColumnDecoder::Json),
    ];
    for (name, kind, decoder) in pairs {
        assert_eq!(column_decoder(name), decoder);
        assert_eq!(column_decoder(&format!("{name}[]")), ColumnDecoder::Array(kind));
    }
}

#[test]
fn what_is_read_as_it_is_has_a_decoder() {
    let enums = EnumTypes::new();
    let pairs = vec![
        ("boolean", "BOOL"),
        ("smallint", "INT2"),
        ("integer", "INT4"),
        ("bigint", "INT8"),
        ("numeric(10,2)", "NUMERIC"),
        ("real", "FLOAT4"),
        ("double precision", "FLOAT8"),
        ("character(3)", "CHAR"),
        ("character varying(9)", "VARCHAR"),
        ("text", "TEXT"),
        ("bytea", "BYTEA"),
        ("date", "DATE"),
        ("time without time zone", "TIME"),
        ("timestamp without time zone", "TIMESTAMP"),
        ("timestamp with time zone", "TIMESTAMPTZ"),
        ("uuid", "UUID"),
        ("json", "JSON"),
        ("jsonb", "JSONB"),
    ];
    for (native, wire) in pairs {
        assert!(decodes_natively(&map_pg_type(native, &enums)));
        assert_ne!(column_decoder(wire), ColumnDecoder::Fallback);
        let array = decodes_natively(&map_pg_type(&format!("{native}[]"), &enums));
        assert_eq!(array, native != "bytea");
        let decoder = column_decoder(&format!("{wire}[]"));
        assert_eq!(array, decoder != ColumnDecoder::Array(ArrayKind::Unsupported));
    }
}

/// What the catalog reports of a column with this line.
fn reported(name: &str, category: &TypeCategory, nullable: bool, identity: bool) -> ColumnRow {
    ColumnRow {
        column_name: name.to_string(),
        ordinal_position: 1,
        column_type: category_to_mysql_type(category),
        is_nullable: if nullable { "YES" } else { "NO" }.to_string(),
        column_default: None,
        extra: if identity { "auto_increment" } else { "" }.to_string(),
        column_comment: String::new(),
    }
}

#[test]
fn a_created_table_is_reflected_as_defined() {
    let def = original_definition("app", "x");
    let key = def.primary_key.clone().unwrap();
    for c in &def.columns {
        let identity = c.identity.is_some();
        let seen = reflect::column(reported(&c.name, &c.data_type.category, c.nullable, identity));
        assert_eq!(seen.name, c.name);
        assert_eq!(seen.data_type.category, c.data_type.category);
        assert_eq!(seen.nullable, c.nullable);
        assert_eq!(seen.is_identity, identity);
    }
    let mut wide = reported("n", &TypeCategory::BigInt, false, true);
    wide.column_type = "bigint(20)".to_string();
    assert_eq!(reflect::column(wide).data_type.category, TypeCategory::BigInt);
    let seen = reflect::primary_key(key.columns.clone()).unwrap();
    assert_eq!(seen.columns, key.columns);
    assert!(reflect::primary_key(Vec::new()).is_none());
}

#[test]
fn a_rendered_table_recreates_itself() {
    let amount = TypeCategory::Decimal { precision: Some(10), scale: Some(2) };
    let code = TypeCategory::VarChar { length: Some(20) };
    let build = |name: &str| {
        let columns = vec![
            reflect::column(reported("id", &TypeCategory::BigInt, false, true)),
            reflect::column(reported("amount", &amount, true, false)),
            reflect::column(reported("code", &code, false, false)),
        ];
        let uniques = vec![UniqueRow {
            constraint_name: "code_uq".to_string(),
            column_name: "code".to_string(),
        }];
        let keys = vec![ForeignKeyRow {
            constraint_name: "fk".to_string(),
            column_name: "amount".to_string(),
            referenced_table_schema: "app".to_string(),
            referenced_table_name: "other".to_string(),
            referenced_column_name: "id".to_string(),
            update_rule: "NO ACTION".to_string(),
            delete_rule: "SET NULL".to_string(),
        }];
        let parts = TableParts {
            columns,
            primary_key: reflect::primary_key(vec!["id".to_string()]),
            foreign_keys: reflect::foreign_keys(&keys),
            unique_constraints: reflect::unique_constraints(&uniques),
            check_constraints: Vec::new(),
            indexes: reflect::indexes(&Vec::new()),
            triggers: Vec::new(),
        };
        reflect::table("app", name.to_string(), String::new(), parts)
    };
    let original = build("x_orig");
    let statements = render_ddl(&original).unwrap();
    assert_eq!(statements.len(), 3);
    assert!(statements[0].contains("`id` bigint NOT NULL AUTO_INCREMENT"));
    assert!(statements[0].contains("`amount` decimal(10,2),"));
    assert!(statements[2].ends_with("ON UPDATE NO ACTION ON DELETE SET NULL"));
    let catalog = Catalog {
        schemas: vec![Schema {
            name: "app".to_string(),
            tables: vec![build("x_orig"), build("x_recreated")],
            views: Vec::new(),
            sequences: Vec::new(),
            functions: Vec::new(),
        }],
    };
    assert_eq!(find_table(&catalog, "app", "x_recreated").unwrap().name, "x_recreated");
    assert_eq!(check_recreated(&original, &catalog, "app", "x"), Ok(()));
}

#[test]
fn a_written_value_reads_back() {
    let day = DateValue::new(2024, 2, 29).unwrap();
    let time = TimeValue::new(1, 2, 3, 0).unwrap();
    let moment = DateTimeValue { date: day, time };
    let cents = |coefficient: u128, scale: u32| DecimalValue::new(false, coefficient, scale).unwrap();
    let pairs = vec![
        (Value::Null, Cell::Null),
        (Value::Integer(-7), Cell::I32(-7)),
        (Value::SmallInt(7), Cell::U8(7)),
        (Value::Decimal(cents(15, 1)), Cell::Dec(cents(150, 2))),
        (text("a'b"), Cell::Str("a'b".to_string())),
        (Value::Date(day), Cell::Date(day)),
        (Value::TimestampNaive(moment), Cell::DateTime(moment)),
        (Value::Uuid([7; 16]), Cell::Uuid([7; 16])),
    ];
    for (written, cell) in pairs {
        assert_eq!(cell_value(cell), written);
    }
    assert_eq!(bound_value(&Value::Timestamp(moment)), Value::TimestampNaive(moment));
    assert_eq!(cell_value(Cell::I8(1)), Value::SmallInt(1));
}

#[test]
fn json_numbers_compare_as_numbers() {
    let minus = JsonDocument::parse("[-0.0]").unwrap();
    let plus = JsonDocument::parse("[0.0]").unwrap();
    assert_ne!(minus.as_str(), plus.as_str());
    assert_eq!(Value::Json(minus), Value::Json(plus));
    let whole = JsonDocument::parse("1").unwrap();
    let float = JsonDocument::parse("1.0").unwrap();
    assert_ne!(Value::Json(whole), Value::Json(float));
}
