use chrono::{NaiveDate, NaiveTime, Timelike};
use ddbcore::mysql::query::bound_value;
use ddbcore::scalar::{
    DateTimeValue, DateValue, DecimalValue, FloatValue, JsonDocument, TimeValue,
};
use ddbcore::{Row, Value};

fn double(f: f64) -> FloatValue {
    FloatValue::new(f.to_bits(), f.to_string()).unwrap()
}

fn decimal(negative: bool, coefficient: u128, scale: u32) -> DecimalValue {
    DecimalValue::new(negative, coefficient, scale).unwrap()
}

fn moment() -> DateTimeValue {
    DateTimeValue {
        date: DateValue::new(2024, 2, 29).unwrap(),
        time: TimeValue::new(23, 59, 58, 120_000_000).unwrap(),
    }
}

#[test]
fn a_nan_equals_itself() {
    assert_eq!(Value::Double(double(f64::NAN)), Value::Double(double(f64::NAN)));
    assert_ne!(Value::Double(double(0.0)), Value::Double(double(-0.0)));
    assert_eq!(Value::Double(double(1.5)), Value::Double(double(1.5)));
}

#[test]
fn equality_is_an_equivalence() {
    let json = |t: &str| Value::Json(JsonDocument::parse(t).unwrap());
    let class = |number: DecimalValue, document: &str| {
        Value::Array(vec![
            Value::Decimal(number),
            json(document),
            Value::Double(double(f64::NAN)),
        ])
    };
    let a = class(decimal(false, 15, 1), "[0.0]");
    let b = class(decimal(false, 150, 2), "[ -0.0 ]");
    let c = class(decimal(false, 1500, 3), "[0e0]");
    let other = class(decimal(false, 16, 1), "[0.0]");
    for (x, y) in vec![(&a, &b), (&b, &c), (&a, &c)] {
        assert!(x == y);
        assert!(y == x);
        assert!(x == x);
    }
    assert!(a != other);
    assert!(other != a);
    assert!(a != Value::Decimal(decimal(false, 15, 1)));
}

#[test]
fn values_of_different_kinds_differ() {
    assert_ne!(Value::Integer(1), Value::BigInt(1));
    assert_ne!(Value::Null, Value::Boolean(false));
    assert_ne!(Value::Timestamp(moment()), Value::TimestampNaive(moment()));
    assert_eq!(Value::Null, Value::Null);
}

#[test]
fn decimals_compare_as_numbers() {
    assert_eq!(Value::Decimal(decimal(false, 15, 1)), Value::Decimal(decimal(false, 150, 2)));
    assert_ne!(Value::Decimal(decimal(false, 15, 1)), Value::Decimal(decimal(true, 15, 1)));
    assert_eq!(Value::Decimal(decimal(true, 0, 0)), Value::Decimal(decimal(false, 0, 5)));
}

#[test]
fn json_documents_compare_by_content() {
    let a = JsonDocument::parse("{\"b\": 1, \"a\": [true, null]}").unwrap();
    let b = JsonDocument::parse("{ \"a\":[true,null],\"b\":1 }").unwrap();
    let c = JsonDocument::parse("{\"b\": 2}").unwrap();
    assert_eq!(a.as_str(), "{\"a\":[true,null],\"b\":1}");
    assert_eq!(Value::Json(a.clone()), Value::Json(b));
    assert_ne!(Value::Json(a), Value::Json(c));
    assert!(JsonDocument::parse("{oops").is_none());
}

#[test]
fn no_document_is_nested_too_deeply() {
    let nested = |inner: &str| format!("{}{inner}{}", "[".repeat(300), "]".repeat(300));
    let a = JsonDocument::from_compact(nested("1"));
    let b = JsonDocument::from_compact(nested("2"));
    assert_eq!(a.as_str(), nested("1"));
    assert_eq!(Value::Json(a.clone()), Value::Json(a.clone()));
    assert_ne!(Value::Json(a), Value::Json(b));
    assert!(JsonDocument::parse(&nested("1")).is_none());
    let plain = JsonDocument::from_compact("[0.0]".to_string());
    assert_eq!(Value::Json(plain), Value::Json(JsonDocument::parse(" [-0.0] ").unwrap()));
}

#[test]
fn arrays_and_rows_compare_cell_by_cell() {
    let a = Value::Array(vec![Value::Integer(1), Value::Null]);
    assert_eq!(a, a.clone());
    assert_ne!(a, Value::Array(vec![Value::Integer(1)]));
    assert_eq!(Row(vec![a.clone()]), Row(vec![a.clone()]));
    assert_ne!(Row(vec![a.clone(), Value::Null]), Row(vec![a]));
    assert_eq!(Row::default(), Row(Vec::new()));
}

#[test]
fn decimals_are_written_with_their_scale() {
    assert_eq!(decimal(false, 0, 0).text(), "0");
    assert_eq!(decimal(false, 0, 2).text(), "0.00");
    assert_eq!(decimal(true, 5, 3).text(), "-0.005");
    assert_eq!(decimal(false, 12345, 2).text(), "123.45");
    assert_eq!(decimal(true, 79228162514264337593543950335, 28).text(), "-7.9228162514264337593543950335");
    assert_eq!(decimal(true, 0, 1).text(), "-0.0");
    assert!(DecimalValue::new(false, 79228162514264337593543950336, 0).is_none());
    assert!(DecimalValue::new(false, 1, 29).is_none());
    assert_eq!(DecimalValue::from_u64(u64::MAX).text(), "18446744073709551615");
}

#[test]
fn dates_exist_where_the_calendar_has_them() {
    assert!(DateValue::new(2023, 2, 29).is_none());
    assert!(DateValue::new(2024, 2, 29).is_some());
    assert!(DateValue::new(1900, 2, 29).is_none());
    assert!(DateValue::new(2000, 2, 29).is_some());
    assert!(DateValue::new(2024, 13, 1).is_none());
    assert!(DateValue::new(2024, 4, 31).is_none());
    assert!(DateValue::new(262142, 12, 31).is_some());
    assert!(DateValue::new(262143, 1, 1).is_none());
    assert!(DateValue::new(-262143, 1, 1).is_some());
    for year in [-262144, -262143, -4, -1, 0, 4, 100, 1999, 2024, 262142, 262143] {
        for month in 0..=13u32 {
            for day in 0..=32u32 {
                let real = NaiveDate::from_ymd_opt(year, month, day).is_some();
                assert_eq!(DateValue::new(year, month, day).is_some(), real);
            }
        }
    }
}

#[test]
fn dates_and_times_are_written_as_chrono_does() {
    for (y, m, d) in [(2024, 2, 29), (1, 1, 1), (0, 12, 31), (-1, 5, 6), (12345, 10, 20), (-262143, 1, 1)] {
        assert_eq!(
            DateValue::new(y, m, d).unwrap().text(),
            NaiveDate::from_ymd_opt(y, m, d).unwrap().to_string()
        );
    }
    for (h, m, s, n) in [
        (0, 0, 0, 0),
        (1, 2, 3, 4),
        (23, 59, 59, 1_500_000_000),
        (12, 30, 0, 120_000_000),
        (12, 30, 0, 120_000),
    ] {
        let time = NaiveTime::from_hms_opt(h, m, s).unwrap().with_nanosecond(n).unwrap();
        assert_eq!(TimeValue::new(h, m, s, n).unwrap().text(), time.to_string());
    }
    assert_eq!(DateValue::new(-1, 5, 6).unwrap().text(), "-0001-05-06");
    assert_eq!(DateValue::new(12345, 10, 20).unwrap().text(), "+12345-10-20");
    assert_eq!(TimeValue::new(23, 59, 59, 1_500_000_000).unwrap().text(), "23:59:60.500");
    assert!(TimeValue::new(24, 0, 0, 0).is_none());
    assert!(TimeValue::new(0, 0, 60, 0).is_none());
    assert!(TimeValue::new(0, 0, 0, 2_000_000_000).is_none());
}

#[test]
fn moments_are_written_with_and_without_an_offset() {
    assert_eq!(moment().naive_text(), "2024-02-29 23:59:58.120");
    assert_eq!(moment().utc_text(), "2024-02-29 23:59:58.120+00:00");
    let whole = DateTimeValue {
        date: DateValue::new(2024, 1, 2).unwrap(),
        time: TimeValue::new(3, 4, 5, 0).unwrap(),
    };
    assert_eq!(whole.utc_text(), "2024-01-02 03:04:05+00:00");
}

#[test]
fn floats_keep_their_bits_and_text() {
    let f = double(-2.5);
    assert_eq!(f.bits(), (-2.5f64).to_bits());
    assert_eq!(f.as_str(), "-2.5");
    assert!(FloatValue::new(0, "1\t2".to_string()).is_none());
    assert!(FloatValue::new(0, "\\N".to_string()).is_none());
}

#[test]
fn uuids_are_bound_as_text() {
    let bytes = [0x12, 0x3e, 0x45, 0x67, 0xe8, 0x9b, 0x12, 0xd3, 0xa4, 0x56, 0x42, 0x66, 0x14, 0x17, 0x40, 0x00];
    assert_eq!(
        bound_value(&Value::Uuid(bytes)),
        Value::Text("123e4567-e89b-12d3-a456-426614174000".to_string())
    );
    assert_eq!(bound_value(&Value::Timestamp(moment())), Value::TimestampNaive(moment()));
    assert_eq!(bound_value(&Value::Integer(3)), Value::Integer(3));
}
