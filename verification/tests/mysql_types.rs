use ddbcore::mysql::types::map_mysql_type;
use ddbcore::TypeCategory;

#[test]
fn maps_simple_scalars() {
    assert_eq!(map_mysql_type("int(11)"), TypeCategory::Integer);
    assert_eq!(map_mysql_type("bigint(20)"), TypeCategory::BigInt);
    assert_eq!(map_mysql_type("text"), TypeCategory::Text);
    assert_eq!(map_mysql_type("json"), TypeCategory::Json { binary: true });
}

#[test]
fn maps_tinyint_one_as_boolean() {
    assert_eq!(map_mysql_type("tinyint(1)"), TypeCategory::Boolean);
    assert_eq!(map_mysql_type("tinyint(4)"), TypeCategory::SmallInt);
}

#[test]
fn strips_unsigned_and_zerofill() {
    assert_eq!(map_mysql_type("int(10) unsigned"), TypeCategory::Integer);
    assert_eq!(map_mysql_type("int(10) unsigned zerofill"), TypeCategory::Integer);
}

#[test]
fn maps_decimal_with_precision_and_scale() {
    assert_eq!(
        map_mysql_type("decimal(10,2)"),
        TypeCategory::Decimal { precision: Some(10), scale: Some(2) }
    );
}

#[test]
fn maps_varchar_with_length() {
    assert_eq!(map_mysql_type("varchar(255)"), TypeCategory::VarChar { length: Some(255) });
}

#[test]
fn maps_enum_values() {
    assert_eq!(
        map_mysql_type("enum('happy','sad','neutral')"),
        TypeCategory::Enum {
            values: vec!["happy".to_string(), "sad".to_string(), "neutral".to_string()]
        }
    );
}

#[test]
fn maps_set_to_unsupported() {
    assert_eq!(
        map_mysql_type("set('a','b')"),
        TypeCategory::Unsupported { native_type: "set('a','b')".to_string() }
    );
}

#[test]
fn falls_back_to_unsupported_for_unknown_types() {
    assert_eq!(
        map_mysql_type("inet6"),
        TypeCategory::Unsupported { native_type: "inet6".to_string() }
    );
}
