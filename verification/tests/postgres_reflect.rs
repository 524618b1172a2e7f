use ddbcore::postgres::reflect;
use ddbcore::postgres::reflect::{
    check_constraint, decode_trigger_type, foreign_key, function, index_columns,
    load_enum_types, map_ref_action, resolve_column_names, sequence, table, AttributeRow,
    ColumnRow, EnumLabelRow, ForeignKeyRow, FunctionRow, SequenceRow, TableParts, TableRow,
    TriggerRow,
};
use ddbcore::postgres::types::{map_pg_type, EnumTypes};
use ddbcore::reflect::only_table;
use ddbcore::{
    DdbCoreError, IdentityGeneration, ReferentialAction, Table, TableRef, TriggerEvent,
    TriggerTiming, TypeCategory,
};

fn s(x: &str) -> String {
    x.to_string()
}

fn attribute(attnum: i16, attname: &str) -> AttributeRow {
    AttributeRow { attnum, attname: s(attname) }
}

fn table_row(parent: Option<&str>) -> TableRow {
    TableRow {
        relname: s("t"),
        partition_key: Some(s("RANGE (id)")),
        parent_schema: parent.map(|p| p.to_string()),
        parent_name: Some(s("p")),
    }
}

fn parts() -> TableParts {
    TableParts {
        columns: Vec::new(),
        primary_key: None,
        foreign_keys: Vec::new(),
        unique_constraints: Vec::new(),
        check_constraints: Vec::new(),
        exclusion_constraints: Vec::new(),
        indexes: Vec::new(),
        triggers: Vec::new(),
        comment: Some(s("about")),
    }
}

#[test]
fn labels_are_collected_by_type() {
    let row = |t: &str, l: &str| EnumLabelRow { typname: s(t), enumlabel: s(l) };
    let enums = load_enum_types(&vec![row("a", "1"), row("b", "2"), row("a", "3")]);
    assert_eq!(map_pg_type("a", &enums), TypeCategory::Enum { values: vec![s("1"), s("3")] });
    assert_eq!(map_pg_type("b", &enums), TypeCategory::Enum { values: vec![s("2")] });
}

#[test]
fn columns_know_their_identity() {
    let enums = EnumTypes::new();
    let row = |identity: &str| ColumnRow {
        name: s("id"),
        ordinal_position: 3,
        native_type: s("bigint"),
        nullable: false,
        default_expr: Some(s("1")),
        identity: s(identity),
        comment: None,
    };
    let c = reflect::column(row("a"), &enums);
    assert_eq!(c.ordinal_position, 3);
    assert_eq!(c.data_type.category, TypeCategory::BigInt);
    assert!(c.is_identity);
    assert_eq!(c.identity_generation, Some(IdentityGeneration::Always));
    assert_eq!(reflect::column(row("d"), &enums).identity_generation, Some(IdentityGeneration::ByDefault));
    let c = reflect::column(row(""), &enums);
    assert!(!c.is_identity && c.identity_generation.is_none());
    assert_eq!(c.default, Some(s("1")));
}

#[test]
fn column_numbers_become_names() {
    let rows = vec![attribute(1, "a"), attribute(2, "b"), attribute(1, "c")];
    assert_eq!(resolve_column_names(7, &[2, 1, 2], &rows), Ok(vec![s("b"), s("c"), s("b")]));
    assert_eq!(resolve_column_names(7, &[], &rows), Ok(Vec::new()));
    assert_eq!(
        resolve_column_names(-7, &[1, -3, 9], &rows),
        Err(DdbCoreError::Reflection(s("column attnum -3 not found for relid -7")))
    );
}

#[test]
fn referential_letters_are_read() {
    assert_eq!(map_ref_action("a"), ReferentialAction::NoAction);
    assert_eq!(map_ref_action("r"), ReferentialAction::Restrict);
    assert_eq!(map_ref_action("c"), ReferentialAction::Cascade);
    assert_eq!(map_ref_action("n"), ReferentialAction::SetNull);
    assert_eq!(map_ref_action("d"), ReferentialAction::SetDefault);
    assert_eq!(map_ref_action("C"), ReferentialAction::NoAction);
}

#[test]
fn foreign_keys_name_both_sides() {
    let row = ForeignKeyRow {
        conname: s("fk"),
        conrelid: 1,
        conkey: vec![2, 1],
        confrelid: 2,
        confkey: vec![5],
        confupdtype: s("a"),
        confdeltype: s("c"),
        ref_schema: s("public"),
        ref_table: s("p"),
    };
    let own = vec![attribute(1, "a"), attribute(2, "b")];
    let key = foreign_key(row.clone(), &own, &vec![attribute(5, "id")]).unwrap();
    assert_eq!(key.columns, vec![s("b"), s("a")]);
    assert_eq!(key.referenced_columns, vec![s("id")]);
    assert_eq!(key.on_delete, ReferentialAction::Cascade);
    assert_eq!(key.on_update, ReferentialAction::NoAction);
    assert_eq!(
        foreign_key(row, &own, &Vec::new()).err(),
        Some(DdbCoreError::Reflection(s("column attnum 5 not found for relid 2")))
    );
}

#[test]
fn check_constraints_lose_their_framing() {
    let expression = |d: &str| check_constraint(s("c"), s(d)).expression;
    assert_eq!(expression("CHECK ((a > 0))"), "(a > 0)");
    assert_eq!(expression("  CHECK (x)\n"), "x");
    assert_eq!(expression("CHECK (x) NOT VALID"), "x");
    assert_eq!(expression("CHECK ((a > 0)) NO INHERIT"), "(a > 0)");
    assert_eq!(expression("CHECK ((a > 0)) NO INHERIT NOT VALID"), "(a > 0)");
    assert_eq!(expression("CHECK ((a = ' NOT VALID'))"), "(a = ' NOT VALID')");
    assert_eq!(expression("x NOT VALID"), "x NOT VALID");
    assert_eq!(expression("CHECK ()"), "");
    assert_eq!(expression("CHECK ("), "CHECK (");
}

#[test]
fn index_columns_ascend() {
    let columns = index_columns(vec![s("a"), s("b")]);
    assert_eq!(columns.len(), 2);
    assert_eq!(columns[1].name, "b");
    assert!(!columns[0].descending);
}

#[test]
fn trigger_bits_are_decoded() {
    assert_eq!(decode_trigger_type(0), (TriggerTiming::After, Vec::new()));
    assert_eq!(
        decode_trigger_type(0x02 | 0x04 | 0x10),
        (TriggerTiming::Before, vec![TriggerEvent::Insert, TriggerEvent::Update])
    );
    assert_eq!(
        decode_trigger_type(0x42 | 0x08 | 0x20),
        (TriggerTiming::InsteadOf, vec![TriggerEvent::Delete, TriggerEvent::Truncate])
    );
    assert_eq!(decode_trigger_type(-1).1.len(), 4);
    let t = reflect::trigger(TriggerRow { tgname: s("t"), tgtype: 5, function_name: s("f"), definition: s("d") });
    assert_eq!(t.timing, TriggerTiming::After);
    assert_eq!(t.events, vec![TriggerEvent::Insert]);
    assert_eq!(t.function_name, Some(s("f")));
    assert_eq!(t.body, Some(s("d")));
}

#[test]
fn a_partition_names_its_parent() {
    let t = table("public", table_row(Some("other")), parts());
    assert_eq!(t.schema, "public");
    assert_eq!(t.partition_parent, Some(TableRef { schema: s("other"), name: s("p") }));
    assert_eq!(t.partition_key, Some(s("RANGE (id)")));
    assert_eq!(t.comment, Some(s("about")));
    assert_eq!(table("public", table_row(None), parts()).partition_parent, None);
}

#[test]
fn sequences_have_a_type() {
    let row = SequenceRow {
        sequencename: s("q"),
        data_type: s("integer"),
        start_value: 1,
        increment_by: -2,
        min_value: None,
        max_value: Some(5),
        cycle: true,
    };
    let q = sequence("public", row);
    assert_eq!(q.data_type.category, TypeCategory::Integer);
    assert_eq!(q.increment, -2);
    assert_eq!((q.min_value, q.max_value, q.cycle), (None, Some(5), true));
}

#[test]
fn functions_have_one_signature() {
    let row = |args: &str| FunctionRow {
        name: s("f"),
        args: s(args),
        return_type: None,
        language: s("plpgsql"),
        body: Some(s("BEGIN END")),
    };
    let f = function("public", row("a integer, b text"));
    assert_eq!(f.arguments.len(), 1);
    assert_eq!(f.arguments[0].native_type, "a integer, b text");
    assert_eq!(f.arguments[0].name, None);
    assert!(function("public", row(" \t")).arguments.is_empty());
}

#[test]
fn a_table_that_is_not_there_is_an_error() {
    let wanted = TableRef { schema: s("public"), name: s("t") };
    assert_eq!(
        only_table(Vec::<Table>::new(), &wanted).err(),
        Some(DdbCoreError::Reflection(s("table public.t not found")))
    );
    let mut second = table("public", table_row(None), parts());
    second.name = s("second");
    let found = only_table(vec![table("public", table_row(None), parts()), second], &wanted).unwrap();
    assert_eq!(found.name, "second");
}
