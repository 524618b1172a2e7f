use ddbcore::mysql::reflect;
use ddbcore::mysql::reflect::{
    action_named, column_with, comment, event_named, foreign_keys, function, indexes,
    map_ref_action, primary_key, sequence, sequence_query, table, unique_constraints,
    ColumnRow, ForeignKeyRow, FunctionRow, IndexRow, SequenceRow, TableParts, TriggerRow, UniqueRow,
};
use ddbcore::{IdentityGeneration, ReferentialAction, TriggerEvent, TriggerTiming, TypeCategory};

fn s(x: &str) -> String {
    x.to_string()
}

fn column_row(extra: &str) -> ColumnRow {
    ColumnRow {
        column_name: s("id"),
        ordinal_position: 1,
        column_type: s("bigint(20)"),
        is_nullable: s("NO"),
        column_default: None,
        extra: s(extra),
        column_comment: s(""),
    }
}

fn key_row(name: &str, column: &str, target: &str, table: &str, rule: &str) -> ForeignKeyRow {
    ForeignKeyRow {
        constraint_name: s(name),
        column_name: s(column),
        referenced_table_schema: s("db"),
        referenced_table_name: s(table),
        referenced_column_name: s(target),
        update_rule: s("NO ACTION"),
        delete_rule: s(rule),
    }
}

#[test]
fn columns_come_from_their_rows() {
    let c = reflect::column(column_row("Auto_Increment"));
    assert_eq!(c.name, "id");
    assert_eq!(c.ordinal_position, 1);
    assert_eq!(c.data_type.category, TypeCategory::BigInt);
    assert_eq!(c.data_type.native_type, "bigint(20)");
    assert!(!c.nullable);
    assert!(c.is_identity);
    assert_eq!(c.identity_generation, Some(IdentityGeneration::ByDefault));
    assert_eq!(c.comment, None);
    let mut row = column_row("");
    row.is_nullable = s("YES");
    row.column_comment = s("note");
    let c = reflect::column(row);
    assert!(c.nullable && !c.is_identity);
    assert_eq!(c.comment, Some(s("note")));
    assert!(!column_with(column_row("AUTO_INCREMENT"), "AUTO_INCREMENT").is_identity);
}

#[test]
fn an_empty_comment_is_none() {
    assert_eq!(comment(s("")), None);
    assert_eq!(comment(s(" ")), Some(s(" ")));
}

#[test]
fn a_primary_key_has_columns() {
    assert!(primary_key(Vec::new()).is_none());
    let key = primary_key(vec![s("a"), s("b")]).unwrap();
    assert_eq!(key.name, Some(s("PRIMARY")));
    assert_eq!(key.columns, vec![s("a"), s("b")]);
}

#[test]
fn referential_rules_are_read_in_any_case() {
    assert_eq!(map_ref_action("cascade"), ReferentialAction::Cascade);
    assert_eq!(map_ref_action("Set Null"), ReferentialAction::SetNull);
    assert_eq!(map_ref_action("SET DEFAULT"), ReferentialAction::SetDefault);
    assert_eq!(map_ref_action("restrict"), ReferentialAction::Restrict);
    assert_eq!(map_ref_action("whatever"), ReferentialAction::NoAction);
    assert_eq!(map_ref_action("ca\u{17f}cade"), ReferentialAction::Cascade);
    assert_eq!(action_named("cascade"), ReferentialAction::NoAction);
}

#[test]
fn foreign_keys_collect_their_columns() {
    let keys = foreign_keys(&vec![
        key_row("b", "b1", "x", "p", "cascade"),
        key_row("a", "a1", "y", "q", "SET NULL"),
        key_row("b", "b2", "z", "other", "RESTRICT"),
    ]);
    assert_eq!(keys.len(), 2);
    assert_eq!(keys[0].name, "b");
    assert_eq!(keys[0].columns, vec![s("b1"), s("b2")]);
    assert_eq!(keys[0].referenced_columns, vec![s("x"), s("z")]);
    assert_eq!(keys[0].referenced_table, "p");
    assert_eq!(keys[0].on_delete, ReferentialAction::Cascade);
    assert_eq!(keys[0].on_update, ReferentialAction::NoAction);
    assert_eq!(keys[1].name, "a");
    assert_eq!(keys[1].columns, vec![s("a1")]);
}

#[test]
fn unique_constraints_collect_their_columns() {
    let row = |n: &str, c: &str| UniqueRow { constraint_name: s(n), column_name: s(c) };
    let found = unique_constraints(&vec![row("u", "1"), row("v", "2"), row("u", "3")]);
    assert_eq!(found.len(), 2);
    assert_eq!(found[0].name, "u");
    assert_eq!(found[0].columns, vec![s("1"), s("3")]);
    assert_eq!(found[1].columns, vec![s("2")]);
    assert!(unique_constraints(&Vec::new()).is_empty());
}

#[test]
fn indexes_take_their_kind_from_the_last_row() {
    let row = |n: &str, c: &str, non_unique: i64, kind: &str| IndexRow {
        index_name: s(n),
        column_name: s(c),
        non_unique,
        index_type: s(kind),
    };
    let found = indexes(&vec![row("i", "a", 1, "HASH"), row("j", "b", 1, "BTREE"), row("i", "c", 0, "BTREE")]);
    assert_eq!(found.len(), 2);
    assert_eq!(found[0].name, "i");
    assert_eq!(found[0].columns.len(), 2);
    assert_eq!(found[0].columns[1].name, "c");
    assert!(!found[0].columns[1].descending);
    assert!(found[0].unique);
    assert_eq!(found[0].method, Some(s("BTREE")));
    assert!(!found[1].unique);
}

#[test]
fn triggers_fire_on_one_event() {
    let row = |timing: &str, event: &str| TriggerRow {
        trigger_name: s("t"),
        action_timing: s(timing),
        event_manipulation: s(event),
        action_statement: s("SET x = 1"),
    };
    let t = reflect::trigger(row("before", "update"));
    assert_eq!(t.timing, TriggerTiming::Before);
    assert_eq!(t.events, vec![TriggerEvent::Update]);
    assert_eq!(t.function_name, None);
    assert_eq!(t.body, Some(s("SET x = 1")));
    let t = reflect::trigger(row("AFTER", "DELETE"));
    assert_eq!(t.timing, TriggerTiming::After);
    assert_eq!(t.events, vec![TriggerEvent::Delete]);
    assert_eq!(reflect::trigger(row("", "?")).events, vec![TriggerEvent::Insert]);
    assert_eq!(event_named("delete"), TriggerEvent::Insert);
}

#[test]
fn sequences_count_in_sixty_four_bits() {
    assert_eq!(
        sequence_query("d`b", "q"),
        "SELECT min_value, max_value, start_value, increment, cycle_option FROM `d``b`.`q`"
    );
    let row = SequenceRow { min_value: 1, max_value: 9, start_value: 2, increment: 3, cycle_option: s("yes") };
    let q = sequence("db", s("q"), row);
    assert_eq!(q.data_type.category, TypeCategory::BigInt);
    assert_eq!(q.data_type.native_type, "bigint");
    assert_eq!((q.min_value, q.max_value, q.start_value, q.increment), (Some(1), Some(9), 2, 3));
    assert!(q.cycle);
}

#[test]
fn functions_keep_their_body() {
    let row = FunctionRow { routine_name: s("f"), dtd_identifier: Some(s("int")), routine_definition: None };
    let f = function("db", row);
    assert_eq!(f.language, "SQL");
    assert!(f.arguments.is_empty());
    assert_eq!(f.return_type, Some(s("int")));
    assert_eq!(f.body, None);
}

#[test]
fn a_table_has_no_partitions() {
    let parts = TableParts {
        columns: vec![reflect::column(column_row(""))],
        primary_key: None,
        foreign_keys: Vec::new(),
        unique_constraints: Vec::new(),
        check_constraints: Vec::new(),
        indexes: Vec::new(),
        triggers: Vec::new(),
    };
    let t = table("db", s("t"), s("about"), parts);
    assert_eq!(t.schema, "db");
    assert_eq!(t.comment, Some(s("about")));
    assert_eq!(t.columns.len(), 1);
    assert!(t.partition_key.is_none() && t.partition_parent.is_none());
    assert!(t.exclusion_constraints.is_empty());
}
