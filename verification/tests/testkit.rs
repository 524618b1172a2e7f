use ddbcore::testkit::contract::{
    add_code_unique, add_parent_key, basic_definition, check_basic, check_child, check_recreated,
    check_rows, child_definition, dt, find_column, find_table, original_definition, parent_definition,
    parent_index, renamed_statements, rows_definition, sample_rows,
};
use ddbcore::testkit::testenv::{
    mariadb_database, mariadb_root_password, mariadb_tag, pg_database, pg_password, pg_tag,
    pg_user, var, EnvVars, TestEnv,
};
use ddbcore::{
    Catalog, Column, ConstraintDefinition, ForeignKey, Index, PrimaryKey, ReferentialAction, Row,
    Schema, Table, TableAlteration, TypeCategory, UniqueConstraint, Value,
};

fn s(x: &str) -> String {
    x.to_string()
}

fn column(name: &str, category: TypeCategory, nullable: bool) -> Column {
    Column {
        name: s(name),
        ordinal_position: 1,
        data_type: dt(category),
        nullable,
        default: None,
        is_identity: false,
        identity_generation: None,
        comment: None,
    }
}

fn table(name: &str, columns: Vec<Column>) -> Table {
    Table {
        schema: s("public"),
        name: s(name),
        columns,
        primary_key: Some(PrimaryKey { name: None, columns: vec![s("id")] }),
        foreign_keys: Vec::new(),
        unique_constraints: Vec::new(),
        check_constraints: Vec::new(),
        exclusion_constraints: Vec::new(),
        indexes: Vec::new(),
        triggers: Vec::new(),
        comment: None,
        partition_key: None,
        partition_parent: None,
    }
}

fn catalog(tables: Vec<Table>) -> Catalog {
    Catalog {
        schemas: vec![Schema {
            name: s("public"),
            tables,
            views: Vec::new(),
            sequences: Vec::new(),
            functions: Vec::new(),
        }],
    }
}

fn basic() -> Table {
    table(
        "x_basic",
        vec![
            column("id", TypeCategory::Integer, false),
            column("label", TypeCategory::VarChar { length: Some(100) }, true),
            column("is_active", TypeCategory::Boolean, false),
        ],
    )
}

fn child() -> Table {
    let mut t = table("x_child", Vec::new());
    t.foreign_keys = vec![ForeignKey {
        name: s("x_child_parent_fk"),
        columns: vec![s("parent_id")],
        referenced_schema: s("public"),
        referenced_table: s("x_parent"),
        referenced_columns: vec![s("id")],
        on_delete: ReferentialAction::Cascade,
        on_update: ReferentialAction::NoAction,
    }];
    t.unique_constraints = vec![UniqueConstraint { name: s("u"), columns: vec![s("code")] }];
    t.indexes = vec![Index { name: s("x_child_parent_id_idx"), columns: Vec::new(), unique: false, method: None }];
    t
}

fn replayed(name: &str) -> Table {
    let mut id = column("id", TypeCategory::BigInt, false);
    id.is_identity = true;
    let mut t = table(name, vec![id, column("code", TypeCategory::VarChar { length: Some(20) }, false)]);
    t.unique_constraints = vec![UniqueConstraint { name: s("u"), columns: vec![s("code")] }];
    t
}

#[test]
fn settings_are_read_from_a_file() {
    let vars = EnvVars::parse("# comment\n\n A = 1 \r\nB==x=\nnothing\n=empty\nA=2\n");
    assert_eq!(vars.get("A"), Some(s("2")));
    assert_eq!(vars.get("B"), Some(s("=x=")));
    assert_eq!(vars.get(""), Some(s("empty")));
    assert_eq!(vars.get("nothing"), None);
    assert_eq!(vars.get("# comment"), None);
}

#[test]
fn the_environment_comes_first() {
    let mut overrides = EnvVars::new();
    overrides.set(s("DDBCORE_TEST_PG_TAG"), s("17"));
    let file = EnvVars::parse("DDBCORE_TEST_PG_TAG=15\nDDBCORE_TEST_PG_USER=me");
    let env = TestEnv { overrides, file };
    assert_eq!(pg_tag(&env), "17");
    assert_eq!(pg_user(&env), "me");
    assert_eq!(pg_database(&env), "postgres");
    assert_eq!(pg_password(&env), "postgres");
    assert_eq!(var(&env, "OTHER", "fallback"), "fallback");
}

#[test]
fn every_setting_has_a_fallback() {
    let env = TestEnv { overrides: EnvVars::new(), file: EnvVars::new() };
    assert_eq!(pg_tag(&env), "16-alpine");
    assert_eq!(pg_user(&env), "postgres");
    assert_eq!(mariadb_tag(&env), "11.3");
    assert_eq!(mariadb_database(&env), "ddbcore_test");
    assert_eq!(mariadb_root_password(&env), "ddbcore");
}

#[test]
fn definitions_follow_their_prefix() {
    let d = basic_definition("public", "x");
    assert_eq!(d.name, "x_basic");
    assert_eq!(d.columns.len(), 3);
    assert_eq!(d.columns[2].default, Some(s("true")));
    assert_eq!(d.columns[1].data_type.category, TypeCategory::VarChar { length: Some(100) });
    assert_eq!(d.primary_key.unwrap().columns, vec![s("id")]);
    assert_eq!(parent_definition("public", "x").name, "x_parent");
    assert_eq!(child_definition("public", "x").columns[1].name, "parent_id");
    assert_eq!(rows_definition("public", "x").columns[1].data_type.category, TypeCategory::Text);
    assert!(original_definition("public", "x").columns[0].identity.is_some());
    assert_eq!(parent_index("public", "x").name, "x_child_parent_id_idx");
    match add_parent_key("public", "x") {
        TableAlteration::AddConstraint { table, constraint: ConstraintDefinition::ForeignKey(key) } => {
            assert_eq!(table.name, "x_child");
            assert_eq!(key.name, "x_child_parent_fk");
        }
        _ => panic!("no foreign key"),
    }
    match add_code_unique("public", "x_orig", "_code_uq") {
        TableAlteration::AddConstraint { constraint: ConstraintDefinition::Unique(u), .. } => {
            assert_eq!(u.name, "x_orig_code_uq");
        }
        _ => panic!("no unique constraint"),
    }
}

#[test]
fn tables_and_columns_are_found_by_name() {
    let c = catalog(vec![basic()]);
    assert!(find_table(&c, "public", "x_basic").is_some());
    assert!(find_table(&c, "other", "x_basic").is_none());
    assert!(find_table(&c, "public", "y").is_none());
    assert!(find_column(&c.schemas[0].tables[0], "label").is_some());
    assert!(find_column(&c.schemas[0].tables[0], "none").is_none());
    assert!(find_table(&Catalog::default(), "public", "x").is_none());
}

#[test]
fn a_created_table_must_come_back() {
    assert_eq!(check_basic(&catalog(vec![basic()]), "public", "x"), Ok(()));
    assert_eq!(check_basic(&catalog(Vec::new()), "public", "x"), Err(s("table not found after create_table")));
    let mut t = basic();
    t.columns[0].nullable = true;
    assert_eq!(check_basic(&catalog(vec![t]), "public", "x"), Err(s("id should be NOT NULL")));
    let mut t = basic();
    t.columns[1].data_type = dt(TypeCategory::Text);
    assert_eq!(check_basic(&catalog(vec![t]), "public", "x"), Err(s("label should be VarChar")));
    let mut t = basic();
    t.primary_key = None;
    assert_eq!(check_basic(&catalog(vec![t]), "public", "x"), Err(s("primary key missing")));
}

#[test]
fn constraints_must_come_back() {
    assert_eq!(check_child(&catalog(vec![child()]), "public", "x"), Ok(()));
    let mut t = child();
    t.foreign_keys[0].on_delete = ReferentialAction::Restrict;
    assert_eq!(check_child(&catalog(vec![t]), "public", "x"), Err(s("on delete should cascade")));
    let mut t = child();
    t.unique_constraints[0].columns.push(s("id"));
    assert_eq!(check_child(&catalog(vec![t]), "public", "x"), Err(s("expected unique constraint on code")));
    let mut t = child();
    t.indexes.clear();
    assert_eq!(check_child(&catalog(vec![t]), "public", "x"), Err(s("expected index on parent_id")));
}

#[test]
fn rows_must_come_back() {
    let rows = sample_rows();
    assert_eq!(rows.len(), 3);
    assert_eq!(rows[1], Row(vec![Value::Integer(2), Value::Null]));
    assert_eq!(check_rows(3, &sample_rows(), &rows), Ok(()));
    assert_eq!(check_rows(2, &sample_rows(), &rows), Err(s("unexpected number of rows written")));
    assert_eq!(check_rows(3, &Vec::new(), &rows), Err(s("row count mismatch after roundtrip")));
    let mut other = sample_rows();
    other[2] = Row(vec![Value::Integer(3), Value::Null]);
    assert_eq!(check_rows(3, &other, &rows), Err(s("row contents mismatch after roundtrip")));
}

#[test]
fn statements_are_renamed() {
    let statements = vec![s("CREATE TABLE `x_orig` (a)"), s("ALTER TABLE `x_orig` ADD `x_orig_code_uq`")];
    assert_eq!(
        renamed_statements(&statements, "x"),
        vec![s("CREATE TABLE `x_recreated` (a)"), s("ALTER TABLE `x_recreated` ADD `x_recreated_code_uq`")]
    );
}

#[test]
fn a_replayed_table_must_match() {
    let check = |t: Table| check_recreated(&replayed("x_orig"), &catalog(vec![t]), "public", "x");
    assert_eq!(check(replayed("x_recreated")), Ok(()));
    assert_eq!(check(replayed("y")), Err(s("recreated table not found")));
    let mut t = replayed("x_recreated");
    t.columns[0].is_identity = false;
    assert_eq!(check(t), Err(s("identity lost/gained on column id after DDL replay")));
    let mut t = replayed("x_recreated");
    t.columns[1].data_type = dt(TypeCategory::Text);
    assert_eq!(check(t), Err(s("column type mismatch after DDL replay")));
    let mut t = replayed("x_recreated");
    t.unique_constraints.clear();
    assert_eq!(check(t), Err(s("unique constraint count mismatch after DDL replay")));
}
