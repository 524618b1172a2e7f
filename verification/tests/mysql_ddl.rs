use ddbcore::mysql::ddl::{
    alter_table_sql, category_to_mysql_type, create_index_sql, create_table_sql,
    referential_action_sql, render_ddl,
};
use ddbcore::mysql::types::map_mysql_type;
use ddbcore::{
    CheckConstraint, Column, ColumnDefinition, ConstraintDefinition, DataType, ForeignKey,
    IdentityGeneration, Index, IndexColumn, IndexDefinition, PrimaryKey, ReferentialAction, Table,
    TableAlteration, TableDefinition, TableRef, TypeCategory, UniqueConstraint,
};

fn s(x: &str) -> String {
    x.to_string()
}

fn table_ref() -> TableRef {
    TableRef { schema: s("db"), name: s("t") }
}

fn dt(category: TypeCategory) -> DataType {
    DataType { category, native_type: String::new() }
}

fn column(name: &str, category: TypeCategory, nullable: bool) -> Column {
    Column {
        name: s(name),
        ordinal_position: 1,
        data_type: dt(category),
        nullable,
        default: None,
        is_identity: false,
        identity_generation: None,
        comment: None,
    }
}

fn definition(name: &str, category: TypeCategory) -> ColumnDefinition {
    ColumnDefinition { name: s(name), data_type: dt(category), nullable: false, default: None, identity: None }
}

fn key() -> ForeignKey {
    ForeignKey {
        name: s("fk"),
        columns: vec![s("a"), s("b")],
        referenced_schema: s("db"),
        referenced_table: s("p"),
        referenced_columns: vec![s("x"), s("y")],
        on_delete: ReferentialAction::Cascade,
        on_update: ReferentialAction::NoAction,
    }
}

#[test]
fn types_are_written_for_their_category() {
    let cases = vec![
        (TypeCategory::Boolean, "tinyint(1)"),
        (TypeCategory::Decimal { precision: Some(10), scale: Some(2) }, "decimal(10,2)"),
        (TypeCategory::Decimal { precision: Some(10), scale: None }, "decimal(10)"),
        (TypeCategory::Decimal { precision: None, scale: Some(2) }, "decimal"),
        (TypeCategory::Char { length: None }, "char(1)"),
        (TypeCategory::VarChar { length: None }, "varchar(255)"),
        (TypeCategory::VarBinary { length: Some(16) }, "varbinary(16)"),
        (TypeCategory::Time { precision: Some(3), with_timezone: false }, "time(3)"),
        (TypeCategory::Time { precision: Some(0), with_timezone: false }, "time"),
        (TypeCategory::Timestamp { precision: Some(6), with_timezone: true }, "datetime(6)"),
        (TypeCategory::Interval, "varchar(255)"),
        (TypeCategory::Uuid, "char(36)"),
        (TypeCategory::Xml, "text"),
        (TypeCategory::Bit { length: Some(8) }, "bit(8)"),
        (TypeCategory::Enum { values: vec![s("a"), s("it's")] }, "enum('a', 'it''s')"),
    ];
    for (category, expected) in cases {
        assert_eq!(category_to_mysql_type(&category), expected);
    }
}

#[test]
fn written_types_read_back() {
    let categories = vec![
        TypeCategory::Boolean,
        TypeCategory::SmallInt,
        TypeCategory::Integer,
        TypeCategory::BigInt,
        TypeCategory::Decimal { precision: Some(65), scale: Some(30) },
        TypeCategory::Real,
        TypeCategory::Double,
        TypeCategory::Char { length: Some(4294967295) },
        TypeCategory::VarChar { length: Some(20) },
        TypeCategory::Text,
        TypeCategory::Binary { length: Some(16) },
        TypeCategory::Blob,
        TypeCategory::Date,
        TypeCategory::Time { precision: Some(6), with_timezone: false },
        TypeCategory::Timestamp { precision: None, with_timezone: false },
        TypeCategory::Json { binary: true },
        TypeCategory::Bit { length: Some(1) },
        TypeCategory::Enum { values: vec![s("happy"), s("so so"), s("don't")] },
    ];
    for category in categories {
        assert_eq!(map_mysql_type(&category_to_mysql_type(&category)), category);
    }
}

#[test]
fn referential_actions_are_written() {
    assert_eq!(referential_action_sql(&ReferentialAction::NoAction), "NO ACTION");
    assert_eq!(referential_action_sql(&ReferentialAction::Restrict), "RESTRICT");
    assert_eq!(referential_action_sql(&ReferentialAction::Cascade), "CASCADE");
    assert_eq!(referential_action_sql(&ReferentialAction::SetNull), "SET NULL");
    assert_eq!(referential_action_sql(&ReferentialAction::SetDefault), "SET DEFAULT");
}

#[test]
fn a_table_is_created_from_its_definition() {
    let mut active = definition("is_active", TypeCategory::Boolean);
    active.default = Some(s("true"));
    let mut id = definition("id", TypeCategory::BigInt);
    id.identity = Some(IdentityGeneration::ByDefault);
    id.default = Some(s("ignored"));
    let def = TableDefinition {
        schema: s("db"),
        name: s("t"),
        columns: vec![id, active],
        primary_key: Some(PrimaryKey { name: None, columns: vec![s("id")] }),
    };
    assert_eq!(
        create_table_sql(&def),
        "CREATE TABLE `db`.`t` (\n  `id` bigint NOT NULL AUTO_INCREMENT,\n  `is_active` tinyint(1) NOT NULL DEFAULT true,\n  PRIMARY KEY (`id`)\n)"
    );
}

#[test]
fn an_index_is_created() {
    let def = IndexDefinition {
        table: table_ref(),
        name: s("i"),
        columns: vec![IndexColumn { name: s("a"), descending: false }, IndexColumn { name: s("b"), descending: false }],
        unique: true,
        method: None,
    };
    assert_eq!(create_index_sql(&def), "CREATE UNIQUE INDEX `i` ON `db`.`t` (`a`, `b`)");
}

#[test]
fn a_reflected_table_is_rendered_one_statement_at_a_time() {
    let mut id = column("id", TypeCategory::BigInt, false);
    id.is_identity = true;
    id.identity_generation = Some(IdentityGeneration::ByDefault);
    let table = Table {
        schema: s("db"),
        name: s("t"),
        columns: vec![id, column("code", TypeCategory::VarChar { length: Some(20) }, true)],
        primary_key: Some(PrimaryKey { name: Some(s("PRIMARY")), columns: vec![s("id")] }),
        foreign_keys: vec![key()],
        unique_constraints: vec![UniqueConstraint { name: s("u"), columns: vec![s("code")] }],
        check_constraints: vec![CheckConstraint { name: s("c"), expression: s("id > 0") }],
        exclusion_constraints: Vec::new(),
        indexes: vec![Index { name: s("i"), columns: vec![IndexColumn { name: s("code"), descending: false }], unique: false, method: None }],
        triggers: Vec::new(),
        comment: None,
        partition_key: None,
        partition_parent: None,
    };
    let statements = render_ddl(&table).unwrap();
    assert_eq!(
        statements,
        vec![
            s("CREATE TABLE `db`.`t` (\n  `id` bigint NOT NULL AUTO_INCREMENT,\n  `code` varchar(20),\n  PRIMARY KEY (`id`)\n)"),
            s("ALTER TABLE `db`.`t` ADD CONSTRAINT `u` UNIQUE (`code`)"),
            s("ALTER TABLE `db`.`t` ADD CONSTRAINT `c` CHECK (id > 0)"),
            s("ALTER TABLE `db`.`t` ADD CONSTRAINT `fk` FOREIGN KEY (`a`, `b`) REFERENCES `db`.`p` (`x`, `y`) ON UPDATE NO ACTION ON DELETE CASCADE"),
            s("CREATE INDEX `i` ON `db`.`t` (`code`)"),
        ]
    );
    assert_eq!(table.table_ref(), table_ref());
}

#[test]
fn alterations_are_written() {
    let alter = |a: TableAlteration| alter_table_sql(&a);
    assert_eq!(
        alter(TableAlteration::AddColumn { table: table_ref(), column: definition("n", TypeCategory::Text) }),
        "ALTER TABLE `db`.`t` ADD COLUMN `n` text NOT NULL"
    );
    assert_eq!(
        alter(TableAlteration::DropColumn { table: table_ref(), column: s("n") }),
        "ALTER TABLE `db`.`t` DROP COLUMN `n`"
    );
    assert_eq!(
        alter(TableAlteration::AlterColumnType { table: table_ref(), column: s("n"), data_type: dt(TypeCategory::Date) }),
        "ALTER TABLE `db`.`t` MODIFY COLUMN `n` date"
    );
    assert_eq!(
        alter(TableAlteration::AddConstraint {
            table: table_ref(),
            constraint: ConstraintDefinition::PrimaryKey(PrimaryKey { name: None, columns: vec![s("id")] }),
        }),
        "ALTER TABLE `db`.`t` ADD PRIMARY KEY (`id`)"
    );
    assert_eq!(
        alter(TableAlteration::DropConstraint { table: table_ref(), name: s("u") }),
        "ALTER TABLE `db`.`t` DROP CONSTRAINT `u`"
    );
    assert_eq!(
        alter(TableAlteration::DropIndex { table: table_ref(), name: s("i") }),
        "DROP INDEX `i` ON `db`.`t`"
    );
}
