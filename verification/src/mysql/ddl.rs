//! MySQL's data definition statements.
use vstd::prelude::*;

use crate::adapter::{
    ColumnDefinition, ConstraintDefinition, IndexDefinition, TableAlteration, TableDefinition,
};
use crate::error::DdbCoreError;
use crate::mysql::definitions;
use crate::mysql::dialect;
use crate::number;
use crate::schema::{
    CheckConstraint, Column, ForeignKey, IdentityGeneration, Index, IndexColumn, PrimaryKey,
    ReferentialAction, Table, TableRef, UniqueConstraint,
};
use crate::text;
use crate::types;
use crate::types::{Category, TypeCategory};

verus! {

// ---------------------------------------------------------------------------
// Types
// ---------------------------------------------------------------------------

/// `name(n)`.
pub open spec fn sized(name: Seq<char>, n: u32) -> Seq<char> {
    name + seq!['('] + number::digits(n as nat) + seq![')']
}

/// `name(n)`, or the bare name where there is no number or it is zero.
pub open spec fn sized_if_positive(name: Seq<char>, n: Option<u32>) -> Seq<char> {
    match n {
        Some(p) => if p > 0 {
            sized(name, p)
        } else {
            name
        },
        None => name,
    }
}

/// The length that is written, `default` where none was captured.
pub open spec fn length_or(length: Option<u32>, default: u32) -> u32 {
    match length {
        Some(n) => n,
        None => default,
    }
}

/// A string literal: the text between single quotes, with those in it
/// doubled.
pub open spec fn literal(s: Seq<char>) -> Seq<char> {
    seq!['\''] + text::doubled(s, '\'') + seq!['\'']
}

pub open spec fn literals(values: Seq<Seq<char>>) -> Seq<Seq<char>> {
    values.map_values(|v: Seq<char>| literal(v))
}

/// How a category is written as a column type. Categories that MySQL has no
/// type for are written as the nearest that holds them; points in time are
/// always `datetime`, since `timestamp` converts and updates itself.
pub open spec fn type_text(category: Category) -> Seq<char> {
    match category {
        Category::Boolean => "tinyint(1)"@,
        Category::SmallInt => "smallint"@,
        Category::Integer => "int"@,
        Category::BigInt => "bigint"@,
        Category::Decimal { precision: Some(p), scale: Some(s) } => "decimal("@ + number::digits(
            p as nat,
        ) + seq![','] + number::digits(s as nat) + seq![')'],
        Category::Decimal { precision: Some(p), scale: None } => sized("decimal"@, p),
        Category::Decimal { precision: None, scale: _ } => "decimal"@,
        Category::Real => "float"@,
        Category::Double => "double"@,
        Category::Char { length } => sized("char"@, length_or(length, 1)),
        Category::VarChar { length } => sized("varchar"@, length_or(length, 255)),
        Category::Text => "text"@,
        Category::Binary { length } => sized("binary"@, length_or(length, 1)),
        Category::VarBinary { length } => sized("varbinary"@, length_or(length, 255)),
        Category::Blob => "blob"@,
        Category::Date => "date"@,
        Category::Time { precision, with_timezone: _ } => sized_if_positive("time"@, precision),
        Category::Timestamp { precision, with_timezone: _ } => sized_if_positive(
            "datetime"@,
            precision,
        ),
        Category::Interval => "varchar(255)"@,
        Category::Uuid => "char(36)"@,
        Category::Json { binary: _ } => "json"@,
        Category::Xml => "text"@,
        Category::Bit { length } => sized("bit"@, length_or(length, 1)),
        Category::Enum { values } => "enum("@ + text::joined(literals(values), ", "@) + seq![')'],
        Category::Array { element: _ } => "json"@,
        Category::Geometry { subtype: _ } => "geometry"@,
        Category::Unsupported { native_type } => native_type,
    }
}

fn with_size(name: &str, n: u32) -> (r: String)
    ensures
        r@ == sized(name@, n),
{
    let mut out = name.to_string();
    out.push('(');
    number::push_nat(&mut out, n as u64);
    out.push(')');
    assert(out@ =~= sized(name@, n));
    out
}

fn with_positive_size(name: &str, n: Option<u32>) -> (r: String)
    ensures
        r@ == sized_if_positive(name@, n),
{
    match n {
        Some(p) => if p > 0 {
            with_size(name, p)
        } else {
            name.to_string()
        },
        None => name.to_string(),
    }
}

fn default_length(length: Option<u32>, default: u32) -> (r: u32)
    ensures
        r == length_or(length, default),
{
    match length {
        Some(n) => n,
        None => default,
    }
}

fn enum_type(values: &Vec<String>) -> (r: String)
    ensures
        r@ == "enum("@ + text::joined(literals(text::texts(values@)), ", "@) + seq![')'],
{
    let mut quoted: Vec<String> = Vec::new();
    for i in 0..values.len()
        invariant
            quoted@.len() == i,
            forall|k: int| 0 <= k < i ==> (#[trigger] quoted@[k])@ == literal(values@[k]@),
    {
        let mut one = String::new();
        one.push('\'');
        text::push_doubled(&mut one, values[i].as_str(), '\'');
        one.push('\'');
        assert(one@ =~= literal(values@[i as int]@));
        quoted.push(one);
    }
    assert(text::texts(quoted@) =~= literals(text::texts(values@)));
    let list = text::join(&quoted, ", ");
    let mut out = "enum(".to_string();
    out.append(list.as_str());
    out.push(')');
    assert(out@ =~= "enum("@ + text::joined(literals(text::texts(values@)), ", "@) + seq![')']);
    out
}

/// Writes a category as a column type. Only the category counts, so that a
/// table reflected from another engine is written correctly too.
pub fn category_to_mysql_type(category: &TypeCategory) -> (r: String)
    ensures
        r@ == type_text(category@),
{
    match category {
        TypeCategory::Boolean => "tinyint(1)".to_string(),
        TypeCategory::SmallInt => "smallint".to_string(),
        TypeCategory::Integer => "int".to_string(),
        TypeCategory::BigInt => "bigint".to_string(),
        TypeCategory::Decimal { precision, scale } => match (*precision, *scale) {
            (Some(p), Some(s)) => {
                let mut out = "decimal(".to_string();
                number::push_nat(&mut out, p as u64);
                out.push(',');
                number::push_nat(&mut out, s as u64);
                out.push(')');
                assert(out@ =~= type_text(category@));
                out
            },
            (Some(p), None) => with_size("decimal", p),
            _ => "decimal".to_string(),
        },
        TypeCategory::Real => "float".to_string(),
        TypeCategory::Double => "double".to_string(),
        TypeCategory::Char { length } => with_size("char", default_length(*length, 1)),
        TypeCategory::VarChar { length } => with_size("varchar", default_length(*length, 255)),
        TypeCategory::Text => "text".to_string(),
        TypeCategory::Binary { length } => with_size("binary", default_length(*length, 1)),
        TypeCategory::VarBinary { length } => with_size("varbinary", default_length(*length, 255)),
        TypeCategory::Blob => "blob".to_string(),
        TypeCategory::Date => "date".to_string(),
        TypeCategory::Time { precision, .. } => with_positive_size("time", *precision),
        TypeCategory::Timestamp { precision, .. } => with_positive_size("datetime", *precision),
        TypeCategory::Interval => "varchar(255)".to_string(),
        TypeCategory::Uuid => "char(36)".to_string(),
        TypeCategory::Json { .. } => "json".to_string(),
        TypeCategory::Xml => "text".to_string(),
        TypeCategory::Bit { length } => with_size("bit", default_length(*length, 1)),
        TypeCategory::Enum { values } => enum_type(values),
        TypeCategory::Array { .. } => "json".to_string(),
        TypeCategory::Geometry { .. } => "geometry".to_string(),
        TypeCategory::Unsupported { native_type } => native_type.clone(),
    }
}

// ---------------------------------------------------------------------------
// Clauses
// ---------------------------------------------------------------------------

pub open spec fn action_text(action: ReferentialAction) -> Seq<char> {
    match action {
        ReferentialAction::NoAction => "NO ACTION"@,
        ReferentialAction::Restrict => "RESTRICT"@,
        ReferentialAction::Cascade => "CASCADE"@,
        ReferentialAction::SetNull => "SET NULL"@,
        ReferentialAction::SetDefault => "SET DEFAULT"@,
    }
}

/// The SQL for a referential action.
pub fn referential_action_sql(action: &ReferentialAction) -> (r: &'static str)
    ensures
        r@ == action_text(*action),
{
    match action {
        ReferentialAction::NoAction => "NO ACTION",
        ReferentialAction::Restrict => "RESTRICT",
        ReferentialAction::Cascade => "CASCADE",
        ReferentialAction::SetNull => "SET NULL",
        ReferentialAction::SetDefault => "SET DEFAULT",
    }
}

/// A column's line: its name, its type, `NOT NULL` where it must hold a
/// value, and either `AUTO_INCREMENT` for a generated key or else its
/// default. The two exclude each other, and the generated key wins.
pub open spec fn column_text(
    name: Seq<char>,
    sql_type: Seq<char>,
    nullable: bool,
    default: Option<Seq<char>>,
    identity: bool,
) -> Seq<char> {
    let not_null = if nullable {
        Seq::<char>::empty()
    } else {
        " NOT NULL"@
    };
    let value = if identity {
        " AUTO_INCREMENT"@
    } else {
        match default {
            Some(d) => " DEFAULT "@ + d,
            None => Seq::<char>::empty(),
        }
    };
    dialect::ident(name) + seq![' '] + sql_type + not_null + value
}

/// A column's line.
pub fn column_def_sql(
    name: &str,
    sql_type: &str,
    nullable: bool,
    default: &Option<String>,
    identity: Option<IdentityGeneration>,
) -> (r: String)
    ensures
        r@ == column_text(
            name@,
            sql_type@,
            nullable,
            types::optional_text(*default),
            identity is Some,
        ),
{
    let mut sql = dialect::quote_ident(name);
    sql.push(' ');
    sql.append(sql_type);
    if !nullable {
        sql.append(" NOT NULL");
    }
    if identity.is_some() {
        sql.append(" AUTO_INCREMENT");
    } else if let Some(d) = default {
        sql.append(" DEFAULT ");
        sql.append(d.as_str());
    }
    assert(sql@ =~= column_text(
        name@,
        sql_type@,
        nullable,
        types::optional_text(*default),
        identity is Some,
    ));
    sql
}

/// The line of a reflected column.
pub open spec fn column_line(c: Column) -> Seq<char> {
    column_text(
        c.name@,
        type_text(c.data_type.category@),
        c.nullable,
        types::optional_text(c.default),
        c.identity_generation is Some,
    )
}

/// The line of a column to be created.
pub open spec fn definition_line(c: ColumnDefinition) -> Seq<char> {
    column_text(
        c.name@,
        type_text(c.data_type.category@),
        c.nullable,
        types::optional_text(c.default),
        c.identity is Some,
    )
}

/// A list of column names, quoted and in parentheses.
pub open spec fn column_list(names: Seq<Seq<char>>) -> Seq<char> {
    seq!['('] + text::joined(dialect::idents(names), ", "@) + seq![')']
}

fn parenthesized(names: &Vec<String>) -> (r: String)
    ensures
        r@ == column_list(text::texts(names@)),
{
    let mut out = String::new();
    out.push('(');
    let list = dialect::quote_list(names);
    out.append(list.as_str());
    out.push(')');
    assert(out@ =~= column_list(text::texts(names@)));
    out
}

/// The line of a primary key, if there is one.
pub open spec fn key_lines(key: Option<PrimaryKey>) -> Seq<Seq<char>> {
    match key {
        Some(pk) => seq!["PRIMARY KEY "@ + column_list(text::texts(pk.columns@))],
        None => Seq::<Seq<char>>::empty(),
    }
}

/// A `CREATE TABLE` statement with these lines.
pub open spec fn create_text(table: Seq<char>, lines: Seq<Seq<char>>) -> Seq<char> {
    "CREATE TABLE "@ + table + " (\n  "@ + text::joined(lines, ",\n  "@) + "\n)"@
}

fn push_key_line(lines: &mut Vec<String>, key: &Option<PrimaryKey>)
    ensures
        text::texts(final(lines)@) == text::texts(old(lines)@) + key_lines(*key),
{
    if let Some(pk) = key {
        let mut line = "PRIMARY KEY ".to_string();
        let columns = parenthesized(&pk.columns);
        line.append(columns.as_str());
        lines.push(line);
    }
    assert(text::texts(lines@) =~= text::texts(old(lines)@) + key_lines(*key));
}

fn create_statement(table: &str, lines: &Vec<String>) -> (r: String)
    ensures
        r@ == create_text(table@, text::texts(lines@)),
{
    let mut sql = "CREATE TABLE ".to_string();
    sql.append(table);
    sql.append(" (\n  ");
    let body = text::join(lines, ",\n  ");
    sql.append(body.as_str());
    sql.append("\n)");
    assert(sql@ =~= create_text(table@, text::texts(lines@)));
    sql
}

/// `ALTER TABLE ... ADD CONSTRAINT name `, up to what the constraint says.
pub open spec fn add_constraint(table: Seq<char>, name: Seq<char>) -> Seq<char> {
    "ALTER TABLE "@ + table + " ADD CONSTRAINT "@ + dialect::ident(name) + seq![' ']
}

fn start_constraint(table: &str, name: &str) -> (r: String)
    ensures
        r@ == add_constraint(table@, name@),
{
    let mut sql = "ALTER TABLE ".to_string();
    sql.append(table);
    sql.append(" ADD CONSTRAINT ");
    let quoted = dialect::quote_ident(name);
    sql.append(quoted.as_str());
    sql.push(' ');
    assert(sql@ =~= add_constraint(table@, name@));
    sql
}

pub open spec fn unique_text(table: Seq<char>, uc: UniqueConstraint) -> Seq<char> {
    add_constraint(table, uc.name@) + "UNIQUE "@ + column_list(text::texts(uc.columns@))
}

fn unique_statement(table: &str, uc: &UniqueConstraint) -> (r: String)
    ensures
        r@ == unique_text(table@, *uc),
{
    let mut sql = start_constraint(table, uc.name.as_str());
    sql.append("UNIQUE ");
    let columns = parenthesized(&uc.columns);
    sql.append(columns.as_str());
    sql
}

pub open spec fn check_text(table: Seq<char>, cc: CheckConstraint) -> Seq<char> {
    add_constraint(table, cc.name@) + "CHECK ("@ + cc.expression@ + seq![')']
}

fn check_statement(table: &str, cc: &CheckConstraint) -> (r: String)
    ensures
        r@ == check_text(table@, *cc),
{
    let mut sql = start_constraint(table, cc.name.as_str());
    sql.append("CHECK (");
    sql.append(cc.expression.as_str());
    sql.push(')');
    assert(sql@ =~= check_text(table@, *cc));
    sql
}

pub open spec fn foreign_key_text(table: Seq<char>, fk: ForeignKey) -> Seq<char> {
    add_constraint(table, fk.name@) + "FOREIGN KEY "@ + column_list(text::texts(fk.columns@))
        + " REFERENCES "@ + dialect::qualified(fk.referenced_schema@, fk.referenced_table@) + seq![
        ' ',
    ] + column_list(text::texts(fk.referenced_columns@)) + " ON UPDATE "@ + action_text(
        fk.on_update,
    ) + " ON DELETE "@ + action_text(fk.on_delete)
}

fn foreign_key_statement(table: &str, fk: &ForeignKey) -> (r: String)
    ensures
        r@ == foreign_key_text(table@, *fk),
{
    let mut sql = start_constraint(table, fk.name.as_str());
    sql.append("FOREIGN KEY ");
    let columns = parenthesized(&fk.columns);
    sql.append(columns.as_str());
    sql.append(" REFERENCES ");
    let target = dialect::quote_qualified(
        fk.referenced_schema.as_str(),
        fk.referenced_table.as_str(),
    );
    sql.append(target.as_str());
    sql.push(' ');
    let referenced = parenthesized(&fk.referenced_columns);
    sql.append(referenced.as_str());
    sql.append(" ON UPDATE ");
    sql.append(referential_action_sql(&fk.on_update));
    sql.append(" ON DELETE ");
    sql.append(referential_action_sql(&fk.on_delete));
    assert(sql@ =~= foreign_key_text(table@, *fk));
    sql
}

/// The names of an index's columns.
pub open spec fn index_names(columns: Seq<IndexColumn>) -> Seq<Seq<char>> {
    columns.map_values(|c: IndexColumn| c.name@)
}

pub open spec fn index_text(
    table: Seq<char>,
    name: Seq<char>,
    unique: bool,
    columns: Seq<IndexColumn>,
) -> Seq<char> {
    let kind = if unique {
        "CREATE UNIQUE INDEX "@
    } else {
        "CREATE INDEX "@
    };
    kind + dialect::ident(name) + " ON "@ + table + seq![' '] + column_list(index_names(columns))
}

fn index_statement(table: &str, name: &str, unique: bool, columns: &Vec<IndexColumn>) -> (r: String)
    ensures
        r@ == index_text(table@, name@, unique, columns@),
{
    let mut names: Vec<String> = Vec::new();
    for i in 0..columns.len()
        invariant
            names@.len() == i,
            forall|k: int| 0 <= k < i ==> (#[trigger] names@[k])@ == columns@[k].name@,
    {
        names.push(columns[i].name.clone());
    }
    assert(text::texts(names@) =~= index_names(columns@));
    let mut sql = if unique {
        "CREATE UNIQUE INDEX ".to_string()
    } else {
        "CREATE INDEX ".to_string()
    };
    let quoted = dialect::quote_ident(name);
    sql.append(quoted.as_str());
    sql.append(" ON ");
    sql.append(table);
    sql.push(' ');
    let list = parenthesized(&names);
    sql.append(list.as_str());
    assert(sql@ =~= index_text(table@, name@, unique, columns@));
    sql
}

// ---------------------------------------------------------------------------
// Statements
// ---------------------------------------------------------------------------

pub open spec fn column_lines(columns: Seq<Column>) -> Seq<Seq<char>> {
    columns.map_values(|c: Column| column_line(c))
}

pub open spec fn definition_lines(columns: Seq<ColumnDefinition>) -> Seq<Seq<char>> {
    columns.map_values(|c: ColumnDefinition| definition_line(c))
}

/// The statements that recreate a table: the table with its columns and
/// primary key, then one statement for each unique constraint, each check,
/// each foreign key and each index, in the order of the table's lists.
pub open spec fn table_statements(table: Table) -> Seq<Seq<char>> {
    let name = dialect::qualified(table.schema@, table.name@);
    seq![create_text(name, column_lines(table.columns@) + key_lines(table.primary_key))]
        + table.unique_constraints@.map_values(|uc: UniqueConstraint| unique_text(name, uc))
        + table.check_constraints@.map_values(|cc: CheckConstraint| check_text(name, cc))
        + table.foreign_keys@.map_values(|fk: ForeignKey| foreign_key_text(name, fk))
        + table.indexes@.map_values(
        |idx: Index| index_text(name, idx.name@, idx.unique, idx.columns@),
    )
}

/// Writes a reflected table as MySQL statements, one to an element and
/// without closing semicolons.
pub fn render_ddl(table: &Table) -> (r: Result<Vec<String>, DdbCoreError>)
    ensures
        r is Ok,
        text::texts(r->Ok_0@) == table_statements(*table),
        definitions::is_readable_table(*table) ==> definitions::recreate(
            definitions::read_all(text::texts(r->Ok_0@)),
            *table,
        ),
{
    proof {
        if definitions::is_readable_table(*table) {
            definitions::lemma_statements_recreate_table(*table);
        }
    }
    let name = dialect::quote_qualified(table.schema.as_str(), table.name.as_str());
    let mut lines: Vec<String> = Vec::new();
    for i in 0..table.columns.len()
        invariant
            lines@.len() == i,
            forall|k: int| 0 <= k < i ==> (#[trigger] lines@[k])@ == column_line(table.columns@[k]),
    {
        let c = &table.columns[i];
        let sql_type = category_to_mysql_type(&c.data_type.category);
        lines.push(
            column_def_sql(
                c.name.as_str(),
                sql_type.as_str(),
                c.nullable,
                &c.default,
                c.identity_generation,
            ),
        );
    }
    assert(text::texts(lines@) =~= column_lines(table.columns@));
    push_key_line(&mut lines, &table.primary_key);

    let mut statements: Vec<String> = Vec::new();
    statements.push(create_statement(name.as_str(), &lines));
    let ghost base0 = seq![
        create_text(name@, column_lines(table.columns@) + key_lines(table.primary_key)),
    ];
    assert(text::texts(statements@) =~= base0);

    let ghost uniques = table.unique_constraints@.map_values(
        |uc: UniqueConstraint| unique_text(name@, uc),
    );
    for i in 0..table.unique_constraints.len()
        invariant
            uniques == table.unique_constraints@.map_values(
                |uc: UniqueConstraint| unique_text(name@, uc),
            ),
            text::texts(statements@) == base0 + uniques.take(i as int),
    {
        let sql = unique_statement(name.as_str(), &table.unique_constraints[i]);
        text::push_text(&mut statements, sql);
        assert(base0 + uniques.take(i + 1) =~= (base0 + uniques.take(i as int)).push(uniques[i as int]));
    }
    assert(uniques.take(uniques.len() as int) =~= uniques);
    let ghost base1 = base0 + uniques;

    let ghost checks = table.check_constraints@.map_values(
        |cc: CheckConstraint| check_text(name@, cc),
    );
    for i in 0..table.check_constraints.len()
        invariant
            checks == table.check_constraints@.map_values(
                |cc: CheckConstraint| check_text(name@, cc),
            ),
            text::texts(statements@) == base1 + checks.take(i as int),
    {
        let sql = check_statement(name.as_str(), &table.check_constraints[i]);
        text::push_text(&mut statements, sql);
        assert(base1 + checks.take(i + 1) =~= (base1 + checks.take(i as int)).push(checks[i as int]));
    }
    assert(checks.take(checks.len() as int) =~= checks);
    let ghost base2 = base1 + checks;

    let ghost keys = table.foreign_keys@.map_values(
        |fk: ForeignKey| foreign_key_text(name@, fk),
    );
    for i in 0..table.foreign_keys.len()
        invariant
            keys == table.foreign_keys@.map_values(|fk: ForeignKey| foreign_key_text(name@, fk)),
            text::texts(statements@) == base2 + keys.take(i as int),
    {
        let sql = foreign_key_statement(name.as_str(), &table.foreign_keys[i]);
        text::push_text(&mut statements, sql);
        assert(base2 + keys.take(i + 1) =~= (base2 + keys.take(i as int)).push(keys[i as int]));
    }
    assert(keys.take(keys.len() as int) =~= keys);
    let ghost base3 = base2 + keys;

    let ghost indexes = table.indexes@.map_values(
        |idx: Index| index_text(name@, idx.name@, idx.unique, idx.columns@),
    );
    for i in 0..table.indexes.len()
        invariant
            indexes == table.indexes@.map_values(
                |idx: Index| index_text(name@, idx.name@, idx.unique, idx.columns@),
            ),
            text::texts(statements@) == base3 + indexes.take(i as int),
    {
        let idx = &table.indexes[i];
        let sql = index_statement(name.as_str(), idx.name.as_str(), idx.unique, &idx.columns);
        text::push_text(&mut statements, sql);
        assert(base3 + indexes.take(i + 1) =~= (base3 + indexes.take(i as int)).push(indexes[i as int]));
    }
    assert(indexes.take(indexes.len() as int) =~= indexes);
    Ok(statements)
}

/// The statement that creates a table.
pub fn create_table_sql(def: &TableDefinition) -> (r: String)
    ensures
        r@ == create_text(
            dialect::qualified(def.schema@, def.name@),
            definition_lines(def.columns@) + key_lines(def.primary_key),
        ),
        definitions::is_readable_definition(*def) ==> definitions::read_statement(r@) == Some(
            definitions::asked_of_definition(*def),
        ),
{
    proof {
        if definitions::is_readable_definition(*def) {
            definitions::lemma_definition_reads_back(*def);
        }
    }
    let name = dialect::quote_qualified(def.schema.as_str(), def.name.as_str());
    let mut lines: Vec<String> = Vec::new();
    for i in 0..def.columns.len()
        invariant
            lines@.len() == i,
            forall|k: int|
                0 <= k < i ==> (#[trigger] lines@[k])@ == definition_line(def.columns@[k]),
    {
        lines.push(definition_sql(&def.columns[i]));
    }
    assert(text::texts(lines@) =~= definition_lines(def.columns@));
    push_key_line(&mut lines, &def.primary_key);
    create_statement(name.as_str(), &lines)
}

fn definition_sql(c: &ColumnDefinition) -> (r: String)
    ensures
        r@ == definition_line(*c),
{
    let sql_type = category_to_mysql_type(&c.data_type.category);
    column_def_sql(c.name.as_str(), sql_type.as_str(), c.nullable, &c.default, c.identity)
}

/// The statement that creates an index.
pub fn create_index_sql(def: &IndexDefinition) -> (r: String)
    ensures
        r@ == index_text(
            dialect::qualified(def.table.schema@, def.table.name@),
            def.name@,
            def.unique,
            def.columns@,
        ),
        definitions::read_statement(r@) == Some(definitions::asked_of_index(*def)),
{
    proof {
        definitions::lemma_index_definition_reads_back(*def);
    }
    let table = table_name(&def.table);
    index_statement(table.as_str(), def.name.as_str(), def.unique, &def.columns)
}

pub open spec fn table_text(table: TableRef) -> Seq<char> {
    dialect::qualified(table.schema@, table.name@)
}

fn table_name(table: &TableRef) -> (r: String)
    ensures
        r@ == table_text(*table),
{
    dialect::quote_qualified(table.schema.as_str(), table.name.as_str())
}

/// The statement for adding a constraint.
pub open spec fn constraint_text(table: Seq<char>, constraint: ConstraintDefinition) -> Seq<char> {
    match constraint {
        ConstraintDefinition::PrimaryKey(pk) => "ALTER TABLE "@ + table + " ADD PRIMARY KEY "@
            + column_list(text::texts(pk.columns@)),
        ConstraintDefinition::ForeignKey(fk) => foreign_key_text(table, fk),
        ConstraintDefinition::Unique(uc) => unique_text(table, uc),
        ConstraintDefinition::Check(cc) => check_text(table, cc),
    }
}

/// The statement for a structural change. MySQL wants the owning table named
/// when an index is dropped.
pub open spec fn alteration_text(alteration: TableAlteration) -> Seq<char> {
    match alteration {
        TableAlteration::AddColumn { table, column } => "ALTER TABLE "@ + table_text(table)
            + " ADD COLUMN "@ + definition_line(column),
        TableAlteration::DropColumn { table, column } => "ALTER TABLE "@ + table_text(table)
            + " DROP COLUMN "@ + dialect::ident(column@),
        TableAlteration::AlterColumnType { table, column, data_type } => "ALTER TABLE "@
            + table_text(table) + " MODIFY COLUMN "@ + dialect::ident(column@) + seq![' ']
            + type_text(data_type.category@),
        TableAlteration::AddConstraint { table, constraint } => constraint_text(
            table_text(table),
            constraint,
        ),
        TableAlteration::DropConstraint { table, name } => "ALTER TABLE "@ + table_text(table)
            + " DROP CONSTRAINT "@ + dialect::ident(name@),
        TableAlteration::DropIndex { table, name } => "DROP INDEX "@ + dialect::ident(name@)
            + " ON "@ + table_text(table),
    }
}

fn alter_start(table: &TableRef, what: &str) -> (r: String)
    ensures
        r@ == "ALTER TABLE "@ + table_text(*table) + what@,
{
    let mut sql = "ALTER TABLE ".to_string();
    let name = table_name(table);
    sql.append(name.as_str());
    sql.append(what);
    sql
}

/// The statement that makes a structural change.
pub fn alter_table_sql(alteration: &TableAlteration) -> (r: String)
    ensures
        r@ == alteration_text(*alteration),
        definitions::is_readable_alteration(*alteration) ==> definitions::read_statement(r@)
            == Some(definitions::asked_of(*alteration)),
{
    proof {
        if definitions::is_readable_alteration(*alteration) {
            definitions::lemma_alteration_reads_back(*alteration);
        }
    }
    match alteration {
        TableAlteration::AddColumn { table, column } => {
            let mut sql = alter_start(table, " ADD COLUMN ");
            let line = definition_sql(column);
            sql.append(line.as_str());
            sql
        },
        TableAlteration::DropColumn { table, column } => {
            let mut sql = alter_start(table, " DROP COLUMN ");
            let name = dialect::quote_ident(column.as_str());
            sql.append(name.as_str());
            sql
        },
        TableAlteration::AlterColumnType { table, column, data_type } => {
            let mut sql = alter_start(table, " MODIFY COLUMN ");
            let name = dialect::quote_ident(column.as_str());
            sql.append(name.as_str());
            sql.push(' ');
            let sql_type = category_to_mysql_type(&data_type.category);
            sql.append(sql_type.as_str());
            assert(sql@ =~= alteration_text(*alteration));
            sql
        },
        TableAlteration::AddConstraint { table, constraint } => {
            let name = table_name(table);
            match constraint {
                ConstraintDefinition::PrimaryKey(pk) => {
                    let mut sql = alter_start(table, " ADD PRIMARY KEY ");
                    let columns = parenthesized(&pk.columns);
                    sql.append(columns.as_str());
                    sql
                },
                ConstraintDefinition::ForeignKey(fk) => foreign_key_statement(name.as_str(), fk),
                ConstraintDefinition::Unique(uc) => unique_statement(name.as_str(), uc),
                ConstraintDefinition::Check(cc) => check_statement(name.as_str(), cc),
            }
        },
        TableAlteration::DropConstraint { table, name } => {
            let mut sql = alter_start(table, " DROP CONSTRAINT ");
            let quoted = dialect::quote_ident(name.as_str());
            sql.append(quoted.as_str());
            sql
        },
        TableAlteration::DropIndex { table, name } => {
            let mut sql = "DROP INDEX ".to_string();
            let quoted = dialect::quote_ident(name.as_str());
            sql.append(quoted.as_str());
            sql.append(" ON ");
            let owner = table_name(table);
            sql.append(owner.as_str());
            sql
        },
    }
}

} // verus!
