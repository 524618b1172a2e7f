//! What the contract of an adapter asks: the tables to create, and what must
//! come back.
use vstd::prelude::*;

use crate::adapter::{
    ColumnDefinition, ConstraintDefinition, IndexDefinition, TableAlteration, TableDefinition,
};
use crate::schema::{
    Catalog, Column, ForeignKey, IdentityGeneration, Index, IndexColumn, PrimaryKey,
    ReferentialAction, Schema, Table, TableRef, UniqueConstraint,
};
use crate::text;
use crate::types::{Category, DataType, TypeCategory};
use crate::value::{self, Row, Value, ValueModel};

verus! {

// ---------------------------------------------------------------------------
// Finding things
// ---------------------------------------------------------------------------

/// A data type known only by its category.
pub fn dt(category: TypeCategory) -> (r: DataType)
    ensures
        r.category == category,
        r.native_type@ == Seq::<char>::empty(),
{
    let native_type = String::new();
    assert(native_type@ =~= Seq::<char>::empty());
    DataType { category, native_type }
}

/// The first schema with this name.
pub open spec fn schema_named(schemas: Seq<Schema>, name: Seq<char>) -> Option<Schema>
    decreases schemas.len(),
{
    if schemas.len() == 0 {
        None
    } else if schemas[0].name@ == name {
        Some(schemas[0])
    } else {
        schema_named(schemas.drop_first(), name)
    }
}

/// The first table with this name.
pub open spec fn table_named(tables: Seq<Table>, name: Seq<char>) -> Option<Table>
    decreases tables.len(),
{
    if tables.len() == 0 {
        None
    } else if tables[0].name@ == name {
        Some(tables[0])
    } else {
        table_named(tables.drop_first(), name)
    }
}

/// The first column with this name.
pub open spec fn column_named(columns: Seq<Column>, name: Seq<char>) -> Option<Column>
    decreases columns.len(),
{
    if columns.len() == 0 {
        None
    } else if columns[0].name@ == name {
        Some(columns[0])
    } else {
        column_named(columns.drop_first(), name)
    }
}

/// The table with this name in the schema with this name.
pub open spec fn table_in(catalog: Catalog, schema: Seq<char>, name: Seq<char>) -> Option<Table> {
    match schema_named(catalog.schemas@, schema) {
        Some(s) => table_named(s.tables@, name),
        None => None,
    }
}

/// A table is found under its name in its schema, where no schema before that
/// one and no table before it has the same name.
pub proof fn lemma_table_is_found(catalog: Catalog, s: int, t: int)
    requires
        0 <= s < catalog.schemas@.len(),
        0 <= t < catalog.schemas@[s].tables@.len(),
        forall|i: int|
            0 <= i < s ==> (#[trigger] catalog.schemas@[i]).name@ != catalog.schemas@[s].name@,
        forall|i: int|
            0 <= i < t ==> (#[trigger] catalog.schemas@[s].tables@[i]).name@
                != catalog.schemas@[s].tables@[t].name@,
    ensures
        table_in(
            catalog,
            catalog.schemas@[s].name@,
            catalog.schemas@[s].tables@[t].name@,
        ) == Some(catalog.schemas@[s].tables@[t]),
{
    lemma_schema_named(catalog.schemas@, s);
    lemma_table_named(catalog.schemas@[s].tables@, t);
}

proof fn lemma_schema_named(schemas: Seq<Schema>, s: int)
    requires
        0 <= s < schemas.len(),
        forall|i: int| 0 <= i < s ==> (#[trigger] schemas[i]).name@ != schemas[s].name@,
    ensures
        schema_named(schemas, schemas[s].name@) == Some(schemas[s]),
    decreases s,
{
    if s > 0 {
        let rest = schemas.drop_first();
        assert(schemas[0].name@ != schemas[s].name@);
        assert forall|i: int| 0 <= i < s - 1 implies (#[trigger] rest[i]).name@
            != rest[s - 1].name@ by {
            assert(schemas[i + 1].name@ != schemas[s].name@);
        }
        lemma_schema_named(rest, s - 1);
    }
}

proof fn lemma_table_named(tables: Seq<Table>, t: int)
    requires
        0 <= t < tables.len(),
        forall|i: int| 0 <= i < t ==> (#[trigger] tables[i]).name@ != tables[t].name@,
    ensures
        table_named(tables, tables[t].name@) == Some(tables[t]),
    decreases t,
{
    if t > 0 {
        let rest = tables.drop_first();
        assert(tables[0].name@ != tables[t].name@);
        assert forall|i: int| 0 <= i < t - 1 implies (#[trigger] rest[i]).name@
            != rest[t - 1].name@ by {
            assert(tables[i + 1].name@ != tables[t].name@);
        }
        lemma_table_named(rest, t - 1);
    }
}

fn find_in<'a>(tables: &'a Vec<Table>, name: &str) -> (r: Option<&'a Table>)
    ensures
        match r {
            Some(t) => table_named(tables@, name@) == Some(*t),
            None => table_named(tables@, name@) is None,
        },
{
    assert(tables@.skip(0) =~= tables@);
    for i in 0..tables.len()
        invariant
            table_named(tables@, name@) == table_named(tables@.skip(i as int), name@),
    {
        assert(tables@.skip(i as int)[0] == tables@[i as int]);
        assert(tables@.skip(i as int).drop_first() =~= tables@.skip(i + 1));
        if text::same_text(tables[i].name.as_str(), name) {
            return Some(&tables[i]);
        }
    }
    assert(tables@.skip(tables@.len() as int).len() == 0);
    None
}

/// The table with this name in the schema with this name.
pub fn find_table<'a>(catalog: &'a Catalog, schema: &str, name: &str) -> (r: Option<&'a Table>)
    ensures
        match r {
            Some(t) => table_in(*catalog, schema@, name@) == Some(*t),
            None => table_in(*catalog, schema@, name@) is None,
        },
{
    let schemas = &catalog.schemas;
    assert(schemas@.skip(0) =~= schemas@);
    for i in 0..schemas.len()
        invariant
            schemas == catalog.schemas,
            schema_named(schemas@, schema@) == schema_named(schemas@.skip(i as int), schema@),
    {
        assert(schemas@.skip(i as int)[0] == schemas@[i as int]);
        assert(schemas@.skip(i as int).drop_first() =~= schemas@.skip(i + 1));
        if text::same_text(schemas[i].name.as_str(), schema) {
            return find_in(&schemas[i].tables, name);
        }
    }
    assert(schemas@.skip(schemas@.len() as int).len() == 0);
    None
}

/// The column with this name.
pub fn find_column<'a>(table: &'a Table, name: &str) -> (r: Option<&'a Column>)
    ensures
        match r {
            Some(c) => column_named(table.columns@, name@) == Some(*c),
            None => column_named(table.columns@, name@) is None,
        },
{
    let columns = &table.columns;
    assert(columns@.skip(0) =~= columns@);
    for i in 0..columns.len()
        invariant
            columns == table.columns,
            column_named(columns@, name@) == column_named(columns@.skip(i as int), name@),
    {
        assert(columns@.skip(i as int)[0] == columns@[i as int]);
        assert(columns@.skip(i as int).drop_first() =~= columns@.skip(i + 1));
        if text::same_text(columns[i].name.as_str(), name) {
            return Some(&columns[i]);
        }
    }
    assert(columns@.skip(columns@.len() as int).len() == 0);
    None
}

/// Whether a list of names is this one name.
pub open spec fn only(names: Seq<String>, name: Seq<char>) -> bool {
    names.len() == 1 && names[0]@ == name
}

fn is_only(names: &Vec<String>, name: &str) -> (r: bool)
    ensures
        r == only(names@, name@),
{
    names.len() == 1 && text::same_text(names[0].as_str(), name)
}

fn one(name: &str) -> (r: Vec<String>)
    ensures
        only(r@, name@),
{
    let mut names: Vec<String> = Vec::new();
    names.push(name.to_string());
    names
}

/// A table's name in a contract: the prefix, then what it is.
pub fn named(prefix: &str, suffix: &str) -> (r: String)
    ensures
        r@ == prefix@ + suffix@,
{
    let mut name = prefix.to_string();
    name.append(suffix);
    name
}

// ---------------------------------------------------------------------------
// Tables to create
// ---------------------------------------------------------------------------

/// A column definition as a contract states it.
pub struct ColumnModel {
    pub name: Seq<char>,
    pub category: Category,
    pub native_type: Seq<char>,
    pub nullable: bool,
    pub default: Option<Seq<char>>,
    pub identity: Option<IdentityGeneration>,
}

/// What a column definition says.
pub open spec fn column_model(c: ColumnDefinition) -> ColumnModel {
    ColumnModel {
        name: c.name@,
        category: c.data_type.category@,
        native_type: c.data_type.native_type@,
        nullable: c.nullable,
        default: crate::types::optional_text(c.default),
        identity: c.identity,
    }
}

/// A plain column: no default, no generated key, and no native type.
pub open spec fn plain(name: Seq<char>, category: Category, nullable: bool) -> ColumnModel {
    ColumnModel {
        name,
        category,
        native_type: Seq::<char>::empty(),
        nullable,
        default: None,
        identity: None,
    }
}

/// Whether a definition is of this table, with these columns and its `id` as
/// the key.
pub open spec fn defines(
    d: TableDefinition,
    schema: Seq<char>,
    name: Seq<char>,
    columns: Seq<ColumnModel>,
) -> bool {
    &&& d.schema@ == schema
    &&& d.name@ == name
    &&& d.columns@.map_values(|c: ColumnDefinition| column_model(c)) == columns
    &&& d.primary_key matches Some(key) && key.name is None && only(key.columns@, "id"@)
}

fn plain_column(name: &str, category: TypeCategory, nullable: bool) -> (r: ColumnDefinition)
    ensures
        column_model(r) == plain(name@, category@, nullable),
{
    ColumnDefinition {
        name: name.to_string(),
        data_type: dt(category),
        nullable,
        default: None,
        identity: None,
    }
}

fn id_key() -> (r: Option<PrimaryKey>)
    ensures
        r matches Some(key) && key.name is None && only(key.columns@, "id"@),
{
    Some(PrimaryKey { name: None, columns: one("id") })
}

/// A table with a key, a text and a flag with a default.
pub open spec fn basic_columns() -> Seq<ColumnModel> {
    seq![
        plain("id"@, Category::Integer, false),
        plain("label"@, Category::VarChar { length: Some(100) }, true),
        (ColumnModel {
            name: "is_active"@,
            category: Category::Boolean,
            native_type: Seq::<char>::empty(),
            nullable: false,
            default: Some("true"@),
            identity: None,
        }),
    ]
}

/// The table that is created and reflected.
pub fn basic_definition(schema: &str, prefix: &str) -> (r: TableDefinition)
    ensures
        defines(r, schema@, prefix@ + "_basic"@, basic_columns()),
{
    let mut columns: Vec<ColumnDefinition> = Vec::new();
    columns.push(plain_column("id", TypeCategory::Integer, false));
    columns.push(plain_column("label", TypeCategory::VarChar { length: Some(100) }, true));
    columns.push(
        ColumnDefinition {
            name: "is_active".to_string(),
            data_type: dt(TypeCategory::Boolean),
            nullable: false,
            default: Some("true".to_string()),
            identity: None,
        },
    );
    assert(columns@.map_values(|c: ColumnDefinition| column_model(c)) =~= basic_columns());
    TableDefinition {
        schema: schema.to_string(),
        name: named(prefix, "_basic"),
        columns,
        primary_key: id_key(),
    }
}

/// The table that is referred to.
pub fn parent_definition(schema: &str, prefix: &str) -> (r: TableDefinition)
    ensures
        defines(r, schema@, prefix@ + "_parent"@, seq![plain("id"@, Category::Integer, false)]),
{
    let mut columns: Vec<ColumnDefinition> = Vec::new();
    columns.push(plain_column("id", TypeCategory::Integer, false));
    assert(columns@.map_values(|c: ColumnDefinition| column_model(c)) =~= seq![
        plain("id"@, Category::Integer, false),
    ]);
    TableDefinition {
        schema: schema.to_string(),
        name: named(prefix, "_parent"),
        columns,
        primary_key: id_key(),
    }
}

/// A table with a key, a reference and a code.
pub open spec fn child_columns() -> Seq<ColumnModel> {
    seq![
        plain("id"@, Category::Integer, false),
        plain("parent_id"@, Category::Integer, true),
        plain("code"@, Category::VarChar { length: Some(20) }, false),
    ]
}

/// The table that refers to its parent.
pub fn child_definition(schema: &str, prefix: &str) -> (r: TableDefinition)
    ensures
        defines(r, schema@, prefix@ + "_child"@, child_columns()),
{
    let mut columns: Vec<ColumnDefinition> = Vec::new();
    columns.push(plain_column("id", TypeCategory::Integer, false));
    columns.push(plain_column("parent_id", TypeCategory::Integer, true));
    columns.push(plain_column("code", TypeCategory::VarChar { length: Some(20) }, false));
    assert(columns@.map_values(|c: ColumnDefinition| column_model(c)) =~= child_columns());
    TableDefinition {
        schema: schema.to_string(),
        name: named(prefix, "_child"),
        columns,
        primary_key: id_key(),
    }
}

/// Whether an alteration adds the reference from the child to its parent.
pub open spec fn adds_parent_key(
    r: TableAlteration,
    schema: Seq<char>,
    prefix: Seq<char>,
) -> bool {
    r matches TableAlteration::AddConstraint {
        table,
        constraint: ConstraintDefinition::ForeignKey(key),
    } && {
        &&& table.schema@ == schema
        &&& table.name@ == prefix + "_child"@
        &&& key.name@ == prefix + "_child"@ + "_parent_fk"@
        &&& only(key.columns@, "parent_id"@)
        &&& key.referenced_schema@ == schema
        &&& key.referenced_table@ == prefix + "_parent"@
        &&& only(key.referenced_columns@, "id"@)
        &&& key.on_delete == ReferentialAction::Cascade
        &&& key.on_update == ReferentialAction::NoAction
    }
}

/// Adds the reference from the child to its parent: deleting the parent
/// deletes the child.
pub fn add_parent_key(schema: &str, prefix: &str) -> (r: TableAlteration)
    ensures
        adds_parent_key(r, schema@, prefix@),
        r matches TableAlteration::AddConstraint {
            table,
            constraint: ConstraintDefinition::ForeignKey(key),
        } && {
            &&& table.schema@ == schema@
            &&& table.name@ == prefix@ + "_child"@
            &&& key.name@ == prefix@ + "_child"@ + "_parent_fk"@
            &&& only(key.columns@, "parent_id"@)
            &&& key.referenced_schema@ == schema@
            &&& key.referenced_table@ == prefix@ + "_parent"@
            &&& only(key.referenced_columns@, "id"@)
            &&& key.on_delete == ReferentialAction::Cascade
            &&& key.on_update == ReferentialAction::NoAction
        },
{
    let child = named(prefix, "_child");
    TableAlteration::AddConstraint {
        table: TableRef { schema: schema.to_string(), name: child.clone() },
        constraint: ConstraintDefinition::ForeignKey(
            ForeignKey {
                name: named(child.as_str(), "_parent_fk"),
                columns: one("parent_id"),
                referenced_schema: schema.to_string(),
                referenced_table: named(prefix, "_parent"),
                referenced_columns: one("id"),
                on_delete: ReferentialAction::Cascade,
                on_update: ReferentialAction::NoAction,
            },
        ),
    }
}

/// Whether an alteration makes the code of a table unique.
pub open spec fn adds_code_unique(
    r: TableAlteration,
    schema: Seq<char>,
    table: Seq<char>,
    suffix: Seq<char>,
) -> bool {
    r matches TableAlteration::AddConstraint {
        table: target,
        constraint: ConstraintDefinition::Unique(unique),
    } && {
        &&& target.schema@ == schema
        &&& target.name@ == table
        &&& unique.name@ == table + suffix
        &&& only(unique.columns@, "code"@)
    }
}

/// Makes the code of a table unique, under a name behind the table's own.
pub fn add_code_unique(schema: &str, table: &str, suffix: &str) -> (r: TableAlteration)
    ensures
        adds_code_unique(r, schema@, table@, suffix@),
        r matches TableAlteration::AddConstraint {
            table: target,
            constraint: ConstraintDefinition::Unique(unique),
        } && {
            &&& target.schema@ == schema@
            &&& target.name@ == table@
            &&& unique.name@ == table@ + suffix@
            &&& only(unique.columns@, "code"@)
        },
{
    TableAlteration::AddConstraint {
        table: TableRef { schema: schema.to_string(), name: table.to_string() },
        constraint: ConstraintDefinition::Unique(
            UniqueConstraint { name: named(table, suffix), columns: one("code") },
        ),
    }
}

/// Whether an index is the one on the child's reference.
pub open spec fn is_parent_index(
    r: IndexDefinition,
    schema: Seq<char>,
    prefix: Seq<char>,
) -> bool {
    &&& r.table.schema@ == schema
    &&& r.table.name@ == prefix + "_child"@
    &&& r.name@ == prefix + "_child"@ + "_parent_id_idx"@
    &&& r.columns@.len() == 1
    &&& r.columns@[0].name@ == "parent_id"@
    &&& !r.unique
}

/// The index on the child's reference.
pub fn parent_index(schema: &str, prefix: &str) -> (r: IndexDefinition)
    ensures
        is_parent_index(r, schema@, prefix@),
        r.table.schema@ == schema@,
        r.table.name@ == prefix@ + "_child"@,
        r.name@ == prefix@ + "_child"@ + "_parent_id_idx"@,
        r.columns@.len() == 1,
        r.columns@[0].name@ == "parent_id"@,
        !r.columns@[0].descending,
        !r.unique,
        r.method is None,
{
    let child = named(prefix, "_child");
    let mut columns: Vec<IndexColumn> = Vec::new();
    columns.push(IndexColumn { name: "parent_id".to_string(), descending: false });
    IndexDefinition {
        table: TableRef { schema: schema.to_string(), name: child.clone() },
        name: named(child.as_str(), "_parent_id_idx"),
        columns,
        unique: false,
        method: None,
    }
}

/// The columns of the table that rows are written to.
pub open spec fn rows_columns() -> Seq<ColumnModel> {
    seq![plain("id"@, Category::Integer, false), plain("name"@, Category::Text, true)]
}

/// The table that rows are written to.
pub fn rows_definition(schema: &str, prefix: &str) -> (r: TableDefinition)
    ensures
        defines(r, schema@, prefix@ + "_rows"@, rows_columns()),
{
    let mut columns: Vec<ColumnDefinition> = Vec::new();
    columns.push(plain_column("id", TypeCategory::Integer, false));
    columns.push(plain_column("name", TypeCategory::Text, true));
    assert(columns@.map_values(|c: ColumnDefinition| column_model(c)) =~= rows_columns());
    TableDefinition {
        schema: schema.to_string(),
        name: named(prefix, "_rows"),
        columns,
        primary_key: id_key(),
    }
}

fn sample_row(id: i32, name: Value) -> (r: Row)
    ensures
        r.cells() == seq![ValueModel::Integer(id), name@],
{
    let mut cells: Vec<Value> = Vec::new();
    cells.push(Value::Integer(id));
    cells.push(name);
    assert(value::models(cells@) =~= seq![ValueModel::Integer(id), name@]);
    Row(cells)
}

/// The rows that are written and read back, a null among them.
pub fn sample_rows() -> (r: Vec<Row>)
    ensures
        r@.map_values(|row: Row| row.cells()) == seq![
            seq![ValueModel::Integer(1), ValueModel::Text("alpha"@)],
            seq![ValueModel::Integer(2), ValueModel::Null],
            seq![ValueModel::Integer(3), ValueModel::Text("gamma"@)],
        ],
{
    let mut rows: Vec<Row> = Vec::new();
    rows.push(sample_row(1, Value::Text("alpha".to_string())));
    rows.push(sample_row(2, Value::Null));
    rows.push(sample_row(3, Value::Text("gamma".to_string())));
    assert(rows@.map_values(|row: Row| row.cells()) =~= seq![
        seq![ValueModel::Integer(1), ValueModel::Text("alpha"@)],
        seq![ValueModel::Integer(2), ValueModel::Null],
        seq![ValueModel::Integer(3), ValueModel::Text("gamma"@)],
    ]);
    rows
}

/// The columns of the table whose DDL is rendered and replayed.
pub open spec fn original_columns() -> Seq<ColumnModel> {
    seq![
        (ColumnModel {
            name: "id"@,
            category: Category::BigInt,
            native_type: Seq::<char>::empty(),
            nullable: false,
            default: None,
            identity: Some(IdentityGeneration::ByDefault),
        }),
        plain("amount"@, Category::Decimal { precision: Some(10), scale: Some(2) }, true),
        plain("code"@, Category::VarChar { length: Some(20) }, false),
    ]
}

/// The table whose DDL is rendered and replayed.
pub fn original_definition(schema: &str, prefix: &str) -> (r: TableDefinition)
    ensures
        defines(r, schema@, prefix@ + "_orig"@, original_columns()),
{
    let mut columns: Vec<ColumnDefinition> = Vec::new();
    columns.push(
        ColumnDefinition {
            name: "id".to_string(),
            data_type: dt(TypeCategory::BigInt),
            nullable: false,
            default: None,
            identity: Some(IdentityGeneration::ByDefault),
        },
    );
    columns.push(
        plain_column("amount", TypeCategory::Decimal { precision: Some(10), scale: Some(2) }, true),
    );
    columns.push(plain_column("code", TypeCategory::VarChar { length: Some(20) }, false));
    assert(columns@.map_values(|c: ColumnDefinition| column_model(c)) =~= original_columns());
    TableDefinition {
        schema: schema.to_string(),
        name: named(prefix, "_orig"),
        columns,
        primary_key: id_key(),
    }
}

/// Rendered statements for the table under its new name. The name is a token
/// of its own in every statement, whatever the engine's quotes.
pub fn renamed_statements(statements: &Vec<String>, prefix: &str) -> (r: Vec<String>)
    ensures
        text::texts(r@) == text::texts(statements@).map_values(
            |s: Seq<char>| text::replaced(s, prefix@ + "_orig"@, prefix@ + "_recreated"@),
        ),
{
    let original = named(prefix, "_orig");
    let recreated = named(prefix, "_recreated");
    let mut out: Vec<String> = Vec::new();
    for i in 0..statements.len()
        invariant
            original@ == prefix@ + "_orig"@,
            recreated@ == prefix@ + "_recreated"@,
            out@.len() == i,
            forall|k: int|
                0 <= k < i ==> (#[trigger] out@[k])@ == text::replaced(
                    statements@[k]@,
                    prefix@ + "_orig"@,
                    prefix@ + "_recreated"@,
                ),
    {
        out.push(text::replace(statements[i].as_str(), original.as_str(), recreated.as_str()));
    }
    assert(text::texts(out@) =~= text::texts(statements@).map_values(
        |s: Seq<char>| text::replaced(s, prefix@ + "_orig"@, prefix@ + "_recreated"@),
    ));
    out
}

// ---------------------------------------------------------------------------
// What must come back
// ---------------------------------------------------------------------------

/// Whether a check found exactly this problem, or none.
pub open spec fn found(r: Result<(), String>, problem: Option<Seq<char>>) -> bool {
    match r {
        Ok(_) => problem is None,
        Err(message) => problem == Some(message@),
    }
}

fn fail(message: &str) -> (r: Result<(), String>)
    ensures
        found(r, Some(message@)),
{
    Err(message.to_string())
}

/// What is wrong with the reflected basic table: it must have exactly what
/// was created.
pub open spec fn basic_problem(table: Option<Table>) -> Option<Seq<char>> {
    match table {
        None => Some("table not found after create_table"@),
        Some(t) => if t.columns@.len() != 3 {
            Some("expected 3 columns"@)
        } else {
            match column_named(t.columns@, "id"@) {
                None => Some("id column missing"@),
                Some(id) => if id.data_type.category@ != Category::Integer {
                    Some("id should be an integer"@)
                } else if id.nullable {
                    Some("id should be NOT NULL"@)
                } else {
                    match column_named(t.columns@, "label"@) {
                        None => Some("label column missing"@),
                        Some(label) => if !(label.data_type.category@ is VarChar) {
                            Some("label should be VarChar"@)
                        } else if !label.nullable {
                            Some("label should be nullable"@)
                        } else {
                            match t.primary_key {
                                None => Some("primary key missing"@),
                                Some(key) => if !only(key.columns@, "id"@) {
                                    Some("primary key should be id"@)
                                } else {
                                    None
                                },
                            }
                        },
                    }
                },
            }
        },
    }
}

/// Checks the reflected basic table.
pub fn check_basic(catalog: &Catalog, schema: &str, prefix: &str) -> (r: Result<(), String>)
    ensures
        found(r, basic_problem(table_in(*catalog, schema@, prefix@ + "_basic"@))),
{
    let name = named(prefix, "_basic");
    let table = match find_table(catalog, schema, name.as_str()) {
        Some(t) => t,
        None => {
            return fail("table not found after create_table");
        },
    };
    if table.columns.len() != 3 {
        return fail("expected 3 columns");
    }
    match find_column(table, "id") {
        Some(id) => {
            if !(id.data_type.category == TypeCategory::Integer) {
                return fail("id should be an integer");
            }
            if id.nullable {
                return fail("id should be NOT NULL");
            }
        },
        None => {
            return fail("id column missing");
        },
    }
    match find_column(table, "label") {
        Some(label) => {
            if !matches!(label.data_type.category, TypeCategory::VarChar { .. }) {
                return fail("label should be VarChar");
            }
            if !label.nullable {
                return fail("label should be nullable");
            }
        },
        None => {
            return fail("label column missing");
        },
    }
    match &table.primary_key {
        Some(key) => {
            if !is_only(&key.columns, "id") {
                return fail("primary key should be id");
            }
        },
        None => {
            return fail("primary key missing");
        },
    }
    Ok(())
}

/// Whether one of the constraints is on the code alone.
pub open spec fn code_is_unique(constraints: Seq<UniqueConstraint>) -> bool {
    exists|i: int|
        0 <= i < constraints.len() && only((#[trigger] constraints[i]).columns@, "code"@)
}

fn has_code_unique(constraints: &Vec<UniqueConstraint>) -> (r: bool)
    ensures
        r == code_is_unique(constraints@),
{
    for i in 0..constraints.len()
        invariant
            forall|k: int|
                0 <= k < i ==> !only((#[trigger] constraints@[k]).columns@, "code"@),
    {
        if is_only(&constraints[i].columns, "code") {
            assert(only(constraints@[i as int].columns@, "code"@));
            return true;
        }
    }
    false
}

/// Whether one of the indexes has this name.
pub open spec fn has_index(indexes: Seq<Index>, name: Seq<char>) -> bool {
    exists|i: int| 0 <= i < indexes.len() && (#[trigger] indexes[i]).name@ == name
}

fn index_exists(indexes: &Vec<Index>, name: &str) -> (r: bool)
    ensures
        r == has_index(indexes@, name@),
{
    for i in 0..indexes.len()
        invariant
            forall|k: int| 0 <= k < i ==> (#[trigger] indexes@[k]).name@ != name@,
    {
        if text::same_text(indexes[i].name.as_str(), name) {
            assert(indexes@[i as int].name@ == name@);
            return true;
        }
    }
    false
}

/// What is wrong with a reflected foreign key from child to parent.
pub open spec fn key_problem(key: ForeignKey, parent: Seq<char>) -> Option<Seq<char>> {
    if !only(key.columns@, "parent_id"@) {
        Some("foreign key should be on parent_id"@)
    } else if key.referenced_table@ != parent {
        Some("foreign key should refer to the parent"@)
    } else if !only(key.referenced_columns@, "id"@) {
        Some("foreign key should refer to id"@)
    } else if key.on_delete != ReferentialAction::Cascade {
        Some("on delete should cascade"@)
    } else if key.on_update != ReferentialAction::NoAction {
        Some("on update should take no action"@)
    } else {
        None
    }
}

fn check_key(key: &ForeignKey, parent: &str) -> (r: Result<(), String>)
    ensures
        found(r, key_problem(*key, parent@)),
{
    if !is_only(&key.columns, "parent_id") {
        return fail("foreign key should be on parent_id");
    }
    if !text::same_text(key.referenced_table.as_str(), parent) {
        return fail("foreign key should refer to the parent");
    }
    if !is_only(&key.referenced_columns, "id") {
        return fail("foreign key should refer to id");
    }
    if key.on_delete != ReferentialAction::Cascade {
        return fail("on delete should cascade");
    }
    if key.on_update != ReferentialAction::NoAction {
        return fail("on update should take no action");
    }
    Ok(())
}

/// What is wrong with the reflected child table: it must have the reference,
/// the unique code and the index that were added.
pub open spec fn child_problem(table: Option<Table>, prefix: Seq<char>) -> Option<Seq<char>> {
    match table {
        None => Some("child table not found"@),
        Some(t) => if t.foreign_keys@.len() != 1 {
            Some("expected exactly one foreign key"@)
        } else if key_problem(t.foreign_keys@[0], prefix + "_parent"@) is Some {
            key_problem(t.foreign_keys@[0], prefix + "_parent"@)
        } else if !code_is_unique(t.unique_constraints@) {
            Some("expected unique constraint on code"@)
        } else if !has_index(t.indexes@, prefix + "_child"@ + "_parent_id_idx"@) {
            Some("expected index on parent_id"@)
        } else {
            None
        },
    }
}

/// Checks the reflected child table.
pub fn check_child(catalog: &Catalog, schema: &str, prefix: &str) -> (r: Result<(), String>)
    ensures
        found(r, child_problem(table_in(*catalog, schema@, prefix@ + "_child"@), prefix@)),
{
    let child = named(prefix, "_child");
    let table = match find_table(catalog, schema, child.as_str()) {
        Some(t) => t,
        None => {
            return fail("child table not found");
        },
    };
    if table.foreign_keys.len() != 1 {
        return fail("expected exactly one foreign key");
    }
    let parent = named(prefix, "_parent");
    match check_key(&table.foreign_keys[0], parent.as_str()) {
        Ok(_) => {},
        Err(e) => {
            return Err(e);
        },
    }
    if !has_code_unique(&table.unique_constraints) {
        return fail("expected unique constraint on code");
    }
    let index = named(child.as_str(), "_parent_id_idx");
    if !index_exists(&table.indexes, index.as_str()) {
        return fail("expected index on parent_id");
    }
    Ok(())
}

/// What is wrong with the rows that came back: there must be as many, each
/// equal to the one that was written.
pub open spec fn rows_problem(written: u64, got: Seq<Row>, expected: Seq<Row>) -> Option<
    Seq<char>,
> {
    if written != expected.len() {
        Some("unexpected number of rows written"@)
    } else if got.len() != expected.len() {
        Some("row count mismatch after roundtrip"@)
    } else if exists|i: int|
        0 <= i < got.len() && !value::same_cells((#[trigger] got[i]).cells(), expected[i].cells()) {
        Some("row contents mismatch after roundtrip"@)
    } else {
        None
    }
}

/// Checks the rows that came back, both in the order of their keys.
pub fn check_rows(written: u64, got: &Vec<Row>, expected: &Vec<Row>) -> (r: Result<(), String>)
    ensures
        found(r, rows_problem(written, got@, expected@)),
{
    if written != expected.len() as u64 {
        return fail("unexpected number of rows written");
    }
    if got.len() != expected.len() {
        return fail("row count mismatch after roundtrip");
    }
    for i in 0..got.len()
        invariant
            got@.len() == expected@.len(),
            forall|k: int|
                0 <= k < i ==> value::same_cells(
                    (#[trigger] got@[k]).cells(),
                    expected@[k].cells(),
                ),
            written == expected@.len(),
    {
        if !(got[i] == expected[i]) {
            assert(!value::same_cells(got@[i as int].cells(), expected@[i as int].cells()));
            return fail("row contents mismatch after roundtrip");
        }
    }
    Ok(())
}

/// What is wrong with the columns of a recreated table: each must have the
/// name, the type and the generated key that it had.
pub open spec fn columns_problem(original: Seq<Column>, recreated: Seq<Column>) -> Option<
    Seq<char>,
>
    decreases original.len(),
{
    if original.len() == 0 || recreated.len() == 0 {
        None
    } else if original[0].name@ != recreated[0].name@ {
        Some("column name mismatch after DDL replay"@)
    } else if original[0].data_type.category@ != recreated[0].data_type.category@ {
        Some("column type mismatch after DDL replay"@)
    } else if original[0].is_identity != recreated[0].is_identity {
        Some("identity lost/gained on column "@ + original[0].name@ + " after DDL replay"@)
    } else {
        columns_problem(original.drop_first(), recreated.drop_first())
    }
}

/// What is wrong with a recreated table: it must have the columns and the
/// unique constraints that the original has.
pub open spec fn recreated_problem(original: Table, recreated: Option<Table>) -> Option<Seq<char>> {
    match recreated {
        None => Some("recreated table not found"@),
        Some(t) => if t.columns@.len() != original.columns@.len() {
            Some("column count mismatch after DDL replay"@)
        } else if columns_problem(original.columns@, t.columns@) is Some {
            columns_problem(original.columns@, t.columns@)
        } else {
            match column_named(t.columns@, "id"@) {
                None => Some("id column missing after replay"@),
                Some(id) => if !id.is_identity {
                    Some("identity column must survive render_ddl replay"@)
                } else if t.unique_constraints@.len() != original.unique_constraints@.len() {
                    Some("unique constraint count mismatch after DDL replay"@)
                } else if !code_is_unique(t.unique_constraints@) {
                    Some("unique constraint on code lost after DDL replay"@)
                } else {
                    None
                },
            }
        },
    }
}

fn check_columns(original: &Vec<Column>, recreated: &Vec<Column>) -> (r: Result<(), String>)
    requires
        original@.len() == recreated@.len(),
    ensures
        found(r, columns_problem(original@, recreated@)),
{
    assert(original@.skip(0) =~= original@);
    assert(recreated@.skip(0) =~= recreated@);
    for i in 0..original.len()
        invariant
            original@.len() == recreated@.len(),
            columns_problem(original@, recreated@) == columns_problem(
                original@.skip(i as int),
                recreated@.skip(i as int),
            ),
    {
        assert(original@.skip(i as int)[0] == original@[i as int]);
        assert(recreated@.skip(i as int)[0] == recreated@[i as int]);
        assert(original@.skip(i as int).drop_first() =~= original@.skip(i + 1));
        assert(recreated@.skip(i as int).drop_first() =~= recreated@.skip(i + 1));
        if !text::same_text(original[i].name.as_str(), recreated[i].name.as_str()) {
            return fail("column name mismatch after DDL replay");
        }
        if !(original[i].data_type.category == recreated[i].data_type.category) {
            return fail("column type mismatch after DDL replay");
        }
        if original[i].is_identity != recreated[i].is_identity {
            let mut message = "identity lost/gained on column ".to_string();
            message.append(original[i].name.as_str());
            message.append(" after DDL replay");
            return Err(message);
        }
    }
    assert(original@.skip(original@.len() as int).len() == 0);
    Ok(())
}

/// Checks a recreated table against the original.
pub fn check_recreated(original: &Table, catalog: &Catalog, schema: &str, prefix: &str) -> (r:
    Result<(), String>)
    ensures
        found(
            r,
            recreated_problem(
                *original,
                table_in(*catalog, schema@, prefix@ + "_recreated"@),
            ),
        ),
{
    let name = named(prefix, "_recreated");
    let table = match find_table(catalog, schema, name.as_str()) {
        Some(t) => t,
        None => {
            return fail("recreated table not found");
        },
    };
    if table.columns.len() != original.columns.len() {
        return fail("column count mismatch after DDL replay");
    }
    match check_columns(&original.columns, &table.columns) {
        Ok(_) => {},
        Err(e) => {
            return Err(e);
        },
    }
    match find_column(table, "id") {
        Some(id) => {
            if !id.is_identity {
                return fail("identity column must survive render_ddl replay");
            }
        },
        None => {
            return fail("id column missing after replay");
        },
    }
    if table.unique_constraints.len() != original.unique_constraints.len() {
        return fail("unique constraint count mismatch after DDL replay");
    }
    if !has_code_unique(&table.unique_constraints) {
        return fail("unique constraint on code lost after DDL replay");
    }
    Ok(())
}

// ---------------------------------------------------------------------------
// What passes
// ---------------------------------------------------------------------------

/// A basic table passes exactly where it is there with three columns, a key
/// column of whole numbers that must hold a value, an optional label of varying
/// length, and that key alone as its primary key.
pub proof fn lemma_basic_passes(t: Table)
    ensures
        basic_problem(None) is Some,
        basic_problem(Some(t)) is None <==> {
            &&& t.columns@.len() == 3
            &&& column_named(t.columns@, "id"@) matches Some(id) && id.data_type.category@
                == Category::Integer && !id.nullable
            &&& column_named(t.columns@, "label"@) matches Some(label)
                && label.data_type.category@ is VarChar && label.nullable
            &&& t.primary_key matches Some(key) && key.columns@.len() == 1 && key.columns@[0]@
                == "id"@
        },
{
}

/// A child table passes exactly where its one foreign key leads from the parent
/// column to the parent's key, cascading deletes and nothing else, its code is
/// unique, and its reference has the index that was asked for.
pub proof fn lemma_child_passes(t: Table, prefix: Seq<char>)
    ensures
        child_problem(None, prefix) is Some,
        child_problem(Some(t), prefix) is None <==> {
            &&& t.foreign_keys@.len() == 1
            &&& t.foreign_keys@[0].columns@.len() == 1
            &&& t.foreign_keys@[0].columns@[0]@ == "parent_id"@
            &&& t.foreign_keys@[0].referenced_table@ == prefix + "_parent"@
            &&& t.foreign_keys@[0].referenced_columns@.len() == 1
            &&& t.foreign_keys@[0].referenced_columns@[0]@ == "id"@
            &&& t.foreign_keys@[0].on_delete == ReferentialAction::Cascade
            &&& t.foreign_keys@[0].on_update == ReferentialAction::NoAction
            &&& exists|i: int|
                0 <= i < t.unique_constraints@.len() && (
                #[trigger] t.unique_constraints@[i]).columns@.len() == 1
                    && t.unique_constraints@[i].columns@[0]@ == "code"@
            &&& exists|i: int|
                0 <= i < t.indexes@.len() && (#[trigger] t.indexes@[i]).name@ == prefix + "_child"@
                    + "_parent_id_idx"@
        },
{
    if code_is_unique(t.unique_constraints@) {
        let i = choose|i: int|
            0 <= i < t.unique_constraints@.len() && only(
                (#[trigger] t.unique_constraints@[i]).columns@,
                "code"@,
            );
        assert(t.unique_constraints@[i].columns@.len() == 1);
    }
    if exists|i: int|
        0 <= i < t.unique_constraints@.len() && (#[trigger] t.unique_constraints@[i]).columns@.len()
            == 1 && t.unique_constraints@[i].columns@[0]@ == "code"@ {
        let i = choose|i: int|
            0 <= i < t.unique_constraints@.len() && (
            #[trigger] t.unique_constraints@[i]).columns@.len() == 1
                && t.unique_constraints@[i].columns@[0]@ == "code"@;
        assert(only(t.unique_constraints@[i].columns@, "code"@));
    }
}

/// Rows pass exactly where as many were written and came back as were expected,
/// each equal to the one in its place.
pub proof fn lemma_rows_pass(written: u64, got: Seq<Row>, expected: Seq<Row>)
    ensures
        rows_problem(written, got, expected) is None <==> {
            &&& written == expected.len()
            &&& got.len() == expected.len()
            &&& forall|i: int|
                0 <= i < got.len() ==> value::same_cells(
                    (#[trigger] got[i]).cells(),
                    expected[i].cells(),
                )
        },
{
}

/// A recreated table passes exactly where it has as many columns as the
/// original, each with its name, type and generated key, a generated `id`, as
/// many unique constraints, and a unique code.
pub proof fn lemma_recreated_passes(original: Table, t: Table)
    ensures
        recreated_problem(original, None) is Some,
        recreated_problem(original, Some(t)) is None <==> {
            &&& t.columns@.len() == original.columns@.len()
            &&& forall|i: int|
                0 <= i < t.columns@.len() ==> {
                    &&& (#[trigger] t.columns@[i]).name@ == original.columns@[i].name@
                    &&& t.columns@[i].data_type.category@
                        == original.columns@[i].data_type.category@
                    &&& t.columns@[i].is_identity == original.columns@[i].is_identity
                }
            &&& column_named(t.columns@, "id"@) matches Some(id) && id.is_identity
            &&& t.unique_constraints@.len() == original.unique_constraints@.len()
            &&& code_is_unique(t.unique_constraints@)
        },
{
    if t.columns@.len() == original.columns@.len() {
        lemma_columns_pass(original.columns@, t.columns@);
    }
}

proof fn lemma_columns_pass(original: Seq<Column>, recreated: Seq<Column>)
    requires
        original.len() == recreated.len(),
    ensures
        columns_problem(original, recreated) is None <==> forall|i: int|
            0 <= i < recreated.len() ==> {
                &&& (#[trigger] recreated[i]).name@ == original[i].name@
                &&& recreated[i].data_type.category@ == original[i].data_type.category@
                &&& recreated[i].is_identity == original[i].is_identity
            },
    decreases original.len(),
{
    if original.len() > 0 {
        let a = original.drop_first();
        let b = recreated.drop_first();
        lemma_columns_pass(a, b);
        if columns_problem(original, recreated) is None {
            assert forall|i: int| 0 <= i < recreated.len() implies {
                &&& (#[trigger] recreated[i]).name@ == original[i].name@
                &&& recreated[i].data_type.category@ == original[i].data_type.category@
                &&& recreated[i].is_identity == original[i].is_identity
            } by {
                if i > 0 {
                    assert(b[i - 1] == recreated[i]);
                }
            }
        }
        if forall|i: int|
            0 <= i < recreated.len() ==> {
                &&& (#[trigger] recreated[i]).name@ == original[i].name@
                &&& recreated[i].data_type.category@ == original[i].data_type.category@
                &&& recreated[i].is_identity == original[i].is_identity
            } {
            assert(recreated[0].name@ == original[0].name@);
            assert forall|i: int| 0 <= i < b.len() implies {
                &&& (#[trigger] b[i]).name@ == a[i].name@
                &&& b[i].data_type.category@ == a[i].data_type.category@
                &&& b[i].is_identity == a[i].is_identity
            } by {
                assert(recreated[i + 1].name@ == original[i + 1].name@);
            }
        }
    }
}

/// A column is found under its name, where no column before it has the same
/// name; and none is found under a name that no column has.
pub proof fn lemma_column_is_found(columns: Seq<Column>, name: Seq<char>)
    ensures
        forall|i: int|
            0 <= i < columns.len() && (#[trigger] columns[i]).name@ == name && (forall|k: int|
                0 <= k < i ==> (#[trigger] columns[k]).name@ != name) ==> column_named(columns, name)
                == Some(columns[i]),
        column_named(columns, name) is None <==> forall|i: int|
            0 <= i < columns.len() ==> (#[trigger] columns[i]).name@ != name,
    decreases columns.len(),
{
    if columns.len() > 0 {
        let rest = columns.drop_first();
        lemma_column_is_found(rest, name);
        assert forall|i: int|
            0 <= i < columns.len() && (#[trigger] columns[i]).name@ == name && (forall|k: int|
                0 <= k < i ==> (#[trigger] columns[k]).name@ != name) implies column_named(
            columns,
            name,
        ) == Some(columns[i]) by {
            if i > 0 {
                assert(columns[0].name@ != name);
                assert(rest[i - 1] == columns[i]);
                assert forall|k: int| 0 <= k < i - 1 implies (#[trigger] rest[k]).name@ != name by {
                    assert(columns[k + 1].name@ != name);
                }
            }
        }
        if column_named(columns, name) is None {
            assert forall|i: int| 0 <= i < columns.len() implies (#[trigger] columns[i]).name@
                != name by {
                if i > 0 {
                    assert(rest[i - 1].name@ != name);
                }
            }
        }
        if forall|i: int| 0 <= i < columns.len() ==> (#[trigger] columns[i]).name@ != name {
            assert(columns[0].name@ != name);
            assert forall|i: int| 0 <= i < rest.len() implies (#[trigger] rest[i]).name@ != name by {
                assert(columns[i + 1].name@ != name);
            }
        }
    }
}

/// Whether a table has the columns of a definition, in order, and its key.
pub open spec fn is_as_defined(t: Table, d: TableDefinition) -> bool {
    &&& t.columns@.len() == d.columns@.len()
    &&& forall|i: int|
        0 <= i < d.columns@.len() ==> {
            &&& (#[trigger] t.columns@[i]).name@ == d.columns@[i].name@
            &&& t.columns@[i].data_type.category@ == d.columns@[i].data_type.category@
            &&& t.columns@[i].nullable == d.columns@[i].nullable
            &&& t.columns@[i].is_identity == d.columns@[i].identity is Some
        }
    &&& d.primary_key matches Some(key) && t.primary_key matches Some(own) && text::texts(
        own.columns@,
    ) == text::texts(key.columns@)
}

/// What the contract asks for is what it creates: a table that is there as the
/// basic table was defined passes, and one that is as the rendered table was
/// defined, with its code unique, passes as its own copy.
pub proof fn lemma_definitions_pass(
    basic: TableDefinition,
    original: TableDefinition,
    schema: Seq<char>,
    prefix: Seq<char>,
    t: Table,
    u: Table,
)
    requires
        defines(basic, schema, prefix + "_basic"@, basic_columns()),
        defines(original, schema, prefix + "_orig"@, original_columns()),
        is_as_defined(t, basic),
        is_as_defined(u, original),
        code_is_unique(u.unique_constraints@),
    ensures
        basic_problem(Some(t)) is None,
        recreated_problem(u, Some(u)) is None,
        column_named(u.columns@, "code"@) is Some,
{
    reveal_strlit("id");
    reveal_strlit("label");
    reveal_strlit("amount");
    reveal_strlit("code");
    assert("id"@.len() == 2 && "label"@.len() == 5 && "amount"@.len() == 6 && "code"@.len() == 4);
    let models = basic.columns@.map_values(|c: ColumnDefinition| column_model(c));
    assert(models.len() == basic.columns@.len());
    assert(models[0] == basic_columns()[0] && models[1] == basic_columns()[1]);
    assert(models[0] == column_model(basic.columns@[0]));
    assert(models[1] == column_model(basic.columns@[1]));
    assert(t.columns@[0].name@ == "id"@);
    assert(t.columns@[1].name@ == "label"@);
    lemma_column_is_found(t.columns@, "id"@);
    lemma_column_is_found(t.columns@, "label"@);
    assert(column_named(t.columns@, "id"@) == Some(t.columns@[0]));
    assert(column_named(t.columns@, "label"@) == Some(t.columns@[1]));
    let key = basic.primary_key->0;
    let own = t.primary_key->0;
    assert(text::texts(own.columns@).len() == own.columns@.len());
    assert(text::texts(key.columns@).len() == key.columns@.len());
    assert(text::texts(own.columns@)[0] == own.columns@[0]@);
    assert(text::texts(key.columns@)[0] == key.columns@[0]@);
    lemma_basic_passes(t);
    let others = original.columns@.map_values(|c: ColumnDefinition| column_model(c));
    assert(others.len() == original.columns@.len());
    assert(others[0] == column_model(original.columns@[0]));
    assert(others[1] == column_model(original.columns@[1]));
    assert(others[2] == column_model(original.columns@[2]));
    assert(u.columns@[0].name@ == "id"@ && u.columns@[0].is_identity);
    assert(u.columns@[1].name@ == "amount"@);
    assert(u.columns@[2].name@ == "code"@);
    lemma_column_is_found(u.columns@, "id"@);
    lemma_column_is_found(u.columns@, "code"@);
    assert(column_named(u.columns@, "id"@) == Some(u.columns@[0]));
    assert(column_named(u.columns@, "code"@) == Some(u.columns@[2]));
    lemma_recreated_passes(u, u);
}

/// What the contract asks of the child is what it adds to it: a child with the
/// reference, the unique code and the index that were added passes, and its
/// columns are the ones that those are on.
pub proof fn lemma_alterations_pass(
    reference: TableAlteration,
    unique: TableAlteration,
    index: IndexDefinition,
    child: TableDefinition,
    schema: Seq<char>,
    prefix: Seq<char>,
    suffix: Seq<char>,
    t: Table,
)
    requires
        adds_parent_key(reference, schema, prefix),
        adds_code_unique(unique, schema, prefix + "_child"@, suffix),
        is_parent_index(index, schema, prefix),
        defines(child, schema, prefix + "_child"@, child_columns()),
        reference matches TableAlteration::AddConstraint {
            constraint: ConstraintDefinition::ForeignKey(key),
            ..
        } && t.foreign_keys@ == seq![key],
        unique matches TableAlteration::AddConstraint {
            constraint: ConstraintDefinition::Unique(constraint),
            ..
        } && t.unique_constraints@.contains(constraint),
        has_index(t.indexes@, index.name@),
    ensures
        child_problem(Some(t), prefix) is None,
        exists|i: int|
            0 <= i < child.columns@.len() && (#[trigger] child.columns@[i]).name@ == "parent_id"@,
        exists|i: int|
            0 <= i < child.columns@.len() && (#[trigger] child.columns@[i]).name@ == "code"@,
        exists|i: int|
            0 <= i < child.columns@.len() && (#[trigger] child.columns@[i]).name@
                == index.columns@[0].name@,
{
    let models = child.columns@.map_values(|c: ColumnDefinition| column_model(c));
    assert(models.len() == 3);
    assert(models[1] == column_model(child.columns@[1]));
    assert(models[2] == column_model(child.columns@[2]));
    assert(child.columns@[1].name@ == "parent_id"@);
    assert(child.columns@[2].name@ == "code"@);
    if let TableAlteration::AddConstraint { constraint: ConstraintDefinition::Unique(c), .. } =
        unique {
        let i = choose|i: int|
            0 <= i < t.unique_constraints@.len() && t.unique_constraints@[i] == c;
        assert(only(t.unique_constraints@[i].columns@, "code"@));
    }
}

} // verus!
