//! What MySQL's statements, its catalog and its rows promise together: a table
//! that was created is reflected as it was defined, a table that was rendered
//! is recreated as it was, and rows that were written read back. What the
//! server does in between enters as what its catalog reports of the
//! statements, and in which cells it hands values back.
use vstd::prelude::*;

use crate::adapter::{ColumnDefinition, TableDefinition};
use crate::case;
use crate::mysql::bulk;
use crate::mysql::ddl;
use crate::mysql::definitions;
use crate::mysql::definitions::{Change, ColumnClause, Statement};
use crate::mysql::dialect;
use crate::mysql::kinds;
use crate::mysql::laws;
use crate::mysql::query;
use crate::mysql::query::Cell;
use crate::mysql::reflect;
use crate::mysql::reflect::{ColumnRow, ForeignKeyRow, IndexRow, UniqueRow};
use crate::scalar;
use crate::schema::{
    Column, ForeignKey, Index, IndexColumn, PrimaryKey, ReferentialAction, Table, UniqueConstraint,
};
use crate::sql;
use crate::testkit::contract;
use crate::text;
use crate::types;
use crate::types::Category;
use crate::value;
use crate::value::ValueModel;

verus! {

// ---------------------------------------------------------------------------
// Columns
// ---------------------------------------------------------------------------

/// What a column's line declares.
pub struct Declared {
    pub name: Seq<char>,
    pub category: Category,
    pub nullable: bool,
    pub default: Option<Seq<char>>,
    pub identity: bool,
}

impl Declared {
    /// The line.
    pub open spec fn line(self) -> Seq<char> {
        ddl::column_text(
            self.name,
            ddl::type_text(self.category),
            self.nullable,
            self.default,
            self.identity,
        )
    }
}

/// What the line of a column to be created declares.
pub open spec fn declared(c: ColumnDefinition) -> Declared {
    Declared {
        name: c.name@,
        category: c.data_type.category@,
        nullable: c.nullable,
        default: types::optional_text(c.default),
        identity: c.identity is Some,
    }
}

/// What the line of a reflected column declares.
pub open spec fn declared_again(c: Column) -> Declared {
    Declared {
        name: c.name@,
        category: c.data_type.category@,
        nullable: c.nullable,
        default: types::optional_text(c.default),
        identity: c.identity_generation is Some,
    }
}

/// Whether a row of the catalog reports a declared column: its name, its type,
/// `YES` exactly where it may be null, and an automatic increment exactly where
/// its key is generated.
pub open spec fn reports_column(row: ColumnRow, d: Declared) -> bool {
    &&& row.column_name@ == d.name
    &&& laws::shows_type(row.column_type@, ddl::type_text(d.category))
    &&& (row.is_nullable@ == "YES"@) == d.nullable
    &&& case::all_ascii(row.extra@)
    &&& text::contains_text(case::ascii_lower(row.extra@), "auto_increment"@) == d.identity
}

/// Whether a column is what was declared.
pub open spec fn is_as_declared(c: Column, d: Declared) -> bool {
    &&& c.name@ == d.name
    &&& c.data_type.category@ == d.category
    &&& c.nullable == d.nullable
    &&& c.is_identity == d.identity
}

/// A column of one of MySQL's own types is reflected as it was declared.
pub proof fn lemma_declared_column_is_reflected(d: Declared, row: ColumnRow, c: Column)
    requires
        laws::is_native(d.category),
        reports_column(row, d),
        reflect::is_column(c, row),
    ensures
        is_as_declared(c, d),
{
    laws::lemma_shown_type(d.category, row.column_type@);
}

// ---------------------------------------------------------------------------
// Reports
// ---------------------------------------------------------------------------

/// What the catalog reports of a table.
pub struct Report {
    pub schema: Seq<char>,
    pub name: Seq<char>,
    pub columns: Seq<ColumnRow>,
    pub key: Seq<String>,
    pub uniques: Seq<UniqueRow>,
    pub foreign_keys: Seq<ForeignKeyRow>,
    pub indexes: Seq<IndexRow>,
}

/// Whether a table is what reflection makes of a report.
pub open spec fn is_reflected(t: Table, report: Report) -> bool {
    &&& t.schema@ == report.schema
    &&& t.name@ == report.name
    &&& t.columns@.len() == report.columns.len()
    &&& forall|i: int|
        0 <= i < report.columns.len() ==> reflect::is_column(
            t.columns@[i],
            #[trigger] report.columns[i],
        )
    &&& reflect::is_primary_key(t.primary_key, report.key)
    &&& reflect::are_unique_constraints(t.unique_constraints@, report.uniques)
    &&& reflect::are_foreign_keys(t.foreign_keys@, report.foreign_keys)
    &&& reflect::are_indexes(t.indexes@, report.indexes)
}

/// The columns of a primary key in order; none where there is no key.
pub open spec fn key_columns(key: Option<PrimaryKey>) -> Seq<Seq<char>> {
    match key {
        Some(key) => text::texts(key.columns@),
        None => Seq::<Seq<char>>::empty(),
    }
}

// ---------------------------------------------------------------------------
// A created table
// ---------------------------------------------------------------------------

/// Whether a report is of the table that a definition creates.
pub open spec fn reports_definition(report: Report, def: TableDefinition) -> bool {
    &&& report.schema == def.schema@
    &&& report.name == def.name@
    &&& report.columns.len() == def.columns@.len()
    &&& forall|i: int|
        0 <= i < report.columns.len() ==> reports_column(
            #[trigger] report.columns[i],
            declared(def.columns@[i]),
        )
    &&& text::texts(report.key) == key_columns(def.primary_key)
}

/// A table that was created is reflected as it was defined: its name, exactly
/// its columns in order, each with its name, category, nullability and
/// generated key, and its primary key with its columns in order.
pub proof fn lemma_created_table_is_reflected(def: TableDefinition, report: Report, t: Table)
    requires
        forall|i: int|
            0 <= i < def.columns@.len() ==> laws::is_native(
                (#[trigger] def.columns@[i]).data_type.category@,
            ),
        def.primary_key matches Some(key) ==> key.columns@.len() > 0,
        reports_definition(report, def),
        is_reflected(t, report),
    ensures
        ddl::definition_lines(def.columns@) == def.columns@.map_values(
            |c: ColumnDefinition| declared(c).line(),
        ),
        t.schema@ == def.schema@,
        t.name@ == def.name@,
        t.columns@.len() == def.columns@.len(),
        forall|i: int|
            0 <= i < def.columns@.len() ==> is_as_declared(
                #[trigger] t.columns@[i],
                declared(def.columns@[i]),
            ),
        t.primary_key is Some == def.primary_key is Some,
        key_columns(t.primary_key) == key_columns(def.primary_key),
{
    assert(ddl::definition_lines(def.columns@) =~= def.columns@.map_values(
        |c: ColumnDefinition| declared(c).line(),
    ));
    assert forall|i: int| 0 <= i < def.columns@.len() implies is_as_declared(
        #[trigger] t.columns@[i],
        declared(def.columns@[i]),
    ) by {
        lemma_declared_column_is_reflected(
            declared(def.columns@[i]),
            report.columns[i],
            t.columns@[i],
        );
    }
    lemma_key_is_reflected(def.primary_key, report.key, t.primary_key);
}

proof fn lemma_key_is_reflected(
    defined: Option<PrimaryKey>,
    reported: Seq<String>,
    key: Option<PrimaryKey>,
)
    requires
        defined matches Some(k) ==> k.columns@.len() > 0,
        text::texts(reported) == key_columns(defined),
        reflect::is_primary_key(key, reported),
    ensures
        key is Some == defined is Some,
        key_columns(key) == key_columns(defined),
{
    assert(text::texts(reported).len() == reported.len());
    match defined {
        Some(k) => {
            assert(text::texts(k.columns@).len() == k.columns@.len());
        },
        None => {
            assert(key_columns(key) =~= key_columns(defined));
        },
    }
}

// ---------------------------------------------------------------------------
// A recreated table
// ---------------------------------------------------------------------------

/// The names of unique constraints.
pub open spec fn unique_names(constraints: Seq<UniqueConstraint>) -> Seq<Seq<char>> {
    constraints.map_values(|c: UniqueConstraint| c.name@)
}

/// The names of foreign keys.
pub open spec fn foreign_key_names(keys: Seq<ForeignKey>) -> Seq<Seq<char>> {
    keys.map_values(|k: ForeignKey| k.name@)
}

/// The names of indexes.
pub open spec fn index_names(indexes: Seq<Index>) -> Seq<Seq<char>> {
    indexes.map_values(|x: Index| x.name@)
}

/// Whether two lists hold the same names, in whatever order and number.
pub open spec fn same_names(a: Seq<Seq<char>>, b: Seq<Seq<char>>) -> bool {
    forall|name: Seq<char>| #[trigger] a.contains(name) <==> b.contains(name)
}

/// Whether rows report exactly these unique constraints, each with its columns
/// in order.
pub open spec fn reports_uniques(
    rows: Seq<UniqueRow>,
    constraints: Seq<UniqueConstraint>,
) -> bool {
    &&& same_names(reflect::unique_names(rows), unique_names(constraints))
    &&& forall|j: int|
        0 <= j < constraints.len() ==> reflect::beside(
            reflect::unique_names(rows),
            reflect::unique_columns(rows),
            (#[trigger] constraints[j]).name@,
        ) == text::texts(constraints[j].columns@)
}

/// Whether rows report exactly these foreign keys, each with its columns in
/// order, what they refer to, and what happens to them.
pub open spec fn reports_foreign_keys(rows: Seq<ForeignKeyRow>, keys: Seq<ForeignKey>) -> bool {
    let names = reflect::key_names(rows);
    &&& same_names(names, foreign_key_names(keys))
    &&& forall|j: int|
        0 <= j < keys.len() ==> reflect::beside(
            names,
            reflect::key_columns(rows),
            (#[trigger] keys[j]).name@,
        ) == text::texts(keys[j].columns@)
    &&& forall|j: int|
        0 <= j < keys.len() ==> reflect::beside(
            names,
            reflect::key_targets(rows),
            (#[trigger] keys[j]).name@,
        ) == text::texts(keys[j].referenced_columns@)
    &&& forall|i: int, j: int|
        0 <= i < rows.len() && 0 <= j < keys.len() && (#[trigger] rows[i]).constraint_name@ == (
        #[trigger] keys[j]).name@ ==> {
            &&& rows[i].referenced_table_schema@ == keys[j].referenced_schema@
            &&& rows[i].referenced_table_name@ == keys[j].referenced_table@
            &&& rows[i].delete_rule@ == ddl::action_text(keys[j].on_delete)
            &&& rows[i].update_rule@ == ddl::action_text(keys[j].on_update)
        }
}

/// Whether rows report exactly these indexes, each with its columns in order
/// and whether it is unique.
pub open spec fn reports_indexes(rows: Seq<IndexRow>, indexes: Seq<Index>) -> bool {
    let names = reflect::index_names(rows);
    &&& same_names(names, index_names(indexes))
    &&& forall|j: int|
        0 <= j < indexes.len() ==> reflect::beside(
            names,
            reflect::index_columns(rows),
            (#[trigger] indexes[j]).name@,
        ) == ddl::index_names(indexes[j].columns@)
    &&& forall|i: int, j: int|
        0 <= i < rows.len() && 0 <= j < indexes.len() && (#[trigger] rows[i]).index_name@ == (
        #[trigger] indexes[j]).name@ ==> (rows[i].non_unique == 0) == indexes[j].unique
}

/// Whether a report is of the table that the rendered statements create.
pub open spec fn reports_rendered(report: Report, t: Table) -> bool {
    &&& report.columns.len() == t.columns@.len()
    &&& forall|i: int|
        0 <= i < report.columns.len() ==> reports_column(
            #[trigger] report.columns[i],
            declared_again(t.columns@[i]),
        )
    &&& text::texts(report.key) == key_columns(t.primary_key)
    &&& reports_uniques(report.uniques, t.unique_constraints@)
    &&& reports_foreign_keys(report.foreign_keys, t.foreign_keys@)
    &&& reports_indexes(report.indexes, t.indexes@)
}

/// Whether a table is one that reflection gives: a column is a generated key
/// exactly where it says how it is generated, a primary key has columns, and
/// no two constraints or indexes of a kind share a name.
pub open spec fn is_well_formed(t: Table) -> bool {
    &&& forall|i: int|
        0 <= i < t.columns@.len() ==> (#[trigger] t.columns@[i]).is_identity
            == t.columns@[i].identity_generation is Some
    &&& t.primary_key matches Some(key) ==> key.columns@.len() > 0
    &&& unique_names(t.unique_constraints@).no_duplicates()
    &&& foreign_key_names(t.foreign_keys@).no_duplicates()
    &&& index_names(t.indexes@).no_duplicates()
}

/// What reflection gives is well-formed.
pub proof fn lemma_reflected_table_is_well_formed(t: Table, report: Report)
    requires
        is_reflected(t, report),
    ensures
        is_well_formed(t),
{
    assert forall|i: int| 0 <= i < t.columns@.len() implies (#[trigger] t.columns@[i]).is_identity
        == t.columns@[i].identity_generation is Some by {
        assert(reflect::is_column(t.columns@[i], report.columns[i]));
    }
    reflect::lemma_distinct(reflect::unique_names(report.uniques));
    reflect::lemma_distinct(reflect::key_names(report.foreign_keys));
    reflect::lemma_distinct(reflect::index_names(report.indexes));
}

/// Whether two lists hold the same unique constraints, in whatever order: as
/// many, and for each of the first one with its name and its columns.
pub open spec fn same_uniques(a: Seq<UniqueConstraint>, b: Seq<UniqueConstraint>) -> bool {
    &&& a.len() == b.len()
    &&& forall|j: int|
        0 <= j < a.len() ==> has_unique(b, #[trigger] a[j])
}

/// Whether a list holds a unique constraint.
pub open spec fn has_unique(list: Seq<UniqueConstraint>, c: UniqueConstraint) -> bool {
    exists|i: int| 0 <= i < list.len() && same_unique(c, #[trigger] list[i])
}

pub open spec fn same_unique(a: UniqueConstraint, b: UniqueConstraint) -> bool {
    a.name@ == b.name@ && text::texts(a.columns@) == text::texts(b.columns@)
}

/// Whether two lists hold the same foreign keys, in whatever order.
pub open spec fn same_foreign_keys(a: Seq<ForeignKey>, b: Seq<ForeignKey>) -> bool {
    &&& a.len() == b.len()
    &&& forall|j: int|
        0 <= j < a.len() ==> has_foreign_key(b, #[trigger] a[j])
}

/// Whether a list holds a foreign key.
pub open spec fn has_foreign_key(list: Seq<ForeignKey>, c: ForeignKey) -> bool {
    exists|i: int| 0 <= i < list.len() && same_foreign_key(c, #[trigger] list[i])
}

pub open spec fn same_foreign_key(a: ForeignKey, b: ForeignKey) -> bool {
    &&& a.name@ == b.name@
    &&& text::texts(a.columns@) == text::texts(b.columns@)
    &&& a.referenced_schema@ == b.referenced_schema@
    &&& a.referenced_table@ == b.referenced_table@
    &&& text::texts(a.referenced_columns@) == text::texts(b.referenced_columns@)
    &&& a.on_delete == b.on_delete
    &&& a.on_update == b.on_update
}

/// Whether two lists hold the same indexes, in whatever order.
pub open spec fn same_indexes(a: Seq<Index>, b: Seq<Index>) -> bool {
    &&& a.len() == b.len()
    &&& forall|j: int|
        0 <= j < a.len() ==> has_index(b, #[trigger] a[j])
}

/// Whether a list holds an index.
pub open spec fn has_index(list: Seq<Index>, c: Index) -> bool {
    exists|i: int| 0 <= i < list.len() && same_index(c, #[trigger] list[i])
}

pub open spec fn same_index(a: Index, b: Index) -> bool {
    &&& a.name@ == b.name@
    &&& ddl::index_names(a.columns@) == ddl::index_names(b.columns@)
    &&& a.unique == b.unique
}

/// Lists without duplicates that hold the same names are equally long.
proof fn lemma_same_length(a: Seq<Seq<char>>, b: Seq<Seq<char>>)
    requires
        a.no_duplicates(),
        b.no_duplicates(),
        same_names(a, b),
    ensures
        a.len() == b.len(),
{
    a.unique_seq_to_set();
    b.unique_seq_to_set();
    assert forall|name: Seq<char>| a.to_set().contains(name) <==> b.to_set().contains(name) by {
        assert(a.contains(name) <==> b.contains(name));
    }
    assert(a.to_set() =~= b.to_set());
}

/// Grouped by their names, rows give as many groups as there are names, and
/// one for each of them.
proof fn lemma_groups(rows: Seq<Seq<char>>, names: Seq<Seq<char>>)
    requires
        names.no_duplicates(),
        same_names(rows, names),
    ensures
        reflect::distinct(rows).len() == names.len(),
        forall|j: int|
            0 <= j < names.len() ==> reflect::distinct(rows).contains(#[trigger] names[j]),
{
    reflect::lemma_distinct(rows);
    assert forall|name: Seq<char>| #[trigger] reflect::distinct(rows).contains(name)
        <==> names.contains(name) by {
        assert(rows.contains(name) <==> names.contains(name));
    }
    lemma_same_length(reflect::distinct(rows), names);
    assert forall|j: int| 0 <= j < names.len() implies reflect::distinct(rows).contains(
        #[trigger] names[j],
    ) by {
        assert(names.contains(names[j]));
    }
}

proof fn lemma_uniques_are_kept(
    constraints: Seq<UniqueConstraint>,
    rows: Seq<UniqueRow>,
    again: Seq<UniqueConstraint>,
)
    requires
        unique_names(constraints).no_duplicates(),
        reports_uniques(rows, constraints),
        reflect::are_unique_constraints(again, rows),
    ensures
        same_uniques(constraints, again),
{
    let groups = reflect::distinct(reflect::unique_names(rows));
    lemma_groups(reflect::unique_names(rows), unique_names(constraints));
    assert(unique_names(again) == groups);
    assert(unique_names(again).len() == again.len());
    assert(unique_names(constraints).len() == constraints.len());
    assert forall|j: int| 0 <= j < constraints.len() implies has_unique(again, #[trigger] constraints[j]) by {
        assert(groups.contains(unique_names(constraints)[j]));
        let i = choose|i: int| 0 <= i < groups.len() && groups[i] == constraints[j].name@;
        assert(unique_names(again)[i] == again[i].name@);
        assert(same_unique(constraints[j], again[i]));
    }
}

/// A referential action is read back from the rule that it is written as.
proof fn lemma_action_round_trip(action: ReferentialAction)
    ensures
        case::all_ascii(ddl::action_text(action)),
        reflect::action_of(case::ascii_upper(ddl::action_text(action))) == action,
{
    reveal_strlit("NO ACTION");
    reveal_strlit("RESTRICT");
    reveal_strlit("CASCADE");
    reveal_strlit("SET NULL");
    reveal_strlit("SET DEFAULT");
    let rule = ddl::action_text(action);
    assert(case::ascii_upper(rule) =~= rule);
    assert("NO ACTION"@[0] == 'N' && "RESTRICT"@[0] == 'R' && "CASCADE"@[0] == 'C');
    assert("SET NULL"@.len() == 8 && "SET DEFAULT"@.len() == 11 && "SET NULL"@[0] == 'S');
    assert("SET DEFAULT"@[0] == 'S');
}

proof fn lemma_foreign_keys_are_kept(
    keys: Seq<ForeignKey>,
    rows: Seq<ForeignKeyRow>,
    again: Seq<ForeignKey>,
)
    requires
        foreign_key_names(keys).no_duplicates(),
        reports_foreign_keys(rows, keys),
        reflect::are_foreign_keys(again, rows),
    ensures
        same_foreign_keys(keys, again),
{
    let names = reflect::key_names(rows);
    let groups = reflect::distinct(names);
    lemma_groups(names, foreign_key_names(keys));
    assert(foreign_key_names(again) == groups);
    assert(foreign_key_names(again).len() == again.len());
    assert(foreign_key_names(keys).len() == keys.len());
    assert forall|j: int| 0 <= j < keys.len() implies has_foreign_key(again, #[trigger] keys[j]) by {
        assert(groups.contains(foreign_key_names(keys)[j]));
        let i = choose|i: int| 0 <= i < groups.len() && groups[i] == keys[j].name@;
        assert(foreign_key_names(again)[i] == again[i].name@);
        assert(reflect::is_foreign_key(again[i], rows));
        let row = choose|k: int| #[trigger]
            reflect::first_place(names, again[i].name@, k) && {
                &&& again[i].referenced_schema@ == rows[k].referenced_table_schema@
                &&& again[i].referenced_table@ == rows[k].referenced_table_name@
                &&& again[i].on_delete == reflect::action_of(
                    case::uppercase(rows[k].delete_rule@),
                )
                &&& again[i].on_update == reflect::action_of(
                    case::uppercase(rows[k].update_rule@),
                )
                &&& case::all_ascii(rows[k].delete_rule@) ==> again[i].on_delete
                    == reflect::action_of(case::ascii_upper(rows[k].delete_rule@))
                &&& case::all_ascii(rows[k].update_rule@) ==> again[i].on_update
                    == reflect::action_of(case::ascii_upper(rows[k].update_rule@))
            };
        assert(names[row] == rows[row].constraint_name@);
        lemma_action_round_trip(keys[j].on_delete);
        lemma_action_round_trip(keys[j].on_update);
        assert(same_foreign_key(keys[j], again[i]));
    }
}

proof fn lemma_indexes_are_kept(indexes: Seq<Index>, rows: Seq<IndexRow>, again: Seq<Index>)
    requires
        index_names(indexes).no_duplicates(),
        reports_indexes(rows, indexes),
        reflect::are_indexes(again, rows),
    ensures
        same_indexes(indexes, again),
{
    let names = reflect::index_names(rows);
    let groups = reflect::distinct(names);
    lemma_groups(names, index_names(indexes));
    assert(index_names(again) == groups);
    assert(index_names(again).len() == again.len());
    assert(index_names(indexes).len() == indexes.len());
    assert forall|j: int| 0 <= j < indexes.len() implies has_index(again, #[trigger] indexes[j]) by {
        assert(groups.contains(index_names(indexes)[j]));
        let i = choose|i: int| 0 <= i < groups.len() && groups[i] == indexes[j].name@;
        assert(index_names(again)[i] == again[i].name@);
        assert(reflect::is_index(again[i], rows));
        let row = choose|k: int| #[trigger]
            reflect::last_place(names, again[i].name@, k) && {
                &&& again[i].unique == (rows[k].non_unique == 0)
                &&& again[i].method matches Some(method) && method@ == rows[k].index_type@
            };
        assert(names[row] == rows[row].index_name@);
        assert(ddl::index_names(again[i].columns@) =~= again[i].columns@.map_values(
            |c: IndexColumn| c.name@,
        ));
        assert(same_index(indexes[j], again[i]));
    }
}

/// Columns that are kept pass the contract's comparison.
proof fn lemma_columns_pass(original: Seq<Column>, again: Seq<Column>)
    requires
        original.len() == again.len(),
        forall|i: int|
            0 <= i < original.len() ==> {
                &&& (#[trigger] again[i]).name@ == original[i].name@
                &&& again[i].data_type.category@ == original[i].data_type.category@
                &&& again[i].is_identity == original[i].is_identity
            },
    ensures
        contract::columns_problem(original, again) is None,
        forall|name: Seq<char>|
            match (
                #[trigger] contract::column_named(original, name),
                contract::column_named(again, name),
            ) {
                (Some(a), Some(b)) => a.is_identity == b.is_identity,
                (None, None) => true,
                _ => false,
            },
    decreases original.len(),
{
    if original.len() > 0 {
        let rest = original.drop_first();
        let rest_again = again.drop_first();
        assert(again[0].name@ == original[0].name@);
        assert forall|i: int| 0 <= i < rest.len() implies {
            &&& (#[trigger] rest_again[i]).name@ == rest[i].name@
            &&& rest_again[i].data_type.category@ == rest[i].data_type.category@
            &&& rest_again[i].is_identity == rest[i].is_identity
        } by {
            assert(again[i + 1].name@ == original[i + 1].name@);
        }
        lemma_columns_pass(rest, rest_again);
        assert forall|name: Seq<char>|
            match (
                #[trigger] contract::column_named(original, name),
                contract::column_named(again, name),
            ) {
                (Some(a), Some(b)) => a.is_identity == b.is_identity,
                (None, None) => true,
                _ => false,
            } by {
            assert(contract::column_named(rest, name) == contract::column_named(
                original.drop_first(),
                name,
            ));
        }
    }
}

/// A table that was rendered and executed under a new name is reflected as the
/// table that it was: as many columns in the same order, each with its name,
/// category, nullability and generated key, the same primary key, and the same
/// unique constraints, foreign keys and indexes, none lost and none there
/// twice. Where the original has a generated `id` and a unique `code`, the
/// contract of an adapter finds nothing wrong.
pub proof fn lemma_rendered_table_recreates_itself(t: Table, report: Report, again: Table)
    requires
        is_well_formed(t),
        forall|i: int|
            0 <= i < t.columns@.len() ==> laws::is_native(
                (#[trigger] t.columns@[i]).data_type.category@,
            ),
        reports_rendered(report, t),
        is_reflected(again, report),
    ensures
        ddl::column_lines(t.columns@) == t.columns@.map_values(
            |c: Column| declared_again(c).line(),
        ),
        again.columns@.len() == t.columns@.len(),
        forall|i: int|
            0 <= i < t.columns@.len() ==> is_as_declared(
                #[trigger] again.columns@[i],
                declared_again(t.columns@[i]),
            ) && again.columns@[i].is_identity == t.columns@[i].is_identity,
        again.primary_key is Some == t.primary_key is Some,
        key_columns(again.primary_key) == key_columns(t.primary_key),
        same_uniques(t.unique_constraints@, again.unique_constraints@),
        same_foreign_keys(t.foreign_keys@, again.foreign_keys@),
        same_indexes(t.indexes@, again.indexes@),
        (contract::column_named(t.columns@, "id"@) matches Some(id) && id.is_identity
            && contract::code_is_unique(t.unique_constraints@)) ==> contract::recreated_problem(
            t,
            Some(again),
        ) is None,
{
    assert(ddl::column_lines(t.columns@) =~= t.columns@.map_values(
        |c: Column| declared_again(c).line(),
    ));
    assert forall|i: int| 0 <= i < t.columns@.len() implies is_as_declared(
        #[trigger] again.columns@[i],
        declared_again(t.columns@[i]),
    ) && again.columns@[i].is_identity == t.columns@[i].is_identity by {
        lemma_declared_column_is_reflected(
            declared_again(t.columns@[i]),
            report.columns[i],
            again.columns@[i],
        );
        assert(t.columns@[i].is_identity == t.columns@[i].identity_generation is Some);
    }
    lemma_key_is_reflected(t.primary_key, report.key, again.primary_key);
    lemma_uniques_are_kept(t.unique_constraints@, report.uniques, again.unique_constraints@);
    lemma_foreign_keys_are_kept(t.foreign_keys@, report.foreign_keys, again.foreign_keys@);
    lemma_indexes_are_kept(t.indexes@, report.indexes, again.indexes@);
    lemma_columns_pass(t.columns@, again.columns@);
    if contract::code_is_unique(t.unique_constraints@) {
        let a = t.unique_constraints@;
        let b = again.unique_constraints@;
        let j = choose|j: int|
            0 <= j < a.len() && contract::only((#[trigger] a[j]).columns@, "code"@);
        assert(has_unique(b, a[j]));
        let i = choose|i: int| 0 <= i < b.len() && same_unique(a[j], #[trigger] b[i]);
        assert(text::texts(a[j].columns@).len() == a[j].columns@.len());
        assert(text::texts(b[i].columns@).len() == b[i].columns@.len());
        assert(text::texts(a[j].columns@)[0] == a[j].columns@[0]@);
        assert(text::texts(b[i].columns@)[0] == b[i].columns@[0]@);
        assert(contract::only(b[i].columns@, "code"@));
    }
}

// ---------------------------------------------------------------------------
// What the statements themselves say
// ---------------------------------------------------------------------------

/// Whether a row of the catalog reports a column with this clause.
pub open spec fn reports_clause(row: ColumnRow, clause: ColumnClause) -> bool {
    &&& row.column_name@ == clause.name
    &&& laws::shows_type(row.column_type@, clause.sql_type)
    &&& (row.is_nullable@ == "YES"@) == clause.nullable
    &&& case::all_ascii(row.extra@)
    &&& text::contains_text(case::ascii_lower(row.extra@), "auto_increment"@)
        == clause.identity
}

/// Whether a report's columns and key are those of a statement that creates a
/// table.
pub open spec fn reports_created(report: Report, statement: Option<Statement>) -> bool {
    statement matches Some(Statement::CreateTable { clauses, key, .. }) && {
        &&& report.columns.len() == clauses.len()
        &&& forall|i: int|
            0 <= i < clauses.len() ==> reports_clause(report.columns[i], #[trigger] clauses[i])
        &&& match key {
            Some(names) => text::texts(report.key) == names,
            None => report.key.len() == 0,
        }
    }
}

/// Whether a statement adds a unique constraint with this name.
pub open spec fn adds_unique(statement: Option<Statement>, name: Seq<char>) -> bool {
    statement matches Some(Statement::AlterTable { change, .. })
        && change matches Change::AddUnique { constraint, .. } && constraint == name
}

/// Whether a statement adds a foreign key with this name.
pub open spec fn adds_foreign_key(statement: Option<Statement>, name: Seq<char>) -> bool {
    statement matches Some(Statement::AlterTable { change, .. })
        && change matches Change::AddForeignKey { constraint, .. } && constraint == name
}

/// Whether a statement creates an index with this name.
pub open spec fn adds_index(statement: Option<Statement>, name: Seq<char>) -> bool {
    statement matches Some(Statement::CreateIndex { name: own, .. }) && own == name
}

/// Whether rows report the unique constraints that the statements add, and no
/// others, each with its columns in order.
pub open spec fn reports_added_uniques(
    rows: Seq<UniqueRow>,
    statements: Seq<Option<Statement>>,
) -> bool {
    let names = reflect::unique_names(rows);
    &&& forall|name: Seq<char>| #[trigger]
        names.contains(name) <==> exists|k: int|
            0 <= k < statements.len() && adds_unique(#[trigger] statements[k], name)
    &&& forall|k: int|
        0 <= k < statements.len() ==> ((#[trigger] statements[k]) matches Some(
            Statement::AlterTable { change: Change::AddUnique { constraint, columns }, .. },
        ) ==> reflect::beside(names, reflect::unique_columns(rows), constraint) == columns)
}

/// Whether rows report the foreign keys that the statements add, and no others,
/// each with its columns in order, what they refer to, and what happens to
/// them.
pub open spec fn reports_added_foreign_keys(
    rows: Seq<ForeignKeyRow>,
    statements: Seq<Option<Statement>>,
) -> bool {
    let names = reflect::key_names(rows);
    &&& forall|name: Seq<char>| #[trigger]
        names.contains(name) <==> exists|k: int|
            0 <= k < statements.len() && adds_foreign_key(#[trigger] statements[k], name)
    &&& forall|k: int|
        0 <= k < statements.len() ==> ((#[trigger] statements[k]) matches Some(
            Statement::AlterTable { change: Change::AddForeignKey {
                constraint,
                columns,
                referenced_schema,
                referenced_table,
                referenced_columns,
                on_update,
                on_delete,
            }, .. },
        ) ==> {
            &&& reflect::beside(names, reflect::key_columns(rows), constraint) == columns
            &&& reflect::beside(names, reflect::key_targets(rows), constraint)
                == referenced_columns
            &&& forall|i: int|
                0 <= i < rows.len() && (#[trigger] rows[i]).constraint_name@ == constraint ==> {
                    &&& rows[i].referenced_table_schema@ == referenced_schema
                    &&& rows[i].referenced_table_name@ == referenced_table
                    &&& rule_says(rows[i].delete_rule@, on_delete)
                    &&& rule_says(rows[i].update_rule@, on_update)
                }
        })
}

/// Whether the catalog calls a referential action by this rule.
pub open spec fn rule_says(rule: Seq<char>, action: ReferentialAction) -> bool {
    definitions::read_action(rule) matches Some((a, rest)) && a == action && rest.len() == 0
}

/// Whether rows report the indexes that the statements create, and no others,
/// each with its columns in order and whether it is unique.
pub open spec fn reports_added_indexes(
    rows: Seq<IndexRow>,
    statements: Seq<Option<Statement>>,
) -> bool {
    let names = reflect::index_names(rows);
    &&& forall|name: Seq<char>| #[trigger]
        names.contains(name) <==> exists|k: int|
            0 <= k < statements.len() && adds_index(#[trigger] statements[k], name)
    &&& forall|k: int|
        0 <= k < statements.len() ==> ((#[trigger] statements[k]) matches Some(
            Statement::CreateIndex { unique, name, columns, .. },
        ) ==> {
            &&& reflect::beside(names, reflect::index_columns(rows), name) == columns
            &&& forall|i: int|
                0 <= i < rows.len() && (#[trigger] rows[i]).index_name@ == name ==> (
                rows[i].non_unique == 0) == unique
        })
}

/// Whether a report is of the table that these statements create.
pub open spec fn reports_statements(report: Report, statements: Seq<Option<Statement>>) -> bool {
    &&& statements.len() > 0
    &&& reports_created(report, statements[0])
    &&& reports_added_uniques(report.uniques, statements)
    &&& reports_added_foreign_keys(report.foreign_keys, statements)
    &&& reports_added_indexes(report.indexes, statements)
}

/// A rule that says an action is the word that the action is written as.
proof fn lemma_rule(rule: Seq<char>, action: ReferentialAction)
    requires
        rule_says(rule, action),
    ensures
        rule == ddl::action_text(action),
{
    let word = ddl::action_text(action);
    assert(sql::after(rule, word) matches Some(rest) && rest.len() == 0);
    assert(rule.take(word.len() as int) =~= rule);
}

proof fn lemma_reports_uniques(report: Report, statements: Seq<Option<Statement>>, t: Table)
    requires
        definitions::recreate(statements, t),
        reports_added_uniques(report.uniques, statements),
    ensures
        reports_uniques(report.uniques, t.unique_constraints@),
{
    let list = t.unique_constraints@;
    let names = reflect::unique_names(report.uniques);
    let own = unique_names(list);
    assert forall|name: Seq<char>| #[trigger] names.contains(name) <==> own.contains(name) by {
        if names.contains(name) {
            let k = choose|k: int|
                0 <= k < statements.len() && adds_unique(#[trigger] statements[k], name);
            lemma_kind_of_statement(statements, t, k);
            assert(own[k - 1] == list[k - 1].name@);
        }
        if own.contains(name) {
            let j = choose|j: int| 0 <= j < own.len() && own[j] == name;
            assert(list[j].name@ == name);
            assert(adds_unique(statements[1 + j], name));
        }
    }
    assert forall|j: int| 0 <= j < list.len() implies reflect::beside(
        names,
        reflect::unique_columns(report.uniques),
        (#[trigger] list[j]).name@,
    ) == text::texts(list[j].columns@) by {
        lemma_kind_of_statement(statements, t, 1 + j);
        assert(t.unique_constraints@[j].name@ == list[j].name@);
    }
}

/// Which statement stands at a place.
proof fn lemma_kind_of_statement(statements: Seq<Option<Statement>>, t: Table, k: int)
    requires
        definitions::recreate(statements, t),
        0 <= k < statements.len(),
    ensures
        ({
            let checks = definitions::checks_from(t);
            let keys = definitions::foreign_keys_from(t);
            let indexes = definitions::indexes_from(t);
            if k == 0 {
                statements[k] matches Some(Statement::CreateTable { .. })
            } else if k < checks {
                adds_unique(statements[k], t.unique_constraints@[k - 1].name@)
            } else if k < keys {
                statements[k] matches Some(Statement::AlterTable { change, .. })
                    && change is AddCheck
            } else if k < indexes {
                adds_foreign_key(statements[k], t.foreign_keys@[k - keys].name@)
            } else {
                adds_index(statements[k], t.indexes@[k - indexes].name@)
            }
        }),
{
    let checks = definitions::checks_from(t);
    let keys = definitions::foreign_keys_from(t);
    let indexes = definitions::indexes_from(t);
    if k == 0 {
    } else if k < checks {
        let x = t.unique_constraints@[k - 1];
    } else if k < keys {
        let x = t.check_constraints@[k - checks];
        assert(statements[checks + (k - checks)] is Some);
    } else if k < indexes {
        let x = t.foreign_keys@[k - keys];
        assert(statements[keys + (k - keys)] is Some);
    } else {
        let x = t.indexes@[k - indexes];
        assert(statements[indexes + (k - indexes)] is Some);
    }
}

proof fn lemma_reports_foreign_keys(report: Report, statements: Seq<Option<Statement>>, t: Table)
    requires
        definitions::recreate(statements, t),
        reports_added_foreign_keys(report.foreign_keys, statements),
    ensures
        reports_foreign_keys(report.foreign_keys, t.foreign_keys@),
{
    let list = t.foreign_keys@;
    let rows = report.foreign_keys;
    let names = reflect::key_names(rows);
    let own = foreign_key_names(list);
    let from = definitions::foreign_keys_from(t);
    assert forall|name: Seq<char>| #[trigger] names.contains(name) <==> own.contains(name) by {
        if names.contains(name) {
            let k = choose|k: int|
                0 <= k < statements.len() && adds_foreign_key(#[trigger] statements[k], name);
            lemma_kind_of_statement(statements, t, k);
            assert(own[k - from] == list[k - from].name@);
        }
        if own.contains(name) {
            let j = choose|j: int| 0 <= j < own.len() && own[j] == name;
            assert(list[j].name@ == name);
            assert(adds_foreign_key(statements[from + j], name));
        }
    }
    assert forall|j: int| 0 <= j < list.len() implies reflect::beside(
        names,
        reflect::key_columns(rows),
        (#[trigger] list[j]).name@,
    ) == text::texts(list[j].columns@) by {
        assert(statements[from + j] is Some);
    }
    assert forall|j: int| 0 <= j < list.len() implies reflect::beside(
        names,
        reflect::key_targets(rows),
        (#[trigger] list[j]).name@,
    ) == text::texts(list[j].referenced_columns@) by {
        assert(statements[from + j] is Some);
    }
    assert forall|i: int, j: int|
        0 <= i < rows.len() && 0 <= j < list.len() && (#[trigger] rows[i]).constraint_name@ == (
        #[trigger] list[j]).name@ implies {
        &&& rows[i].referenced_table_schema@ == list[j].referenced_schema@
        &&& rows[i].referenced_table_name@ == list[j].referenced_table@
        &&& rows[i].delete_rule@ == ddl::action_text(list[j].on_delete)
        &&& rows[i].update_rule@ == ddl::action_text(list[j].on_update)
    } by {
        assert(statements[from + j] is Some);
        lemma_rule(rows[i].delete_rule@, list[j].on_delete);
        lemma_rule(rows[i].update_rule@, list[j].on_update);
    }
}

proof fn lemma_reports_indexes(report: Report, statements: Seq<Option<Statement>>, t: Table)
    requires
        definitions::recreate(statements, t),
        reports_added_indexes(report.indexes, statements),
    ensures
        reports_indexes(report.indexes, t.indexes@),
{
    let list = t.indexes@;
    let rows = report.indexes;
    let names = reflect::index_names(rows);
    let own = index_names(list);
    let from = definitions::indexes_from(t);
    assert forall|name: Seq<char>| #[trigger] names.contains(name) <==> own.contains(name) by {
        if names.contains(name) {
            let k = choose|k: int|
                0 <= k < statements.len() && adds_index(#[trigger] statements[k], name);
            lemma_kind_of_statement(statements, t, k);
            assert(own[k - from] == list[k - from].name@);
        }
        if own.contains(name) {
            let j = choose|j: int| 0 <= j < own.len() && own[j] == name;
            assert(list[j].name@ == name);
            assert(adds_index(statements[from + j], name));
        }
    }
    assert forall|j: int| 0 <= j < list.len() implies reflect::beside(
        names,
        reflect::index_columns(rows),
        (#[trigger] list[j]).name@,
    ) == ddl::index_names(list[j].columns@) by {
        assert(statements[from + j] is Some);
        assert(ddl::index_names(list[j].columns@) =~= list[j].columns@.map_values(
            |c: IndexColumn| c.name@,
        ));
    }
    assert forall|i: int, j: int|
        0 <= i < rows.len() && 0 <= j < list.len() && (#[trigger] rows[i]).index_name@ == (
        #[trigger] list[j]).name@ implies (rows[i].non_unique == 0) == list[j].unique by {
        assert(statements[from + j] is Some);
    }
}

/// The default that a statement declares for a column, where it creates a table
/// and declares one.
pub open spec fn declared_default(statement: Seq<char>, i: int) -> Option<Seq<char>> {
    match definitions::read_statement(statement) {
        Some(Statement::CreateTable { clauses, .. }) => clauses[i].default,
        _ => None,
    }
}

/// A table that is created by executing the statements that were rendered for
/// it is the table that it was, with its defaults where the catalog reports them
/// as they were declared. What the catalog reports is taken from what the
/// statements say when they are read, and from nothing else.
pub proof fn lemma_executed_statements_recreate_table(t: Table, report: Report, again: Table)
    requires
        is_well_formed(t),
        definitions::is_readable_table(t),
        forall|i: int|
            0 <= i < t.columns@.len() ==> laws::is_native(
                (#[trigger] t.columns@[i]).data_type.category@,
            ),
        reports_statements(report, definitions::read_all(ddl::table_statements(t))),
        is_reflected(again, report),
    ensures
        again.columns@.len() == t.columns@.len(),
        forall|i: int|
            0 <= i < t.columns@.len() ==> {
                &&& (#[trigger] again.columns@[i]).name@ == t.columns@[i].name@
                &&& again.columns@[i].data_type.category@ == t.columns@[i].data_type.category@
                &&& again.columns@[i].nullable == t.columns@[i].nullable
                &&& again.columns@[i].is_identity == t.columns@[i].is_identity
            },
        forall|i: int|
            0 <= i < t.columns@.len() && types::optional_text(
                (#[trigger] report.columns[i]).column_default,
            ) == declared_default(ddl::table_statements(t)[0], i) ==> types::optional_text(
                again.columns@[i].default,
            ) == (if t.columns@[i].identity_generation is Some {
                None
            } else {
                types::optional_text(t.columns@[i].default)
            }),
        key_columns(again.primary_key) == key_columns(t.primary_key),
        same_uniques(t.unique_constraints@, again.unique_constraints@),
        same_foreign_keys(t.foreign_keys@, again.foreign_keys@),
        same_indexes(t.indexes@, again.indexes@),
{
    let statements = definitions::read_all(ddl::table_statements(t));
    definitions::lemma_statements_recreate_table(t);
    lemma_reports_uniques(report, statements, t);
    lemma_reports_foreign_keys(report, statements, t);
    lemma_reports_indexes(report, statements, t);
    let clauses = t.columns@.map_values(|c: Column| definitions::clause_of(c));
    assert forall|i: int| 0 <= i < report.columns.len() implies reports_column(
        #[trigger] report.columns[i],
        declared_again(t.columns@[i]),
    ) by {
        assert(reports_clause(report.columns[i], clauses[i]));
    }
    assert(text::texts(report.key) =~= key_columns(t.primary_key)) by {
        assert(text::texts(report.key).len() == report.key.len());
    }
    assert(reports_rendered(report, t));
    lemma_rendered_table_recreates_itself(t, report, again);
    assert(statements[0] == definitions::read_statement(ddl::table_statements(t)[0]));
    assert forall|i: int|
        0 <= i < t.columns@.len() && types::optional_text(
            (#[trigger] report.columns[i]).column_default,
        ) == declared_default(ddl::table_statements(t)[0], i) implies types::optional_text(
        again.columns@[i].default,
    ) == (if t.columns@[i].identity_generation is Some {
        None
    } else {
        types::optional_text(t.columns@[i].default)
    }) by {
        assert(reflect::is_column(again.columns@[i], report.columns[i]));
    }
    assert forall|i: int| 0 <= i < t.columns@.len() implies {
        &&& (#[trigger] again.columns@[i]).name@ == t.columns@[i].name@
        &&& again.columns@[i].data_type.category@ == t.columns@[i].data_type.category@
        &&& again.columns@[i].nullable == t.columns@[i].nullable
        &&& again.columns@[i].is_identity == t.columns@[i].is_identity
    } by {
        assert(is_as_declared(again.columns@[i], declared_again(t.columns@[i])));
    }
}

/// A table that is created by executing the statement of its definition is
/// reflected as it was defined. What the catalog reports is taken from what the
/// statement says when it is read.
pub proof fn lemma_executed_definition_is_reflected(
    def: TableDefinition,
    report: Report,
    t: Table,
)
    requires
        definitions::is_readable_definition(def),
        forall|i: int|
            0 <= i < def.columns@.len() ==> laws::is_native(
                (#[trigger] def.columns@[i]).data_type.category@,
            ),
        def.primary_key matches Some(key) ==> key.columns@.len() > 0,
        report.schema == def.schema@,
        report.name == def.name@,
        reports_created(
            report,
            definitions::read_statement(
                ddl::create_text(
                    dialect::qualified(def.schema@, def.name@),
                    ddl::definition_lines(def.columns@) + ddl::key_lines(def.primary_key),
                ),
            ),
        ),
        is_reflected(t, report),
    ensures
        t.schema@ == def.schema@,
        t.name@ == def.name@,
        t.columns@.len() == def.columns@.len(),
        forall|i: int|
            0 <= i < def.columns@.len() ==> {
                &&& (#[trigger] t.columns@[i]).name@ == def.columns@[i].name@
                &&& t.columns@[i].data_type.category@ == def.columns@[i].data_type.category@
                &&& t.columns@[i].nullable == def.columns@[i].nullable
                &&& t.columns@[i].is_identity == def.columns@[i].identity is Some
            },
        key_columns(t.primary_key) == key_columns(def.primary_key),
{
    definitions::lemma_definition_reads_back(def);
    let clauses = def.columns@.map_values(
        |c: ColumnDefinition| definitions::clause_of_definition(c),
    );
    assert forall|i: int| 0 <= i < report.columns.len() implies reports_column(
        #[trigger] report.columns[i],
        declared(def.columns@[i]),
    ) by {
        assert(reports_clause(report.columns[i], clauses[i]));
    }
    assert(text::texts(report.key) =~= key_columns(def.primary_key)) by {
        assert(text::texts(report.key).len() == report.key.len());
    }
    lemma_created_table_is_reflected(def, report, t);
    assert forall|i: int| 0 <= i < def.columns@.len() implies {
        &&& (#[trigger] t.columns@[i]).name@ == def.columns@[i].name@
        &&& t.columns@[i].data_type.category@ == def.columns@[i].data_type.category@
        &&& t.columns@[i].nullable == def.columns@[i].nullable
        &&& t.columns@[i].is_identity == def.columns@[i].identity is Some
    } by {
        assert(is_as_declared(t.columns@[i], declared(def.columns@[i])));
    }
}

// ---------------------------------------------------------------------------
// Written rows
// ---------------------------------------------------------------------------

/// Whether a server hands a bound value back in this cell: a number as the
/// same number in a cell of its column's width, a decimal in its column's
/// scale, a document as an equal one, the text of a UUID as that UUID where
/// the column holds UUIDs, and anything else as it is.
pub open spec fn hands_back(bound: ValueModel, cell: Cell) -> bool {
    match bound {
        ValueModel::Null => cell is Null,
        ValueModel::Boolean(b) => query::number_in_cell(cell) == Some(
            if b {
                1int
            } else {
                0int
            },
        ),
        ValueModel::SmallInt(n) => query::number_in_cell(cell) == Some(n as int),
        ValueModel::Integer(n) => query::number_in_cell(cell) == Some(n as int),
        ValueModel::BigInt(n) => query::number_in_cell(cell) == Some(n as int),
        ValueModel::Decimal(d) => query::cell_model(cell) matches ValueModel::Decimal(e)
            && d.same_number(e),
        ValueModel::Real(f) => cell matches Cell::F32(g) && f.bits == g@.bits,
        ValueModel::Double(f) => cell matches Cell::F64(g) && f.bits == g@.bits,
        ValueModel::Text(s) => {
            ||| cell matches Cell::Str(t) && s == t@
            ||| cell matches Cell::Uuid(u) && s == scalar::uuid_text(u@)
        },
        ValueModel::Binary(b) => cell matches Cell::Bytes(c) && b == c@,
        ValueModel::Date(d) => cell matches Cell::Date(e) && d == e@,
        ValueModel::Time(t) => cell matches Cell::Time(u) && t == u@,
        ValueModel::TimestampNaive(t) => cell matches Cell::DateTime(u) && t == u@,
        ValueModel::Json(j) => cell matches Cell::Json(k) && scalar::same_document(j, k@),
        _ => false,
    }
}

/// A value that was written reads back equal wherever its column reads as the
/// kind of value that was written. Where it does not, it reads back as what
/// was bound for it: a moment as its wall-clock time in UTC, a UUID as its
/// text, and a truth value as a number.
pub proof fn lemma_written_value_reads_back(v: ValueModel, cell: Cell)
    requires
        v matches ValueModel::Uuid(u) ==> u.len() == 16,
        hands_back(query::bound_model(v), cell),
    ensures
        value::same_variant(query::cell_model(cell), v) ==> value::same_value(
            query::cell_model(cell),
            v,
        ),
        value::same_variant(query::cell_model(cell), query::bound_model(v)) ==> value::same_value(
            query::cell_model(cell),
            query::bound_model(v),
        ),
        v matches ValueModel::Boolean(b) ==> query::number_in_value(query::cell_model(cell)) == Some(
            if b {
                1int
            } else {
                0int
            },
        ),
{
    query::lemma_numbers_are_kept(cell);
    value::lemma_equality_is_symmetric(query::cell_model(cell), v);
    value::lemma_equality_is_symmetric(query::cell_model(cell), query::bound_model(v));
    if let ValueModel::Uuid(u) = v {
        if let Cell::Uuid(w) = cell {
            scalar::lemma_same_uuid(u, w@);
        }
    }
}

/// What the cells of a row say.
pub open spec fn row_model(cells: Seq<Cell>) -> Seq<ValueModel> {
    cells.map_values(|c: Cell| query::cell_model(c))
}

/// Whether a server hands a row that was bound cell by cell back in these
/// cells.
pub open spec fn hands_row_back(row: Seq<ValueModel>, cells: Seq<Cell>) -> bool {
    &&& cells.len() == row.len()
    &&& forall|k: int|
        0 <= k < row.len() ==> hands_back(query::bound_model(row[k]), #[trigger] cells[k])
}

/// Whether every cell reads as the kind of value that was written, and every
/// UUID that was written is one.
pub open spec fn reads_as_written(row: Seq<ValueModel>, cells: Seq<Cell>) -> bool {
    forall|k: int|
        0 <= k < row.len() ==> value::same_variant(
            query::cell_model(#[trigger] cells[k]),
            row[k],
        ) && (row[k] matches ValueModel::Uuid(u) ==> u.len() == 16)
}

/// Rows that were written to an empty table read back: the batches together
/// insert every row, and from a server that hands back what was inserted, in
/// whatever order, come exactly as many rows, each equal to the one that was
/// written.
pub proof fn lemma_written_rows_read_back(
    rows: Seq<Seq<ValueModel>>,
    order: Seq<int>,
    table: Seq<Seq<Cell>>,
)
    requires
        value::is_order(order, rows.len()),
        table.len() == order.len(),
        forall|i: int|
            0 <= i < order.len() ==> hands_row_back(
                (bulk::written(rows).flatten() + bulk::held(rows))[order[i]],
                #[trigger] table[i],
            ),
        forall|i: int|
            0 <= i < order.len() ==> reads_as_written(rows[order[i]], #[trigger] table[i]),
    ensures
        table.len() == rows.len(),
        forall|i: int|
            0 <= i < table.len() ==> value::same_cells(
                row_model(#[trigger] table[i]),
                rows[order[i]],
            ),
{
    bulk::lemma_write_is_complete(rows);
    assert forall|i: int| 0 <= i < table.len() implies value::same_cells(
        row_model(#[trigger] table[i]),
        rows[order[i]],
    ) by {
        let row = rows[order[i]];
        assert(hands_row_back(row, table[i]));
        assert forall|k: int| 0 <= k < row.len() implies value::same_value(
            #[trigger] row_model(table[i])[k],
            row[k],
        ) by {
            assert(hands_back(query::bound_model(row[k]), table[i][k]));
            lemma_written_value_reads_back(row[k], table[i][k]);
        }
    }
}

/// Whether a row has for each column, by its type on the wire, a null or a value
/// of the kind that the column reads as.
pub open spec fn fits_wires(wires: Seq<Seq<char>>, row: Seq<ValueModel>) -> bool {
    &&& row.len() == wires.len()
    &&& forall|k: int|
        0 <= k < wires.len() ==> {
            &&& #[trigger] row[k] is Null || kinds::reads_as_kind(wires[k], row[k])
            &&& row[k] matches ValueModel::Uuid(u) ==> u.len() == 16
        }
}

/// Whether each cell is one that the driver reads with the decoder for its
/// column's type on the wire.
pub open spec fn is_decoded(wires: Seq<Seq<char>>, cells: Seq<Cell>) -> bool {
    &&& cells.len() == wires.len()
    &&& forall|k: int|
        0 <= k < wires.len() ==> kinds::is_cell_of(
            query::decoder_named(wires[k]),
            #[trigger] cells[k],
        )
}

/// Rows that were written to an empty table read back through the decoders of
/// its columns: exactly as many, each equal to the one that was written. That a
/// cell reads as the kind that was written follows from its column's decoder.
pub proof fn lemma_written_columns_read_back(
    wires: Seq<Seq<char>>,
    rows: Seq<Seq<ValueModel>>,
    order: Seq<int>,
    table: Seq<Seq<Cell>>,
)
    requires
        forall|k: int| 0 <= k < wires.len() ==> kinds::is_known(#[trigger] wires[k]),
        forall|i: int| 0 <= i < rows.len() ==> fits_wires(wires, #[trigger] rows[i]),
        value::is_order(order, rows.len()),
        table.len() == order.len(),
        forall|i: int|
            0 <= i < order.len() ==> hands_row_back(
                (bulk::written(rows).flatten() + bulk::held(rows))[order[i]],
                #[trigger] table[i],
            ),
        forall|i: int| 0 <= i < table.len() ==> is_decoded(wires, #[trigger] table[i]),
    ensures
        table.len() == rows.len(),
        forall|i: int|
            0 <= i < table.len() ==> value::same_cells(
                row_model(#[trigger] table[i]),
                rows[order[i]],
            ),
{
    bulk::lemma_write_is_complete(rows);
    assert forall|i: int| 0 <= i < order.len() implies reads_as_written(
        rows[order[i]],
        #[trigger] table[i],
    ) by {
        let row = rows[order[i]];
        let cells = table[i];
        assert(fits_wires(wires, row));
        assert(is_decoded(wires, cells));
        assert(hands_row_back(row, cells));
        assert forall|k: int| 0 <= k < row.len() implies value::same_variant(
            query::cell_model(#[trigger] cells[k]),
            row[k],
        ) && (row[k] matches ValueModel::Uuid(u) ==> u.len() == 16) by {
            assert(hands_back(query::bound_model(row[k]), cells[k]));
            assert(kinds::is_cell_of(query::decoder_named(wires[k]), cells[k]));
            assert(kinds::is_known(wires[k]));
            assert(row[k] is Null || kinds::reads_as_kind(wires[k], row[k]));
            kinds::lemma_decoder_reads_kind(wires[k]);
            if !(row[k] is Null) {
                assert(!(cells[k] is Null));
                kinds::lemma_one_kind(wires[k], query::cell_model(cells[k]), row[k]);
            }
        }
    }
    lemma_written_rows_read_back(rows, order, table);
}

} // verus!
