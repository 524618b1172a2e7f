//! The schema model from the rows of MySQL's information schema.
use vstd::prelude::*;

use crate::case;
use crate::mysql::dialect;
use crate::mysql::types;
use crate::schema::{
    CheckConstraint, Column, ForeignKey, Function, FunctionArgument, IdentityGeneration, Index,
    IndexColumn, PrimaryKey, ReferentialAction, Sequence, Table, Trigger, TriggerEvent,
    TriggerTiming, UniqueConstraint,
};
use crate::text;
use crate::types::{Category, DataType, TypeCategory};

verus! {

// ---------------------------------------------------------------------------
// Rows that share a name
// ---------------------------------------------------------------------------

/// The names of a list, each once, in the order in which they first occur.
pub open spec fn distinct(names: Seq<Seq<char>>) -> Seq<Seq<char>>
    decreases names.len(),
{
    if names.len() == 0 {
        Seq::<Seq<char>>::empty()
    } else {
        let front = distinct(names.drop_last());
        if front.contains(names.last()) {
            front
        } else {
            front.push(names.last())
        }
    }
}

/// No name occurs twice, and none is lost.
pub proof fn lemma_distinct(names: Seq<Seq<char>>)
    ensures
        distinct(names).no_duplicates(),
        forall|name: Seq<char>| #[trigger]
            distinct(names).contains(name) <==> names.contains(name),
    decreases names.len(),
{
    if names.len() > 0 {
        let front = distinct(names.drop_last());
        lemma_distinct(names.drop_last());
        assert forall|name: Seq<char>| #[trigger] distinct(names).contains(name)
            <==> names.contains(name) by {
            assert(front.contains(name) <==> names.drop_last().contains(name));
            if names.contains(name) {
                let i = choose|i: int| 0 <= i < names.len() && names[i] == name;
                if i < names.len() - 1 {
                    assert(names.drop_last()[i] == name);
                    assert(front.contains(name));
                    let j = choose|j: int| 0 <= j < front.len() && front[j] == name;
                    assert(distinct(names)[j] == name);
                } else if !front.contains(name) {
                    assert(distinct(names)[front.len() as int] == name);
                }
            }
            if distinct(names).contains(name) && !names.contains(name) {
                let j = choose|j: int| 0 <= j < distinct(names).len() && distinct(names)[j] == name;
                assert(names[names.len() - 1] == names.last());
                assert(front[j] == name);
                assert(front.contains(name));
                let i = choose|i: int|
                    0 <= i < names.drop_last().len() && names.drop_last()[i] == name;
                assert(names[i] == name);
            }
        }
    }
}

/// The values that stand beside a name, in order.
pub open spec fn beside(names: Seq<Seq<char>>, values: Seq<Seq<char>>, name: Seq<char>) -> Seq<
    Seq<char>,
>
    decreases names.len(),
{
    if names.len() == 0 || values.len() != names.len() {
        Seq::<Seq<char>>::empty()
    } else {
        let front = beside(names.drop_last(), values.drop_last(), name);
        if names.last() == name {
            front.push(values.last())
        } else {
            front
        }
    }
}

/// No row is lost: its name is among the names, and its value stands beside
/// that name.
pub proof fn lemma_no_row_is_lost(names: Seq<Seq<char>>, values: Seq<Seq<char>>, i: int)
    requires
        names.len() == values.len(),
        0 <= i < names.len(),
    ensures
        distinct(names).contains(names[i]),
        beside(names, values, names[i]).contains(values[i]),
    decreases names.len(),
{
    lemma_distinct(names);
    assert(names.contains(names[i]));
    let front = beside(names.drop_last(), values.drop_last(), names[i]);
    let all = beside(names, values, names[i]);
    if i == names.len() - 1 {
        assert(all[all.len() - 1] == values[i]);
    } else {
        lemma_no_row_is_lost(names.drop_last(), values.drop_last(), i);
        assert(names.drop_last()[i] == names[i]);
        assert(values.drop_last()[i] == values[i]);
        let k = choose|k: int| 0 <= k < front.len() && front[k] == values[i];
        assert(all[k] == values[i]);
    }
}

fn distinct_names(names: &Vec<String>) -> (r: Vec<String>)
    ensures
        text::texts(r@) == distinct(text::texts(names@)),
{
    let ghost all = text::texts(names@);
    let mut out: Vec<String> = Vec::new();
    for i in 0..names.len()
        invariant
            all == text::texts(names@),
            text::texts(out@) =~= distinct(all.take(i as int)),
    {
        assert(all.take(i + 1).drop_last() =~= all.take(i as int));
        assert(all.take(i + 1).last() == names@[i as int]@);
        if !holds(&out, names[i].as_str()) {
            text::push_text(&mut out, names[i].clone());
        }
    }
    assert(all.take(names@.len() as int) =~= all);
    out
}

fn holds(list: &Vec<String>, name: &str) -> (r: bool)
    ensures
        r == text::texts(list@).contains(name@),
{
    for i in 0..list.len()
        invariant
            forall|k: int| 0 <= k < i ==> (#[trigger] list@[k])@ != name@,
    {
        if text::same_text(list[i].as_str(), name) {
            assert(text::texts(list@)[i as int] == name@);
            return true;
        }
    }
    assert forall|k: int| 0 <= k < text::texts(list@).len() implies text::texts(list@)[k]
        != name@ by {
        assert(list@[k]@ != name@);
    }
    false
}

fn values_beside(names: &Vec<String>, values: &Vec<String>, name: &str) -> (r: Vec<String>)
    requires
        names@.len() == values@.len(),
    ensures
        text::texts(r@) == beside(text::texts(names@), text::texts(values@), name@),
{
    let ghost keys = text::texts(names@);
    let ghost all = text::texts(values@);
    let mut out: Vec<String> = Vec::new();
    for i in 0..names.len()
        invariant
            names@.len() == values@.len(),
            keys == text::texts(names@),
            all == text::texts(values@),
            text::texts(out@) =~= beside(keys.take(i as int), all.take(i as int), name@),
    {
        assert(keys.take(i + 1).drop_last() =~= keys.take(i as int));
        assert(all.take(i + 1).drop_last() =~= all.take(i as int));
        assert(keys.take(i + 1).last() == names@[i as int]@);
        assert(all.take(i + 1).last() == values@[i as int]@);
        if text::same_text(names[i].as_str(), name) {
            text::push_text(&mut out, values[i].clone());
        }
    }
    assert(keys.take(names@.len() as int) =~= keys);
    assert(all.take(names@.len() as int) =~= all);
    out
}

/// Whether `i` is the first place of a name.
pub open spec fn first_place(names: Seq<Seq<char>>, name: Seq<char>, i: int) -> bool {
    &&& 0 <= i < names.len()
    &&& names[i] == name
    &&& forall|k: int| 0 <= k < i ==> #[trigger] names[k] != name
}

/// Whether `i` is the last place of a name.
pub open spec fn last_place(names: Seq<Seq<char>>, name: Seq<char>, i: int) -> bool {
    &&& 0 <= i < names.len()
    &&& names[i] == name
    &&& forall|k: int| i < k < names.len() ==> #[trigger] names[k] != name
}

fn find_first(names: &Vec<String>, name: &str) -> (r: usize)
    requires
        text::texts(names@).contains(name@),
    ensures
        first_place(text::texts(names@), name@, r as int),
{
    let ghost all = text::texts(names@);
    let ghost place = choose|i: int| 0 <= i < all.len() && all[i] == name@;
    let mut i: usize = 0;
    while !text::same_text(names[i].as_str(), name)
        invariant
            all == text::texts(names@),
            0 <= place < all.len(),
            all[place] == name@,
            i <= place < names.len(),
            forall|k: int| 0 <= k < i ==> #[trigger] all[k] != name@,
        decreases place - i,
    {
        assert(all[i as int] == names@[i as int]@);
        i = i + 1;
    }
    assert(all[i as int] == names@[i as int]@);
    i
}

fn find_last(names: &Vec<String>, name: &str) -> (r: usize)
    requires
        text::texts(names@).contains(name@),
    ensures
        last_place(text::texts(names@), name@, r as int),
{
    let ghost all = text::texts(names@);
    let ghost place = choose|i: int| 0 <= i < all.len() && all[i] == name@;
    let mut i: usize = names.len() - 1;
    while !text::same_text(names[i].as_str(), name)
        invariant
            all == text::texts(names@),
            0 <= place < all.len(),
            all[place] == name@,
            place <= i < all.len(),
            forall|k: int| i < k < all.len() ==> #[trigger] all[k] != name@,
        decreases i,
    {
        assert(all[i as int] == names@[i as int]@);
        i = i - 1;
    }
    assert(all[i as int] == names@[i as int]@);
    i
}

// ---------------------------------------------------------------------------
// Tables and columns
// ---------------------------------------------------------------------------

/// A comment as the schema model has it: the engine writes none as an empty
/// text.
pub open spec fn comment_of(comment: String) -> Option<String> {
    if comment@.len() == 0 {
        None
    } else {
        Some(comment)
    }
}

/// A comment as the schema model has it.
pub fn comment(given: String) -> (r: Option<String>)
    ensures
        r == comment_of(given),
{
    if given.as_str().is_empty() {
        None
    } else {
        Some(given)
    }
}

/// What else was reflected of a table.
#[derive(Debug, Clone)]
pub struct TableParts {
    pub columns: Vec<Column>,
    pub primary_key: Option<PrimaryKey>,
    pub foreign_keys: Vec<ForeignKey>,
    pub unique_constraints: Vec<UniqueConstraint>,
    pub check_constraints: Vec<CheckConstraint>,
    pub indexes: Vec<Index>,
    pub triggers: Vec<Trigger>,
}

/// Whether a table says what its name, comment and parts say.
pub open spec fn is_table(
    t: Table,
    schema: Seq<char>,
    name: String,
    table_comment: String,
    parts: TableParts,
) -> bool {
    &&& t.schema@ == schema
    &&& t.name == name
    &&& t.columns == parts.columns
    &&& t.primary_key == parts.primary_key
    &&& t.foreign_keys == parts.foreign_keys
    &&& t.unique_constraints == parts.unique_constraints
    &&& t.check_constraints == parts.check_constraints
    &&& t.indexes == parts.indexes
    &&& t.triggers == parts.triggers
    &&& t.comment == comment_of(table_comment)
}

/// The table with this name, comment and parts. MySQL has no exclusion
/// constraints, and its partitions are not reflected.
pub fn table(schema: &str, name: String, table_comment: String, parts: TableParts) -> (r: Table)
    ensures
        is_table(r, schema@, name, table_comment, parts),
        r.schema@ == schema@,
        r.name == name,
        r.columns == parts.columns,
        r.primary_key == parts.primary_key,
        r.foreign_keys == parts.foreign_keys,
        r.unique_constraints == parts.unique_constraints,
        r.check_constraints == parts.check_constraints,
        r.exclusion_constraints@.len() == 0,
        r.indexes == parts.indexes,
        r.triggers == parts.triggers,
        r.comment == comment_of(table_comment),
        r.partition_key is None,
        r.partition_parent is None,
{
    Table {
        schema: schema.to_string(),
        name,
        columns: parts.columns,
        primary_key: parts.primary_key,
        foreign_keys: parts.foreign_keys,
        unique_constraints: parts.unique_constraints,
        check_constraints: parts.check_constraints,
        exclusion_constraints: Vec::new(),
        indexes: parts.indexes,
        triggers: parts.triggers,
        comment: comment(table_comment),
        partition_key: None,
        partition_parent: None,
    }
}

/// A column of a table or view.
#[derive(Debug, Clone)]
pub struct ColumnRow {
    pub column_name: String,
    pub ordinal_position: i64,
    pub column_type: String,
    pub is_nullable: String,
    pub column_default: Option<String>,
    pub extra: String,
    pub column_comment: String,
}

/// Whether the lower-case extra information of a column makes it a generated
/// key.
pub open spec fn generated(extra: Seq<char>) -> bool {
    text::contains_text(extra, "auto_increment"@)
}

/// The column that a row describes, but for its generated key, which
/// `lower_extra`, the extra information in lower case, decides. Its values can
/// be given on insert, so it is generated by default, not always.
pub fn column_with(row: ColumnRow, lower_extra: &str) -> (r: Column)
    ensures
        r.name == row.column_name,
        r.ordinal_position == row.ordinal_position as u32,
        r.data_type.category@ == types::mysql_category(row.column_type@),
        r.data_type.native_type == row.column_type,
        r.nullable == (row.is_nullable@ == "YES"@),
        r.default == row.column_default,
        r.is_identity == generated(lower_extra@),
        r.identity_generation == (if generated(lower_extra@) {
            Some(IdentityGeneration::ByDefault)
        } else {
            None
        }),
        r.comment == comment_of(row.column_comment),
{
    let category = types::map_mysql_type(row.column_type.as_str());
    let nullable = text::same_text(row.is_nullable.as_str(), "YES");
    let extra = text::chars_of(lower_extra);
    let is_identity = text::has_text(extra.as_slice(), "auto_increment");
    let identity_generation = if is_identity {
        Some(IdentityGeneration::ByDefault)
    } else {
        None
    };
    Column {
        name: row.column_name,
        ordinal_position: row.ordinal_position as u32,
        data_type: DataType { category, native_type: row.column_type },
        nullable,
        default: row.column_default,
        is_identity,
        identity_generation,
        comment: comment(row.column_comment),
    }
}

/// Whether a column says what its row says.
pub open spec fn is_column(c: Column, row: ColumnRow) -> bool {
    &&& c.name == row.column_name
    &&& c.ordinal_position == row.ordinal_position as u32
    &&& c.data_type.category@ == types::mysql_category(row.column_type@)
    &&& c.data_type.native_type == row.column_type
    &&& c.nullable == (row.is_nullable@ == "YES"@)
    &&& c.default == row.column_default
    &&& c.is_identity == generated(case::lowercase(row.extra@))
    &&& case::all_ascii(row.extra@) ==> c.is_identity == generated(case::ascii_lower(row.extra@))
    &&& c.identity_generation == (if c.is_identity {
        Some(IdentityGeneration::ByDefault)
    } else {
        None
    })
    &&& c.comment == comment_of(row.column_comment)
}

/// The column that a row describes.
pub fn column(row: ColumnRow) -> (r: Column)
    ensures
        is_column(r, row),
{
    let lower_extra = case::to_lowercase(row.extra.as_str());
    column_with(row, lower_extra.as_str())
}

// ---------------------------------------------------------------------------
// Constraints
// ---------------------------------------------------------------------------

/// Whether a primary key has exactly these columns; there is none where there
/// are no columns.
pub open spec fn is_primary_key(key: Option<PrimaryKey>, columns: Seq<String>) -> bool {
    match key {
        Some(key) => {
            &&& columns.len() > 0
            &&& key.name matches Some(name) && name@ == "PRIMARY"@
            &&& key.columns@ == columns
        },
        None => columns.len() == 0,
    }
}

/// The primary key with these columns; none where there are no columns.
pub fn primary_key(columns: Vec<String>) -> (r: Option<PrimaryKey>)
    ensures
        is_primary_key(r, columns@),
{
    if columns.len() == 0 {
        None
    } else {
        Some(PrimaryKey { name: Some("PRIMARY".to_string()), columns })
    }
}

/// What an upper-case referential rule says; anything else is taken for no
/// action.
pub open spec fn action_of(rule: Seq<char>) -> ReferentialAction {
    if rule == "CASCADE"@ {
        ReferentialAction::Cascade
    } else if rule == "SET NULL"@ {
        ReferentialAction::SetNull
    } else if rule == "SET DEFAULT"@ {
        ReferentialAction::SetDefault
    } else if rule == "RESTRICT"@ {
        ReferentialAction::Restrict
    } else {
        ReferentialAction::NoAction
    }
}

/// What an upper-case referential rule says.
pub fn action_named(rule: &str) -> (r: ReferentialAction)
    ensures
        r == action_of(rule@),
{
    if text::same_text(rule, "CASCADE") {
        ReferentialAction::Cascade
    } else if text::same_text(rule, "SET NULL") {
        ReferentialAction::SetNull
    } else if text::same_text(rule, "SET DEFAULT") {
        ReferentialAction::SetDefault
    } else if text::same_text(rule, "RESTRICT") {
        ReferentialAction::Restrict
    } else {
        ReferentialAction::NoAction
    }
}

/// What a referential rule says, whatever the case of its letters.
pub fn map_ref_action(rule: &str) -> (r: ReferentialAction)
    ensures
        r == action_of(case::uppercase(rule@)),
        case::all_ascii(rule@) ==> r == action_of(case::ascii_upper(rule@)),
{
    let upper = case::to_uppercase(rule);
    action_named(upper.as_str())
}

/// One column of a foreign key.
#[derive(Debug, Clone)]
pub struct ForeignKeyRow {
    pub constraint_name: String,
    pub column_name: String,
    pub referenced_table_schema: String,
    pub referenced_table_name: String,
    pub referenced_column_name: String,
    pub update_rule: String,
    pub delete_rule: String,
}

/// The names of the foreign keys that the rows belong to.
pub open spec fn key_names(rows: Seq<ForeignKeyRow>) -> Seq<Seq<char>> {
    rows.map_values(|r: ForeignKeyRow| r.constraint_name@)
}

/// The columns that the rows name.
pub open spec fn key_columns(rows: Seq<ForeignKeyRow>) -> Seq<Seq<char>> {
    rows.map_values(|r: ForeignKeyRow| r.column_name@)
}

/// The columns that the rows refer to.
pub open spec fn key_targets(rows: Seq<ForeignKeyRow>) -> Seq<Seq<char>> {
    rows.map_values(|r: ForeignKeyRow| r.referenced_column_name@)
}

/// Whether a foreign key says what the rows with its name say: its columns
/// from all of them in order, everything else from the first.
pub open spec fn is_foreign_key(key: ForeignKey, rows: Seq<ForeignKeyRow>) -> bool {
    let names = key_names(rows);
    &&& text::texts(key.columns@) == beside(names, key_columns(rows), key.name@)
    &&& text::texts(key.referenced_columns@) == beside(names, key_targets(rows), key.name@)
    &&& exists|i: int| #[trigger]
        first_place(names, key.name@, i) && {
            &&& key.referenced_schema@ == rows[i].referenced_table_schema@
            &&& key.referenced_table@ == rows[i].referenced_table_name@
            &&& key.on_delete == action_of(case::uppercase(rows[i].delete_rule@))
            &&& key.on_update == action_of(case::uppercase(rows[i].update_rule@))
            &&& case::all_ascii(rows[i].delete_rule@) ==> key.on_delete == action_of(
                case::ascii_upper(rows[i].delete_rule@),
            )
            &&& case::all_ascii(rows[i].update_rule@) ==> key.on_update == action_of(
                case::ascii_upper(rows[i].update_rule@),
            )
        }
}

/// Whether these are the foreign keys that the rows describe, one for each
/// name, in the order in which the names first occur.
pub open spec fn are_foreign_keys(keys: Seq<ForeignKey>, rows: Seq<ForeignKeyRow>) -> bool {
    &&& keys.map_values(|k: ForeignKey| k.name@) == distinct(key_names(rows))
    &&& forall|i: int| 0 <= i < keys.len() ==> is_foreign_key(#[trigger] keys[i], rows)
}

/// The foreign keys that the rows describe, one for each name, in the order
/// in which the names first occur.
pub fn foreign_keys(rows: &Vec<ForeignKeyRow>) -> (r: Vec<ForeignKey>)
    ensures
        are_foreign_keys(r@, rows@),
{
    let mut names: Vec<String> = Vec::new();
    let mut columns: Vec<String> = Vec::new();
    let mut targets: Vec<String> = Vec::new();
    for i in 0..rows.len()
        invariant
            names@.len() == i,
            columns@.len() == i,
            targets@.len() == i,
            forall|k: int| 0 <= k < i ==> (#[trigger] names@[k])@ == rows@[k].constraint_name@,
            forall|k: int| 0 <= k < i ==> (#[trigger] columns@[k])@ == rows@[k].column_name@,
            forall|k: int|
                0 <= k < i ==> (#[trigger] targets@[k])@ == rows@[k].referenced_column_name@,
    {
        names.push(rows[i].constraint_name.clone());
        columns.push(rows[i].column_name.clone());
        targets.push(rows[i].referenced_column_name.clone());
    }
    assert(text::texts(names@) =~= key_names(rows@));
    assert(text::texts(columns@) =~= key_columns(rows@));
    assert(text::texts(targets@) =~= key_targets(rows@));
    let order = distinct_names(&names);
    proof {
        lemma_distinct(key_names(rows@));
    }
    let mut keys: Vec<ForeignKey> = Vec::new();
    for i in 0..order.len()
        invariant
            names@.len() == rows@.len(),
            columns@.len() == rows@.len(),
            targets@.len() == rows@.len(),
            text::texts(names@) == key_names(rows@),
            text::texts(columns@) == key_columns(rows@),
            text::texts(targets@) == key_targets(rows@),
            forall|name: Seq<char>| #[trigger]
                text::texts(order@).contains(name) <==> key_names(rows@).contains(name),
            keys@.len() == i,
            forall|k: int| 0 <= k < i ==> (#[trigger] keys@[k]).name@ == order@[k]@,
            forall|k: int| 0 <= k < i ==> is_foreign_key(#[trigger] keys@[k], rows@),
    {
        assert(text::texts(order@)[i as int] == order@[i as int]@);
        assert(text::texts(order@).contains(order@[i as int]@));
        let name = order[i].as_str();
        let first = find_first(&names, name);
        let key = ForeignKey {
            name: order[i].clone(),
            columns: values_beside(&names, &columns, name),
            referenced_schema: rows[first].referenced_table_schema.clone(),
            referenced_table: rows[first].referenced_table_name.clone(),
            referenced_columns: values_beside(&names, &targets, name),
            on_delete: map_ref_action(rows[first].delete_rule.as_str()),
            on_update: map_ref_action(rows[first].update_rule.as_str()),
        };
        assert(first_place(key_names(rows@), key.name@, first as int));
        assert(is_foreign_key(key, rows@));
        keys.push(key);
    }
    assert(keys@.map_values(|k: ForeignKey| k.name@) =~= text::texts(order@));
    keys
}

/// One column of a unique constraint.
#[derive(Debug, Clone)]
pub struct UniqueRow {
    pub constraint_name: String,
    pub column_name: String,
}

/// The names of the constraints that the rows belong to.
pub open spec fn unique_names(rows: Seq<UniqueRow>) -> Seq<Seq<char>> {
    rows.map_values(|r: UniqueRow| r.constraint_name@)
}

/// The columns that the rows name.
pub open spec fn unique_columns(rows: Seq<UniqueRow>) -> Seq<Seq<char>> {
    rows.map_values(|r: UniqueRow| r.column_name@)
}

/// Whether these are the unique constraints that the rows describe, one for
/// each name, in the order in which the names first occur, each with its
/// columns in order.
pub open spec fn are_unique_constraints(
    constraints: Seq<UniqueConstraint>,
    rows: Seq<UniqueRow>,
) -> bool {
    &&& constraints.map_values(|c: UniqueConstraint| c.name@) == distinct(unique_names(rows))
    &&& forall|i: int|
        0 <= i < constraints.len() ==> text::texts((#[trigger] constraints[i]).columns@) == beside(
            unique_names(rows),
            unique_columns(rows),
            constraints[i].name@,
        )
}

/// The unique constraints that the rows describe.
pub fn unique_constraints(rows: &Vec<UniqueRow>) -> (r: Vec<UniqueConstraint>)
    ensures
        are_unique_constraints(r@, rows@),
{
    let mut names: Vec<String> = Vec::new();
    let mut columns: Vec<String> = Vec::new();
    for i in 0..rows.len()
        invariant
            names@.len() == i,
            columns@.len() == i,
            forall|k: int| 0 <= k < i ==> (#[trigger] names@[k])@ == rows@[k].constraint_name@,
            forall|k: int| 0 <= k < i ==> (#[trigger] columns@[k])@ == rows@[k].column_name@,
    {
        names.push(rows[i].constraint_name.clone());
        columns.push(rows[i].column_name.clone());
    }
    assert(text::texts(names@) =~= unique_names(rows@));
    assert(text::texts(columns@) =~= unique_columns(rows@));
    let order = distinct_names(&names);
    let mut constraints: Vec<UniqueConstraint> = Vec::new();
    for i in 0..order.len()
        invariant
            names@.len() == columns@.len(),
            text::texts(names@) == unique_names(rows@),
            text::texts(columns@) == unique_columns(rows@),
            constraints@.len() == i,
            forall|k: int| 0 <= k < i ==> (#[trigger] constraints@[k]).name@ == order@[k]@,
            forall|k: int|
                0 <= k < i ==> text::texts((#[trigger] constraints@[k]).columns@) == beside(
                    unique_names(rows@),
                    unique_columns(rows@),
                    constraints@[k].name@,
                ),
    {
        constraints.push(
            UniqueConstraint {
                name: order[i].clone(),
                columns: values_beside(&names, &columns, order[i].as_str()),
            },
        );
    }
    assert(constraints@.map_values(|c: UniqueConstraint| c.name@) =~= text::texts(order@));
    constraints
}

// ---------------------------------------------------------------------------
// Indexes
// ---------------------------------------------------------------------------

/// One column of an index.
#[derive(Debug, Clone)]
pub struct IndexRow {
    pub index_name: String,
    pub column_name: String,
    pub non_unique: i64,
    pub index_type: String,
}

/// The names of the indexes that the rows belong to.
pub open spec fn index_names(rows: Seq<IndexRow>) -> Seq<Seq<char>> {
    rows.map_values(|r: IndexRow| r.index_name@)
}

/// The columns that the rows name.
pub open spec fn index_columns(rows: Seq<IndexRow>) -> Seq<Seq<char>> {
    rows.map_values(|r: IndexRow| r.column_name@)
}

/// Whether an index says what the rows with its name say: its columns from all
/// of them in order, whether it is unique and its method from the last. The
/// direction of its columns is not known, and all count as ascending.
pub open spec fn is_index(index: Index, rows: Seq<IndexRow>) -> bool {
    let names = index_names(rows);
    &&& index.columns@.map_values(|c: IndexColumn| c.name@) == beside(
        names,
        index_columns(rows),
        index.name@,
    )
    &&& forall|k: int| 0 <= k < index.columns@.len() ==> !(#[trigger] index.columns@[k]).descending
    &&& exists|i: int| #[trigger]
        last_place(names, index.name@, i) && {
            &&& index.unique == (rows[i].non_unique == 0)
            &&& index.method matches Some(method) && method@ == rows[i].index_type@
        }
}

fn ascending(names: Vec<String>) -> (r: Vec<IndexColumn>)
    ensures
        r@.map_values(|c: IndexColumn| c.name@) == text::texts(names@),
        forall|k: int| 0 <= k < r@.len() ==> !(#[trigger] r@[k]).descending,
{
    let mut columns: Vec<IndexColumn> = Vec::new();
    for i in 0..names.len()
        invariant
            columns@.len() == i,
            forall|k: int|
                0 <= k < i ==> (#[trigger] columns@[k]).name@ == names@[k]@
                    && !columns@[k].descending,
    {
        columns.push(IndexColumn { name: names[i].clone(), descending: false });
    }
    assert(columns@.map_values(|c: IndexColumn| c.name@) =~= text::texts(names@));
    columns
}

/// Whether these are the indexes that the rows describe, one for each name, in
/// the order in which the names first occur.
pub open spec fn are_indexes(indexes: Seq<Index>, rows: Seq<IndexRow>) -> bool {
    &&& indexes.map_values(|x: Index| x.name@) == distinct(index_names(rows))
    &&& forall|i: int| 0 <= i < indexes.len() ==> is_index(#[trigger] indexes[i], rows)
}

/// The indexes that the rows describe.
pub fn indexes(rows: &Vec<IndexRow>) -> (r: Vec<Index>)
    ensures
        are_indexes(r@, rows@),
{
    let mut names: Vec<String> = Vec::new();
    let mut columns: Vec<String> = Vec::new();
    for i in 0..rows.len()
        invariant
            names@.len() == i,
            columns@.len() == i,
            forall|k: int| 0 <= k < i ==> (#[trigger] names@[k])@ == rows@[k].index_name@,
            forall|k: int| 0 <= k < i ==> (#[trigger] columns@[k])@ == rows@[k].column_name@,
    {
        names.push(rows[i].index_name.clone());
        columns.push(rows[i].column_name.clone());
    }
    assert(text::texts(names@) =~= index_names(rows@));
    assert(text::texts(columns@) =~= index_columns(rows@));
    let order = distinct_names(&names);
    proof {
        lemma_distinct(index_names(rows@));
    }
    let mut found: Vec<Index> = Vec::new();
    for i in 0..order.len()
        invariant
            names@.len() == rows@.len(),
            columns@.len() == rows@.len(),
            text::texts(names@) == index_names(rows@),
            text::texts(columns@) == index_columns(rows@),
            forall|name: Seq<char>| #[trigger]
                text::texts(order@).contains(name) <==> index_names(rows@).contains(name),
            found@.len() == i,
            forall|k: int| 0 <= k < i ==> (#[trigger] found@[k]).name@ == order@[k]@,
            forall|k: int| 0 <= k < i ==> is_index(#[trigger] found@[k], rows@),
    {
        assert(text::texts(order@)[i as int] == order@[i as int]@);
        assert(text::texts(order@).contains(order@[i as int]@));
        let name = order[i].as_str();
        let last = find_last(&names, name);
        let index = Index {
            name: order[i].clone(),
            columns: ascending(values_beside(&names, &columns, name)),
            unique: rows[last].non_unique == 0,
            method: Some(rows[last].index_type.clone()),
        };
        assert(last_place(index_names(rows@), index.name@, last as int));
        assert(is_index(index, rows@));
        found.push(index);
    }
    assert(found@.map_values(|x: Index| x.name@) =~= text::texts(order@));
    found
}

// ---------------------------------------------------------------------------
// Triggers
// ---------------------------------------------------------------------------

/// A trigger.
#[derive(Debug, Clone)]
pub struct TriggerRow {
    pub trigger_name: String,
    pub action_timing: String,
    pub event_manipulation: String,
    pub action_statement: String,
}

/// When a trigger fires: before where it says so in any case, after otherwise.
pub open spec fn timing_of(timing: Seq<char>) -> TriggerTiming {
    if case::ascii_lower(timing) == case::ascii_lower("BEFORE"@) {
        TriggerTiming::Before
    } else {
        TriggerTiming::After
    }
}

/// What an upper-case event says; anything else is taken for an insert.
pub open spec fn event_of(event: Seq<char>) -> TriggerEvent {
    if event == "UPDATE"@ {
        TriggerEvent::Update
    } else if event == "DELETE"@ {
        TriggerEvent::Delete
    } else {
        TriggerEvent::Insert
    }
}

/// What an upper-case event says.
pub fn event_named(event: &str) -> (r: TriggerEvent)
    ensures
        r == event_of(event@),
{
    if text::same_text(event, "UPDATE") {
        TriggerEvent::Update
    } else if text::same_text(event, "DELETE") {
        TriggerEvent::Delete
    } else {
        TriggerEvent::Insert
    }
}

/// Whether a trigger says what its row says.
pub open spec fn is_trigger(t: Trigger, row: TriggerRow) -> bool {
    &&& t.name == row.trigger_name
    &&& t.timing == timing_of(row.action_timing@)
    &&& t.events@ == seq![event_of(case::uppercase(row.event_manipulation@))]
    &&& case::all_ascii(row.event_manipulation@) ==> t.events@ == seq![
        event_of(case::ascii_upper(row.event_manipulation@)),
    ]
    &&& t.body == Some(row.action_statement)
}

/// The trigger that a row describes. It fires on one event, and its body
/// stands in place of a function.
pub fn trigger(row: TriggerRow) -> (r: Trigger)
    ensures
        is_trigger(r, row),
        r.name == row.trigger_name,
        r.timing == timing_of(row.action_timing@),
        r.events@ == seq![event_of(case::uppercase(row.event_manipulation@))],
        case::all_ascii(row.event_manipulation@) ==> r.events@ == seq![
            event_of(case::ascii_upper(row.event_manipulation@)),
        ],
        r.function_name is None,
        r.body == Some(row.action_statement),
{
    let timing = if case::equal_ignoring_case(row.action_timing.as_str(), "BEFORE") {
        TriggerTiming::Before
    } else {
        TriggerTiming::After
    };
    let upper = case::to_uppercase(row.event_manipulation.as_str());
    let mut events: Vec<TriggerEvent> = Vec::new();
    events.push(event_named(upper.as_str()));
    assert(events@ =~= seq![event_of(upper@)]);
    Trigger {
        name: row.trigger_name,
        timing,
        events,
        function_name: None,
        body: Some(row.action_statement),
    }
}

// ---------------------------------------------------------------------------
// Sequences and functions
// ---------------------------------------------------------------------------

/// The query that reads a sequence's settings.
pub fn sequence_query(schema: &str, name: &str) -> (r: String)
    ensures
        r@ == "SELECT min_value, max_value, start_value, increment, cycle_option FROM "@
            + dialect::qualified(schema@, name@),
{
    let mut sql =
        "SELECT min_value, max_value, start_value, increment, cycle_option FROM ".to_string();
    sql.append(dialect::quote_qualified(schema, name).as_str());
    sql
}

/// A sequence's settings.
#[derive(Debug, Clone)]
pub struct SequenceRow {
    pub min_value: i64,
    pub max_value: i64,
    pub start_value: i64,
    pub increment: i64,
    pub cycle_option: String,
}

/// Whether a sequence says what its row says.
pub open spec fn is_sequence(s: Sequence, schema: Seq<char>, name: String, row: SequenceRow) -> bool {
    &&& s.schema@ == schema
    &&& s.name == name
    &&& s.data_type.category@ == Category::BigInt
    &&& s.start_value == row.start_value
    &&& s.increment == row.increment
    &&& s.min_value == Some(row.min_value)
    &&& s.max_value == Some(row.max_value)
    &&& s.cycle == (case::ascii_lower(row.cycle_option@) == case::ascii_lower("YES"@))
}

/// The sequence that a row describes. It counts in 64 bits, and cycles where
/// its option is yes in any case.
pub fn sequence(schema: &str, name: String, row: SequenceRow) -> (r: Sequence)
    ensures
        is_sequence(r, schema@, name, row),
        r.schema@ == schema@,
        r.name == name,
        r.data_type.category@ == Category::BigInt,
        r.data_type.native_type@ == "bigint"@,
        r.start_value == row.start_value,
        r.increment == row.increment,
        r.min_value == Some(row.min_value),
        r.max_value == Some(row.max_value),
        r.cycle == (case::ascii_lower(row.cycle_option@) == case::ascii_lower("YES"@)),
{
    Sequence {
        schema: schema.to_string(),
        name,
        data_type: DataType {
            category: TypeCategory::BigInt,
            native_type: "bigint".to_string(),
        },
        start_value: row.start_value,
        increment: row.increment,
        min_value: Some(row.min_value),
        max_value: Some(row.max_value),
        cycle: case::equal_ignoring_case(row.cycle_option.as_str(), "YES"),
    }
}

/// A function or procedure.
#[derive(Debug, Clone)]
pub struct FunctionRow {
    pub routine_name: String,
    pub dtd_identifier: Option<String>,
    pub routine_definition: Option<String>,
}

/// The function that a row describes. Its arguments are not reflected.
pub fn function(schema: &str, row: FunctionRow) -> (r: Function)
    ensures
        r.schema@ == schema@,
        r.name == row.routine_name,
        r.arguments@ == Seq::<FunctionArgument>::empty(),
        r.return_type == row.dtd_identifier,
        r.language@ == "SQL"@,
        r.body == row.routine_definition,
{
    Function {
        schema: schema.to_string(),
        name: row.routine_name,
        arguments: Vec::new(),
        return_type: row.dtd_identifier,
        language: "SQL".to_string(),
        body: row.routine_definition,
    }
}

} // verus!
