//! The schema model from the rows of PostgreSQL's catalog.
use vstd::prelude::*;

use crate::error::DdbCoreError;
use crate::number;
use crate::postgres::types::{self, EnumTypes};
use crate::schema::{
    CheckConstraint, Column, ExclusionConstraint, ForeignKey, Function, FunctionArgument,
    IdentityGeneration, Index, IndexColumn, PrimaryKey, ReferentialAction, Sequence, Table,
    TableRef, Trigger, TriggerEvent, TriggerTiming, UniqueConstraint,
};
use crate::text;
use crate::types::DataType;

verus! {

// ---------------------------------------------------------------------------
// Enumeration types
// ---------------------------------------------------------------------------

/// A label of an enumeration type.
#[derive(Debug, Clone)]
pub struct EnumLabelRow {
    pub typname: String,
    pub enumlabel: String,
}

/// The labels that the rows give for a type, in their order.
pub open spec fn labels_for(rows: Seq<EnumLabelRow>, name: Seq<char>) -> Seq<Seq<char>>
    decreases rows.len(),
{
    if rows.len() == 0 {
        Seq::<Seq<char>>::empty()
    } else if rows.last().typname@ == name {
        labels_for(rows.drop_last(), name).push(rows.last().enumlabel@)
    } else {
        labels_for(rows.drop_last(), name)
    }
}

/// Collects the labels of each enumeration type, in the order of the rows.
pub fn load_enum_types(rows: &Vec<EnumLabelRow>) -> (r: EnumTypes)
    ensures
        forall|name: Seq<char>| #[trigger]
            r@.contains_key(name) <==> labels_for(rows@, name).len() > 0,
        forall|name: Seq<char>|
            r@.contains_key(name) ==> #[trigger] r@[name] == labels_for(rows@, name),
{
    let mut enums = EnumTypes::new();
    for i in 0..rows.len()
        invariant
            forall|name: Seq<char>| #[trigger]
                enums@.contains_key(name) <==> labels_for(rows@.take(i as int), name).len() > 0,
            forall|name: Seq<char>|
                enums@.contains_key(name) ==> #[trigger] enums@[name] == labels_for(
                    rows@.take(i as int),
                    name,
                ),
    {
        let ghost before = enums@;
        let ghost own = rows@[i as int].typname@;
        assert(rows@.take(i + 1).drop_last() =~= rows@.take(i as int));
        assert(before.contains_key(own) <==> labels_for(rows@.take(i as int), own).len() > 0);
        assert(!before.contains_key(own) ==> labels_for(rows@.take(i as int), own) =~= Seq::<
            Seq<char>,
        >::empty());
        enums.add_label(rows[i].typname.clone(), rows[i].enumlabel.clone());
        assert forall|name: Seq<char>| #[trigger] enums@.contains_key(name) <==> labels_for(
            rows@.take(i + 1),
            name,
        ).len() > 0 by {
            assert(before.contains_key(name) <==> labels_for(rows@.take(i as int), name).len() > 0);
        }
        assert forall|name: Seq<char>| enums@.contains_key(name) implies #[trigger] enums@[name]
            == labels_for(rows@.take(i + 1), name) by {
            if name != own {
                assert(before.contains_key(name));
                assert(before[name] == labels_for(rows@.take(i as int), name));
            }
        }
    }
    assert(rows@.take(rows@.len() as int) =~= rows@);
    enums
}

// ---------------------------------------------------------------------------
// Columns
// ---------------------------------------------------------------------------

/// A column of a table or view.
#[derive(Debug, Clone)]
pub struct ColumnRow {
    pub name: String,
    pub ordinal_position: i16,
    pub native_type: String,
    pub nullable: bool,
    pub default_expr: Option<String>,
    /// `a` for generated always, `d` for generated by default.
    pub identity: String,
    pub comment: Option<String>,
}

/// What the identity letter of a column says.
pub open spec fn identity_of(letter: Seq<char>) -> Option<IdentityGeneration> {
    if letter == "a"@ {
        Some(IdentityGeneration::Always)
    } else if letter == "d"@ {
        Some(IdentityGeneration::ByDefault)
    } else {
        None
    }
}

/// Whether a column says what its row says.
pub open spec fn is_column(
    c: Column,
    row: ColumnRow,
    enums: Map<Seq<char>, Seq<Seq<char>>>,
) -> bool {
    &&& c.name == row.name
    &&& c.ordinal_position == row.ordinal_position as u32
    &&& c.data_type.category@ == types::pg_category(row.native_type@, enums)
    &&& c.data_type.native_type == row.native_type
    &&& c.nullable == row.nullable
    &&& c.default == row.default_expr
    &&& c.is_identity == identity_of(row.identity@) is Some
    &&& c.identity_generation == identity_of(row.identity@)
    &&& c.comment == row.comment
}

/// The column that a row describes.
pub fn column(row: ColumnRow, enum_types: &EnumTypes) -> (r: Column)
    ensures
        is_column(r, row, enum_types@),
        r.name == row.name,
        r.ordinal_position == row.ordinal_position as u32,
        r.data_type.category@ == types::pg_category(row.native_type@, enum_types@),
        r.data_type.native_type == row.native_type,
        r.nullable == row.nullable,
        r.default == row.default_expr,
        r.is_identity == identity_of(row.identity@) is Some,
        r.identity_generation == identity_of(row.identity@),
        r.comment == row.comment,
{
    let category = types::map_pg_type(row.native_type.as_str(), enum_types);
    let identity_generation = if text::same_text(row.identity.as_str(), "a") {
        Some(IdentityGeneration::Always)
    } else if text::same_text(row.identity.as_str(), "d") {
        Some(IdentityGeneration::ByDefault)
    } else {
        None
    };
    Column {
        name: row.name,
        ordinal_position: row.ordinal_position as u32,
        data_type: DataType { category, native_type: row.native_type },
        nullable: row.nullable,
        default: row.default_expr,
        is_identity: identity_generation.is_some(),
        identity_generation,
        comment: row.comment,
    }
}

// ---------------------------------------------------------------------------
// Constraints
// ---------------------------------------------------------------------------

/// A column's number and name.
#[derive(Debug, Clone)]
pub struct AttributeRow {
    pub attnum: i16,
    pub attname: String,
}

/// The name of a column by its number: that of the last row with the number.
pub open spec fn name_of(rows: Seq<AttributeRow>, attnum: i16) -> Option<Seq<char>>
    decreases rows.len(),
{
    if rows.len() == 0 {
        None
    } else if rows.last().attnum == attnum {
        Some(rows.last().attname@)
    } else {
        name_of(rows.drop_last(), attnum)
    }
}

/// What is said of a column number without a name.
pub open spec fn missing_column_text(attnum: i16, relid: i64) -> Seq<char> {
    "column attnum "@ + number::int_text(attnum as int) + " not found for relid "@
        + number::int_text(relid as int)
}

/// Whether `i` is the first of the numbers that has no name.
pub open spec fn first_unnamed(rows: Seq<AttributeRow>, attnums: Seq<i16>, i: int) -> bool {
    &&& 0 <= i < attnums.len()
    &&& name_of(rows, attnums[i]) is None
    &&& forall|k: int| 0 <= k < i ==> name_of(rows, #[trigger] attnums[k]) is Some
}

fn lookup(rows: &Vec<AttributeRow>, attnum: i16) -> (r: Option<String>)
    ensures
        match r {
            Some(name) => name_of(rows@, attnum) == Some(name@),
            None => name_of(rows@, attnum) is None,
        },
{
    let mut i: usize = rows.len();
    assert(rows@.take(i as int) =~= rows@);
    while i > 0
        invariant
            i <= rows@.len(),
            name_of(rows@, attnum) == name_of(rows@.take(i as int), attnum),
        decreases i,
    {
        i = i - 1;
        assert(rows@.take(i + 1).last() == rows@[i as int]);
        assert(rows@.take(i + 1).drop_last() =~= rows@.take(i as int));
        if rows[i].attnum == attnum {
            return Some(rows[i].attname.clone());
        }
    }
    None
}

/// The names of columns by their numbers, in the order of the numbers. Fails
/// on the first number that has no name.
pub fn resolve_column_names(relid: i64, attnums: &[i16], rows: &Vec<AttributeRow>) -> (r: Result<
    Vec<String>,
    DdbCoreError,
>)
    ensures
        match r {
            Ok(names) => {
                &&& names@.len() == attnums@.len()
                &&& forall|i: int|
                    0 <= i < attnums@.len() ==> name_of(rows@, #[trigger] attnums@[i]) == Some(
                        names@[i]@,
                    )
            },
            Err(e) => exists|i: int| #[trigger]
                first_unnamed(rows@, attnums@, i) && e.is_reflection(
                    missing_column_text(attnums@[i], relid),
                ),
        },
{
    let mut names: Vec<String> = Vec::new();
    for i in 0..attnums.len()
        invariant
            names@.len() == i,
            forall|k: int|
                0 <= k < i ==> name_of(rows@, #[trigger] attnums@[k]) == Some(names@[k]@),
    {
        match lookup(rows, attnums[i]) {
            Some(name) => names.push(name),
            None => {
                let mut message = "column attnum ".to_string();
                number::push_int(&mut message, attnums[i] as i64);
                message.append(" not found for relid ");
                number::push_int(&mut message, relid);
                assert(first_unnamed(rows@, attnums@, i as int));
                assert(message@ =~= missing_column_text(attnums@[i as int], relid));
                return Err(DdbCoreError::Reflection(message));
            },
        }
    }
    Ok(names)
}

/// What the letter of a referential action says; anything else is taken for
/// no action.
pub open spec fn action_of(letter: Seq<char>) -> ReferentialAction {
    if letter == "r"@ {
        ReferentialAction::Restrict
    } else if letter == "c"@ {
        ReferentialAction::Cascade
    } else if letter == "n"@ {
        ReferentialAction::SetNull
    } else if letter == "d"@ {
        ReferentialAction::SetDefault
    } else {
        ReferentialAction::NoAction
    }
}

/// What the letter of a referential action says.
pub fn map_ref_action(letter: &str) -> (r: ReferentialAction)
    ensures
        r == action_of(letter@),
{
    if text::same_text(letter, "r") {
        ReferentialAction::Restrict
    } else if text::same_text(letter, "c") {
        ReferentialAction::Cascade
    } else if text::same_text(letter, "n") {
        ReferentialAction::SetNull
    } else if text::same_text(letter, "d") {
        ReferentialAction::SetDefault
    } else {
        ReferentialAction::NoAction
    }
}

/// A foreign key, with its columns by number.
#[derive(Debug, Clone)]
pub struct ForeignKeyRow {
    pub conname: String,
    pub conrelid: i64,
    pub conkey: Vec<i16>,
    pub confrelid: i64,
    pub confkey: Vec<i16>,
    pub confupdtype: String,
    pub confdeltype: String,
    pub ref_schema: String,
    pub ref_table: String,
}

/// Whether a foreign key says what its row says.
pub open spec fn is_foreign_key(
    key: ForeignKey,
    row: ForeignKeyRow,
    own: Seq<AttributeRow>,
    referenced: Seq<AttributeRow>,
) -> bool {
    &&& key.name == row.conname
    &&& key.columns@.len() == row.conkey@.len()
    &&& forall|i: int|
        0 <= i < row.conkey@.len() ==> name_of(own, #[trigger] row.conkey@[i]) == Some(
            key.columns@[i]@,
        )
    &&& key.referenced_schema == row.ref_schema
    &&& key.referenced_table == row.ref_table
    &&& key.referenced_columns@.len() == row.confkey@.len()
    &&& forall|i: int|
        0 <= i < row.confkey@.len() ==> name_of(referenced, #[trigger] row.confkey@[i]) == Some(
            key.referenced_columns@[i]@,
        )
    &&& key.on_delete == action_of(row.confdeltype@)
    &&& key.on_update == action_of(row.confupdtype@)
}

/// The foreign key that a row describes, from the names of the columns on
/// either side.
pub fn foreign_key(
    row: ForeignKeyRow,
    own: &Vec<AttributeRow>,
    referenced: &Vec<AttributeRow>,
) -> (r: Result<ForeignKey, DdbCoreError>)
    ensures
        match r {
            Ok(key) => {
                &&& is_foreign_key(key, row, own@, referenced@)
                &&& key.name == row.conname
                &&& key.columns@.len() == row.conkey@.len()
                &&& forall|i: int|
                    0 <= i < row.conkey@.len() ==> name_of(own@, #[trigger] row.conkey@[i])
                        == Some(key.columns@[i]@)
                &&& key.referenced_schema == row.ref_schema
                &&& key.referenced_table == row.ref_table
                &&& key.referenced_columns@.len() == row.confkey@.len()
                &&& forall|i: int|
                    0 <= i < row.confkey@.len() ==> name_of(
                        referenced@,
                        #[trigger] row.confkey@[i],
                    ) == Some(key.referenced_columns@[i]@)
                &&& key.on_delete == action_of(row.confdeltype@)
                &&& key.on_update == action_of(row.confupdtype@)
            },
            Err(e) => {
                ||| exists|i: int| #[trigger]
                    first_unnamed(own@, row.conkey@, i) && e.is_reflection(
                        missing_column_text(row.conkey@[i], row.conrelid),
                    )
                ||| {
                    &&& forall|i: int|
                        0 <= i < row.conkey@.len() ==> name_of(
                            own@,
                            #[trigger] row.conkey@[i],
                        ) is Some
                    &&& exists|i: int| #[trigger]
                        first_unnamed(referenced@, row.confkey@, i) && e.is_reflection(
                            missing_column_text(row.confkey@[i], row.confrelid),
                        )
                }
            },
        },
{
    let columns = match resolve_column_names(row.conrelid, row.conkey.as_slice(), own) {
        Ok(names) => names,
        Err(e) => {
            return Err(e);
        },
    };
    let referenced_columns = match resolve_column_names(
        row.confrelid,
        row.confkey.as_slice(),
        referenced,
    ) {
        Ok(names) => names,
        Err(e) => {
            return Err(e);
        },
    };
    let on_delete = map_ref_action(row.confdeltype.as_str());
    let on_update = map_ref_action(row.confupdtype.as_str());
    Ok(
        ForeignKey {
            name: row.conname,
            columns,
            referenced_schema: row.ref_schema,
            referenced_table: row.ref_table,
            referenced_columns,
            on_delete,
            on_update,
        },
    )
}

/// `s` without `p` at its end, where it ends so.
pub open spec fn without_suffix(s: Seq<char>, p: Seq<char>) -> Seq<char> {
    if text::ends_with(s, p) {
        s.take(s.len() - p.len())
    } else {
        s
    }
}

/// A constraint's definition without the marks behind it: that rows of before
/// were not checked, and that partitions do not inherit it.
pub open spec fn unmarked(t: Seq<char>) -> Seq<char> {
    without_suffix(without_suffix(t, " NOT VALID"@), " NO INHERIT"@)
}

/// The bare expression of a check constraint: what stands between `CHECK (`
/// and the `)` in front of its marks, and the definition itself where it is
/// not framed so.
pub open spec fn check_expression(definition: Seq<char>) -> Seq<char> {
    let t = unmarked(text::trimmed(definition));
    if text::starts_with(t, "CHECK ("@) && text::ends_with(t.skip(7), ")"@) {
        t.subrange(7, t.len() - 1)
    } else {
        definition
    }
}

fn strip_suffix<'a>(s: &'a [char], p: &str) -> (r: &'a [char])
    ensures
        r@ == without_suffix(s@, p@),
{
    if text::has_suffix(s, p) {
        let n: usize = s.len() - p.unicode_len();
        let r = vstd::slice::slice_subrange(s, 0, n);
        assert(r@ =~= s@.take(n as int));
        r
    } else {
        s
    }
}

/// The check constraint with this name and definition.
pub fn check_constraint(name: String, definition: String) -> (r: CheckConstraint)
    ensures
        r.name == name,
        r.expression@ == check_expression(definition@),
{
    let chars = text::chars_of(definition.as_str());
    let t = strip_suffix(
        strip_suffix(text::trim(chars.as_slice()), " NOT VALID"),
        " NO INHERIT",
    );
    proof {
        reveal_strlit("CHECK (");
        reveal_strlit(")");
    }
    if text::has_prefix(t, "CHECK (") {
        let rest = vstd::slice::slice_subrange(t, 7, t.len());
        assert(rest@ =~= t@.skip(7));
        if text::has_suffix(rest, ")") {
            let inner = vstd::slice::slice_subrange(t, 7, t.len() - 1);
            assert(inner@ =~= t@.subrange(7, t@.len() - 1));
            return CheckConstraint { name, expression: text::string_of(inner) };
        }
    }
    CheckConstraint { name, expression: definition }
}

/// Where two texts end differently, neither's end is the other.
proof fn lemma_other_end(s: Seq<char>, p: Seq<char>)
    requires
        s.len() > 0,
        p.len() > 0,
        s.last() != p.last(),
    ensures
        without_suffix(s, p) == s,
{
    if text::ends_with(s, p) {
        assert(s.skip(s.len() - p.len()).last() == s.last());
    }
}

proof fn lemma_own_end(s: Seq<char>, p: Seq<char>)
    ensures
        without_suffix(s + p, p) == s,
{
    assert((s + p).skip(s.len() as int) =~= p);
    assert((s + p).take(s.len() as int) =~= s);
}

proof fn lemma_framed(expression: Seq<char>)
    ensures
        ({
            let framed = "CHECK ("@ + expression + ")"@;
            &&& framed.len() >= 8
            &&& framed[0] == 'C'
            &&& framed.last() == ')'
            &&& text::starts_with(framed, "CHECK ("@)
            &&& text::ends_with(framed.skip(7), ")"@)
            &&& framed.subrange(7, framed.len() - 1) == expression
        }),
{
    reveal_strlit("CHECK (");
    reveal_strlit(")");
    let framed = "CHECK ("@ + expression + ")"@;
    assert(framed.take(7) =~= "CHECK ("@);
    assert(framed.skip(7).skip(framed.skip(7).len() - 1) =~= ")"@);
    assert(framed.subrange(7, framed.len() - 1) =~= expression);
}

/// Every expression comes back from its definition as it was framed, with
/// either mark behind it, with both, and with none.
pub proof fn lemma_check_expression(expression: Seq<char>)
    ensures
        check_expression("CHECK ("@ + expression + ")"@) == expression,
        check_expression("CHECK ("@ + expression + ")"@ + " NOT VALID"@) == expression,
        check_expression("CHECK ("@ + expression + ")"@ + " NO INHERIT"@) == expression,
        check_expression("CHECK ("@ + expression + ")"@ + " NO INHERIT"@ + " NOT VALID"@)
            == expression,
{
    reveal_strlit(" NOT VALID");
    reveal_strlit(" NO INHERIT");
    let framed = "CHECK ("@ + expression + ")"@;
    lemma_framed(expression);
    lemma_other_end(framed, " NOT VALID"@);
    lemma_other_end(framed, " NO INHERIT"@);
    assert(text::trimmed(framed) == framed);
    assert(unmarked(framed) == framed);

    let invalid = framed + " NOT VALID"@;
    lemma_own_end(framed, " NOT VALID"@);
    assert(invalid[0] == 'C' && invalid.last() == 'D');
    assert(text::trimmed(invalid) == invalid);
    assert(unmarked(invalid) == framed);

    let own = framed + " NO INHERIT"@;
    lemma_own_end(framed, " NO INHERIT"@);
    assert(own[0] == 'C' && own.last() == 'T');
    lemma_other_end(own, " NOT VALID"@);
    assert(text::trimmed(own) == own);
    assert(unmarked(own) == framed);

    let both = own + " NOT VALID"@;
    lemma_own_end(own, " NOT VALID"@);
    assert(both[0] == 'C' && both.last() == 'D');
    assert(text::trimmed(both) == both);
    assert(unmarked(both) == framed);
}

// ---------------------------------------------------------------------------
// Indexes
// ---------------------------------------------------------------------------

/// The columns of an index, in order. Their direction is not known, and all
/// count as ascending.
pub fn index_columns(names: Vec<String>) -> (r: Vec<IndexColumn>)
    ensures
        r@.len() == names@.len(),
        forall|i: int|
            0 <= i < r@.len() ==> (#[trigger] r@[i]).name@ == names@[i]@ && !r@[i].descending,
{
    let mut columns: Vec<IndexColumn> = Vec::new();
    for i in 0..names.len()
        invariant
            columns@.len() == i,
            forall|k: int|
                0 <= k < i ==> (#[trigger] columns@[k]).name@ == names@[k]@
                    && !columns@[k].descending,
    {
        columns.push(IndexColumn { name: names[i].clone(), descending: false });
    }
    columns
}

// ---------------------------------------------------------------------------
// Triggers
// ---------------------------------------------------------------------------

/// Whether a trigger's type has a bit set.
pub open spec fn has_bit(tgtype: i16, mask: u16) -> bool {
    (tgtype as u16) & mask != 0
}

/// When a trigger fires.
pub open spec fn timing_of(tgtype: i16) -> TriggerTiming {
    if has_bit(tgtype, 0x40) {
        TriggerTiming::InsteadOf
    } else if has_bit(tgtype, 0x02) {
        TriggerTiming::Before
    } else {
        TriggerTiming::After
    }
}

/// The event, where its bit is set.
pub open spec fn event_if(tgtype: i16, mask: u16, event: TriggerEvent) -> Seq<TriggerEvent> {
    if has_bit(tgtype, mask) {
        seq![event]
    } else {
        Seq::<TriggerEvent>::empty()
    }
}

/// The events that a trigger fires on.
pub open spec fn events_of(tgtype: i16) -> Seq<TriggerEvent> {
    event_if(tgtype, 0x04, TriggerEvent::Insert) + event_if(tgtype, 0x08, TriggerEvent::Delete)
        + event_if(tgtype, 0x10, TriggerEvent::Update) + event_if(
        tgtype,
        0x20,
        TriggerEvent::Truncate,
    )
}

/// When a trigger fires, and on which events.
pub fn decode_trigger_type(tgtype: i16) -> (r: (TriggerTiming, Vec<TriggerEvent>))
    ensures
        r.0 == timing_of(tgtype),
        r.1@ == events_of(tgtype),
{
    let bits: u16 = tgtype as u16;
    let timing = if bits & 0x40 != 0 {
        TriggerTiming::InsteadOf
    } else if bits & 0x02 != 0 {
        TriggerTiming::Before
    } else {
        TriggerTiming::After
    };
    let mut events: Vec<TriggerEvent> = Vec::new();
    if bits & 0x04 != 0 {
        events.push(TriggerEvent::Insert);
    }
    if bits & 0x08 != 0 {
        events.push(TriggerEvent::Delete);
    }
    if bits & 0x10 != 0 {
        events.push(TriggerEvent::Update);
    }
    if bits & 0x20 != 0 {
        events.push(TriggerEvent::Truncate);
    }
    assert(events@ =~= events_of(tgtype));
    (timing, events)
}

/// A trigger, with its type as the catalog has it.
#[derive(Debug, Clone)]
pub struct TriggerRow {
    pub tgname: String,
    pub tgtype: i16,
    pub function_name: String,
    pub definition: String,
}

/// Whether a trigger says what its row says.
pub open spec fn is_trigger(t: Trigger, row: TriggerRow) -> bool {
    &&& t.name == row.tgname
    &&& t.timing == timing_of(row.tgtype)
    &&& t.events@ == events_of(row.tgtype)
    &&& t.function_name == Some(row.function_name)
    &&& t.body == Some(row.definition)
}

/// The trigger that a row describes.
pub fn trigger(row: TriggerRow) -> (r: Trigger)
    ensures
        is_trigger(r, row),
        r.name == row.tgname,
        r.timing == timing_of(row.tgtype),
        r.events@ == events_of(row.tgtype),
        r.function_name == Some(row.function_name),
        r.body == Some(row.definition),
{
    let (timing, events) = decode_trigger_type(row.tgtype);
    Trigger {
        name: row.tgname,
        timing,
        events,
        function_name: Some(row.function_name),
        body: Some(row.definition),
    }
}

// ---------------------------------------------------------------------------
// Tables
// ---------------------------------------------------------------------------

/// A table's own row.
#[derive(Debug, Clone)]
pub struct TableRow {
    pub relname: String,
    pub partition_key: Option<String>,
    pub parent_schema: Option<String>,
    pub parent_name: Option<String>,
}

/// What else was reflected of a table.
#[derive(Debug, Clone)]
pub struct TableParts {
    pub columns: Vec<Column>,
    pub primary_key: Option<PrimaryKey>,
    pub foreign_keys: Vec<ForeignKey>,
    pub unique_constraints: Vec<UniqueConstraint>,
    pub check_constraints: Vec<CheckConstraint>,
    pub exclusion_constraints: Vec<ExclusionConstraint>,
    pub indexes: Vec<Index>,
    pub triggers: Vec<Trigger>,
    pub comment: Option<String>,
}

/// Whether a table says what its row and its parts say.
pub open spec fn is_table(t: Table, schema: Seq<char>, row: TableRow, parts: TableParts) -> bool {
    &&& t.schema@ == schema
    &&& t.name == row.relname
    &&& t.columns == parts.columns
    &&& t.primary_key == parts.primary_key
    &&& t.foreign_keys == parts.foreign_keys
    &&& t.unique_constraints == parts.unique_constraints
    &&& t.check_constraints == parts.check_constraints
    &&& t.exclusion_constraints == parts.exclusion_constraints
    &&& t.indexes == parts.indexes
    &&& t.triggers == parts.triggers
    &&& t.comment == parts.comment
    &&& t.partition_key == row.partition_key
    &&& t.partition_parent == (match (row.parent_schema, row.parent_name) {
        (Some(schema), Some(name)) => Some((TableRef { schema, name })),
        _ => None,
    })
}

/// The table that a row and its parts describe. It is a partition where both
/// names of its parent are given.
pub fn table(schema: &str, row: TableRow, parts: TableParts) -> (r: Table)
    ensures
        is_table(r, schema@, row, parts),
        r.schema@ == schema@,
        r.name == row.relname,
        r.columns == parts.columns,
        r.primary_key == parts.primary_key,
        r.foreign_keys == parts.foreign_keys,
        r.unique_constraints == parts.unique_constraints,
        r.check_constraints == parts.check_constraints,
        r.exclusion_constraints == parts.exclusion_constraints,
        r.indexes == parts.indexes,
        r.triggers == parts.triggers,
        r.comment == parts.comment,
        r.partition_key == row.partition_key,
        r.partition_parent == (match (row.parent_schema, row.parent_name) {
            (Some(schema), Some(name)) => Some((TableRef { schema, name })),
            _ => None,
        }),
{
    let partition_parent = match (row.parent_schema, row.parent_name) {
        (Some(schema), Some(name)) => Some(TableRef { schema, name }),
        _ => None,
    };
    Table {
        schema: schema.to_string(),
        name: row.relname,
        columns: parts.columns,
        primary_key: parts.primary_key,
        foreign_keys: parts.foreign_keys,
        unique_constraints: parts.unique_constraints,
        check_constraints: parts.check_constraints,
        exclusion_constraints: parts.exclusion_constraints,
        indexes: parts.indexes,
        triggers: parts.triggers,
        comment: parts.comment,
        partition_key: row.partition_key,
        partition_parent,
    }
}

// ---------------------------------------------------------------------------
// Sequences and functions
// ---------------------------------------------------------------------------

/// A sequence.
#[derive(Debug, Clone)]
pub struct SequenceRow {
    pub sequencename: String,
    pub data_type: String,
    pub start_value: i64,
    pub increment_by: i64,
    pub min_value: Option<i64>,
    pub max_value: Option<i64>,
    pub cycle: bool,
}

/// Whether a sequence says what its row says.
pub open spec fn is_sequence(s: Sequence, schema: Seq<char>, row: SequenceRow) -> bool {
    &&& s.schema@ == schema
    &&& s.name == row.sequencename
    &&& s.data_type.category@ == types::pg_category(row.data_type@, Map::empty())
    &&& s.data_type.native_type == row.data_type
    &&& s.start_value == row.start_value
    &&& s.increment == row.increment_by
    &&& s.min_value == row.min_value
    &&& s.max_value == row.max_value
    &&& s.cycle == row.cycle
}

/// The sequence that a row describes.
pub fn sequence(schema: &str, row: SequenceRow) -> (r: Sequence)
    ensures
        is_sequence(r, schema@, row),
        r.schema@ == schema@,
        r.name == row.sequencename,
        r.data_type.category@ == types::pg_category(row.data_type@, Map::empty()),
        r.data_type.native_type == row.data_type,
        r.start_value == row.start_value,
        r.increment == row.increment_by,
        r.min_value == row.min_value,
        r.max_value == row.max_value,
        r.cycle == row.cycle,
{
    let enums = EnumTypes::new();
    let category = types::map_pg_type(row.data_type.as_str(), &enums);
    Sequence {
        schema: schema.to_string(),
        name: row.sequencename,
        data_type: DataType { category, native_type: row.data_type },
        start_value: row.start_value,
        increment: row.increment_by,
        min_value: row.min_value,
        max_value: row.max_value,
        cycle: row.cycle,
    }
}

/// A function or procedure.
#[derive(Debug, Clone)]
pub struct FunctionRow {
    pub name: String,
    pub args: String,
    pub return_type: Option<String>,
    pub language: String,
    pub body: Option<String>,
}

/// Whether a function says what its row says.
pub open spec fn is_function(f: Function, schema: Seq<char>, row: FunctionRow) -> bool {
    &&& f.schema@ == schema
    &&& f.name == row.name
    &&& f.arguments@ == (if text::trimmed(row.args@).len() == 0 {
        Seq::<FunctionArgument>::empty()
    } else {
        seq![(FunctionArgument { name: None, native_type: row.args })]
    })
    &&& f.return_type == row.return_type
    &&& f.language == row.language
    &&& f.body == row.body
}

/// The function that a row describes. Its arguments are one signature string,
/// and none where that is blank.
pub fn function(schema: &str, row: FunctionRow) -> (r: Function)
    ensures
        is_function(r, schema@, row),
        r.schema@ == schema@,
        r.name == row.name,
        r.arguments@ == (if text::trimmed(row.args@).len() == 0 {
            Seq::<FunctionArgument>::empty()
        } else {
            seq![(FunctionArgument { name: None, native_type: row.args })]
        }),
        r.return_type == row.return_type,
        r.language == row.language,
        r.body == row.body,
{
    let chars = text::chars_of(row.args.as_str());
    let mut arguments: Vec<FunctionArgument> = Vec::new();
    if text::trim(chars.as_slice()).len() > 0 {
        arguments.push(FunctionArgument { name: None, native_type: row.args });
    }
    Function {
        schema: schema.to_string(),
        name: row.name,
        arguments,
        return_type: row.return_type,
        language: row.language,
        body: row.body,
    }
}

} // verus!
