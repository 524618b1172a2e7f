//! What PostgreSQL's catalog says when it is read: its letters, its numbers and
//! its bits mean what they say.
use vstd::prelude::*;

use crate::postgres::reflect;
use crate::postgres::reflect::{
    AttributeRow, ColumnRow, EnumLabelRow, ForeignKeyRow, FunctionRow, SequenceRow, TableParts,
    TableRow, TriggerRow,
};
use crate::schema::{
    Column, ForeignKey, Function, IdentityGeneration, ReferentialAction, Sequence, Table, Trigger,
    TriggerEvent, TriggerTiming,
};
use crate::text;

verus! {

// ---------------------------------------------------------------------------
// Letters
// ---------------------------------------------------------------------------

/// The letter by which the catalog calls a referential action.
pub open spec fn action_letter(action: ReferentialAction) -> char {
    match action {
        ReferentialAction::NoAction => 'a',
        ReferentialAction::Restrict => 'r',
        ReferentialAction::Cascade => 'c',
        ReferentialAction::SetNull => 'n',
        ReferentialAction::SetDefault => 'd',
    }
}

/// The letter by which the catalog calls a generated key.
pub open spec fn identity_letter(identity: IdentityGeneration) -> char {
    match identity {
        IdentityGeneration::Always => 'a',
        IdentityGeneration::ByDefault => 'd',
    }
}

/// An action and a generated key are read from their letters, and from no
/// others: what has no letter is no action, and no generated key.
pub proof fn lemma_letters(
    action: ReferentialAction,
    identity: IdentityGeneration,
    letter: Seq<char>,
)
    ensures
        reflect::action_of(seq![action_letter(action)]) == action,
        reflect::identity_of(seq![identity_letter(identity)]) == Some(identity),
        reflect::action_of(letter) != ReferentialAction::NoAction ==> letter == seq![
            action_letter(reflect::action_of(letter)),
        ],
        reflect::identity_of(letter) matches Some(found) ==> letter == seq![
            identity_letter(found),
        ],
{
    reveal_strlit("a");
    reveal_strlit("r");
    reveal_strlit("c");
    reveal_strlit("n");
    reveal_strlit("d");
    assert("a"@ =~= seq!['a']);
    assert("r"@ =~= seq!['r']);
    assert("c"@ =~= seq!['c']);
    assert("n"@ =~= seq!['n']);
    assert("d"@ =~= seq!['d']);
    assert(seq![action_letter(action)][0] == action_letter(action));
    assert(seq![identity_letter(identity)][0] == identity_letter(identity));
    assert("a"@[0] == 'a' && "r"@[0] == 'r' && "c"@[0] == 'c' && "n"@[0] == 'n' && "d"@[0] == 'd');
}

// ---------------------------------------------------------------------------
// Bits
// ---------------------------------------------------------------------------

/// The type of a trigger as the catalog builds it: a bit for firing once for
/// each row, one each for before and instead of, and one for each event.
pub open spec fn trigger_type(
    each_row: bool,
    timing: TriggerTiming,
    insert: bool,
    delete: bool,
    update: bool,
    truncate: bool,
) -> int {
    (if each_row {
        1int
    } else {
        0
    }) + (match timing {
        TriggerTiming::Before => 2int,
        TriggerTiming::After => 0,
        TriggerTiming::InsteadOf => 64,
    }) + (if insert {
        4int
    } else {
        0
    }) + (if delete {
        8int
    } else {
        0
    }) + (if update {
        16int
    } else {
        0
    }) + (if truncate {
        32int
    } else {
        0
    })
}

/// A trigger fires when its type says, and on exactly the events that its type
/// names, each once.
#[verifier::spinoff_prover]
#[verifier::rlimit(40)]
pub proof fn lemma_trigger_type(
    each_row: bool,
    timing: TriggerTiming,
    insert: bool,
    delete: bool,
    update: bool,
    truncate: bool,
    tgtype: i16,
)
    requires
        tgtype == trigger_type(each_row, timing, insert, delete, update, truncate),
    ensures
        reflect::timing_of(tgtype) == timing,
        reflect::events_of(tgtype).contains(TriggerEvent::Insert) == insert,
        reflect::events_of(tgtype).contains(TriggerEvent::Delete) == delete,
        reflect::events_of(tgtype).contains(TriggerEvent::Update) == update,
        reflect::events_of(tgtype).contains(TriggerEvent::Truncate) == truncate,
        reflect::events_of(tgtype).no_duplicates(),
{
    let bits = tgtype as u16;
    assert(0 <= tgtype < 128);
    assert(bits == tgtype);
    lemma_bits(bits);
    let b = bits as int;
    assert((b / 2) % 2 == 1 <==> timing == TriggerTiming::Before);
    assert((b / 64) % 2 == 1 <==> timing == TriggerTiming::InsteadOf);
    assert((b / 4) % 2 == 1 <==> insert);
    assert((b / 8) % 2 == 1 <==> delete);
    assert((b / 16) % 2 == 1 <==> update);
    assert((b / 32) % 2 == 1 <==> truncate);
    lemma_events(tgtype);
}

proof fn lemma_bits(bits: u16)
    requires
        bits < 128,
    ensures
        bits & 0x02 != 0 <==> (bits as int / 2) % 2 == 1,
        bits & 0x04 != 0 <==> (bits as int / 4) % 2 == 1,
        bits & 0x08 != 0 <==> (bits as int / 8) % 2 == 1,
        bits & 0x10 != 0 <==> (bits as int / 16) % 2 == 1,
        bits & 0x20 != 0 <==> (bits as int / 32) % 2 == 1,
        bits & 0x40 != 0 <==> (bits as int / 64) % 2 == 1,
{
    assert(bits & 0x02 != 0 <==> (bits / 2) % 2 == 1) by (bit_vector);
    assert(bits & 0x04 != 0 <==> (bits / 4) % 2 == 1) by (bit_vector);
    assert(bits & 0x08 != 0 <==> (bits / 8) % 2 == 1) by (bit_vector);
    assert(bits & 0x10 != 0 <==> (bits / 16) % 2 == 1) by (bit_vector);
    assert(bits & 0x20 != 0 <==> (bits / 32) % 2 == 1) by (bit_vector);
    assert(bits & 0x40 != 0 <==> (bits / 64) % 2 == 1) by (bit_vector);
}

proof fn lemma_events(tgtype: i16)
    ensures
        reflect::events_of(tgtype).contains(TriggerEvent::Insert) == reflect::has_bit(tgtype, 0x04),
        reflect::events_of(tgtype).contains(TriggerEvent::Delete) == reflect::has_bit(tgtype, 0x08),
        reflect::events_of(tgtype).contains(TriggerEvent::Update) == reflect::has_bit(tgtype, 0x10),
        reflect::events_of(tgtype).contains(TriggerEvent::Truncate) == reflect::has_bit(
            tgtype,
            0x20,
        ),
        reflect::events_of(tgtype).no_duplicates(),
{
    let a = reflect::event_if(tgtype, 0x04, TriggerEvent::Insert);
    let b = reflect::event_if(tgtype, 0x08, TriggerEvent::Delete);
    let c = reflect::event_if(tgtype, 0x10, TriggerEvent::Update);
    let d = reflect::event_if(tgtype, 0x20, TriggerEvent::Truncate);
    let all = reflect::events_of(tgtype);
    assert(all == a + b + c + d);
    if a.len() > 0 {
        assert(all[0] == TriggerEvent::Insert);
    }
    if b.len() > 0 {
        assert(all[a.len() as int] == TriggerEvent::Delete);
    }
    if c.len() > 0 {
        assert(all[a.len() + b.len() as int] == TriggerEvent::Update);
    }
    if d.len() > 0 {
        assert(all[a.len() + b.len() + c.len() as int] == TriggerEvent::Truncate);
    }
}

// ---------------------------------------------------------------------------
// Names and labels
// ---------------------------------------------------------------------------

/// A column has the name that stands beside its number, where no later row has
/// the same number; a number that no row has, has no name.
pub proof fn lemma_name_of(rows: Seq<AttributeRow>, attnum: i16)
    ensures
        forall|i: int|
            0 <= i < rows.len() && (#[trigger] rows[i]).attnum == attnum && (forall|k: int|
                i < k < rows.len() ==> (#[trigger] rows[k]).attnum != attnum)
                ==> reflect::name_of(rows, attnum) == Some(rows[i].attname@),
        reflect::name_of(rows, attnum) is Some <==> exists|i: int|
            0 <= i < rows.len() && (#[trigger] rows[i]).attnum == attnum,
    decreases rows.len(),
{
    if rows.len() > 0 {
        let front = rows.drop_last();
        let last = rows.len() - 1;
        lemma_name_of(front, attnum);
        assert(rows[last] == rows.last());
        assert forall|i: int|
            0 <= i < rows.len() && (#[trigger] rows[i]).attnum == attnum && (forall|k: int|
                i < k < rows.len() ==> (#[trigger] rows[k]).attnum != attnum)
            implies reflect::name_of(rows, attnum) == Some(rows[i].attname@) by {
            if i < last {
                assert(rows[last].attnum != attnum);
                assert(front[i] == rows[i]);
                assert forall|k: int| i < k < front.len() implies (#[trigger] front[k]).attnum
                    != attnum by {
                    assert(front[k] == rows[k]);
                }
            }
        }
        if reflect::name_of(rows, attnum) is Some && rows.last().attnum != attnum {
            let i = choose|i: int| 0 <= i < front.len() && (#[trigger] front[i]).attnum == attnum;
            assert(rows[i].attnum == attnum);
        }
        if exists|i: int| 0 <= i < rows.len() && (#[trigger] rows[i]).attnum == attnum {
            let i = choose|i: int| 0 <= i < rows.len() && (#[trigger] rows[i]).attnum == attnum;
            if i < last {
                assert(front[i].attnum == attnum);
            }
        }
    }
}

/// How many labels of a type stand before a row.
pub open spec fn labels_before(rows: Seq<EnumLabelRow>, name: Seq<char>, i: int) -> nat
    decreases i,
{
    if i <= 0 {
        0
    } else {
        labels_before(rows, name, i - 1) + if rows[i - 1].typname@ == name {
            1nat
        } else {
            0nat
        }
    }
}

/// An enumeration has the labels of its rows, as many as there are rows and in
/// their order.
pub proof fn lemma_labels_keep_their_order(rows: Seq<EnumLabelRow>, name: Seq<char>)
    ensures
        reflect::labels_for(rows, name).len() == labels_before(rows, name, rows.len() as int),
        forall|i: int|
            0 <= i < rows.len() && (#[trigger] rows[i]).typname@ == name ==> {
                &&& labels_before(rows, name, i) < reflect::labels_for(rows, name).len()
                &&& reflect::labels_for(rows, name)[labels_before(rows, name, i) as int]
                    == rows[i].enumlabel@
            },
    decreases rows.len(),
{
    if rows.len() > 0 {
        let front = rows.drop_last();
        let last = rows.len() - 1;
        lemma_labels_keep_their_order(front, name);
        lemma_labels_prefix(rows, name, last);
        assert forall|i: int| 0 <= i < rows.len() && (#[trigger] rows[i]).typname@ == name implies {
            &&& labels_before(rows, name, i) < reflect::labels_for(rows, name).len()
            &&& reflect::labels_for(rows, name)[labels_before(rows, name, i) as int]
                == rows[i].enumlabel@
        } by {
            lemma_labels_prefix(rows, name, i);
            if i < last {
                assert(front[i] == rows[i]);
            }
        }
    }
}

proof fn lemma_labels_prefix(rows: Seq<EnumLabelRow>, name: Seq<char>, i: int)
    requires
        rows.len() > 0,
        0 <= i <= rows.len() - 1,
    ensures
        labels_before(rows, name, i) == labels_before(rows.drop_last(), name, i),
    decreases i,
{
    if i > 0 {
        lemma_labels_prefix(rows, name, i - 1);
        assert(rows.drop_last()[i - 1] == rows[i - 1]);
    }
}

// ---------------------------------------------------------------------------
// Nothing is lost
// ---------------------------------------------------------------------------

/// Nothing that the catalog says of a column is lost: rows that give the same
/// column say the same.
pub proof fn lemma_column_tells_its_row(
    c: Column,
    a: ColumnRow,
    b: ColumnRow,
    enums: Map<Seq<char>, Seq<Seq<char>>>,
)
    requires
        reflect::is_column(c, a, enums),
        reflect::is_column(c, b, enums),
    ensures
        a.name == b.name,
        a.native_type == b.native_type,
        a.nullable == b.nullable,
        a.default_expr == b.default_expr,
        a.comment == b.comment,
        a.ordinal_position == b.ordinal_position,
        a.identity@ == seq!['a'] <==> b.identity@ == seq!['a'],
        a.identity@ == seq!['d'] <==> b.identity@ == seq!['d'],
        c.is_identity <==> a.identity@ == seq!['a'] || a.identity@ == seq!['d'],
{
    lemma_letters(ReferentialAction::Cascade, IdentityGeneration::Always, a.identity@);
    lemma_letters(ReferentialAction::Cascade, IdentityGeneration::ByDefault, a.identity@);
    lemma_letters(ReferentialAction::Cascade, IdentityGeneration::Always, b.identity@);
    lemma_letters(ReferentialAction::Cascade, IdentityGeneration::ByDefault, b.identity@);
    let m = a.ordinal_position;
    let n = b.ordinal_position;
    assert(m as u32 == n as u32 ==> m == n) by (bit_vector);
}

/// Nothing that the catalog says of a foreign key is lost: rows that give the
/// same key refer from and to the same columns, and say the same actions.
pub proof fn lemma_foreign_key_tells_its_row(
    key: ForeignKey,
    a: ForeignKeyRow,
    b: ForeignKeyRow,
    own: Seq<AttributeRow>,
    referenced: Seq<AttributeRow>,
)
    requires
        reflect::is_foreign_key(key, a, own, referenced),
        reflect::is_foreign_key(key, b, own, referenced),
    ensures
        a.conname == b.conname,
        a.ref_schema == b.ref_schema,
        a.ref_table == b.ref_table,
        a.conkey@.len() == b.conkey@.len(),
        a.confkey@.len() == b.confkey@.len(),
        forall|i: int|
            0 <= i < a.conkey@.len() ==> reflect::name_of(own, #[trigger] a.conkey@[i])
                == reflect::name_of(own, b.conkey@[i]),
        forall|i: int|
            0 <= i < a.confkey@.len() ==> reflect::name_of(referenced, #[trigger] a.confkey@[i])
                == reflect::name_of(referenced, b.confkey@[i]),
        forall|action: ReferentialAction|
            action != ReferentialAction::NoAction ==> (#[trigger] seq![action_letter(action)]
                == a.confdeltype@ ==> key.on_delete == action && b.confdeltype@
                == a.confdeltype@) && (seq![action_letter(action)] == a.confupdtype@
                ==> key.on_update == action && b.confupdtype@ == a.confupdtype@),
{
    assert forall|i: int| 0 <= i < a.conkey@.len() implies reflect::name_of(
        own,
        #[trigger] a.conkey@[i],
    ) == reflect::name_of(own, b.conkey@[i]) by {
        assert(reflect::name_of(own, b.conkey@[i]) == Some(key.columns@[i]@));
    }
    assert forall|i: int| 0 <= i < a.confkey@.len() implies reflect::name_of(
        referenced,
        #[trigger] a.confkey@[i],
    ) == reflect::name_of(referenced, b.confkey@[i]) by {
        assert(reflect::name_of(referenced, b.confkey@[i]) == Some(key.referenced_columns@[i]@));
    }
    assert forall|action: ReferentialAction| action != ReferentialAction::NoAction implies (
    #[trigger] seq![action_letter(action)] == a.confdeltype@ ==> key.on_delete == action
        && b.confdeltype@ == a.confdeltype@) && (seq![action_letter(action)] == a.confupdtype@
        ==> key.on_update == action && b.confupdtype@ == a.confupdtype@) by {
        lemma_letters(action, IdentityGeneration::Always, b.confdeltype@);
        lemma_letters(action, IdentityGeneration::Always, b.confupdtype@);
    }
}

/// Nothing that the catalog says of a trigger is lost.
pub proof fn lemma_trigger_tells_its_row(t: Trigger, a: TriggerRow, b: TriggerRow)
    requires
        reflect::is_trigger(t, a),
        reflect::is_trigger(t, b),
    ensures
        a.tgname == b.tgname,
        a.function_name == b.function_name,
        a.definition == b.definition,
        reflect::timing_of(a.tgtype) == reflect::timing_of(b.tgtype),
        reflect::events_of(a.tgtype) == reflect::events_of(b.tgtype),
{
}

/// Nothing that was reflected of a table is lost: its parts are those of the
/// table, and it has a parent exactly where both names of one are given.
pub proof fn lemma_table_tells_its_parts(
    t: Table,
    schema: Seq<char>,
    row: TableRow,
    parts: TableParts,
    other: TableParts,
)
    requires
        reflect::is_table(t, schema, row, parts),
        reflect::is_table(t, schema, row, other),
    ensures
        parts == other,
        t.partition_parent is Some <==> row.parent_schema is Some && row.parent_name is Some,
        t.partition_parent matches Some(parent) ==> row.parent_schema == Some(parent.schema)
            && row.parent_name == Some(parent.name),
        t.partition_key == row.partition_key,
{
}

/// Nothing that the catalog says of a sequence or a function is lost; a
/// function's signature is blank exactly where it has no arguments.
pub proof fn lemma_sequence_and_function_tell_their_rows(
    s: Sequence,
    f: Function,
    schema: Seq<char>,
    a: SequenceRow,
    b: SequenceRow,
    c: FunctionRow,
    d: FunctionRow,
)
    requires
        reflect::is_sequence(s, schema, a),
        reflect::is_sequence(s, schema, b),
        reflect::is_function(f, schema, c),
        reflect::is_function(f, schema, d),
    ensures
        a == b,
        s.start_value == a.start_value,
        s.increment == a.increment_by,
        s.max_value == a.max_value,
        c.name == d.name,
        c.return_type == d.return_type,
        c.language == d.language,
        c.body == d.body,
        f.arguments@.len() == 0 <==> text::trimmed(c.args@).len() == 0,
        text::trimmed(c.args@).len() > 0 ==> f.arguments@.len() == 1 && f.arguments@[0].native_type
            == c.args && c.args == d.args,
{
    if text::trimmed(c.args@).len() > 0 {
        assert(f.arguments@[0].native_type == c.args);
    }
}

} // verus!
