//! What MySQL's catalog says when it is read: nothing is lost or moved when its
//! rows are grouped, and its words mean what they say.
use vstd::prelude::*;

use crate::case;
use crate::mysql::ddl;
use crate::mysql::definitions;
use crate::mysql::dialect;
use crate::mysql::reflect;
use crate::mysql::reflect::{ColumnRow, IndexRow, SequenceRow, TableParts, TriggerRow};
use crate::mysql::round_trip;
use crate::mysql::statements;
use crate::mysql::types;
use crate::schema::{
    Column, Index, ReferentialAction, Sequence, Table, Trigger, TriggerEvent, TriggerTiming,
};
use crate::sql;
use crate::text;
use crate::types::Category;

verus! {

// ---------------------------------------------------------------------------
// Grouping
// ---------------------------------------------------------------------------

/// How many rows before a place have a name.
pub open spec fn count_before(names: Seq<Seq<char>>, name: Seq<char>, i: int) -> nat
    decreases i,
{
    if i <= 0 {
        0
    } else {
        count_before(names, name, i - 1) + if names[i - 1] == name {
            1nat
        } else {
            0nat
        }
    }
}

/// The values beside a name are those of its rows, as many as there are rows
/// and in their order.
pub proof fn lemma_values_keep_their_order(
    names: Seq<Seq<char>>,
    values: Seq<Seq<char>>,
    name: Seq<char>,
)
    requires
        names.len() == values.len(),
    ensures
        reflect::beside(names, values, name).len() == count_before(
            names,
            name,
            names.len() as int,
        ),
        forall|i: int|
            0 <= i < names.len() && #[trigger] names[i] == name ==> {
                &&& count_before(names, name, i) < reflect::beside(names, values, name).len()
                &&& reflect::beside(names, values, name)[count_before(names, name, i) as int]
                    == values[i]
            },
    decreases names.len(),
{
    if names.len() > 0 {
        let front = names.drop_last();
        let rest = values.drop_last();
        let last = names.len() - 1;
        lemma_values_keep_their_order(front, rest, name);
        lemma_count_prefix(names, name, last);
        assert forall|i: int| 0 <= i < names.len() && #[trigger] names[i] == name implies {
            &&& count_before(names, name, i) < reflect::beside(names, values, name).len()
            &&& reflect::beside(names, values, name)[count_before(names, name, i) as int]
                == values[i]
        } by {
            lemma_count_prefix(names, name, i);
            if i < last {
                assert(front[i] == name);
                assert(rest[i] == values[i]);
            }
        }
    }
}

proof fn lemma_count_prefix(names: Seq<Seq<char>>, name: Seq<char>, i: int)
    requires
        names.len() > 0,
        0 <= i <= names.len() - 1,
    ensures
        count_before(names, name, i) == count_before(names.drop_last(), name, i),
    decreases i,
{
    if i > 0 {
        lemma_count_prefix(names, name, i - 1);
        assert(names.drop_last()[i - 1] == names[i - 1]);
    }
}

/// The names are in the order in which they first occur: where a name first
/// occurs, it stands behind exactly the names before it.
pub proof fn lemma_names_keep_their_order(names: Seq<Seq<char>>, i: int)
    requires
        0 <= i < names.len(),
        reflect::first_place(names, names[i], i),
    ensures
        reflect::distinct(names.take(i)).len() < reflect::distinct(names).len(),
        reflect::distinct(names)[reflect::distinct(names.take(i)).len() as int] == names[i],
    decreases names.len(),
{
    let front = names.drop_last();
    let last = names.len() - 1;
    if i == last {
        assert(names.take(i) =~= front);
        reflect::lemma_distinct(front);
        if reflect::distinct(front).contains(names[i]) {
            assert(front.contains(names[i]));
            let k = choose|k: int| 0 <= k < front.len() && front[k] == names[i];
            assert(names[k] == names[i]);
        }
    } else {
        assert(front.take(i) =~= names.take(i));
        assert(front[i] == names[i]);
        assert(reflect::first_place(front, front[i], i)) by {
            assert forall|k: int| 0 <= k < i implies #[trigger] front[k] != front[i] by {
                assert(front[k] == names[k]);
            }
        }
        lemma_names_keep_their_order(front, i);
    }
}

// ---------------------------------------------------------------------------
// Words
// ---------------------------------------------------------------------------

/// A referential rule is the action that a statement would be read to ask for
/// with the same words; any other rule is no action.
pub proof fn lemma_rule_says_its_action(rule: Seq<char>)
    ensures
        forall|action: ReferentialAction| #[trigger]
            round_trip::rule_says(rule, action) ==> reflect::action_of(rule) == action,
        reflect::action_of(rule) != ReferentialAction::NoAction ==> round_trip::rule_says(
            rule,
            reflect::action_of(rule),
        ),
{
    reveal_strlit("NO ACTION");
    reveal_strlit("RESTRICT");
    reveal_strlit("CASCADE");
    reveal_strlit("SET NULL");
    reveal_strlit("SET DEFAULT");
    let none = Seq::<char>::empty();
    assert("NO ACTION"@[0] == 'N' && "RESTRICT"@[0] == 'R' && "CASCADE"@[0] == 'C');
    assert("SET NULL"@[0] == 'S' && "SET NULL"@[4] == 'N');
    assert("SET DEFAULT"@[0] == 'S' && "SET DEFAULT"@[4] == 'D');
    if let Some((action, rest)) = definitions::read_action(rule) {
        if rest.len() == 0 {
            assert(rule =~= rule.take(rule.len() as int));
        }
    }
    let action = reflect::action_of(rule);
    if action != ReferentialAction::NoAction {
        definitions::lemma_action(action, none);
        assert(rule + none =~= rule);
    }
}

/// How the catalog calls an event that a trigger can fire on.
pub open spec fn event_word(event: TriggerEvent) -> Seq<char> {
    match event {
        TriggerEvent::Insert => "INSERT"@,
        TriggerEvent::Update => "UPDATE"@,
        TriggerEvent::Delete => "DELETE"@,
        TriggerEvent::Truncate => "TRUNCATE"@,
    }
}

/// A trigger fires on the event that the catalog names, and before it exactly
/// where the catalog says so, whatever the case of the letters.
pub proof fn lemma_trigger_words(event: TriggerEvent, timing: Seq<char>)
    requires
        event != TriggerEvent::Truncate,
    ensures
        reflect::event_of(event_word(event)) == event,
        case::ascii_upper(timing) == "BEFORE"@ ==> reflect::timing_of(timing)
            == TriggerTiming::Before,
        reflect::timing_of(timing) == TriggerTiming::Before ==> case::ascii_upper(timing)
            == "BEFORE"@,
        case::ascii_upper(timing) == "AFTER"@ ==> reflect::timing_of(timing)
            == TriggerTiming::After,
{
    reveal_strlit("INSERT");
    reveal_strlit("UPDATE");
    reveal_strlit("DELETE");
    reveal_strlit("BEFORE");
    reveal_strlit("AFTER");
    assert("INSERT"@[0] == 'I' && "UPDATE"@[0] == 'U' && "DELETE"@[0] == 'D');
    assert("BEFORE"@.len() == 6 && "AFTER"@.len() == 5);
    case::lemma_same_but_for_case(timing, "BEFORE"@);
    assert(case::ascii_upper("BEFORE"@) =~= "BEFORE"@);
    if case::ascii_upper(timing) == "AFTER"@ {
        assert(timing.len() == case::ascii_upper(timing).len());
        assert(case::ascii_lower(timing).len() == timing.len());
        assert(case::ascii_lower("BEFORE"@).len() == 6);
    }
}

/// The query for a sequence's settings reads that sequence.
pub proof fn lemma_sequence_query(schema: Seq<char>, name: Seq<char>)
    ensures
        ({
            let head =
                "SELECT min_value, max_value, start_value, increment, cycle_option FROM "@;
            sql::after(head + dialect::qualified(schema, name), head) matches Some(rest)
                && sql::read_table(rest, '`') == Some((schema, name, Seq::<char>::empty()))
        }),
{
    let head = "SELECT min_value, max_value, start_value, increment, cycle_option FROM "@;
    let none = Seq::<char>::empty();
    sql::lemma_after(head, dialect::qualified(schema, name));
    statements::lemma_qualified(schema, name, none);
    assert(dialect::qualified(schema, name) + none =~= dialect::qualified(schema, name));
}

// ---------------------------------------------------------------------------
// Type strings
// ---------------------------------------------------------------------------

/// Whether a type string is bare: no whitespace around it, and no modifier
/// behind it.
pub open spec fn is_bare(s: Seq<char>) -> bool {
    &&& s.len() > 0
    &&& !text::is_space(s[0])
    &&& !text::is_space(s.last())
    &&& !text::ends_with(s, "unsigned"@)
    &&& !text::ends_with(s, "zerofill"@)
}

proof fn lemma_stripped(s: Seq<char>, word: Seq<char>)
    requires
        s.len() > 0,
        !text::is_space(s.last()),
        !text::ends_with(s, word),
        word.len() > 0,
        !text::is_space(word.last()),
    ensures
        text::trimmed_end(text::without_suffixes(s + seq![' '] + word, word)) == s,
        text::trimmed_end(s + seq![' '] + word) == s + seq![' '] + word,
        text::trimmed_end(s) == s,
        text::without_suffixes(s, word) == s,
{
    let whole = s + seq![' '] + word;
    let spaced = s + seq![' '];
    assert(whole.last() == word.last());
    assert(whole.skip(whole.len() - word.len()) =~= word);
    assert(whole.take(whole.len() - word.len()) =~= spaced);
    assert(spaced.last() == ' ');
    if text::ends_with(spaced, word) {
        assert(spaced.skip(spaced.len() - word.len()).last() == spaced.last());
        assert(text::is_space(' '));
    }
    assert(text::without_suffixes(whole, word) == text::without_suffixes(spaced, word));
    assert(text::without_suffixes(spaced, word) == spaced);
    assert(spaced.drop_last() =~= s);
    assert(text::is_space(' '));
    assert(text::trimmed_end(spaced) == text::trimmed_end(s));
}

/// Modifiers behind a type do not count: it is the same type without a sign, and
/// with zeros in front of its numbers.
pub proof fn lemma_modifiers_do_not_count(s: Seq<char>)
    requires
        is_bare(s),
    ensures
        types::without_modifiers(text::trimmed(s)) == s,
        types::without_modifiers(text::trimmed(s + seq![' '] + "unsigned"@)) == s,
        types::without_modifiers(text::trimmed(s + seq![' '] + "zerofill"@)) == s,
        types::without_modifiers(
            text::trimmed(s + seq![' '] + "unsigned"@ + seq![' '] + "zerofill"@),
        ) == s,
{
    reveal_strlit("unsigned");
    reveal_strlit("zerofill");
    let u = s + seq![' '] + "unsigned"@;
    let z = s + seq![' '] + "zerofill"@;
    let uz = u + seq![' '] + "zerofill"@;
    assert("unsigned"@[7] == 'd' && "zerofill"@[7] == 'l');
    lemma_stripped(s, "unsigned"@);
    lemma_stripped(s, "zerofill"@);
    assert(u.last() == 'd');
    if text::ends_with(u, "zerofill"@) {
        assert(u.skip(u.len() - 8)[7] == u.last());
    }
    lemma_stripped(u, "zerofill"@);
    assert(s[0] == u[0] && s[0] == z[0] && s[0] == uz[0]);
    assert(text::trimmed_start(s) == s);
    assert(text::trimmed_start(u) == u);
    assert(text::trimmed_start(z) == z);
    assert(text::trimmed_start(uz) == uz);
    assert(text::trimmed(u) == u && text::trimmed(z) == z && text::trimmed(uz) == uz);
    assert(text::without_suffixes(u, "zerofill"@) == u);
}

/// A comment is the text that was given, and there is none where that is empty.
pub proof fn lemma_comment(given: String)
    ensures
        reflect::comment_of(given) is None <==> given@ == Seq::<char>::empty(),
        reflect::comment_of(given) matches Some(text) ==> text == given,
{
    assert(given@.len() == 0 ==> given@ =~= Seq::<char>::empty());
}

/// A key is generated exactly where the catalog mentions an automatic increment,
/// whatever else it mentions.
pub proof fn lemma_generated(front: Seq<char>, back: Seq<char>)
    ensures
        reflect::generated(front + "auto_increment"@ + back),
        reflect::generated(back) ==> exists|i: int|
            0 <= i <= back.len() - 14 && #[trigger] back.subrange(i, i + 14) == "auto_increment"@,
{
    reveal_strlit("auto_increment");
    let word = "auto_increment"@;
    let s = front + word + back;
    assert(word.len() == 14);
    assert(s.skip(front.len() as int).take(14) =~= word);
    assert(text::starts_with(s.skip(front.len() as int), word));
    if reflect::generated(back) {
        let i = choose|i: int| 0 <= i <= back.len() && text::starts_with(
            #[trigger] back.skip(i),
            word,
        );
        assert(back.subrange(i, i + 14) =~= back.skip(i).take(14));
    }
}

/// The type of an enumeration lists its values as literals, in order and
/// whatever they hold.
pub proof fn lemma_enum_type(values: Seq<Seq<char>>)
    requires
        values.len() > 0,
    ensures
        sql::after(ddl::type_text(Category::Enum { values }), "enum("@) matches Some(rest)
            && sql::read_names(rest, '\'') == Some((values, seq![')'])),
{
    reveal_strlit(", ");
    assert(", "@ =~= seq![',', ' ']);
    let list = text::joined(ddl::literals(values), ", "@);
    assert(ddl::literals(values) =~= sql::all_quoted(values, '\''));
    sql::lemma_names(values, seq![')'], '\'');
    sql::lemma_after("enum("@, list + seq![')']);
    assert(ddl::type_text(Category::Enum { values }) =~= "enum("@ + (list + seq![')']));
}

// ---------------------------------------------------------------------------
// Nothing is lost
// ---------------------------------------------------------------------------

/// Nothing that the catalog says of a column is lost: rows that give the same
/// column say the same.
pub proof fn lemma_column_tells_its_row(c: Column, a: ColumnRow, b: ColumnRow)
    requires
        reflect::is_column(c, a),
        reflect::is_column(c, b),
    ensures
        a.column_name == b.column_name,
        a.column_type == b.column_type,
        a.is_nullable@ == "YES"@ <==> b.is_nullable@ == "YES"@,
        a.column_default == b.column_default,
        a.column_comment@ == b.column_comment@,
        c.is_identity <==> c.identity_generation is Some,
{
    lemma_comment(a.column_comment);
    lemma_comment(b.column_comment);
}

/// Nothing that the catalog says of a trigger is lost: it fires on the one event
/// that is named, before or after it as is said, and does what is said.
pub proof fn lemma_trigger_tells_its_row(t: Trigger, row: TriggerRow, event: TriggerEvent)
    requires
        reflect::is_trigger(t, row),
        event != TriggerEvent::Truncate,
        case::all_ascii(row.event_manipulation@),
        case::ascii_upper(row.event_manipulation@) == event_word(event),
    ensures
        t.name@ == row.trigger_name@,
        t.events@ == seq![event],
        t.timing == TriggerTiming::Before <==> case::ascii_upper(row.action_timing@) == "BEFORE"@,
        t.body matches Some(body) && body@ == row.action_statement@,
{
    lemma_trigger_words(event, row.action_timing@);
}

/// Nothing that was reflected of a table is lost.
pub proof fn lemma_table_tells_its_parts(
    t: Table,
    schema: Seq<char>,
    name: String,
    comment: String,
    parts: TableParts,
    other: TableParts,
)
    requires
        reflect::is_table(t, schema, name, comment, parts),
        reflect::is_table(t, schema, name, comment, other),
    ensures
        parts == other,
        t.comment is None <==> comment@ == Seq::<char>::empty(),
        t.comment matches Some(text) ==> text == comment,
{
    lemma_comment(comment);
}

/// Nothing that the catalog says of a sequence is lost, and it cycles exactly
/// where its option is yes, whatever the case of the letters.
pub proof fn lemma_sequence_tells_its_row(
    s: Sequence,
    schema: Seq<char>,
    name: String,
    a: SequenceRow,
    b: SequenceRow,
)
    requires
        reflect::is_sequence(s, schema, name, a),
        reflect::is_sequence(s, schema, name, b),
    ensures
        s.start_value == a.start_value,
        s.increment == a.increment,
        a.start_value == b.start_value,
        a.increment == b.increment,
        a.min_value == b.min_value,
        a.max_value == b.max_value,
        s.cycle <==> case::ascii_upper(a.cycle_option@) == "YES"@,
{
    reveal_strlit("YES");
    case::lemma_same_but_for_case(a.cycle_option@, "YES"@);
    assert(case::ascii_upper("YES"@) =~= "YES"@);
}

/// An index has the method that its rows name, and counts as ascending.
pub proof fn lemma_index_tells_its_rows(index: Index, rows: Seq<IndexRow>, method: Seq<char>)
    requires
        reflect::is_index(index, rows),
        forall|i: int|
            0 <= i < rows.len() && (#[trigger] rows[i]).index_name@ == index.name@
                ==> rows[i].index_type@ == method,
    ensures
        index.method matches Some(own) && own@ == method,
        forall|k: int| 0 <= k < index.columns@.len() ==> !(#[trigger] index.columns@[k]).descending,
{
    let names = reflect::index_names(rows);
    let i = choose|i: int| #[trigger]
        reflect::last_place(names, index.name@, i) && {
            &&& index.unique == (rows[i].non_unique == 0)
            &&& index.method matches Some(own) && own@ == rows[i].index_type@
        };
    assert(names[i] == rows[i].index_name@);
}

} // verus!
