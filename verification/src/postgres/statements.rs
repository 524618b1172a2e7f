//! How PostgreSQL reads the statements that read and load tables, and that it
//! reads in them what they were written for.
use vstd::prelude::*;

use crate::adapter::{Condition, KeyRange, StreamOptions};
use crate::number;
use crate::postgres::bulk;
use crate::postgres::dialect;
use crate::postgres::reading;
use crate::postgres::reading::FloatReading;
use crate::postgres::stream;
use crate::postgres::stream::ColumnType;
use crate::postgres::types;
use crate::schema::TableRef;
use crate::sql;
use crate::sql::Operator;
use crate::text;
use crate::value::ValueModel;

verus! {

// ---------------------------------------------------------------------------
// Names
// ---------------------------------------------------------------------------

/// Names are quoted with double quotes, and tables behind their schema.
pub proof fn lemma_quotes(schema: Seq<char>, name: Seq<char>)
    ensures
        dialect::ident(name) == sql::quoted(name, '"'),
        dialect::qualified(schema, name) == sql::quoted(schema, '"') + seq!['.'] + sql::quoted(
            name,
            '"',
        ),
{
}

/// A name in front of a text reads back.
pub proof fn lemma_ident(name: Seq<char>, rest: Seq<char>)
    requires
        rest.len() > 0 ==> rest[0] != '"',
    ensures
        sql::read_name(dialect::ident(name) + rest, '"') == Some((name, rest)),
{
    lemma_quotes(name, name);
    sql::lemma_name(name, rest, '"');
}

/// A table in front of a text reads back.
pub proof fn lemma_qualified(schema: Seq<char>, name: Seq<char>, rest: Seq<char>)
    requires
        rest.len() > 0 ==> rest[0] != '"',
    ensures
        sql::read_table(dialect::qualified(schema, name) + rest, '"') == Some((schema, name, rest)),
{
    lemma_quotes(schema, name);
    sql::lemma_table(schema, name, rest, '"');
}

// ---------------------------------------------------------------------------
// Select lists
// ---------------------------------------------------------------------------

/// What a query selects: a column, whether as its text, and under which name.
pub struct Item {
    pub column: Seq<char>,
    pub as_text: bool,
    pub alias: Seq<char>,
}

/// The item in front of a text.
pub open spec fn read_item(s: Seq<char>) -> Option<(Item, Seq<char>)> {
    match sql::read_name(s, '"') {
        Some((column, rest)) => match sql::after(rest, "::text AS "@) {
            Some(behind) => match sql::read_name(behind, '"') {
                Some((alias, more)) => Some((Item { column, as_text: true, alias }, more)),
                None => None,
            },
            None => Some((Item { column, as_text: false, alias: column }, rest)),
        },
        None => None,
    }
}

/// Items with a comma and a space between them, and what stands behind them.
pub open spec fn read_items(s: Seq<char>) -> Option<(Seq<Item>, Seq<char>)>
    decreases s.len(),
{
    match read_item(s) {
        None => None,
        Some((item, rest)) => if rest.len() >= 2 && rest[0] == ',' && rest[1] == ' ' && rest.len()
            <= s.len() {
            match read_items(rest.skip(2)) {
                Some((items, behind)) => Some((seq![item] + items, behind)),
                None => None,
            }
        } else {
            Some((seq![item], rest))
        },
    }
}

proof fn lemma_item(name: Seq<char>, native_type: Seq<char>, rest: Seq<char>)
    requires
        rest.len() > 0 ==> rest[0] != '"' && rest[0] != ':',
    ensures
        read_item(stream::select_item(name, native_type) + rest) == Some(
            (
                Item {
                    column: name,
                    as_text: !stream::native(types::pg_category(native_type, Map::empty())),
                    alias: name,
                },
                rest,
            ),
        ),
{
    reveal_strlit("::text AS ");
    let quoted = dialect::ident(name);
    let s = stream::select_item(name, native_type) + rest;
    if stream::native(types::pg_category(native_type, Map::empty())) {
        lemma_ident(name, rest);
        sql::lemma_not_after(rest, "::text AS "@, 0);
    } else {
        let behind = "::text AS "@ + (quoted + rest);
        assert(s =~= quoted + behind);
        lemma_ident(name, behind);
        sql::lemma_after("::text AS "@, quoted + rest);
        lemma_ident(name, rest);
    }
}

proof fn lemma_plain_item(name: Seq<char>, rest: Seq<char>)
    requires
        rest.len() > 0 ==> rest[0] != '"' && rest[0] != ':',
    ensures
        read_item(dialect::ident(name) + rest) == Some(
            (Item { column: name, as_text: false, alias: name }, rest),
        ),
{
    reveal_strlit("::text AS ");
    lemma_ident(name, rest);
    sql::lemma_not_after(rest, "::text AS "@, 0);
}

/// Whether a text reads as an item in front of anything that does not go on
/// with it.
spec fn is_item(s: Seq<char>, item: Item) -> bool {
    forall|rest: Seq<char>|
        (rest.len() > 0 ==> rest[0] != '"' && rest[0] != ':') ==> #[trigger] read_item(s + rest)
            == Some((item, rest))
}

proof fn lemma_items(parts: Seq<Seq<char>>, items: Seq<Item>, rest: Seq<char>)
    requires
        parts.len() == items.len(),
        parts.len() > 0,
        forall|i: int| 0 <= i < parts.len() ==> is_item(#[trigger] parts[i], items[i]),
        rest.len() > 0 ==> rest[0] != '"' && rest[0] != ':' && rest[0] != ',',
    ensures
        read_items(text::joined(parts, ", "@) + rest) == Some((items, rest)),
    decreases parts.len(),
{
    reveal_strlit(", ");
    let s = text::joined(parts, ", "@) + rest;
    assert(is_item(parts[0], items[0]));
    if parts.len() == 1 {
        assert(text::joined(parts, ", "@) == parts[0]);
        assert(read_item(parts[0] + rest) == Some((items[0], rest)));
        assert(seq![items[0]] =~= items);
    } else {
        let others = parts.drop_first();
        let tail = text::joined(others, ", "@) + rest;
        text::lemma_joined_front(parts, ", "@);
        assert(s =~= parts[0] + (", "@ + tail));
        assert(read_item(parts[0] + (", "@ + tail)) == Some((items[0], ", "@ + tail)));
        assert((", "@ + tail).skip(2) =~= tail);
        assert forall|i: int| 0 <= i < others.len() implies is_item(
            #[trigger] others[i],
            items.drop_first()[i],
        ) by {
            assert(is_item(parts[i + 1], items[i + 1]));
        }
        lemma_items(others, items.drop_first(), rest);
        assert(seq![items[0]] + items.drop_first() =~= items);
    }
}

// ---------------------------------------------------------------------------
// Conditions
// ---------------------------------------------------------------------------

/// A comparison of a column with a literal; none where the literal is `NULL`.
pub struct Comparison {
    pub column: Seq<char>,
    pub operator: Operator,
    pub literal: Option<Seq<char>>,
}

/// The literal in front of a text.
pub open spec fn read_literal(s: Seq<char>) -> Option<(Option<Seq<char>>, Seq<char>)> {
    match sql::after(s, "NULL"@) {
        Some(rest) => Some((None, rest)),
        None => match sql::read_name(s, '\'') {
            Some((t, rest)) => Some((Some(t), rest)),
            None => None,
        },
    }
}

/// The comparison in front of a text.
pub open spec fn read_comparison(s: Seq<char>) -> Option<(Comparison, Seq<char>)> {
    match sql::read_name(s, '"') {
        Some((column, rest)) => match sql::read_operator(rest) {
            Some((operator, behind)) => match read_literal(behind) {
                Some((literal, more)) => Some((Comparison { column, operator, literal }, more)),
                None => None,
            },
            None => None,
        },
        None => None,
    }
}

/// Comparisons that must all be met.
pub open spec fn read_comparisons(s: Seq<char>) -> Option<Seq<Comparison>>
    decreases s.len(),
{
    match read_comparison(s) {
        Some((first, rest)) => if rest.len() == 0 {
            Some(seq![first])
        } else {
            match sql::after(rest, " AND "@) {
                Some(more) => if more.len() < s.len() {
                    match read_comparisons(more) {
                        Some(others) => Some(seq![first] + others),
                        None => None,
                    }
                } else {
                    None
                },
                None => None,
            }
        },
        None => None,
    }
}

/// The condition behind a query, where there is one.
pub open spec fn read_where(s: Seq<char>) -> Option<Seq<Comparison>> {
    if s.len() == 0 {
        Some(Seq::<Comparison>::empty())
    } else {
        match sql::after(s, " WHERE "@) {
            Some(rest) => read_comparisons(rest),
            None => None,
        }
    }
}

/// What a query reads: which items of which table, and which comparisons a row
/// must meet.
pub struct Query {
    pub items: Seq<Item>,
    pub schema: Seq<char>,
    pub table: Seq<char>,
    pub comparisons: Seq<Comparison>,
}

/// What a query reads.
pub open spec fn read_query(s: Seq<char>) -> Option<Query> {
    match sql::after(s, "SELECT "@) {
        Some(rest) => match read_items(rest) {
            Some((items, behind)) => match sql::after(behind, " FROM "@) {
                Some(source) => match sql::read_table(source, '"') {
                    Some((schema, table, filter)) => match read_where(filter) {
                        Some(comparisons) => Some(Query { items, schema, table, comparisons }),
                        None => None,
                    },
                    None => None,
                },
                None => None,
            },
            None => None,
        },
        None => None,
    }
}

/// Whether a row with this key in the column meets comparisons whose literals
/// say these bounds.
pub open spec fn selects(
    comparisons: Seq<Comparison>,
    bounds: Seq<ValueModel>,
    column: Seq<char>,
    key: ValueModel,
    less: spec_fn(ValueModel, ValueModel) -> bool,
) -> bool {
    forall|i: int|
        0 <= i < comparisons.len() ==> (#[trigger] comparisons[i]).column == column
            && sql::compares(key, comparisons[i].operator, bounds[i], less)
}

/// Whether a key is at least the lower bound and less than the upper bound,
/// where those are given.
pub open spec fn within(
    range: KeyRange,
    key: ValueModel,
    less: spec_fn(ValueModel, ValueModel) -> bool,
) -> bool {
    &&& range.lower matches Some(lower) ==> !less(key, lower@)
    &&& range.upper matches Some(upper) ==> less(key, upper@)
}

/// The bounds of a range that are given, the lower one first.
pub open spec fn given_bounds(range: KeyRange) -> Seq<ValueModel> {
    match (range.lower, range.upper) {
        (Some(lower), Some(upper)) => seq![lower@, upper@],
        (Some(lower), None) => seq![lower@],
        (None, Some(upper)) => seq![upper@],
        (None, None) => Seq::<ValueModel>::empty(),
    }
}

/// Whether comparisons say a range: their literals say its bounds, and they
/// select exactly the keys within it.
pub open spec fn says_range(comparisons: Seq<Comparison>, range: KeyRange) -> bool {
    let bounds = given_bounds(range);
    &&& comparisons.len() == bounds.len()
    &&& forall|i: int, floats: FloatReading|
        0 <= i < bounds.len() && #[trigger] reading::is_proper(bounds[i], floats)
            ==> reading::field_says((#[trigger] comparisons[i]).literal, bounds[i], floats)
    &&& forall|key: ValueModel, less: spec_fn(ValueModel, ValueModel) -> bool|
        selects(comparisons, bounds, range.column@, key, less) <==> #[trigger] within(
            range,
            key,
            less,
        )
}

/// Whether a column is the first with a name.
pub open spec fn first_named(columns: Seq<ColumnType>, name: Seq<char>, j: int) -> bool {
    &&& 0 <= j < columns.len()
    &&& columns[j].name@ == name
    &&& forall|i: int| 0 <= i < j ==> (#[trigger] columns[i]).name@ != name
}

/// Whether an item selects a column as it must be read: as it is where its
/// type has a decoder, and as its text otherwise.
pub open spec fn selects_column(item: Item, column: ColumnType) -> bool {
    &&& item.column == column.name@
    &&& item.alias == column.name@
    &&& item.as_text == !stream::native(types::pg_category(column.native_type@, Map::empty()))
}

/// Whether a query reads what the options ask of a table: all its columns in
/// order, or the named ones in theirs, of that table, and exactly the keys
/// within the range.
pub open spec fn reads_what_is_asked(
    query: Query,
    table: TableRef,
    columns: Seq<ColumnType>,
    options: StreamOptions,
) -> bool {
    &&& query.schema == table.schema@
    &&& query.table == table.name@
    &&& match options.columns {
        Some(names) => {
            &&& query.items.len() == names@.len()
            &&& forall|k: int|
                0 <= k < names@.len() ==> {
                    &&& (#[trigger] query.items[k]).column == names@[k]@
                    &&& query.items[k].alias == names@[k]@
                    &&& forall|j: int| #[trigger]
                        first_named(columns, names@[k]@, j) ==> selects_column(
                            query.items[k],
                            columns[j],
                        )
                }
        },
        None => {
            &&& query.items.len() == columns.len()
            &&& forall|k: int|
                0 <= k < columns.len() ==> selects_column(#[trigger] query.items[k], columns[k])
        },
    }
    &&& match options.key_range {
        Some(range) => says_range(query.comparisons, range),
        None => query.comparisons.len() == 0,
    }
}

/// What the literal of a bound holds.
spec fn literal_of(v: ValueModel) -> Option<Seq<char>> {
    match v {
        ValueModel::Null => None,
        _ => Some(bulk::scalar_text(v)),
    }
}

proof fn lemma_literal(v: ValueModel, rest: Seq<char>)
    requires
        rest.len() > 0 ==> rest[0] != '\'',
    ensures
        read_literal(stream::literal(v) + rest) == Some((literal_of(v), rest)),
{
    reveal_strlit("NULL");
    let s = stream::literal(v) + rest;
    if v is Null {
        sql::lemma_after("NULL"@, rest);
    } else {
        assert(s[0] == '\'');
        sql::lemma_not_after(s, "NULL"@, 0);
        sql::lemma_name(bulk::scalar_text(v), rest, '\'');
    }
}

proof fn lemma_comparison(column: Seq<char>, v: ValueModel, rest: Seq<char>)
    requires
        rest.len() > 0 ==> rest[0] != '\'',
    ensures
        read_comparison(stream::condition_text(column, Condition::AtLeast(v)) + rest) == Some(
            (Comparison { column, operator: Operator::AtLeast, literal: literal_of(v) }, rest),
        ),
        read_comparison(stream::condition_text(column, Condition::Below(v)) + rest) == Some(
            (Comparison { column, operator: Operator::Below, literal: literal_of(v) }, rest),
        ),
{
    reveal_strlit(" >= ");
    reveal_strlit(" < ");
    let behind = stream::literal(v) + rest;
    let quoted = dialect::ident(column);
    sql::lemma_operators(behind);
    lemma_literal(v, rest);
    lemma_ident(column, " >= "@ + behind);
    lemma_ident(column, " < "@ + behind);
    assert(stream::condition_text(column, Condition::AtLeast(v)) + rest =~= quoted + (" >= "@
        + behind));
    assert(stream::condition_text(column, Condition::Below(v)) + rest =~= quoted + (" < "@
        + behind));
}

/// The comparisons of a range, as they are read.
spec fn range_comparisons(range: KeyRange) -> Seq<Comparison> {
    (match range.lower {
        Some(lower) => seq![
            Comparison {
                column: range.column@,
                operator: Operator::AtLeast,
                literal: literal_of(lower@),
            },
        ],
        None => Seq::<Comparison>::empty(),
    }) + (match range.upper {
        Some(upper) => seq![
            Comparison {
                column: range.column@,
                operator: Operator::Below,
                literal: literal_of(upper@),
            },
        ],
        None => Seq::<Comparison>::empty(),
    })
}

#[verifier::spinoff_prover]
proof fn lemma_where(options: StreamOptions)
    requires
        options.problem() is None,
    ensures
        read_where(stream::where_text(options)) == Some(
            match options.key_range {
                Some(range) => range_comparisons(range),
                None => Seq::<Comparison>::empty(),
            },
        ),
        stream::where_text(options).len() > 0 ==> stream::where_text(options)[0] == ' ',
{
    reveal_strlit(" WHERE ");
    reveal_strlit(" AND ");
    let none = Seq::<char>::empty();
    if let Some(range) = options.key_range {
        let column = range.column@;
        let parts = range.conditions().map_values(
            |c: Condition| stream::condition_text(column, c),
        );
        let body = text::joined(parts, " AND "@);
        sql::lemma_after(" WHERE "@, body);
        if range.lower is Some && range.upper is Some {
            let lower = range.lower->0@;
            let upper = range.upper->0@;
            let first = stream::condition_text(column, Condition::AtLeast(lower));
            let second = stream::condition_text(column, Condition::Below(upper));
            let tail = " AND "@ + second;
            assert(parts =~= seq![first, second]);
            assert(parts.drop_last() =~= seq![first]);
            assert(text::joined(seq![first], " AND "@) == first);
            assert(body =~= first + tail);
            lemma_comparison(column, lower, tail);
            sql::lemma_after(" AND "@, second);
            lemma_comparison(column, upper, none);
            assert(second + none =~= second);
            assert(read_comparisons(second) == Some(
                seq![
                    Comparison {
                        column,
                        operator: Operator::Below,
                        literal: literal_of(upper),
                    },
                ],
            ));
        } else if range.lower is Some {
            let first = stream::condition_text(column, Condition::AtLeast(range.lower->0@));
            lemma_comparison(column, range.lower->0@, none);
            assert(parts =~= seq![first]);
            assert(first + none =~= first);
            assert(body == first);
        } else {
            let first = stream::condition_text(column, Condition::Below(range.upper->0@));
            lemma_comparison(column, range.upper->0@, none);
            assert(parts =~= seq![first]);
            assert(first + none =~= first);
            assert(body == first);
        }
        assert(read_comparisons(body)->0 =~= range_comparisons(range));
    }
}

proof fn lemma_literal_says(v: ValueModel, floats: FloatReading)
    requires
        reading::is_proper(v, floats),
        !(v is Array),
    ensures
        reading::field_says(literal_of(v), v, floats),
{
    if !(v is Null) {
        reading::lemma_text_reads_back(v, floats);
    }
}

proof fn lemma_says_range(range: KeyRange)
    requires
        range.lower matches Some(v) ==> !(v@ is Array),
        range.upper matches Some(v) ==> !(v@ is Array),
    ensures
        says_range(range_comparisons(range), range),
{
    let comparisons = range_comparisons(range);
    let bounds = given_bounds(range);
    let last = comparisons.len() - 1;
    assert(comparisons.len() == bounds.len());
    assert forall|i: int, floats: FloatReading|
        0 <= i < bounds.len() && #[trigger] reading::is_proper(bounds[i], floats) implies reading::field_says(
    (#[trigger] comparisons[i]).literal, bounds[i], floats) by {
        lemma_literal_says(bounds[i], floats);
    }
    if range.lower is Some {
        assert(comparisons[0].operator is AtLeast && bounds[0] == range.lower->0@);
    }
    if range.upper is Some {
        assert(comparisons[last].operator is Below && bounds[last] == range.upper->0@);
    }
    assert forall|key: ValueModel, less: spec_fn(ValueModel, ValueModel) -> bool|
        selects(comparisons, bounds, range.column@, key, less) <==> #[trigger] within(
            range,
            key,
            less,
        ) by {
        if within(range, key, less) {
            assert forall|i: int| 0 <= i < comparisons.len() implies (
            #[trigger] comparisons[i]).column == range.column@ && sql::compares(
                key,
                comparisons[i].operator,
                bounds[i],
                less,
            ) by {}
        }
        if selects(comparisons, bounds, range.column@, key, less) {
            if range.lower is Some {
                assert(sql::compares(key, comparisons[0].operator, bounds[0], less));
            }
            if range.upper is Some {
                assert(sql::compares(key, comparisons[last].operator, bounds[last], less));
            }
        }
    }
}

/// The item that a projection asks for.
spec fn projected(columns: Seq<ColumnType>, name: Seq<char>) -> Item
    decreases columns.len(),
{
    if columns.len() == 0 {
        Item { column: name, as_text: false, alias: name }
    } else if columns[0].name@ == name {
        Item {
            column: name,
            as_text: !stream::native(types::pg_category(columns[0].native_type@, Map::empty())),
            alias: name,
        }
    } else {
        projected(columns.drop_first(), name)
    }
}

proof fn lemma_projected(columns: Seq<ColumnType>, name: Seq<char>)
    ensures
        is_item(stream::projected_item(columns, name), projected(columns, name)),
        projected(columns, name).column == name,
        projected(columns, name).alias == name,
        forall|j: int| #[trigger]
            first_named(columns, name, j) ==> selects_column(projected(columns, name), columns[j]),
    decreases columns.len(),
{
    if columns.len() == 0 {
        assert forall|rest: Seq<char>|
            (rest.len() > 0 ==> rest[0] != '"' && rest[0] != ':') implies #[trigger] read_item(
            dialect::ident(name) + rest,
        ) == Some((projected(columns, name), rest)) by {
            lemma_plain_item(name, rest);
        }
    } else if columns[0].name@ == name {
        lemma_is_item(name, columns[0].native_type@);
        assert forall|j: int| #[trigger] first_named(columns, name, j) implies selects_column(
            projected(columns, name),
            columns[j],
        ) by {
            assert(j == 0) by {
                if j > 0 {
                    assert(columns[0].name@ != name);
                }
            }
        }
    } else {
        let rest = columns.drop_first();
        lemma_projected(rest, name);
        assert forall|j: int| #[trigger] first_named(columns, name, j) implies selects_column(
            projected(columns, name),
            columns[j],
        ) by {
            assert(j > 0);
            assert forall|i: int| 0 <= i < j - 1 implies (#[trigger] rest[i]).name@ != name by {
                assert(columns[i + 1].name@ != name);
            }
            assert(first_named(rest, name, j - 1));
        }
    }
}

proof fn lemma_is_item(name: Seq<char>, native_type: Seq<char>)
    ensures
        is_item(
            stream::select_item(name, native_type),
            Item {
                column: name,
                as_text: !stream::native(types::pg_category(native_type, Map::empty())),
                alias: name,
            },
        ),
{
    let item = Item {
        column: name,
        as_text: !stream::native(types::pg_category(native_type, Map::empty())),
        alias: name,
    };
    assert forall|rest: Seq<char>|
        (rest.len() > 0 ==> rest[0] != '"' && rest[0] != ':') implies #[trigger] read_item(
        stream::select_item(name, native_type) + rest,
    ) == Some((item, rest)) by {
        lemma_item(name, native_type, rest);
    }
}

/// The query that is built reads what was asked for: the columns in their
/// order, each as it must be read, of that table, and exactly the keys within
/// the range, whichever of its bounds are given.
#[verifier::spinoff_prover]
pub proof fn lemma_query_reads_what_is_asked(
    table: TableRef,
    columns: Seq<ColumnType>,
    options: StreamOptions,
)
    requires
        options.problem() is None,
        !crate::value::has_array(options.spec_bounds()),
        columns.len() > 0,
    ensures
        read_query(stream::select_text(table, columns, options)) matches Some(query)
            && reads_what_is_asked(query, table, columns, options),
{
    reveal_strlit("SELECT ");
    reveal_strlit(" FROM ");
    let parts = stream::select_list(columns, options.columns);
    let items = match options.columns {
        Some(names) => text::texts(names@).map_values(|n: Seq<char>| projected(columns, n)),
        None => columns.map_values(
            |c: ColumnType|
                Item {
                    column: c.name@,
                    as_text: !stream::native(types::pg_category(c.native_type@, Map::empty())),
                    alias: c.name@,
                },
        ),
    };
    assert(parts.len() == items.len() && parts.len() > 0);
    assert forall|i: int| 0 <= i < parts.len() implies is_item(#[trigger] parts[i], items[i]) by {
        match options.columns {
            Some(names) => lemma_projected(columns, text::texts(names@)[i]),
            None => lemma_is_item(columns[i].name@, columns[i].native_type@),
        }
    }
    let filter = stream::where_text(options);
    let name = dialect::qualified(table.schema@, table.name@);
    let source = " FROM "@ + (name + filter);
    let list = text::joined(parts, ", "@);
    let s = stream::select_text(table, columns, options);
    assert(s =~= "SELECT "@ + (list + source));
    sql::lemma_after("SELECT "@, list + source);
    lemma_items(parts, items, source);
    sql::lemma_after(" FROM "@, name + filter);
    lemma_where(options);
    lemma_qualified(table.schema@, table.name@, filter);
    let query = read_query(s)->0;
    assert(query.items == items);
    if let Some(names) = options.columns {
        assert forall|k: int| 0 <= k < names@.len() implies {
            &&& (#[trigger] query.items[k]).column == names@[k]@
            &&& query.items[k].alias == names@[k]@
            &&& forall|j: int| #[trigger]
                first_named(columns, names@[k]@, j) ==> selects_column(query.items[k], columns[j])
        } by {
            lemma_projected(columns, names@[k]@);
            assert(text::texts(names@)[k] == names@[k]@);
        }
    }
    if let Some(range) = options.key_range {
        let bounds = options.spec_bounds();
        if range.lower is Some {
            assert(bounds[0] == range.lower->0@);
        }
        if range.upper is Some {
            assert(bounds[bounds.len() - 1] == range.upper->0@);
        }
        lemma_says_range(range);
    }
}

// ---------------------------------------------------------------------------
// Cursors and loads
// ---------------------------------------------------------------------------

/// A word up to the first space, and what stands behind it.
pub open spec fn read_word(s: Seq<char>) -> (Seq<char>, Seq<char>) {
    let space = text::first_index(s, ' ');
    (s.take(space), s.skip(space))
}

proof fn lemma_word(word: Seq<char>, rest: Seq<char>)
    requires
        !word.contains(' '),
        rest.len() > 0 ==> rest[0] == ' ',
    ensures
        read_word(word + rest) == (word, rest),
{
    let s = word + rest;
    assert forall|k: int| 0 <= k < word.len() implies s[k] != ' ' by {
        assert(s[k] == word[k]);
        assert(word.contains(word[k]));
    }
    text::lemma_first_index_is(s, ' ', word.len() as int);
    assert(s.take(word.len() as int) =~= word);
    assert(s.skip(word.len() as int) =~= rest);
}

/// Which cursor a statement declares, and for which query.
pub open spec fn read_declare(s: Seq<char>) -> Option<(Seq<char>, Seq<char>)> {
    match sql::after(s, "DECLARE "@) {
        Some(rest) => match sql::after(read_word(rest).1, " NO SCROLL CURSOR FOR "@) {
            Some(query) => Some((read_word(rest).0, query)),
            None => None,
        },
        None => None,
    }
}

/// How many rows a statement fetches, and from which cursor.
pub open spec fn read_fetch(s: Seq<char>) -> Option<(nat, Seq<char>)> {
    match sql::after(s, "FETCH FORWARD "@) {
        Some(rest) => match (
            reading::read_nat(read_word(rest).0),
            sql::after(read_word(rest).1, " FROM "@),
        ) {
            (Some(n), Some(cursor)) => Some((n, cursor)),
            _ => None,
        },
        None => None,
    }
}

/// The statements of a cursor name it, its query and its batch.
pub proof fn lemma_cursor_statements(cursor: Seq<char>, query: Seq<char>, batch_size: nat)
    ensures
        !cursor.contains(' ') ==> read_declare(
            "DECLARE "@ + cursor + " NO SCROLL CURSOR FOR "@ + query,
        ) == Some((cursor, query)),
        read_fetch(
            "FETCH FORWARD "@ + number::digits(batch_size) + " FROM "@ + cursor,
        ) == Some((batch_size, cursor)),
{
    reveal_strlit("DECLARE ");
    reveal_strlit(" NO SCROLL CURSOR FOR ");
    reveal_strlit("FETCH FORWARD ");
    reveal_strlit(" FROM ");
    let behind = " NO SCROLL CURSOR FOR "@ + query;
    assert("DECLARE "@ + cursor + " NO SCROLL CURSOR FOR "@ + query =~= "DECLARE "@ + (cursor
        + behind));
    sql::lemma_after("DECLARE "@, cursor + behind);
    sql::lemma_after(" NO SCROLL CURSOR FOR "@, query);
    if !cursor.contains(' ') {
        lemma_word(cursor, behind);
    }
    let digits = number::digits(batch_size);
    let from = " FROM "@ + cursor;
    reading::lemma_nat_reads_back(batch_size);
    assert(!digits.contains(' ')) by {
        if digits.contains(' ') {
            let i = choose|i: int| 0 <= i < digits.len() && digits[i] == ' ';
            assert(number::is_digit(digits[i]));
        }
    }
    assert("FETCH FORWARD "@ + digits + " FROM "@ + cursor =~= "FETCH FORWARD "@ + (digits + from));
    sql::lemma_after("FETCH FORWARD "@, digits + from);
    lemma_word(digits, from);
    sql::lemma_after(" FROM "@, cursor);
}

/// A cursor's name is one word, and tells its UUID.
pub proof fn lemma_cursor_name(uuid: Seq<u8>)
    ensures
        !stream::cursor_text(uuid).contains(' '),
        sql::after(stream::cursor_text(uuid), "ddbcore_cursor_"@) matches Some(digits)
            && reading::is_pairs(digits, uuid),
{
    reveal_strlit("ddbcore_cursor_");
    let prefix = "ddbcore_cursor_"@;
    let digits = number::hex(uuid);
    let s = stream::cursor_text(uuid);
    sql::lemma_after(prefix, digits);
    reading::lemma_hex_reads_back(uuid);
    assert forall|i: int| 0 <= i < s.len() implies s[i] != ' ' by {
        if i < prefix.len() {
            assert(s[i] == prefix[i]);
        } else {
            let k = i - prefix.len();
            assert(s[i] == digits[k]);
            assert(digits[k] == number::hex_digit(
                if k % 2 == 0 {
                    uuid[k / 2] as int / 16
                } else {
                    uuid[k / 2] as int % 16
                },
            ));
        }
    }
}

/// Which table a bulk load goes into.
pub open spec fn read_copy(s: Seq<char>) -> Option<(Seq<char>, Seq<char>)> {
    match sql::after(s, "COPY "@) {
        Some(rest) => match sql::read_table(rest, '"') {
            Some((schema, table, behind)) => if behind == " FROM STDIN WITH (FORMAT text)"@ {
                Some((schema, table))
            } else {
                None
            },
            None => None,
        },
        None => None,
    }
}

/// A bulk load goes into its table, in the text format.
pub proof fn lemma_copy_reads_back(table: TableRef)
    ensures
        read_copy(bulk::copy_statement_text(table)) == Some((table.schema@, table.name@)),
{
    reveal_strlit("COPY ");
    reveal_strlit(" FROM STDIN WITH (FORMAT text)");
    let name = dialect::qualified(table.schema@, table.name@);
    let behind = " FROM STDIN WITH (FORMAT text)"@;
    assert(bulk::copy_statement_text(table) =~= "COPY "@ + (name + behind));
    sql::lemma_after("COPY "@, name + behind);
    lemma_qualified(table.schema@, table.name@, behind);
}

} // verus!
