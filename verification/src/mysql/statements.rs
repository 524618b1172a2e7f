//! How MySQL reads the statements that read and write rows, and that it reads
//! in them what they were written for.
use vstd::prelude::*;

use crate::adapter::{KeyRange, StreamOptions};
use crate::mysql::bulk;
use crate::mysql::dialect;
use crate::mysql::stream;
use crate::schema::TableRef;
use crate::sql;
use crate::sql::Operator;
use crate::text;
use crate::value::ValueModel;

verus! {

// ---------------------------------------------------------------------------
// Names
// ---------------------------------------------------------------------------

/// Names are quoted with backticks, and tables behind their schema.
pub proof fn lemma_quotes(schema: Seq<char>, name: Seq<char>)
    ensures
        dialect::ident(name) == sql::quoted(name, '`'),
        dialect::qualified(schema, name) == sql::quoted(schema, '`') + seq!['.'] + sql::quoted(
            name,
            '`',
        ),
{
}

/// A name in front of a text reads back.
pub proof fn lemma_ident(name: Seq<char>, rest: Seq<char>)
    requires
        rest.len() > 0 ==> rest[0] != '`',
    ensures
        sql::read_name(dialect::ident(name) + rest, '`') == Some((name, rest)),
{
    lemma_quotes(name, name);
    sql::lemma_name(name, rest, '`');
}

/// A table in front of a text reads back.
pub proof fn lemma_qualified(schema: Seq<char>, name: Seq<char>, rest: Seq<char>)
    requires
        rest.len() > 0 ==> rest[0] != '`',
    ensures
        sql::read_table(dialect::qualified(schema, name) + rest, '`') == Some((schema, name, rest)),
{
    lemma_quotes(schema, name);
    sql::lemma_table(schema, name, rest, '`');
}

/// A list of names in front of a text reads back.
pub proof fn lemma_idents(names: Seq<Seq<char>>, rest: Seq<char>)
    requires
        names.len() > 0,
        rest.len() > 0 ==> rest[0] != '`' && rest[0] != ',',
    ensures
        sql::read_names(text::joined(dialect::idents(names), ", "@) + rest, '`') == Some(
            (names, rest),
        ),
{
    reveal_strlit(", ");
    assert(", "@ =~= seq![',', ' ']);
    assert(dialect::idents(names) =~= sql::all_quoted(names, '`')) by {
        assert forall|i: int| 0 <= i < names.len() implies dialect::idents(names)[i]
            == sql::all_quoted(names, '`')[i] by {
            lemma_quotes(names[i], names[i]);
        }
    }
    sql::lemma_names(names, rest, '`');
}

// ---------------------------------------------------------------------------
// Reading a table
// ---------------------------------------------------------------------------

/// A comparison of a column with a parameter.
pub struct Comparison {
    pub column: Seq<char>,
    pub operator: Operator,
}

/// What a query reads: which columns, all of them where it names none, of
/// which table, and which comparisons a row must meet.
pub struct Query {
    pub columns: Option<Seq<Seq<char>>>,
    pub schema: Seq<char>,
    pub table: Seq<char>,
    pub comparisons: Seq<Comparison>,
}

/// The comparison in front of a text.
pub open spec fn read_comparison(s: Seq<char>) -> Option<(Comparison, Seq<char>)> {
    match sql::read_name(s, '`') {
        Some((column, rest)) => match sql::read_operator(rest) {
            Some((operator, behind)) => if behind.len() > 0 && behind[0] == '?' {
                Some((Comparison { column, operator }, behind.skip(1)))
            } else {
                None
            },
            None => None,
        },
        None => None,
    }
}

/// Comparisons that must all be met.
pub open spec fn read_comparisons(s: Seq<char>) -> Option<Seq<Comparison>>
    decreases s.len(),
{
    match read_comparison(s) {
        Some((first, rest)) => if rest.len() == 0 {
            Some(seq![first])
        } else {
            match sql::after(rest, " AND "@) {
                Some(more) => if more.len() < s.len() {
                    match read_comparisons(more) {
                        Some(others) => Some(seq![first] + others),
                        None => None,
                    }
                } else {
                    None
                },
                None => None,
            }
        },
        None => None,
    }
}

/// The condition behind a query, where there is one.
pub open spec fn read_where(s: Seq<char>) -> Option<Seq<Comparison>> {
    if s.len() == 0 {
        Some(Seq::<Comparison>::empty())
    } else {
        match sql::after(s, " WHERE "@) {
            Some(rest) => read_comparisons(rest),
            None => None,
        }
    }
}

/// What a query reads behind its columns.
pub open spec fn read_from(columns: Option<Seq<Seq<char>>>, s: Seq<char>) -> Option<Query> {
    match sql::after(s, " FROM "@) {
        Some(rest) => match sql::read_table(rest, '`') {
            Some((schema, table, behind)) => match read_where(behind) {
                Some(comparisons) => Some(Query { columns, schema, table, comparisons }),
                None => None,
            },
            None => None,
        },
        None => None,
    }
}

/// What a query reads.
pub open spec fn read_query(s: Seq<char>) -> Option<Query> {
    match sql::after(s, "SELECT "@) {
        Some(rest) => if rest.len() > 0 && rest[0] == '*' {
            read_from(None, rest.skip(1))
        } else {
            match sql::read_names(rest, '`') {
                Some((names, behind)) => read_from(Some(names), behind),
                None => None,
            }
        },
        None => None,
    }
}

/// Whether a row with this key in the column meets comparisons, with these
/// values for their parameters in order.
pub open spec fn selects(
    comparisons: Seq<Comparison>,
    binds: Seq<ValueModel>,
    column: Seq<char>,
    key: ValueModel,
    less: spec_fn(ValueModel, ValueModel) -> bool,
) -> bool {
    forall|i: int|
        0 <= i < comparisons.len() ==> (#[trigger] comparisons[i]).column == column
            && sql::compares(key, comparisons[i].operator, binds[i], less)
}

/// Whether a key is at least the lower bound and less than the upper bound,
/// where those are given.
pub open spec fn within(
    range: KeyRange,
    key: ValueModel,
    less: spec_fn(ValueModel, ValueModel) -> bool,
) -> bool {
    &&& range.lower matches Some(lower) ==> !less(key, lower@)
    &&& range.upper matches Some(upper) ==> less(key, upper@)
}

/// Whether a query with these values for its parameters reads what the options
/// ask of a table: its columns in order, the table, and, of the keys in the
/// range's column, exactly those within the range.
pub open spec fn reads_what_is_asked(
    query: Query,
    binds: Seq<ValueModel>,
    table: TableRef,
    options: StreamOptions,
) -> bool {
    &&& query.schema == table.schema@
    &&& query.table == table.name@
    &&& match options.columns {
        Some(names) => query.columns == Some(text::texts(names@)),
        None => query.columns is None,
    }
    &&& query.comparisons.len() == binds.len()
    &&& match options.key_range {
        Some(range) => forall|key: ValueModel, less: spec_fn(ValueModel, ValueModel) -> bool|
            selects(query.comparisons, binds, range.column@, key, less) <==> #[trigger] within(
                range,
                key,
                less,
            ),
        None => binds.len() == 0,
    }
}

/// `within` is what a range says that it holds.
pub proof fn lemma_within(
    range: KeyRange,
    key: ValueModel,
    less: spec_fn(ValueModel, ValueModel) -> bool,
)
    ensures
        within(range, key, less) == range.holds(key, less),
{
    let conditions = range.conditions();
    if range.lower is Some {
        assert(conditions[0] == crate::adapter::Condition::AtLeast(range.lower->0@));
    }
    if range.upper is Some {
        assert(conditions[conditions.len() - 1] == crate::adapter::Condition::Below(
            range.upper->0@,
        ));
    }
    if within(range, key, less) {
        assert forall|i: int| 0 <= i < conditions.len() implies crate::adapter::meets(
            key,
            #[trigger] conditions[i],
            less,
        ) by {}
    }
}

proof fn lemma_comparison(column: Seq<char>, rest: Seq<char>)
    ensures
        read_comparison(dialect::ident(column) + " >= ?"@ + rest) == Some(
            (Comparison { column, operator: Operator::AtLeast }, rest),
        ),
        read_comparison(dialect::ident(column) + " < ?"@ + rest) == Some(
            (Comparison { column, operator: Operator::Below }, rest),
        ),
{
    reveal_strlit(" >= ?");
    reveal_strlit(" < ?");
    reveal_strlit(" >= ");
    reveal_strlit(" < ");
    let behind = seq!['?'] + rest;
    assert(behind.skip(1) =~= rest);
    sql::lemma_operators(behind);
    assert(" >= ?"@ + rest =~= " >= "@ + behind);
    assert(" < ?"@ + rest =~= " < "@ + behind);
    lemma_ident(column, " >= "@ + behind);
    lemma_ident(column, " < "@ + behind);
    assert(dialect::ident(column) + " >= ?"@ + rest =~= dialect::ident(column) + (" >= "@
        + behind));
    assert(dialect::ident(column) + " < ?"@ + rest =~= dialect::ident(column) + (" < "@ + behind));
}

/// The comparisons of a range, as they are read.
spec fn range_comparisons(range: KeyRange) -> Seq<Comparison> {
    (if range.lower is Some {
        seq![Comparison { column: range.column@, operator: Operator::AtLeast }]
    } else {
        Seq::<Comparison>::empty()
    }) + (if range.upper is Some {
        seq![Comparison { column: range.column@, operator: Operator::Below }]
    } else {
        Seq::<Comparison>::empty()
    })
}

#[verifier::spinoff_prover]
proof fn lemma_where(options: StreamOptions)
    requires
        options.problem() is None,
    ensures
        read_where(stream::where_text(options)) == Some(
            match options.key_range {
                Some(range) => range_comparisons(range),
                None => Seq::<Comparison>::empty(),
            },
        ),
        stream::where_text(options).len() > 0 ==> stream::where_text(options)[0] == ' ',
{
    reveal_strlit(" WHERE ");
    reveal_strlit(" AND ");
    let none = Seq::<char>::empty();
    if let Some(range) = options.key_range {
        let column = range.column@;
        let parts = range.conditions().map_values(
            |c: crate::adapter::Condition| stream::condition_text(column, c),
        );
        let at_least = dialect::ident(column) + " >= ?"@;
        let below = dialect::ident(column) + " < ?"@;
        let body = text::joined(parts, " AND "@);
        sql::lemma_after(" WHERE "@, body);
        lemma_comparison(column, none);
        assert(at_least + none =~= at_least);
        assert(below + none =~= below);
        if range.lower is Some && range.upper is Some {
            let tail = " AND "@ + below;
            assert(parts =~= seq![at_least, below]);
            assert(parts.drop_last() =~= seq![at_least]);
            assert(text::joined(seq![at_least], " AND "@) == at_least);
            assert(body =~= at_least + tail);
            lemma_comparison(column, tail);
            sql::lemma_after(" AND "@, below);
            reveal_with_fuel(read_comparisons, 3);
            assert(read_comparisons(below) == Some(
                seq![Comparison { column, operator: Operator::Below }],
            ));
        } else if range.lower is Some {
            assert(parts =~= seq![at_least]);
            assert(body == at_least);
        } else {
            assert(parts =~= seq![below]);
            assert(body == below);
        }
        assert(read_comparisons(body)->0 =~= range_comparisons(range));
    }
}

/// The query of a plan reads what was asked for: the named columns in order or
/// all of them, of that table, and exactly the keys within the range,
/// whichever of its bounds are given.
pub proof fn lemma_query_reads_what_is_asked(table: TableRef, options: StreamOptions)
    requires
        options.problem() is None,
    ensures
        read_query(stream::select_text(table, options)) matches Some(query)
            && reads_what_is_asked(query, options.spec_bounds(), table, options),
{
    reveal_strlit("SELECT ");
    reveal_strlit(" FROM ");
    reveal_strlit("*");
    let filter = stream::where_text(options);
    let name = dialect::qualified(table.schema@, table.name@);
    let source = " FROM "@ + (name + filter);
    let list = stream::select_list(options.columns);
    let s = stream::select_text(table, options);
    assert(s =~= "SELECT "@ + (list + source));
    sql::lemma_after("SELECT "@, list + source);
    sql::lemma_after(" FROM "@, name + filter);
    lemma_where(options);
    lemma_qualified(table.schema@, table.name@, filter);
    match options.columns {
        Some(names) => {
            lemma_idents(text::texts(names@), source);
            assert(text::texts(names@).len() == names@.len());
            assert((list + source)[0] == '`') by {
                let parts = dialect::idents(text::texts(names@));
                if parts.len() > 1 {
                    text::lemma_joined_front(parts, ", "@);
                }
                assert(list[0] == parts[0][0]);
            }
        },
        None => {
            assert((list + source).skip(1) =~= source);
        },
    }
    let query = read_query(s)->0;
    if let Some(range) = options.key_range {
        let comparisons = range_comparisons(range);
        let binds = options.spec_bounds();
        assert(query.comparisons == comparisons);
        assert(binds.len() == comparisons.len());
        let last = comparisons.len() - 1;
        if range.lower is Some {
            assert(comparisons[0].operator is AtLeast);
            assert(binds[0] == range.lower->0@);
        }
        if range.upper is Some {
            assert(comparisons[last].operator is Below);
            assert(binds[last] == range.upper->0@);
        }
        assert forall|key: ValueModel, less: spec_fn(ValueModel, ValueModel) -> bool|
            selects(comparisons, binds, range.column@, key, less) <==> #[trigger] within(
                range,
                key,
                less,
            ) by {
            if within(range, key, less) {
                assert forall|i: int| 0 <= i < comparisons.len() implies (
                #[trigger] comparisons[i]).column == range.column@ && sql::compares(
                    key,
                    comparisons[i].operator,
                    binds[i],
                    less,
                ) by {}
            }
            if selects(comparisons, binds, range.column@, key, less) {
                if range.lower is Some {
                    assert(sql::compares(key, comparisons[0].operator, binds[0], less));
                }
                if range.upper is Some {
                    assert(sql::compares(key, comparisons[last].operator, binds[last], less));
                }
            }
        }
    }
}

/// Rows that neighbouring ranges read: no key is read by both queries, and
/// every key between the outer bounds is read by one of them.
pub proof fn lemma_neighbouring_queries(
    first: KeyRange,
    second: KeyRange,
    key: ValueModel,
    less: spec_fn(ValueModel, ValueModel) -> bool,
)
    requires
        first.upper matches Some(a) && second.lower matches Some(b) && a@ == b@,
    ensures
        !(within(first, key, less) && within(second, key, less)),
        first.lower is None && second.upper is None ==> within(first, key, less) || within(
            second,
            key,
            less,
        ),
{
}

// ---------------------------------------------------------------------------
// Writing rows
// ---------------------------------------------------------------------------

/// Places for values in parentheses, and how many they are.
pub open spec fn read_places(s: Seq<char>) -> Option<(nat, Seq<char>)>
    decreases s.len(),
{
    if s.len() == 0 {
        None
    } else if s[0] == ')' {
        Some((0, s.skip(1)))
    } else if s[0] == '?' {
        match read_places(s.skip(1)) {
            Some((n, rest)) => Some((n + 1, rest)),
            None => None,
        }
    } else if s[0] == ',' && s.len() >= 2 && s[1] == ' ' {
        read_places(s.skip(2))
    } else {
        None
    }
}

/// How many places each row has.
pub open spec fn read_rows(s: Seq<char>) -> Option<Seq<nat>>
    decreases s.len(),
{
    if s.len() == 0 {
        Some(Seq::<nat>::empty())
    } else if s[0] == '(' {
        match read_places(s.skip(1)) {
            Some((n, rest)) => if rest.len() < s.len() {
                match read_rows(rest) {
                    Some(others) => Some(seq![n] + others),
                    None => None,
                }
            } else {
                None
            },
            None => None,
        }
    } else if s[0] == ',' && s.len() >= 2 && s[1] == ' ' {
        read_rows(s.skip(2))
    } else {
        None
    }
}

/// What an insert statement inserts into, and how many places each of its rows
/// has.
pub open spec fn read_insert(s: Seq<char>) -> Option<(Seq<char>, Seq<char>, Seq<nat>)> {
    match sql::after(s, "INSERT INTO "@) {
        Some(rest) => match sql::read_table(rest, '`') {
            Some((schema, table, behind)) => match sql::after(behind, " VALUES "@) {
                Some(rows) => match read_rows(rows) {
                    Some(counts) => Some((schema, table, counts)),
                    None => None,
                },
                None => None,
            },
            None => None,
        },
        None => None,
    }
}

proof fn lemma_repeated_front(s: Seq<char>, n: nat)
    requires
        n >= 2,
    ensures
        text::joined(bulk::repeated(s, n), ", "@) == s + ", "@ + text::joined(
            bulk::repeated(s, (n - 1) as nat),
            ", "@,
        ),
{
    let parts = bulk::repeated(s, n);
    text::lemma_joined_front(parts, ", "@);
    assert(parts.drop_first() =~= bulk::repeated(s, (n - 1) as nat));
}

proof fn lemma_places(n: nat, rest: Seq<char>)
    ensures
        read_places(text::joined(bulk::repeated("?"@, n), ", "@) + seq![')'] + rest) == Some(
            (n, rest),
        ),
    decreases n,
{
    reveal_strlit("?");
    reveal_strlit(", ");
    let s = text::joined(bulk::repeated("?"@, n), ", "@) + seq![')'] + rest;
    if n == 0 {
        assert(s =~= seq![')'] + rest);
        assert(s.skip(1) =~= rest);
    } else if n == 1 {
        lemma_places(0, rest);
        assert(text::joined(bulk::repeated("?"@, 0), ", "@) =~= Seq::<char>::empty());
        assert(text::joined(bulk::repeated("?"@, n), ", "@) == "?"@);
        assert(s.skip(1) =~= text::joined(bulk::repeated("?"@, 0), ", "@) + seq![')'] + rest);
    } else {
        lemma_repeated_front("?"@, n);
        let before = (n - 1) as nat;
        let tail = text::joined(bulk::repeated("?"@, before), ", "@) + seq![')'] + rest;
        lemma_places(before, rest);
        assert(s =~= seq!['?', ',', ' '] + tail);
        assert(s.skip(1) =~= seq![',', ' '] + tail);
        assert(s.skip(1).skip(2) =~= tail);
        assert(read_places(s.skip(1)) == Some((before, rest)));
    }
}

proof fn lemma_rows(columns: nat, rows: nat)
    ensures
        read_rows(text::joined(bulk::repeated(bulk::row_places(columns), rows), ", "@)) == Some(
            Seq::new(rows, |i: int| columns),
        ),
    decreases rows,
{
    reveal_strlit("(");
    reveal_strlit(")");
    reveal_strlit(", ");
    let row = bulk::row_places(columns);
    let s = text::joined(bulk::repeated(row, rows), ", "@);
    let inner = text::joined(bulk::repeated("?"@, columns), ", "@);
    if rows == 0 {
        assert(s =~= Seq::<char>::empty());
        assert(Seq::new(rows, |i: int| columns) =~= Seq::<nat>::empty());
    } else {
        let before = (rows - 1) as nat;
        let tail = if rows == 1 {
            Seq::<char>::empty()
        } else {
            ", "@ + text::joined(bulk::repeated(row, before), ", "@)
        };
        if rows == 1 {
            assert(s == row);
        } else {
            lemma_repeated_front(row, rows);
        }
        assert(s =~= seq!['('] + (inner + seq![')'] + tail));
        assert(s.skip(1) =~= inner + seq![')'] + tail);
        lemma_places(columns, tail);
        lemma_rows(columns, before);
        if rows > 1 {
            assert(tail.skip(2) =~= text::joined(bulk::repeated(row, before), ", "@));
        } else {
            assert(text::joined(bulk::repeated(row, before), ", "@) =~= tail);
        }
        assert(read_rows(tail) == Some(Seq::new(before, |i: int| columns)));
        assert(seq![columns] + Seq::new(before, |i: int| columns) =~= Seq::new(
            rows,
            |i: int| columns,
        ));
    }
}

/// An insert statement names its table, and has as many rows as are written,
/// each with a place for every cell.
pub proof fn lemma_insert_reads_back(table: TableRef, columns: nat, rows: nat)
    ensures
        read_insert(bulk::insert_text(table, columns, rows)) == Some(
            (table.schema@, table.name@, Seq::new(rows, |i: int| columns)),
        ),
{
    reveal_strlit("INSERT INTO ");
    reveal_strlit(" VALUES ");
    let places = text::joined(bulk::repeated(bulk::row_places(columns), rows), ", "@);
    let name = dialect::qualified(table.schema@, table.name@);
    let values = " VALUES "@ + places;
    assert(bulk::insert_text(table, columns, rows) =~= "INSERT INTO "@ + (name + values));
    sql::lemma_after("INSERT INTO "@, name + values);
    lemma_qualified(table.schema@, table.name@, values);
    sql::lemma_after(" VALUES "@, places);
    lemma_rows(columns, rows);
}

} // verus!
