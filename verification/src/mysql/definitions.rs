//! How MySQL reads the statements that create and change tables, and that it
//! reads in them what they were written for.
use vstd::prelude::*;

use crate::adapter::{
    ColumnDefinition, ConstraintDefinition, IndexDefinition, TableAlteration, TableDefinition,
};
use crate::mysql::ddl;
use crate::mysql::dialect;
use crate::mysql::statements;
use crate::number;
use crate::schema::{
    CheckConstraint, Column, ForeignKey, IndexColumn, PrimaryKey, ReferentialAction, Table,
    UniqueConstraint,
};
use crate::sql;
use crate::text;
use crate::types;
use crate::types::Category;

verus! {

// ---------------------------------------------------------------------------
// Quotes and parentheses
// ---------------------------------------------------------------------------

/// Where a text stands: in how many open parentheses, and in which quotes.
pub struct Place {
    pub depth: int,
    pub quote: Option<char>,
}

/// Outside of parentheses and quotes.
pub open spec fn outside() -> Place {
    Place { depth: 0, quote: None }
}

/// The place behind a character.
pub open spec fn behind(p: Place, c: char) -> Place {
    match p.quote {
        Some(q) => if c == q {
            Place { depth: p.depth, quote: None }
        } else {
            p
        },
        None => if c == '\'' || c == '"' || c == '`' {
            Place { depth: p.depth, quote: Some(c) }
        } else if c == '(' {
            Place { depth: p.depth + 1, quote: None }
        } else if c == ')' {
            Place { depth: p.depth - 1, quote: None }
        } else {
            p
        },
    }
}

/// The place behind a text.
pub open spec fn end_of(s: Seq<char>, p: Place) -> Place
    decreases s.len(),
{
    if s.len() == 0 {
        p
    } else {
        end_of(s.skip(1), behind(p, s[0]))
    }
}

/// Where a character first stands outside of parentheses and quotes; the
/// length of the text where it never does.
pub open spec fn find_outside(s: Seq<char>, c: char, p: Place) -> int
    decreases s.len(),
{
    if s.len() == 0 || (s[0] == c && p == outside()) {
        0
    } else {
        1 + find_outside(s.skip(1), c, behind(p, s[0]))
    }
}

/// Whether a text closes what it opens from a place on, and does not hold the
/// character outside of parentheses and quotes.
pub open spec fn is_closed(s: Seq<char>, c: char, p: Place) -> bool {
    end_of(s, p) == p && find_outside(s, c, p) == s.len()
}

proof fn lemma_end_concat(a: Seq<char>, b: Seq<char>, p: Place)
    ensures
        end_of(a + b, p) == end_of(b, end_of(a, p)),
    decreases a.len(),
{
    if a.len() == 0 {
        assert(a + b =~= b);
    } else {
        assert((a + b).skip(1) =~= a.skip(1) + b);
        lemma_end_concat(a.skip(1), b, behind(p, a[0]));
    }
}

/// What stands in front is passed over, where it does not hold the character
/// outside.
proof fn lemma_find_concat(a: Seq<char>, b: Seq<char>, c: char, p: Place)
    requires
        find_outside(a, c, p) == a.len(),
    ensures
        find_outside(a + b, c, p) == a.len() + find_outside(b, c, end_of(a, p)),
    decreases a.len(),
{
    if a.len() == 0 {
        assert(a + b =~= b);
    } else {
        assert((a + b).skip(1) =~= a.skip(1) + b);
        lemma_find_bounds(a.skip(1), c, behind(p, a[0]));
        lemma_find_concat(a.skip(1), b, c, behind(p, a[0]));
    }
}

proof fn lemma_find_bounds(s: Seq<char>, c: char, p: Place)
    ensures
        0 <= find_outside(s, c, p) <= s.len(),
    decreases s.len(),
{
    if s.len() > 0 {
        lemma_find_bounds(s.skip(1), c, behind(p, s[0]));
    }
}

/// Closed texts one behind the other are closed.
proof fn lemma_closed_concat(a: Seq<char>, b: Seq<char>, c: char, p: Place)
    requires
        is_closed(a, c, p),
        is_closed(b, c, p),
    ensures
        is_closed(a + b, c, p),
{
    lemma_end_concat(a, b, p);
    lemma_find_concat(a, b, c, p);
}

/// A character that neither opens nor closes anything.
pub open spec fn is_plain(ch: char) -> bool {
    ch != '\'' && ch != '"' && ch != '`' && ch != '(' && ch != ')'
}

/// Plain characters are closed at any place outside of quotes, if the
/// character is not among them or the place is in parentheses.
proof fn lemma_plain(s: Seq<char>, c: char, p: Place)
    requires
        p.quote is None,
        forall|i: int|
            0 <= i < s.len() ==> is_plain(#[trigger] s[i]) && (s[i] != c || p.depth != 0),
    ensures
        is_closed(s, c, p),
    decreases s.len(),
{
    if s.len() > 0 {
        assert(is_plain(s[0]));
        assert forall|i: int| 0 <= i < s.skip(1).len() implies is_plain(#[trigger] s.skip(1)[i])
            && (s.skip(1)[i] != c || p.depth != 0) by {
            assert(is_plain(s[i + 1]));
        }
        assert(behind(p, s[0]) == p);
        lemma_plain(s.skip(1), c, p);
    }
}

proof fn lemma_inside_quotes(s: Seq<char>, q: char, c: char, depth: int)
    requires
        q == '\'' || q == '`',
    ensures
        end_of(text::doubled(s, q) + seq![q], Place { depth, quote: Some(q) }) == (Place {
            depth,
            quote: None,
        }),
        c != q ==> find_outside(
            text::doubled(s, q) + seq![q],
            c,
            Place { depth, quote: Some(q) },
        ) == text::doubled(s, q).len() + 1,
    decreases s.len(),
{
    let inside = Place { depth, quote: Some(q) };
    let free = Place { depth, quote: None };
    let whole = text::doubled(s, q) + seq![q];
    if s.len() == 0 {
        assert(whole =~= seq![q]);
        reveal_with_fuel(end_of, 2);
        reveal_with_fuel(find_outside, 2);
        assert(whole.skip(1) =~= Seq::<char>::empty());
    } else {
        let rest = text::doubled(s.drop_first(), q) + seq![q];
        lemma_inside_quotes(s.drop_first(), q, c, depth);
        if s[0] == q {
            assert(whole.skip(1) =~= seq![q] + rest);
            assert(whole.skip(1).skip(1) =~= rest);
            assert(behind(inside, q) == free);
            assert(behind(free, q) == inside);
            assert(end_of(whole.skip(1), free) == end_of(rest, inside));
            if c != q {
                assert(whole.skip(1)[0] != c);
                assert(find_outside(whole.skip(1), c, free) == 1 + find_outside(rest, c, inside));
            }
        } else {
            assert(whole.skip(1) =~= rest);
            assert(behind(inside, s[0]) == inside);
        }
    }
}

/// A quoted text is closed, whatever it holds.
proof fn lemma_quoted(s: Seq<char>, q: char, c: char, depth: int)
    requires
        q == '\'' || q == '`',
        c != q,
    ensures
        is_closed(sql::quoted(s, q), c, Place { depth, quote: None }),
{
    let whole = sql::quoted(s, q);
    lemma_inside_quotes(s, q, c, depth);
    assert(whole.skip(1) =~= text::doubled(s, q) + seq![q]);
}

/// What is closed in parentheses is closed with them.
proof fn lemma_parentheses(s: Seq<char>, c: char)
    requires
        is_closed(s, c, Place { depth: 1, quote: None }),
        c != '(',
        c != ')',
    ensures
        is_closed(seq!['('] + s + seq![')'], c, outside()),
{
    let inner = Place { depth: 1, quote: None };
    let whole = seq!['('] + s + seq![')'];
    let tail = s + seq![')'];
    assert(whole.skip(1) =~= tail);
    lemma_end_concat(s, seq![')'], inner);
    lemma_find_concat(s, seq![')'], c, inner);
    reveal_with_fuel(end_of, 2);
    reveal_with_fuel(find_outside, 2);
    assert(seq![')'].skip(1) =~= Seq::<char>::empty());
}

/// A list of closed texts is closed in parentheses.
proof fn lemma_joined_closed(parts: Seq<Seq<char>>, c: char)
    requires
        forall|i: int|
            0 <= i < parts.len() ==> is_closed(
                #[trigger] parts[i],
                c,
                (Place { depth: 1, quote: None }),
            ),
    ensures
        is_closed(text::joined(parts, ", "@), c, (Place { depth: 1, quote: None })),
    decreases parts.len(),
{
    let inner = Place { depth: 1, quote: None };
    reveal_strlit(", ");
    lemma_plain(", "@, c, inner);
    if parts.len() > 1 {
        let front = parts.drop_last();
        assert forall|i: int| 0 <= i < front.len() implies is_closed(#[trigger] front[i], c, inner) by {
            assert(front[i] == parts[i]);
        }
        lemma_joined_closed(front, c);
        lemma_closed_concat(text::joined(front, ", "@), ", "@, c, inner);
        assert(is_closed(parts[parts.len() - 1], c, inner));
        lemma_closed_concat(text::joined(front, ", "@) + ", "@, parts.last(), c, inner);
    } else if parts.len() == 1 {
        assert(is_closed(parts[0], c, inner));
    }
}

// ---------------------------------------------------------------------------
// Pieces
// ---------------------------------------------------------------------------

/// The pieces between the commas outside of parentheses and quotes.
pub open spec fn pieces(s: Seq<char>) -> Seq<Seq<char>>
    decreases s.len(),
{
    let i = find_outside(s, ',', outside());
    if 0 <= i < s.len() {
        seq![s.take(i)] + pieces(s.skip(i + 1))
    } else {
        seq![s]
    }
}

/// A text without the line end and the indentation in front of it.
pub open spec fn unindented(s: Seq<char>) -> Seq<char> {
    match sql::after(s, "\n  "@) {
        Some(rest) => rest,
        None => s,
    }
}

/// The lines of a table's body.
pub open spec fn read_lines(s: Seq<char>) -> Seq<Seq<char>> {
    pieces(s).map_values(|p: Seq<char>| unindented(p))
}

proof fn lemma_comma(s: Seq<char>, rest: Seq<char>)
    requires
        is_closed(s, ',', outside()),
    ensures
        find_outside(s + seq![','] + rest, ',', outside()) == s.len(),
{
    let tail = seq![','] + rest;
    assert(s + seq![','] + rest =~= s + tail);
    lemma_find_concat(s, tail, ',', outside());
}

proof fn lemma_lines(lines: Seq<Seq<char>>, indent: bool)
    requires
        lines.len() > 0,
        forall|i: int|
            0 <= i < lines.len() ==> is_closed(#[trigger] lines[i], ',', outside()) && (
            lines[i].len() > 0 ==> lines[i][0] != '\n'),
    ensures
        read_lines(
            if indent {
                "\n  "@ + text::joined(lines, ",\n  "@)
            } else {
                text::joined(lines, ",\n  "@)
            },
        ) == lines,
    decreases lines.len(),
{
    reveal_strlit("\n  ");
    reveal_strlit(",\n  ");
    let body = text::joined(lines, ",\n  "@);
    let first = if indent {
        "\n  "@ + lines[0]
    } else {
        lines[0]
    };
    assert(is_closed(lines[0], ',', outside()));
    lemma_plain("\n  "@, ',', outside());
    lemma_closed_concat("\n  "@, lines[0], ',', outside());
    sql::lemma_after("\n  "@, lines[0]);
    sql::lemma_not_after(lines[0], "\n  "@, 0);
    assert(unindented(first) == lines[0]);
    let s = if indent {
        "\n  "@ + body
    } else {
        body
    };
    if lines.len() == 1 {
        assert(s =~= first);
        assert(read_lines(s) =~= lines);
    } else {
        let others = lines.drop_first();
        let tail = "\n  "@ + text::joined(others, ",\n  "@);
        text::lemma_joined_front(lines, ",\n  "@);
        assert(",\n  "@ =~= seq![','] + "\n  "@);
        assert(s =~= first + seq![','] + tail);
        lemma_comma(first, tail);
        assert(s.take(first.len() as int) =~= first);
        assert(s.skip(first.len() as int + 1) =~= tail);
        assert forall|i: int| 0 <= i < others.len() implies is_closed(
            #[trigger] others[i],
            ',',
            outside(),
        ) && (others[i].len() > 0 ==> others[i][0] != '\n') by {
            assert(is_closed(lines[i + 1], ',', outside()));
        }
        lemma_lines(others, true);
        assert(pieces(s) == seq![first] + pieces(tail));
        assert(read_lines(s) =~= seq![lines[0]] + read_lines(tail));
        assert(seq![lines[0]] + others =~= lines);
    }
}

// ---------------------------------------------------------------------------
// Columns
// ---------------------------------------------------------------------------

/// What a column's line declares.
pub struct ColumnClause {
    pub name: Seq<char>,
    pub sql_type: Seq<char>,
    pub nullable: bool,
    pub default: Option<Seq<char>>,
    pub identity: bool,
}

/// What stands behind a column's type.
pub open spec fn read_tail(
    name: Seq<char>,
    sql_type: Seq<char>,
    nullable: bool,
    s: Seq<char>,
) -> Option<ColumnClause> {
    if s.len() == 0 {
        Some(ColumnClause { name, sql_type, nullable, default: None, identity: false })
    } else if s == " AUTO_INCREMENT"@ {
        Some(ColumnClause { name, sql_type, nullable, default: None, identity: true })
    } else {
        match sql::after(s, " DEFAULT "@) {
            Some(default) => Some(
                ColumnClause { name, sql_type, nullable, default: Some(default), identity: false },
            ),
            None => None,
        }
    }
}

/// What a column's line declares: its name, its type up to the first space
/// outside of parentheses and quotes, and what follows.
pub open spec fn read_column(s: Seq<char>) -> Option<ColumnClause> {
    match sql::read_name(s, '`') {
        Some((name, rest)) => if rest.len() > 0 && rest[0] == ' ' {
            let typed = rest.skip(1);
            let i = find_outside(typed, ' ', outside());
            let sql_type = typed.take(i);
            let tail = typed.skip(i);
            match sql::after(tail, " NOT NULL"@) {
                Some(more) => read_tail(name, sql_type, false, more),
                None => read_tail(name, sql_type, true, tail),
            }
        } else {
            None
        },
        None => None,
    }
}

/// Whether a type is one word, with what stands in its parentheses.
pub open spec fn is_one_word(sql_type: Seq<char>) -> bool {
    is_closed(sql_type, ' ', outside()) && is_closed(sql_type, ',', outside())
}

/// Whether a default is an expression of its own: it closes what it opens, and
/// holds no comma outside of parentheses and quotes.
pub open spec fn is_one_expression(default: Option<Seq<char>>) -> bool {
    default matches Some(d) ==> is_closed(d, ',', outside())
}

/// A column's line reads back: its name, its type, whether it may be null, and
/// its generated key or else its default.
#[verifier::spinoff_prover]
pub proof fn lemma_column(
    name: Seq<char>,
    sql_type: Seq<char>,
    nullable: bool,
    default: Option<Seq<char>>,
    identity: bool,
)
    requires
        is_one_word(sql_type),
    ensures
        read_column(ddl::column_text(name, sql_type, nullable, default, identity)) == Some(
            ColumnClause {
                name,
                sql_type,
                nullable,
                default: if identity {
                    None
                } else {
                    default
                },
                identity,
            },
        ),
        is_one_expression(default) ==> is_closed(
            ddl::column_text(name, sql_type, nullable, default, identity),
            ',',
            outside(),
        ),
        ddl::column_text(name, sql_type, nullable, default, identity)[0] == '`',
        ddl::column_text(name, sql_type, nullable, default, identity).len() > 0,
{
    reveal_strlit(" NOT NULL");
    reveal_strlit(" AUTO_INCREMENT");
    reveal_strlit(" DEFAULT ");
    let not_null = if nullable {
        Seq::<char>::empty()
    } else {
        " NOT NULL"@
    };
    let value = if identity {
        " AUTO_INCREMENT"@
    } else {
        match default {
            Some(d) => " DEFAULT "@ + d,
            None => Seq::<char>::empty(),
        }
    };
    let tail = not_null + value;
    let typed = sql_type + tail;
    let line = ddl::column_text(name, sql_type, nullable, default, identity);
    assert(line =~= dialect::ident(name) + (seq![' '] + typed));
    statements::lemma_ident(name, seq![' '] + typed);
    assert((seq![' '] + typed).skip(1) =~= typed);
    lemma_find_concat(sql_type, tail, ' ', outside());
    assert(tail.len() > 0 ==> tail[0] == ' ');
    assert(find_outside(tail, ' ', outside()) == 0);
    assert(typed.take(sql_type.len() as int) =~= sql_type);
    assert(typed.skip(sql_type.len() as int) =~= tail);
    if nullable {
        assert(tail =~= value);
        assert(" NOT NULL"@[1] == 'N' && " AUTO_INCREMENT"@[1] == 'A' && " DEFAULT "@[1] == 'D');
        sql::lemma_not_after(tail, " NOT NULL"@, 1);
    } else {
        sql::lemma_after(" NOT NULL"@, value);
    }
    if !identity {
        if let Some(d) = default {
            sql::lemma_after(" DEFAULT "@, d);
            assert(value[1] == 'D');
            assert(" AUTO_INCREMENT"@[1] == 'A');
        }
    }
    if is_one_expression(default) {
        let o = outside();
        statements::lemma_quotes(name, name);
        lemma_quoted(name, '`', ',', 0);
        lemma_plain(seq![' '], ',', o);
        lemma_plain(not_null, ',', o);
        lemma_plain(" AUTO_INCREMENT"@, ',', o);
        lemma_plain(" DEFAULT "@, ',', o);
        lemma_plain(Seq::<char>::empty(), ',', o);
        if !identity {
            if let Some(d) = default {
                lemma_closed_concat(" DEFAULT "@, d, ',', o);
            }
        }
        lemma_closed_concat(dialect::ident(name), seq![' '], ',', o);
        lemma_closed_concat(dialect::ident(name) + seq![' '], sql_type, ',', o);
        lemma_closed_concat(dialect::ident(name) + seq![' '] + sql_type, not_null, ',', o);
        lemma_closed_concat(dialect::ident(name) + seq![' '] + sql_type + not_null, value, ',', o);
    }
}

proof fn lemma_digits_plain(n: nat)
    ensures
        forall|i: int| 0 <= i < number::digits(n).len() ==> is_plain(#[trigger] number::digits(n)[i])
            && number::digits(n)[i] != ' ' && number::digits(n)[i] != ',',
{
    number::lemma_digits(n);
    assert forall|i: int| 0 <= i < number::digits(n).len() implies is_plain(
        #[trigger] number::digits(n)[i],
    ) && number::digits(n)[i] != ' ' && number::digits(n)[i] != ',' by {
        assert(number::is_digit(number::digits(n)[i]));
    }
}

/// Letters, which type names are made of.
spec fn is_letters(s: Seq<char>) -> bool {
    forall|i: int| 0 <= i < s.len() ==> 'a' <= #[trigger] s[i] <= 'z'
}

proof fn lemma_word_type(name: Seq<char>)
    requires
        is_letters(name),
    ensures
        is_one_word(name),
{
    assert forall|i: int| 0 <= i < name.len() implies is_plain(#[trigger] name[i]) && name[i]
        != ' ' && name[i] != ',' by {}
    lemma_plain(name, ' ', outside());
    lemma_plain(name, ',', outside());
}

proof fn lemma_sized_type(name: Seq<char>, args: Seq<char>)
    requires
        is_letters(name),
        is_closed(args, ' ', (Place { depth: 1, quote: None })),
        is_closed(args, ',', (Place { depth: 1, quote: None })),
    ensures
        is_one_word(name + seq!['('] + args + seq![')']),
{
    lemma_word_type(name);
    lemma_parentheses(args, ' ');
    lemma_parentheses(args, ',');
    lemma_closed_concat(name, seq!['('] + args + seq![')'], ' ', outside());
    lemma_closed_concat(name, seq!['('] + args + seq![')'], ',', outside());
    assert(name + (seq!['('] + args + seq![')']) =~= name + seq!['('] + args + seq![')']);
}

proof fn lemma_sized_word(name: Seq<char>, n: u32)
    requires
        is_letters(name),
    ensures
        is_one_word(ddl::sized(name, n)),
{
    let inner = Place { depth: 1, quote: None };
    lemma_digits_plain(n as nat);
    lemma_plain(number::digits(n as nat), ' ', inner);
    lemma_plain(number::digits(n as nat), ',', inner);
    lemma_sized_type(name, number::digits(n as nat));
}

proof fn lemma_letters()
    ensures
        is_letters("tinyint"@),
        is_letters("smallint"@),
        is_letters("int"@),
        is_letters("bigint"@),
        is_letters("decimal"@),
        is_letters("float"@),
        is_letters("double"@),
        is_letters("char"@),
        is_letters("varchar"@),
        is_letters("text"@),
        is_letters("binary"@),
        is_letters("varbinary"@),
        is_letters("blob"@),
        is_letters("date"@),
        is_letters("time"@),
        is_letters("datetime"@),
        is_letters("json"@),
        is_letters("bit"@),
        is_letters("enum"@),
        is_letters("geometry"@),
{
    reveal_strlit("tinyint");
    reveal_strlit("smallint");
    reveal_strlit("int");
    reveal_strlit("bigint");
    reveal_strlit("decimal");
    reveal_strlit("float");
    reveal_strlit("double");
    reveal_strlit("char");
    reveal_strlit("varchar");
    reveal_strlit("text");
    reveal_strlit("binary");
    reveal_strlit("varbinary");
    reveal_strlit("blob");
    reveal_strlit("date");
    reveal_strlit("time");
    reveal_strlit("datetime");
    reveal_strlit("json");
    reveal_strlit("bit");
    reveal_strlit("enum");
    reveal_strlit("geometry");
}

/// The type that is written for a category is one word. A type that is only
/// known by its own name may be anything.
#[verifier::spinoff_prover]
#[verifier::rlimit(40)]
pub proof fn lemma_type_is_one_word(category: Category)
    requires
        category matches Category::Unsupported { native_type } ==> is_one_word(native_type),
    ensures
        is_one_word(ddl::type_text(category)),
{
    let inner = Place { depth: 1, quote: None };
    lemma_letters();
    match category {
        Category::Boolean => {
            reveal_strlit("tinyint(1)");
            reveal_strlit("tinyint");
            assert(number::digits(1) =~= seq!['1']);
            assert("tinyint(1)"@ =~= ddl::sized("tinyint"@, 1));
            lemma_sized_word("tinyint"@, 1);
        },
        Category::SmallInt => lemma_word_type("smallint"@),
        Category::Integer => lemma_word_type("int"@),
        Category::BigInt => lemma_word_type("bigint"@),
        Category::Decimal { precision, scale } => match (precision, scale) {
            (Some(p), Some(d)) => {
                reveal_strlit("decimal(");
                reveal_strlit("decimal");
                let args = number::digits(p as nat) + seq![','] + number::digits(d as nat);
                lemma_digits_plain(p as nat);
                lemma_digits_plain(d as nat);
                assert forall|i: int| 0 <= i < args.len() implies is_plain(#[trigger] args[i]) by {
                    let n = number::digits(p as nat).len();
                    if i < n {
                        assert(is_plain(number::digits(p as nat)[i]));
                    } else if i > n {
                        assert(is_plain(number::digits(d as nat)[i - n - 1]));
                    }
                }
                lemma_plain(args, ' ', inner);
                lemma_plain(args, ',', inner);
                lemma_sized_type("decimal"@, args);
                assert(ddl::type_text(category) =~= "decimal"@ + seq!['('] + args + seq![')']);
            },
            (Some(p), None) => lemma_sized_word("decimal"@, p),
            _ => lemma_word_type("decimal"@),
        },
        Category::Real => lemma_word_type("float"@),
        Category::Double => lemma_word_type("double"@),
        Category::Char { length } => lemma_sized_word("char"@, ddl::length_or(length, 1)),
        Category::VarChar { length } => lemma_sized_word("varchar"@, ddl::length_or(length, 255)),
        Category::Text => lemma_word_type("text"@),
        Category::Binary { length } => lemma_sized_word("binary"@, ddl::length_or(length, 1)),
        Category::VarBinary { length } => lemma_sized_word(
            "varbinary"@,
            ddl::length_or(length, 255),
        ),
        Category::Blob => lemma_word_type("blob"@),
        Category::Date => lemma_word_type("date"@),
        Category::Time { precision, .. } => {
            lemma_word_type("time"@);
            if precision is Some {
                lemma_sized_word("time"@, precision->0);
            }
        },
        Category::Timestamp { precision, .. } => {
            lemma_word_type("datetime"@);
            if precision is Some {
                lemma_sized_word("datetime"@, precision->0);
            }
        },
        Category::Interval => {
            reveal_strlit("varchar(255)");
            reveal_strlit("varchar");
            reveal_with_fuel(number::digits, 3);
            assert(number::digits(255) =~= seq!['2', '5', '5']);
            assert("varchar(255)"@ =~= ddl::sized("varchar"@, 255));
            lemma_sized_word("varchar"@, 255);
        },
        Category::Uuid => {
            reveal_strlit("char(36)");
            reveal_strlit("char");
            reveal_with_fuel(number::digits, 2);
            assert(number::digits(36) =~= seq!['3', '6']);
            assert("char(36)"@ =~= ddl::sized("char"@, 36));
            lemma_sized_word("char"@, 36);
        },
        Category::Json { .. } => lemma_word_type("json"@),
        Category::Xml => lemma_word_type("text"@),
        Category::Bit { length } => lemma_sized_word("bit"@, ddl::length_or(length, 1)),
        Category::Enum { values } => {
            reveal_strlit("enum(");
            reveal_strlit("enum");
            let parts = ddl::literals(values);
            let list = text::joined(parts, ", "@);
            assert forall|i: int| 0 <= i < parts.len() implies is_closed(
                #[trigger] parts[i],
                ' ',
                inner,
            ) && is_closed(parts[i], ',', inner) by {
                assert(parts[i] == sql::quoted(values[i], '\''));
                lemma_quoted(values[i], '\'', ' ', 1);
                lemma_quoted(values[i], '\'', ',', 1);
            }
            lemma_joined_closed(parts, ' ');
            lemma_joined_closed(parts, ',');
            lemma_sized_type("enum"@, list);
            assert(ddl::type_text(category) =~= "enum"@ + seq!['('] + list + seq![')']);
        },
        Category::Array { .. } => lemma_word_type("json"@),
        Category::Geometry { .. } => lemma_word_type("geometry"@),
        Category::Unsupported { .. } => {},
    }
}

// ---------------------------------------------------------------------------
// Statements
// ---------------------------------------------------------------------------

/// A change to a table.
pub enum Change {
    AddColumn { clause: ColumnClause },
    DropColumn { column: Seq<char> },
    ModifyColumn { column: Seq<char>, sql_type: Seq<char> },
    AddPrimaryKey { columns: Seq<Seq<char>> },
    AddUnique { constraint: Seq<char>, columns: Seq<Seq<char>> },
    AddCheck { constraint: Seq<char>, expression: Seq<char> },
    AddForeignKey {
        constraint: Seq<char>,
        columns: Seq<Seq<char>>,
        referenced_schema: Seq<char>,
        referenced_table: Seq<char>,
        referenced_columns: Seq<Seq<char>>,
        on_update: ReferentialAction,
        on_delete: ReferentialAction,
    },
    DropConstraint { constraint: Seq<char> },
}

/// What a statement does, and to which table.
pub enum Statement {
    CreateTable {
        schema: Seq<char>,
        table: Seq<char>,
        clauses: Seq<ColumnClause>,
        key: Option<Seq<Seq<char>>>,
    },
    CreateIndex {
        unique: bool,
        name: Seq<char>,
        schema: Seq<char>,
        table: Seq<char>,
        columns: Seq<Seq<char>>,
    },
    DropIndex { name: Seq<char>, schema: Seq<char>, table: Seq<char> },
    AlterTable { schema: Seq<char>, table: Seq<char>, change: Change },
}

/// A list of names up to the end.
pub open spec fn read_all_names(s: Seq<char>) -> Option<Seq<Seq<char>>> {
    match sql::read_list(s, '`') {
        Some((names, rest)) => if rest.len() == 0 {
            Some(names)
        } else {
            None
        },
        None => None,
    }
}

/// A name up to the end.
pub open spec fn read_last_name(s: Seq<char>) -> Option<Seq<char>> {
    match sql::read_name(s, '`') {
        Some((name, rest)) => if rest.len() == 0 {
            Some(name)
        } else {
            None
        },
        None => None,
    }
}

/// The columns and the key that the lines of a table's body declare.
pub open spec fn read_body(lines: Seq<Seq<char>>) -> Option<
    (Seq<ColumnClause>, Option<Seq<Seq<char>>>),
>
    decreases lines.len(),
{
    if lines.len() == 0 {
        Some((Seq::<ColumnClause>::empty(), None))
    } else {
        match read_body(lines.drop_last()) {
            Some((columns, key)) => match sql::after(lines.last(), "PRIMARY KEY "@) {
                Some(list) => match read_all_names(list) {
                    Some(names) => if key is None {
                        Some((columns, Some(names)))
                    } else {
                        None
                    },
                    None => None,
                },
                None => match read_column(lines.last()) {
                    Some(column) => Some((columns.push(column), key)),
                    None => None,
                },
            },
            None => None,
        }
    }
}

/// The table that is created, behind the words that say so.
pub open spec fn read_create(s: Seq<char>) -> Option<Statement> {
    match sql::read_table(s, '`') {
        Some((schema, table, rest)) => match sql::after(rest, " (\n  "@) {
            Some(open) => if open.len() >= 2 && open.skip(open.len() - 2) == "\n)"@ {
                let body = open.take(open.len() - 2);
                let lines = if body.len() == 0 {
                    Seq::<Seq<char>>::empty()
                } else {
                    read_lines(body)
                };
                match read_body(lines) {
                    Some((clauses, key)) => Some(
                        Statement::CreateTable { schema, table, clauses, key },
                    ),
                    None => None,
                }
            } else {
                None
            },
            None => None,
        },
        None => None,
    }
}

/// The index that is created, behind the words that say so.
pub open spec fn read_index(unique: bool, s: Seq<char>) -> Option<Statement> {
    match sql::read_name(s, '`') {
        Some((name, rest)) => match sql::after(rest, " ON "@) {
            Some(on) => match sql::read_table(on, '`') {
                Some((schema, table, more)) => if more.len() > 0 && more[0] == ' ' {
                    match read_all_names(more.skip(1)) {
                        Some(columns) => Some(
                            Statement::CreateIndex { unique, name, schema, table, columns },
                        ),
                        None => None,
                    }
                } else {
                    None
                },
                None => None,
            },
            None => None,
        },
        None => None,
    }
}

/// The index that is dropped, behind the words that say so.
pub open spec fn read_drop(s: Seq<char>) -> Option<Statement> {
    match sql::read_name(s, '`') {
        Some((name, rest)) => match sql::after(rest, " ON "@) {
            Some(on) => match sql::read_table(on, '`') {
                Some((schema, table, more)) => if more.len() == 0 {
                    Some(Statement::DropIndex { name, schema, table })
                } else {
                    None
                },
                None => None,
            },
            None => None,
        },
        None => None,
    }
}

/// The referential action in front of a text.
pub open spec fn read_action(s: Seq<char>) -> Option<(ReferentialAction, Seq<char>)> {
    if sql::after(s, "NO ACTION"@) is Some {
        Some((ReferentialAction::NoAction, sql::after(s, "NO ACTION"@)->0))
    } else if sql::after(s, "RESTRICT"@) is Some {
        Some((ReferentialAction::Restrict, sql::after(s, "RESTRICT"@)->0))
    } else if sql::after(s, "CASCADE"@) is Some {
        Some((ReferentialAction::Cascade, sql::after(s, "CASCADE"@)->0))
    } else if sql::after(s, "SET NULL"@) is Some {
        Some((ReferentialAction::SetNull, sql::after(s, "SET NULL"@)->0))
    } else if sql::after(s, "SET DEFAULT"@) is Some {
        Some((ReferentialAction::SetDefault, sql::after(s, "SET DEFAULT"@)->0))
    } else {
        None
    }
}

/// What happens to a reference when what it refers to changes or goes.
pub open spec fn read_actions(s: Seq<char>) -> Option<(ReferentialAction, ReferentialAction)> {
    match sql::after(s, " ON UPDATE "@) {
        Some(update) => match read_action(update) {
            Some((on_update, rest)) => match sql::after(rest, " ON DELETE "@) {
                Some(delete) => match read_action(delete) {
                    Some((on_delete, end)) => if end.len() == 0 {
                        Some((on_update, on_delete))
                    } else {
                        None
                    },
                    None => None,
                },
                None => None,
            },
            None => None,
        },
        None => None,
    }
}

/// A foreign key, behind the words that say so.
pub open spec fn read_foreign_key(constraint: Seq<char>, s: Seq<char>) -> Option<Change> {
    match sql::read_list(s, '`') {
        Some((columns, rest)) => match sql::after(rest, " REFERENCES "@) {
            Some(target) => match sql::read_table(target, '`') {
                Some((referenced_schema, referenced_table, more)) => if more.len() > 0 && more[0]
                    == ' ' {
                    match sql::read_list(more.skip(1), '`') {
                        Some((referenced_columns, actions)) => match read_actions(actions) {
                            Some((on_update, on_delete)) => Some(
                                Change::AddForeignKey {
                                    constraint,
                                    columns,
                                    referenced_schema,
                                    referenced_table,
                                    referenced_columns,
                                    on_update,
                                    on_delete,
                                },
                            ),
                            None => None,
                        },
                        None => None,
                    }
                } else {
                    None
                },
                None => None,
            },
            None => None,
        },
        None => None,
    }
}

/// A constraint, behind its name.
pub open spec fn read_constraint(constraint: Seq<char>, s: Seq<char>) -> Option<Change> {
    if sql::after(s, " UNIQUE "@) is Some {
        match read_all_names(sql::after(s, " UNIQUE "@)->0) {
            Some(columns) => Some(Change::AddUnique { constraint, columns }),
            None => None,
        }
    } else if sql::after(s, " CHECK ("@) is Some {
        let rest = sql::after(s, " CHECK ("@)->0;
        if rest.len() > 0 && rest.last() == ')' {
            Some(Change::AddCheck { constraint, expression: rest.drop_last() })
        } else {
            None
        }
    } else if sql::after(s, " FOREIGN KEY "@) is Some {
        read_foreign_key(constraint, sql::after(s, " FOREIGN KEY "@)->0)
    } else {
        None
    }
}

/// What is changed in a table, behind its name.
pub open spec fn read_change(s: Seq<char>) -> Option<Change> {
    if sql::after(s, " ADD COLUMN "@) is Some {
        match read_column(sql::after(s, " ADD COLUMN "@)->0) {
            Some(clause) => Some(Change::AddColumn { clause }),
            None => None,
        }
    } else if sql::after(s, " ADD PRIMARY KEY "@) is Some {
        match read_all_names(sql::after(s, " ADD PRIMARY KEY "@)->0) {
            Some(columns) => Some(Change::AddPrimaryKey { columns }),
            None => None,
        }
    } else if sql::after(s, " ADD CONSTRAINT "@) is Some {
        match sql::read_name(sql::after(s, " ADD CONSTRAINT "@)->0, '`') {
            Some((constraint, rest)) => read_constraint(constraint, rest),
            None => None,
        }
    } else if sql::after(s, " DROP COLUMN "@) is Some {
        match read_last_name(sql::after(s, " DROP COLUMN "@)->0) {
            Some(column) => Some(Change::DropColumn { column }),
            None => None,
        }
    } else if sql::after(s, " DROP CONSTRAINT "@) is Some {
        match read_last_name(sql::after(s, " DROP CONSTRAINT "@)->0) {
            Some(constraint) => Some(Change::DropConstraint { constraint }),
            None => None,
        }
    } else if sql::after(s, " MODIFY COLUMN "@) is Some {
        match sql::read_name(sql::after(s, " MODIFY COLUMN "@)->0, '`') {
            Some((column, rest)) => if rest.len() > 0 && rest[0] == ' ' {
                Some(Change::ModifyColumn { column, sql_type: rest.skip(1) })
            } else {
                None
            },
            None => None,
        }
    } else {
        None
    }
}

/// What a statement does.
pub open spec fn read_statement(s: Seq<char>) -> Option<Statement> {
    if sql::after(s, "CREATE TABLE "@) is Some {
        read_create(sql::after(s, "CREATE TABLE "@)->0)
    } else if sql::after(s, "CREATE UNIQUE INDEX "@) is Some {
        read_index(true, sql::after(s, "CREATE UNIQUE INDEX "@)->0)
    } else if sql::after(s, "CREATE INDEX "@) is Some {
        read_index(false, sql::after(s, "CREATE INDEX "@)->0)
    } else if sql::after(s, "DROP INDEX "@) is Some {
        read_drop(sql::after(s, "DROP INDEX "@)->0)
    } else if sql::after(s, "ALTER TABLE "@) is Some {
        match sql::read_table(sql::after(s, "ALTER TABLE "@)->0, '`') {
            Some((schema, table, rest)) => match read_change(rest) {
                Some(change) => Some(Statement::AlterTable { schema, table, change }),
                None => None,
            },
            None => None,
        }
    } else {
        None
    }
}

// ---------------------------------------------------------------------------
// What is written reads back
// ---------------------------------------------------------------------------

proof fn lemma_column_list(names: Seq<Seq<char>>, rest: Seq<char>)
    ensures
        sql::read_list(ddl::column_list(names) + rest, '`') == Some((names, rest)),
        rest.len() == 0 ==> read_all_names(ddl::column_list(names)) == Some(names),
        ddl::column_list(names).len() > 0,
        ddl::column_list(names)[0] == '(',
{
    reveal_strlit(", ");
    assert(", "@ =~= seq![',', ' ']);
    assert(dialect::idents(names) =~= sql::all_quoted(names, '`')) by {
        assert forall|i: int| 0 <= i < names.len() implies dialect::idents(names)[i]
            == sql::all_quoted(names, '`')[i] by {
            statements::lemma_quotes(names[i], names[i]);
        }
    }
    sql::lemma_list(names, rest, '`');
    if rest.len() == 0 {
        assert(ddl::column_list(names) + rest =~= ddl::column_list(names));
    }
}

proof fn lemma_list_closed(names: Seq<Seq<char>>)
    ensures
        is_closed(ddl::column_list(names), ',', outside()),
{
    let parts = dialect::idents(names);
    assert forall|i: int| 0 <= i < parts.len() implies is_closed(
        #[trigger] parts[i],
        ',',
        (Place { depth: 1, quote: None }),
    ) by {
        statements::lemma_quotes(names[i], names[i]);
        lemma_quoted(names[i], '`', ',', 1);
    }
    lemma_joined_closed(parts, ',');
    lemma_parentheses(text::joined(parts, ", "@), ',');
}

/// An index is unique in its statement exactly where it is unique, and its
/// name, its table and its columns read back.
pub proof fn lemma_index_reads_back(
    schema: Seq<char>,
    table: Seq<char>,
    name: Seq<char>,
    unique: bool,
    columns: Seq<IndexColumn>,
)
    ensures
        read_statement(
            ddl::index_text(dialect::qualified(schema, table), name, unique, columns),
        ) == Some(
            Statement::CreateIndex {
                unique,
                name,
                schema,
                table,
                columns: columns.map_values(|c: IndexColumn| c.name@),
            },
        ),
{
    reveal_strlit("CREATE TABLE ");
    reveal_strlit("CREATE UNIQUE INDEX ");
    reveal_strlit("CREATE INDEX ");
    reveal_strlit(" ON ");
    let names = columns.map_values(|c: IndexColumn| c.name@);
    assert(ddl::index_names(columns) =~= names);
    let list = ddl::column_list(names);
    let target = dialect::qualified(schema, table);
    let more = seq![' '] + list;
    let on = " ON "@ + (target + more);
    let rest = dialect::ident(name) + on;
    let s = ddl::index_text(target, name, unique, columns);
    assert("CREATE TABLE "@[7] == 'T' && "CREATE UNIQUE INDEX "@[7] == 'U');
    assert("CREATE INDEX "@[7] == 'I');
    if unique {
        assert(s =~= "CREATE UNIQUE INDEX "@ + rest);
        sql::lemma_after("CREATE UNIQUE INDEX "@, rest);
        assert(s[7] == 'U');
    } else {
        assert(s =~= "CREATE INDEX "@ + rest);
        sql::lemma_after("CREATE INDEX "@, rest);
        assert(s[7] == 'I');
        sql::lemma_not_after(s, "CREATE UNIQUE INDEX "@, 7);
    }
    sql::lemma_not_after(s, "CREATE TABLE "@, 7);
    statements::lemma_ident(name, on);
    sql::lemma_after(" ON "@, target + more);
    statements::lemma_qualified(schema, table, more);
    assert(more.skip(1) =~= list);
    lemma_column_list(names, Seq::<char>::empty());
}

proof fn lemma_alter(schema: Seq<char>, table: Seq<char>, rest: Seq<char>, change: Change)
    requires
        rest.len() > 0 ==> rest[0] != '`',
        read_change(rest) == Some(change),
    ensures
        read_statement("ALTER TABLE "@ + (dialect::qualified(schema, table) + rest)) == Some(
            Statement::AlterTable { schema, table, change },
        ),
{
    reveal_strlit("CREATE TABLE ");
    reveal_strlit("CREATE UNIQUE INDEX ");
    reveal_strlit("CREATE INDEX ");
    reveal_strlit("DROP INDEX ");
    reveal_strlit("ALTER TABLE ");
    let s = "ALTER TABLE "@ + (dialect::qualified(schema, table) + rest);
    assert(s[0] == 'A');
    assert("CREATE TABLE "@[0] == 'C' && "CREATE UNIQUE INDEX "@[0] == 'C');
    assert("CREATE INDEX "@[0] == 'C' && "DROP INDEX "@[0] == 'D');
    sql::lemma_not_after(s, "CREATE TABLE "@, 0);
    sql::lemma_not_after(s, "CREATE UNIQUE INDEX "@, 0);
    sql::lemma_not_after(s, "CREATE INDEX "@, 0);
    sql::lemma_not_after(s, "DROP INDEX "@, 0);
    sql::lemma_after("ALTER TABLE "@, dialect::qualified(schema, table) + rest);
    statements::lemma_qualified(schema, table, rest);
}

proof fn lemma_change_words()
    ensures
        " ADD COLUMN "@.len() == 12,
        " ADD COLUMN "@[1] == 'A',
        " ADD COLUMN "@[5] == 'C',
        " ADD COLUMN "@[7] == 'L',
        " ADD PRIMARY KEY "@.len() == 17,
        " ADD PRIMARY KEY "@[1] == 'A',
        " ADD PRIMARY KEY "@[5] == 'P',
        " ADD CONSTRAINT "@.len() == 16,
        " ADD CONSTRAINT "@[1] == 'A',
        " ADD CONSTRAINT "@[5] == 'C',
        " ADD CONSTRAINT "@[7] == 'N',
        " DROP COLUMN "@.len() == 13,
        " DROP COLUMN "@[1] == 'D',
        " DROP COLUMN "@[8] == 'L',
        " DROP CONSTRAINT "@.len() == 17,
        " DROP CONSTRAINT "@[1] == 'D',
        " DROP CONSTRAINT "@[8] == 'N',
        " MODIFY COLUMN "@.len() == 15,
        " MODIFY COLUMN "@[1] == 'M',
        " ADD COLUMN "@[0] == ' ',
        " ADD PRIMARY KEY "@[0] == ' ',
        " ADD CONSTRAINT "@[0] == ' ',
        " DROP COLUMN "@[0] == ' ',
        " DROP CONSTRAINT "@[0] == ' ',
        " MODIFY COLUMN "@[0] == ' ',
{
    reveal_strlit(" ADD COLUMN ");
    reveal_strlit(" ADD PRIMARY KEY ");
    reveal_strlit(" ADD CONSTRAINT ");
    reveal_strlit(" DROP COLUMN ");
    reveal_strlit(" DROP CONSTRAINT ");
    reveal_strlit(" MODIFY COLUMN ");
}

proof fn lemma_add_constraint(name: Seq<char>, rest: Seq<char>, change: Change)
    requires
        rest.len() > 0,
        rest[0] == ' ',
        read_constraint(name, rest) == Some(change),
    ensures
        read_change(" ADD CONSTRAINT "@ + (dialect::ident(name) + rest)) == Some(change),
{
    lemma_change_words();
    let s = " ADD CONSTRAINT "@ + (dialect::ident(name) + rest);
    assert(s[5] == 'C' && s[7] == 'N');
    sql::lemma_not_after(s, " ADD COLUMN "@, 7);
    sql::lemma_not_after(s, " ADD PRIMARY KEY "@, 5);
    sql::lemma_after(" ADD CONSTRAINT "@, dialect::ident(name) + rest);
    statements::lemma_ident(name, rest);
}

/// A unique constraint reads back, on its table.
pub proof fn lemma_unique_reads_back(schema: Seq<char>, table: Seq<char>, uc: UniqueConstraint)
    ensures
        read_statement(ddl::unique_text(dialect::qualified(schema, table), uc)) == Some(
            Statement::AlterTable {
                schema,
                table,
                change: Change::AddUnique {
                    constraint: uc.name@,
                    columns: text::texts(uc.columns@),
                },
            },
        ),
{
    lemma_change_words();
    reveal_strlit("UNIQUE ");
    reveal_strlit(" UNIQUE ");
    let target = dialect::qualified(schema, table);
    let list = ddl::column_list(text::texts(uc.columns@));
    let rest = " UNIQUE "@ + list;
    assert(" UNIQUE "@ =~= seq![' '] + "UNIQUE "@);
    let change = " ADD CONSTRAINT "@ + (dialect::ident(uc.name@) + rest);
    assert(ddl::unique_text(target, uc) =~= "ALTER TABLE "@ + (target + change));
    sql::lemma_after(" UNIQUE "@, list);
    lemma_column_list(text::texts(uc.columns@), Seq::<char>::empty());
    let read = Change::AddUnique { constraint: uc.name@, columns: text::texts(uc.columns@) };
    lemma_add_constraint(uc.name@, rest, read);
    lemma_alter(schema, table, change, read);
}

/// A check reads back, on its table.
pub proof fn lemma_check_reads_back(schema: Seq<char>, table: Seq<char>, cc: CheckConstraint)
    ensures
        read_statement(ddl::check_text(dialect::qualified(schema, table), cc)) == Some(
            Statement::AlterTable {
                schema,
                table,
                change: Change::AddCheck { constraint: cc.name@, expression: cc.expression@ },
            },
        ),
{
    lemma_change_words();
    reveal_strlit("CHECK (");
    reveal_strlit(" CHECK (");
    reveal_strlit(" UNIQUE ");
    let target = dialect::qualified(schema, table);
    let framed = cc.expression@ + seq![')'];
    let rest = " CHECK ("@ + framed;
    assert(" CHECK ("@ =~= seq![' '] + "CHECK ("@);
    let change = " ADD CONSTRAINT "@ + (dialect::ident(cc.name@) + rest);
    assert(ddl::check_text(target, cc) =~= "ALTER TABLE "@ + (target + change));
    assert(rest[1] == 'C' && " UNIQUE "@[1] == 'U');
    sql::lemma_not_after(rest, " UNIQUE "@, 1);
    sql::lemma_after(" CHECK ("@, framed);
    assert(framed.drop_last() =~= cc.expression@);
    let read = Change::AddCheck { constraint: cc.name@, expression: cc.expression@ };
    lemma_add_constraint(cc.name@, rest, read);
    lemma_alter(schema, table, change, read);
}

/// A referential action reads back.
pub proof fn lemma_action(action: ReferentialAction, rest: Seq<char>)
    ensures
        read_action(ddl::action_text(action) + rest) == Some((action, rest)),
{
    reveal_strlit("NO ACTION");
    reveal_strlit("RESTRICT");
    reveal_strlit("CASCADE");
    reveal_strlit("SET NULL");
    reveal_strlit("SET DEFAULT");
    let s = ddl::action_text(action) + rest;
    assert("NO ACTION"@[0] == 'N' && "RESTRICT"@[0] == 'R' && "CASCADE"@[0] == 'C');
    assert("SET NULL"@[0] == 'S' && "SET NULL"@[4] == 'N');
    assert("SET DEFAULT"@[0] == 'S' && "SET DEFAULT"@[4] == 'D');
    sql::lemma_after(ddl::action_text(action), rest);
    assert(s[0] == ddl::action_text(action)[0]);
    assert(s[4] == ddl::action_text(action)[4]);
    if !(action is NoAction) {
        sql::lemma_not_after(s, "NO ACTION"@, 0);
    }
    if !(action is Restrict) {
        sql::lemma_not_after(s, "RESTRICT"@, 0);
    }
    if !(action is Cascade) {
        sql::lemma_not_after(s, "CASCADE"@, 0);
    }
    if action is SetDefault {
        sql::lemma_not_after(s, "SET NULL"@, 4);
    }
}

/// What a foreign key's statement says behind its own columns.
spec fn references_text(fk: ForeignKey) -> Seq<char> {
    " REFERENCES "@ + (dialect::qualified(fk.referenced_schema@, fk.referenced_table@) + (seq![' ']
        + (ddl::column_list(text::texts(fk.referenced_columns@)) + actions_text(fk))))
}

/// What it says behind the columns that they refer to.
spec fn actions_text(fk: ForeignKey) -> Seq<char> {
    " ON UPDATE "@ + (ddl::action_text(fk.on_update) + (" ON DELETE "@ + ddl::action_text(
        fk.on_delete,
    )))
}

proof fn lemma_actions(fk: ForeignKey)
    ensures
        read_actions(actions_text(fk)) == Some((fk.on_update, fk.on_delete)),
        actions_text(fk).len() > 0,
        actions_text(fk)[0] == ' ',
{
    reveal_strlit(" ON UPDATE ");
    reveal_strlit(" ON DELETE ");
    let none = Seq::<char>::empty();
    let update = ddl::action_text(fk.on_update);
    let delete = ddl::action_text(fk.on_delete);
    let on_delete = " ON DELETE "@ + delete;
    sql::lemma_after(" ON UPDATE "@, update + on_delete);
    lemma_action(fk.on_update, on_delete);
    sql::lemma_after(" ON DELETE "@, delete);
    lemma_action(fk.on_delete, none);
    assert(delete + none =~= delete);
}

/// What a foreign key says.
pub open spec fn foreign_key_change(fk: ForeignKey) -> Change {
    Change::AddForeignKey {
        constraint: fk.name@,
        columns: text::texts(fk.columns@),
        referenced_schema: fk.referenced_schema@,
        referenced_table: fk.referenced_table@,
        referenced_columns: text::texts(fk.referenced_columns@),
        on_update: fk.on_update,
        on_delete: fk.on_delete,
    }
}

#[verifier::spinoff_prover]
proof fn lemma_references(fk: ForeignKey)
    ensures
        read_foreign_key(
            fk.name@,
            ddl::column_list(text::texts(fk.columns@)) + references_text(fk),
        ) == Some(foreign_key_change(fk)),
{
    reveal_strlit(" REFERENCES ");
    lemma_actions(fk);
    let actions = actions_text(fk);
    let other = dialect::qualified(fk.referenced_schema@, fk.referenced_table@);
    let second = ddl::column_list(text::texts(fk.referenced_columns@));
    let more = seq![' '] + (second + actions);
    lemma_column_list(text::texts(fk.columns@), references_text(fk));
    sql::lemma_after(" REFERENCES "@, other + more);
    statements::lemma_qualified(fk.referenced_schema@, fk.referenced_table@, more);
    assert(more.skip(1) =~= second + actions);
    lemma_column_list(text::texts(fk.referenced_columns@), actions);
}

#[verifier::spinoff_prover]
proof fn lemma_foreign_key_text(target: Seq<char>, fk: ForeignKey)
    ensures
        ddl::foreign_key_text(target, fk) == "ALTER TABLE "@ + (target + (" ADD CONSTRAINT "@ + (
        dialect::ident(fk.name@) + (" FOREIGN KEY "@ + (ddl::column_list(text::texts(fk.columns@))
            + references_text(fk)))))),
{
    reveal_strlit("FOREIGN KEY ");
    reveal_strlit(" FOREIGN KEY ");
    assert(seq![' '] + "FOREIGN KEY "@ =~= " FOREIGN KEY "@);
    let first = ddl::column_list(text::texts(fk.columns@));
    let second = ddl::column_list(text::texts(fk.referenced_columns@));
    let other = dialect::qualified(fk.referenced_schema@, fk.referenced_table@);
    let update = ddl::action_text(fk.on_update);
    let delete = ddl::action_text(fk.on_delete);
    let p0 = "ALTER TABLE "@ + target + " ADD CONSTRAINT "@ + dialect::ident(fk.name@);
    let p1 = p0 + seq![' '];
    let p2 = p1 + "FOREIGN KEY "@;
    let p3 = p2 + first;
    let p4 = p3 + " REFERENCES "@;
    let p5 = p4 + other;
    let p6 = p5 + seq![' '];
    let p7 = p6 + second;
    let p8 = p7 + " ON UPDATE "@;
    let p9 = p8 + update;
    let t9 = " ON DELETE "@ + delete;
    let t8 = update + t9;
    let t7 = " ON UPDATE "@ + t8;
    let t6 = second + t7;
    let t5 = seq![' '] + t6;
    let t4 = other + t5;
    let t3 = " REFERENCES "@ + t4;
    let t2 = first + t3;
    lemma_assoc(p9, " ON DELETE "@, delete);
    lemma_assoc(p8, update, t9);
    lemma_assoc(p7, " ON UPDATE "@, t8);
    lemma_assoc(p6, second, t7);
    lemma_assoc(p5, seq![' '], t6);
    lemma_assoc(p4, other, t5);
    lemma_assoc(p3, " REFERENCES "@, t4);
    lemma_assoc(p2, first, t3);
    lemma_assoc(p0, seq![' '], "FOREIGN KEY "@);
    lemma_assoc(p0, " FOREIGN KEY "@, t2);
    let key = " FOREIGN KEY "@ + t2;
    lemma_assoc("ALTER TABLE "@ + target + " ADD CONSTRAINT "@, dialect::ident(fk.name@), key);
    lemma_assoc("ALTER TABLE "@ + target, " ADD CONSTRAINT "@, dialect::ident(fk.name@) + key);
    lemma_assoc(
        "ALTER TABLE "@,
        target,
        " ADD CONSTRAINT "@ + (dialect::ident(fk.name@) + key),
    );
}

proof fn lemma_assoc(a: Seq<char>, b: Seq<char>, c: Seq<char>)
    ensures
        a + b + c == a + (b + c),
{
    assert(a + b + c =~= a + (b + c));
}

/// A foreign key reads back, on its table: its columns in order, what they
/// refer to, and what happens on an update and on a delete.
pub proof fn lemma_foreign_key_reads_back(schema: Seq<char>, table: Seq<char>, fk: ForeignKey)
    ensures
        read_statement(ddl::foreign_key_text(dialect::qualified(schema, table), fk)) == Some(
            Statement::AlterTable { schema, table, change: foreign_key_change(fk) },
        ),
{
    lemma_change_words();
    reveal_strlit(" FOREIGN KEY ");
    reveal_strlit(" UNIQUE ");
    reveal_strlit(" CHECK (");
    let tail = ddl::column_list(text::texts(fk.columns@)) + references_text(fk);
    let rest = " FOREIGN KEY "@ + tail;
    lemma_foreign_key_text(dialect::qualified(schema, table), fk);
    assert(rest[1] == 'F' && " UNIQUE "@[1] == 'U' && " CHECK ("@[1] == 'C');
    sql::lemma_not_after(rest, " UNIQUE "@, 1);
    sql::lemma_not_after(rest, " CHECK ("@, 1);
    sql::lemma_after(" FOREIGN KEY "@, tail);
    lemma_references(fk);
    lemma_add_constraint(fk.name@, rest, foreign_key_change(fk));
    lemma_alter(
        schema,
        table,
        " ADD CONSTRAINT "@ + (dialect::ident(fk.name@) + rest),
        foreign_key_change(fk),
    );
}

// ---------------------------------------------------------------------------
// Tables
// ---------------------------------------------------------------------------

/// What the line of a reflected column declares.
pub open spec fn clause_of(c: Column) -> ColumnClause {
    ColumnClause {
        name: c.name@,
        sql_type: ddl::type_text(c.data_type.category@),
        nullable: c.nullable,
        default: if c.identity_generation is Some {
            None
        } else {
            types::optional_text(c.default)
        },
        identity: c.identity_generation is Some,
    }
}

/// What the line of a column to be created declares.
pub open spec fn clause_of_definition(c: ColumnDefinition) -> ColumnClause {
    ColumnClause {
        name: c.name@,
        sql_type: ddl::type_text(c.data_type.category@),
        nullable: c.nullable,
        default: if c.identity is Some {
            None
        } else {
            types::optional_text(c.default)
        },
        identity: c.identity is Some,
    }
}

/// Whether a column can be told from its line: its type is one word, and its
/// default one expression.
pub open spec fn is_readable(category: Category, default: Option<Seq<char>>) -> bool {
    &&& category matches Category::Unsupported { native_type } ==> is_one_word(native_type)
    &&& is_one_expression(default)
}

/// The columns of a key, where there is one.
pub open spec fn names_of(key: Option<PrimaryKey>) -> Option<Seq<Seq<char>>> {
    match key {
        Some(pk) => Some(text::texts(pk.columns@)),
        None => None,
    }
}

proof fn lemma_body_columns(lines: Seq<Seq<char>>, clauses: Seq<ColumnClause>)
    requires
        lines.len() == clauses.len(),
        forall|i: int|
            0 <= i < lines.len() ==> read_column(#[trigger] lines[i]) == Some(clauses[i])
                && lines[i].len() > 0 && lines[i][0] == '`',
    ensures
        read_body(lines) == Some((clauses, None::<Seq<Seq<char>>>)),
    decreases lines.len(),
{
    reveal_strlit("PRIMARY KEY ");
    if lines.len() == 0 {
        assert(clauses =~= Seq::<ColumnClause>::empty());
    } else {
        let front = lines.drop_last();
        assert forall|i: int| 0 <= i < front.len() implies read_column(#[trigger] front[i]) == Some(
            clauses.drop_last()[i],
        ) && front[i].len() > 0 && front[i][0] == '`' by {
            assert(front[i] == lines[i]);
        }
        lemma_body_columns(front, clauses.drop_last());
        let last = lines[lines.len() - 1];
        assert(read_column(last) == Some(clauses[lines.len() - 1]));
        assert("PRIMARY KEY "@[0] == 'P');
        sql::lemma_not_after(last, "PRIMARY KEY "@, 0);
        assert(clauses.drop_last().push(clauses.last()) =~= clauses);
    }
}

/// A table's statement reads back: the table, each column's line in order, and
/// the key's columns.
#[verifier::spinoff_prover]
proof fn lemma_create(
    schema: Seq<char>,
    table: Seq<char>,
    lines: Seq<Seq<char>>,
    clauses: Seq<ColumnClause>,
    key: Option<PrimaryKey>,
)
    requires
        lines.len() == clauses.len(),
        forall|i: int|
            0 <= i < lines.len() ==> read_column(#[trigger] lines[i]) == Some(clauses[i])
                && lines[i].len() > 0 && lines[i][0] == '`' && is_closed(
                lines[i],
                ',',
                outside(),
            ),
    ensures
        read_statement(
            ddl::create_text(dialect::qualified(schema, table), lines + ddl::key_lines(key)),
        ) == Some(
            Statement::CreateTable { schema, table, clauses, key: names_of(key) },
        ),
{
    reveal_strlit("CREATE TABLE ");
    reveal_strlit("PRIMARY KEY ");
    reveal_strlit(" (\n  ");
    reveal_strlit("\n)");
    let all = lines + ddl::key_lines(key);
    let body = text::joined(all, ",\n  "@);
    let target = dialect::qualified(schema, table);
    let open = body + "\n)"@;
    let rest = " (\n  "@ + open;
    let s = ddl::create_text(target, all);
    assert(s =~= "CREATE TABLE "@ + (target + rest));
    sql::lemma_after("CREATE TABLE "@, target + rest);
    statements::lemma_qualified(schema, table, rest);
    sql::lemma_after(" (\n  "@, open);
    assert(open.take(open.len() - 2) =~= body);
    assert(open.skip(open.len() - 2) =~= "\n)"@);
    lemma_body_columns(lines, clauses);
    if let Some(pk) = key {
        let names = text::texts(pk.columns@);
        let line = "PRIMARY KEY "@ + ddl::column_list(names);
        assert(all =~= lines.push(line));
        assert(all.drop_last() =~= lines);
        sql::lemma_after("PRIMARY KEY "@, ddl::column_list(names));
        lemma_column_list(names, Seq::<char>::empty());
        lemma_list_closed(names);
        lemma_plain("PRIMARY KEY "@, ',', outside());
        lemma_closed_concat("PRIMARY KEY "@, ddl::column_list(names), ',', outside());
        assert(line[0] == 'P');
        assert(read_body(all) == Some((clauses, Some(names))));
    } else {
        assert(all =~= lines);
    }
    if all.len() > 0 {
        assert forall|i: int| 0 <= i < all.len() implies is_closed(
            #[trigger] all[i],
            ',',
            outside(),
        ) && (all[i].len() > 0 ==> all[i][0] != '\n') by {
            if i < lines.len() {
                assert(all[i] == lines[i]);
            }
        }
        lemma_lines(all, false);
        assert(body.len() > 0) by {
            if all.len() > 1 {
                text::lemma_joined_front(all, ",\n  "@);
            }
            assert(all[0].len() > 0) by {
                if lines.len() > 0 {
                    assert(all[0] == lines[0]);
                }
            }
        }
    } else {
        assert(body =~= Seq::<char>::empty());
        assert(all =~= Seq::<Seq<char>>::empty());
    }
}

/// Whether the columns of a definition can be told from their lines.
pub open spec fn is_readable_definition(def: TableDefinition) -> bool {
    forall|i: int|
        0 <= i < def.columns@.len() ==> is_readable(
            (#[trigger] def.columns@[i]).data_type.category@,
            types::optional_text(def.columns@[i].default),
        )
}

/// What a definition asks for.
pub open spec fn asked_of_definition(def: TableDefinition) -> Statement {
    Statement::CreateTable {
        schema: def.schema@,
        table: def.name@,
        clauses: def.columns@.map_values(|c: ColumnDefinition| clause_of_definition(c)),
        key: names_of(def.primary_key),
    }
}

/// The statement that creates a table says what its definition says: the
/// table, every column in order with its name, type, nullability, generated key
/// and default, and the key's columns.
pub proof fn lemma_definition_reads_back(def: TableDefinition)
    requires
        is_readable_definition(def),
    ensures
        read_statement(
            ddl::create_text(
                dialect::qualified(def.schema@, def.name@),
                ddl::definition_lines(def.columns@) + ddl::key_lines(def.primary_key),
            ),
        ) == Some(asked_of_definition(def)),
{
    let lines = ddl::definition_lines(def.columns@);
    let clauses = def.columns@.map_values(|c: ColumnDefinition| clause_of_definition(c));
    assert forall|i: int| 0 <= i < lines.len() implies read_column(#[trigger] lines[i]) == Some(
        clauses[i],
    ) && lines[i].len() > 0 && lines[i][0] == '`' && is_closed(lines[i], ',', outside()) by {
        let c = def.columns@[i];
        assert(is_readable(c.data_type.category@, types::optional_text(c.default)));
        lemma_type_is_one_word(c.data_type.category@);
        lemma_column(
            c.name@,
            ddl::type_text(c.data_type.category@),
            c.nullable,
            types::optional_text(c.default),
            c.identity is Some,
        );
    }
    lemma_create(def.schema@, def.name@, lines, clauses, def.primary_key);
}

/// Whether the columns of a table can be told from their lines.
pub open spec fn is_readable_table(t: Table) -> bool {
    forall|i: int|
        0 <= i < t.columns@.len() ==> is_readable(
            (#[trigger] t.columns@[i]).data_type.category@,
            types::optional_text(t.columns@[i].default),
        )
}

/// Where each kind of statement begins among those that recreate a table.
pub open spec fn checks_from(t: Table) -> int {
    1 + t.unique_constraints@.len() as int
}

/// Where the foreign keys begin.
pub open spec fn foreign_keys_from(t: Table) -> int {
    checks_from(t) + t.check_constraints@.len()
}

/// Where the indexes begin.
pub open spec fn indexes_from(t: Table) -> int {
    foreign_keys_from(t) + t.foreign_keys@.len()
}

/// What statements do, one by one.
pub open spec fn read_all(statements: Seq<Seq<char>>) -> Seq<Option<Statement>> {
    statements.map_values(|s: Seq<char>| read_statement(s))
}

/// Whether statements recreate a table: the first creates it with its columns
/// in order and its key, and then come its unique constraints, its checks, its
/// foreign keys and its indexes, each once and with everything it says.
pub open spec fn recreate(statements: Seq<Option<Statement>>, t: Table) -> bool {
    let schema = t.schema@;
    let table = t.name@;
    &&& statements.len() == indexes_from(t) + t.indexes@.len()
    &&& statements[0] == Some(
        Statement::CreateTable {
            schema,
            table,
            clauses: t.columns@.map_values(|c: Column| clause_of(c)),
            key: names_of(t.primary_key),
        },
    )
    &&& forall|j: int|
        0 <= j < t.unique_constraints@.len() ==> statements[1 + j] == Some(
            Statement::AlterTable {
                schema,
                table,
                change: Change::AddUnique {
                    constraint: (#[trigger] t.unique_constraints@[j]).name@,
                    columns: text::texts(t.unique_constraints@[j].columns@),
                },
            },
        )
    &&& forall|j: int|
        0 <= j < t.check_constraints@.len() ==> statements[checks_from(t) + j] == Some(
            Statement::AlterTable {
                schema,
                table,
                change: Change::AddCheck {
                    constraint: (#[trigger] t.check_constraints@[j]).name@,
                    expression: t.check_constraints@[j].expression@,
                },
            },
        )
    &&& forall|j: int|
        0 <= j < t.foreign_keys@.len() ==> statements[foreign_keys_from(t) + j] == Some(
            Statement::AlterTable {
                schema,
                table,
                change: Change::AddForeignKey {
                    constraint: (#[trigger] t.foreign_keys@[j]).name@,
                    columns: text::texts(t.foreign_keys@[j].columns@),
                    referenced_schema: t.foreign_keys@[j].referenced_schema@,
                    referenced_table: t.foreign_keys@[j].referenced_table@,
                    referenced_columns: text::texts(t.foreign_keys@[j].referenced_columns@),
                    on_update: t.foreign_keys@[j].on_update,
                    on_delete: t.foreign_keys@[j].on_delete,
                },
            },
        )
    &&& forall|j: int|
        0 <= j < t.indexes@.len() ==> statements[indexes_from(t) + j] == Some(
            Statement::CreateIndex {
                unique: (#[trigger] t.indexes@[j]).unique,
                name: t.indexes@[j].name@,
                schema,
                table,
                columns: t.indexes@[j].columns@.map_values(|c: IndexColumn| c.name@),
            },
        )
}

/// The statements that are rendered for a table recreate it.
#[verifier::spinoff_prover]
#[verifier::rlimit(40)]
pub proof fn lemma_statements_recreate_table(t: Table)
    requires
        is_readable_table(t),
    ensures
        recreate(read_all(ddl::table_statements(t)), t),
{
    let name = dialect::qualified(t.schema@, t.name@);
    let texts = ddl::table_statements(t);
    let lines = ddl::column_lines(t.columns@);
    let clauses = t.columns@.map_values(|c: Column| clause_of(c));
    assert forall|i: int| 0 <= i < lines.len() implies read_column(#[trigger] lines[i]) == Some(
        clauses[i],
    ) && lines[i].len() > 0 && lines[i][0] == '`' && is_closed(lines[i], ',', outside()) by {
        let c = t.columns@[i];
        assert(is_readable(c.data_type.category@, types::optional_text(c.default)));
        lemma_type_is_one_word(c.data_type.category@);
        lemma_column(
            c.name@,
            ddl::type_text(c.data_type.category@),
            c.nullable,
            types::optional_text(c.default),
            c.identity_generation is Some,
        );
    }
    lemma_create(t.schema@, t.name@, lines, clauses, t.primary_key);
    let read = read_all(texts);
    assert(texts[0] == ddl::create_text(name, lines + ddl::key_lines(t.primary_key)));
    assert forall|j: int| 0 <= j < t.unique_constraints@.len() implies read[1 + j] == Some(
        Statement::AlterTable {
            schema: t.schema@,
            table: t.name@,
            change: Change::AddUnique {
                constraint: (#[trigger] t.unique_constraints@[j]).name@,
                columns: text::texts(t.unique_constraints@[j].columns@),
            },
        },
    ) by {
        lemma_unique_reads_back(t.schema@, t.name@, t.unique_constraints@[j]);
        assert(texts[1 + j] == ddl::unique_text(name, t.unique_constraints@[j]));
    }
    assert forall|j: int| 0 <= j < t.check_constraints@.len() implies read[checks_from(t) + j]
        == Some(
        Statement::AlterTable {
            schema: t.schema@,
            table: t.name@,
            change: Change::AddCheck {
                constraint: (#[trigger] t.check_constraints@[j]).name@,
                expression: t.check_constraints@[j].expression@,
            },
        },
    ) by {
        lemma_check_reads_back(t.schema@, t.name@, t.check_constraints@[j]);
        assert(texts[checks_from(t) + j] == ddl::check_text(name, t.check_constraints@[j]));
    }
    assert forall|j: int| 0 <= j < t.foreign_keys@.len() implies read[foreign_keys_from(t) + j]
        == Some(
        Statement::AlterTable {
            schema: t.schema@,
            table: t.name@,
            change: Change::AddForeignKey {
                constraint: (#[trigger] t.foreign_keys@[j]).name@,
                columns: text::texts(t.foreign_keys@[j].columns@),
                referenced_schema: t.foreign_keys@[j].referenced_schema@,
                referenced_table: t.foreign_keys@[j].referenced_table@,
                referenced_columns: text::texts(t.foreign_keys@[j].referenced_columns@),
                on_update: t.foreign_keys@[j].on_update,
                on_delete: t.foreign_keys@[j].on_delete,
            },
        },
    ) by {
        lemma_foreign_key_reads_back(t.schema@, t.name@, t.foreign_keys@[j]);
        assert(texts[foreign_keys_from(t) + j] == ddl::foreign_key_text(name, t.foreign_keys@[j]));
    }
    assert forall|j: int| 0 <= j < t.indexes@.len() implies read[indexes_from(t) + j] == Some(
        Statement::CreateIndex {
            unique: (#[trigger] t.indexes@[j]).unique,
            name: t.indexes@[j].name@,
            schema: t.schema@,
            table: t.name@,
            columns: t.indexes@[j].columns@.map_values(|c: IndexColumn| c.name@),
        },
    ) by {
        let x = t.indexes@[j];
        lemma_index_reads_back(t.schema@, t.name@, x.name@, x.unique, x.columns@);
        assert(texts[indexes_from(t) + j] == ddl::index_text(name, x.name@, x.unique, x.columns@));
    }
}

// ---------------------------------------------------------------------------
// Alterations
// ---------------------------------------------------------------------------

/// What an alteration asks for.
pub open spec fn asked_of(alteration: TableAlteration) -> Statement {
    match alteration {
        TableAlteration::AddColumn { table, column } => Statement::AlterTable {
            schema: table.schema@,
            table: table.name@,
            change: Change::AddColumn { clause: clause_of_definition(column) },
        },
        TableAlteration::DropColumn { table, column } => Statement::AlterTable {
            schema: table.schema@,
            table: table.name@,
            change: Change::DropColumn { column: column@ },
        },
        TableAlteration::AlterColumnType { table, column, data_type } => Statement::AlterTable {
            schema: table.schema@,
            table: table.name@,
            change: Change::ModifyColumn {
                column: column@,
                sql_type: ddl::type_text(data_type.category@),
            },
        },
        TableAlteration::AddConstraint { table, constraint } => Statement::AlterTable {
            schema: table.schema@,
            table: table.name@,
            change: match constraint {
                ConstraintDefinition::PrimaryKey(pk) => Change::AddPrimaryKey {
                    columns: text::texts(pk.columns@),
                },
                ConstraintDefinition::ForeignKey(fk) => Change::AddForeignKey {
                    constraint: fk.name@,
                    columns: text::texts(fk.columns@),
                    referenced_schema: fk.referenced_schema@,
                    referenced_table: fk.referenced_table@,
                    referenced_columns: text::texts(fk.referenced_columns@),
                    on_update: fk.on_update,
                    on_delete: fk.on_delete,
                },
                ConstraintDefinition::Unique(uc) => Change::AddUnique {
                    constraint: uc.name@,
                    columns: text::texts(uc.columns@),
                },
                ConstraintDefinition::Check(cc) => Change::AddCheck {
                    constraint: cc.name@,
                    expression: cc.expression@,
                },
            },
        },
        TableAlteration::DropConstraint { table, name } => Statement::AlterTable {
            schema: table.schema@,
            table: table.name@,
            change: Change::DropConstraint { constraint: name@ },
        },
        TableAlteration::DropIndex { table, name } => Statement::DropIndex {
            name: name@,
            schema: table.schema@,
            table: table.name@,
        },
    }
}

/// Whether a column that is added can be told from its line.
pub open spec fn is_readable_alteration(alteration: TableAlteration) -> bool {
    alteration matches TableAlteration::AddColumn { table, column } ==> is_readable(
        column.data_type.category@,
        types::optional_text(column.default),
    )
}

/// The statement of an alteration does what was asked for, to that table.
#[verifier::spinoff_prover]
#[verifier::rlimit(40)]
pub proof fn lemma_alteration_reads_back(alteration: TableAlteration)
    requires
        is_readable_alteration(alteration),
    ensures
        read_statement(ddl::alteration_text(alteration)) == Some(asked_of(alteration)),
{
    lemma_change_words();
    let none = Seq::<char>::empty();
    let s = ddl::alteration_text(alteration);
    match alteration {
        TableAlteration::AddColumn { table, column } => {
            let line = ddl::definition_line(column);
            let change = " ADD COLUMN "@ + line;
            let target = dialect::qualified(table.schema@, table.name@);
            assert(s =~= "ALTER TABLE "@ + (target + change));
            sql::lemma_after(" ADD COLUMN "@, line);
            lemma_type_is_one_word(column.data_type.category@);
            lemma_column(
                column.name@,
                ddl::type_text(column.data_type.category@),
                column.nullable,
                types::optional_text(column.default),
                column.identity is Some,
            );
            lemma_alter(
                table.schema@,
                table.name@,
                change,
                Change::AddColumn { clause: clause_of_definition(column) },
            );
        },
        TableAlteration::DropColumn { table, column } => {
            let name = dialect::ident(column@);
            let change = " DROP COLUMN "@ + name;
            let target = dialect::qualified(table.schema@, table.name@);
            assert(s =~= "ALTER TABLE "@ + (target + change));
            assert(change[1] == 'D');
            sql::lemma_not_after(change, " ADD COLUMN "@, 1);
            sql::lemma_not_after(change, " ADD PRIMARY KEY "@, 1);
            sql::lemma_not_after(change, " ADD CONSTRAINT "@, 1);
            sql::lemma_after(" DROP COLUMN "@, name);
            statements::lemma_ident(column@, none);
            assert(name + none =~= name);
            lemma_alter(
                table.schema@,
                table.name@,
                change,
                Change::DropColumn { column: column@ },
            );
        },
        TableAlteration::AlterColumnType { table, column, data_type } => {
            let sql_type = ddl::type_text(data_type.category@);
            let rest = seq![' '] + sql_type;
            let change = " MODIFY COLUMN "@ + (dialect::ident(column@) + rest);
            let target = dialect::qualified(table.schema@, table.name@);
            assert(s =~= "ALTER TABLE "@ + (target + change));
            assert(change[1] == 'M');
            sql::lemma_not_after(change, " ADD COLUMN "@, 1);
            sql::lemma_not_after(change, " ADD PRIMARY KEY "@, 1);
            sql::lemma_not_after(change, " ADD CONSTRAINT "@, 1);
            sql::lemma_not_after(change, " DROP COLUMN "@, 1);
            sql::lemma_not_after(change, " DROP CONSTRAINT "@, 1);
            sql::lemma_after(" MODIFY COLUMN "@, dialect::ident(column@) + rest);
            statements::lemma_ident(column@, rest);
            assert(rest.skip(1) =~= sql_type);
            lemma_alter(
                table.schema@,
                table.name@,
                change,
                Change::ModifyColumn { column: column@, sql_type },
            );
        },
        TableAlteration::AddConstraint { table, constraint } => match constraint {
            ConstraintDefinition::PrimaryKey(pk) => {
                let names = text::texts(pk.columns@);
                let change = " ADD PRIMARY KEY "@ + ddl::column_list(names);
                let target = dialect::qualified(table.schema@, table.name@);
                assert(s =~= "ALTER TABLE "@ + (target + change));
                assert(change[5] == 'P');
                sql::lemma_not_after(change, " ADD COLUMN "@, 5);
                sql::lemma_after(" ADD PRIMARY KEY "@, ddl::column_list(names));
                lemma_column_list(names, none);
                lemma_alter(
                    table.schema@,
                    table.name@,
                    change,
                    Change::AddPrimaryKey { columns: names },
                );
            },
            ConstraintDefinition::ForeignKey(fk) => lemma_foreign_key_reads_back(
                table.schema@,
                table.name@,
                fk,
            ),
            ConstraintDefinition::Unique(uc) => lemma_unique_reads_back(
                table.schema@,
                table.name@,
                uc,
            ),
            ConstraintDefinition::Check(cc) => lemma_check_reads_back(
                table.schema@,
                table.name@,
                cc,
            ),
        },
        TableAlteration::DropConstraint { table, name } => {
            let quoted = dialect::ident(name@);
            let change = " DROP CONSTRAINT "@ + quoted;
            let target = dialect::qualified(table.schema@, table.name@);
            assert(s =~= "ALTER TABLE "@ + (target + change));
            assert(change[1] == 'D' && change[8] == 'N');
            sql::lemma_not_after(change, " ADD COLUMN "@, 1);
            sql::lemma_not_after(change, " ADD PRIMARY KEY "@, 1);
            sql::lemma_not_after(change, " ADD CONSTRAINT "@, 1);
            sql::lemma_not_after(change, " DROP COLUMN "@, 8);
            sql::lemma_after(" DROP CONSTRAINT "@, quoted);
            statements::lemma_ident(name@, none);
            assert(quoted + none =~= quoted);
            lemma_alter(
                table.schema@,
                table.name@,
                change,
                Change::DropConstraint { constraint: name@ },
            );
        },
        TableAlteration::DropIndex { table, name } => {
            reveal_strlit("CREATE TABLE ");
            reveal_strlit("CREATE UNIQUE INDEX ");
            reveal_strlit("CREATE INDEX ");
            reveal_strlit("DROP INDEX ");
            reveal_strlit(" ON ");
            let target = dialect::qualified(table.schema@, table.name@);
            let on = " ON "@ + target;
            let rest = dialect::ident(name@) + on;
            assert(s =~= "DROP INDEX "@ + rest);
            assert(s[0] == 'D' && "CREATE TABLE "@[0] == 'C');
            assert("CREATE UNIQUE INDEX "@[0] == 'C' && "CREATE INDEX "@[0] == 'C');
            sql::lemma_not_after(s, "CREATE TABLE "@, 0);
            sql::lemma_not_after(s, "CREATE UNIQUE INDEX "@, 0);
            sql::lemma_not_after(s, "CREATE INDEX "@, 0);
            sql::lemma_after("DROP INDEX "@, rest);
            statements::lemma_ident(name@, on);
            sql::lemma_after(" ON "@, target);
            statements::lemma_qualified(table.schema@, table.name@, none);
            assert(target + none =~= target);
        },
    }
}

/// What the definition of an index asks for.
pub open spec fn asked_of_index(def: IndexDefinition) -> Statement {
    Statement::CreateIndex {
        unique: def.unique,
        name: def.name@,
        schema: def.table.schema@,
        table: def.table.name@,
        columns: def.columns@.map_values(|c: IndexColumn| c.name@),
    }
}

/// The statement for an index does what its definition asks for.
pub proof fn lemma_index_definition_reads_back(def: IndexDefinition)
    ensures
        read_statement(
            ddl::index_text(
                dialect::qualified(def.table.schema@, def.table.name@),
                def.name@,
                def.unique,
                def.columns@,
            ),
        ) == Some(asked_of_index(def)),
{
    lemma_index_reads_back(
        def.table.schema@,
        def.table.name@,
        def.name@,
        def.unique,
        def.columns@,
    );
}

} // verus!
