//! Reading SQL: how quoted names, lists of names and comparisons are taken
//! apart from the left, whoever wrote them.
use vstd::prelude::*;

use crate::adapter::Dialect;
use crate::text;
use crate::value::ValueModel;

verus! {

// ---------------------------------------------------------------------------
// Words
// ---------------------------------------------------------------------------

/// What stands behind a word, where the text begins with it.
pub open spec fn after(s: Seq<char>, word: Seq<char>) -> Option<Seq<char>> {
    if s.len() >= word.len() && s.take(word.len() as int) == word {
        Some(s.skip(word.len() as int))
    } else {
        None
    }
}

/// A word in front of a text is taken off.
pub proof fn lemma_after(word: Seq<char>, rest: Seq<char>)
    ensures
        after(word + rest, word) == Some(rest),
{
    assert((word + rest).take(word.len() as int) =~= word);
    assert((word + rest).skip(word.len() as int) =~= rest);
}

/// A text that differs from a word at a place does not begin with it.
pub proof fn lemma_not_after(s: Seq<char>, word: Seq<char>, i: int)
    requires
        0 <= i < word.len(),
        i < s.len() ==> s[i] != word[i],
    ensures
        after(s, word) is None,
{
    if after(s, word) is Some {
        assert(s.take(word.len() as int)[i] == s[i]);
    }
}

// ---------------------------------------------------------------------------
// Quoted names
// ---------------------------------------------------------------------------

/// What stands up to the closing quote, with a doubled quote read as one, and
/// what stands behind it.
pub open spec fn read_to_quote(s: Seq<char>, quote: char) -> Option<(Seq<char>, Seq<char>)>
    decreases s.len(),
{
    if s.len() == 0 {
        None
    } else if s[0] == quote {
        if s.len() >= 2 && s[1] == quote {
            match read_to_quote(s.skip(2), quote) {
                Some((name, rest)) => Some((seq![quote] + name, rest)),
                None => None,
            }
        } else {
            Some((Seq::<char>::empty(), s.skip(1)))
        }
    } else {
        match read_to_quote(s.skip(1), quote) {
            Some((name, rest)) => Some((seq![s[0]] + name, rest)),
            None => None,
        }
    }
}

/// A quoted name in front of a text, and what stands behind it.
pub open spec fn read_name(s: Seq<char>, quote: char) -> Option<(Seq<char>, Seq<char>)> {
    if s.len() > 0 && s[0] == quote {
        read_to_quote(s.skip(1), quote)
    } else {
        None
    }
}

/// How a name is quoted.
pub open spec fn quoted(name: Seq<char>, quote: char) -> Seq<char> {
    seq![quote] + text::doubled(name, quote) + seq![quote]
}

proof fn lemma_to_quote(name: Seq<char>, rest: Seq<char>, quote: char)
    requires
        rest.len() > 0 ==> rest[0] != quote,
    ensures
        read_to_quote(text::doubled(name, quote) + seq![quote] + rest, quote) == Some((name, rest)),
    decreases name.len(),
{
    let s = text::doubled(name, quote) + seq![quote] + rest;
    if name.len() == 0 {
        assert(s.skip(1) =~= rest);
        assert(name =~= Seq::<char>::empty());
    } else {
        let tail = text::doubled(name.drop_first(), quote) + seq![quote] + rest;
        lemma_to_quote(name.drop_first(), rest, quote);
        if name[0] == quote {
            assert(s.skip(2) =~= tail);
        } else {
            assert(s.skip(1) =~= tail);
        }
        assert(seq![name[0]] + name.drop_first() =~= name);
    }
}

/// A quoted name reads back, whatever it holds.
pub proof fn lemma_name(name: Seq<char>, rest: Seq<char>, quote: char)
    requires
        rest.len() > 0 ==> rest[0] != quote,
    ensures
        read_name(quoted(name, quote) + rest, quote) == Some((name, rest)),
{
    let s = quoted(name, quote) + rest;
    lemma_to_quote(name, rest, quote);
    assert(s.skip(1) =~= text::doubled(name, quote) + seq![quote] + rest);
}

/// A name behind the name that it belongs to, with a point between them.
pub open spec fn read_table(s: Seq<char>, quote: char) -> Option<
    (Seq<char>, Seq<char>, Seq<char>),
> {
    match read_name(s, quote) {
        Some((schema, rest)) => if rest.len() > 0 && rest[0] == '.' {
            match read_name(rest.skip(1), quote) {
                Some((name, behind)) => Some((schema, name, behind)),
                None => None,
            }
        } else {
            None
        },
        None => None,
    }
}

/// A qualified name reads back.
pub proof fn lemma_table(schema: Seq<char>, name: Seq<char>, rest: Seq<char>, quote: char)
    requires
        quote != '.',
        rest.len() > 0 ==> rest[0] != quote,
    ensures
        read_table(quoted(schema, quote) + seq!['.'] + quoted(name, quote) + rest, quote) == Some(
            (schema, name, rest),
        ),
{
    let s = quoted(schema, quote) + seq!['.'] + quoted(name, quote) + rest;
    let behind = seq!['.'] + quoted(name, quote) + rest;
    assert(s =~= quoted(schema, quote) + behind);
    lemma_name(schema, behind, quote);
    assert(behind.skip(1) =~= quoted(name, quote) + rest);
    lemma_name(name, rest, quote);
}

// ---------------------------------------------------------------------------
// Lists of names
// ---------------------------------------------------------------------------

/// Quoted names with a comma and a space between them, and what stands behind
/// them.
pub open spec fn read_names(s: Seq<char>, quote: char) -> Option<(Seq<Seq<char>>, Seq<char>)>
    decreases s.len(),
{
    match read_name(s, quote) {
        None => None,
        Some((name, rest)) => if rest.len() >= 2 && rest[0] == ',' && rest[1] == ' ' && rest.len()
            <= s.len() {
            match read_names(rest.skip(2), quote) {
                Some((names, behind)) => Some((seq![name] + names, behind)),
                None => None,
            }
        } else {
            Some((seq![name], rest))
        },
    }
}

/// Names as they are quoted.
pub open spec fn all_quoted(names: Seq<Seq<char>>, quote: char) -> Seq<Seq<char>> {
    names.map_values(|n: Seq<char>| quoted(n, quote))
}

/// A list of names reads back: as many, in order.
pub proof fn lemma_names(names: Seq<Seq<char>>, rest: Seq<char>, quote: char)
    requires
        quote != ',',
        names.len() > 0,
        rest.len() > 0 ==> rest[0] != quote && rest[0] != ',',
    ensures
        read_names(text::joined(all_quoted(names, quote), seq![',', ' ']) + rest, quote) == Some(
            (names, rest),
        ),
    decreases names.len(),
{
    let parts = all_quoted(names, quote);
    let sep = seq![',', ' '];
    let s = text::joined(parts, sep) + rest;
    if names.len() == 1 {
        lemma_name(names[0], rest, quote);
        assert(text::joined(parts, sep) == quoted(names[0], quote));
        assert(seq![names[0]] =~= names);
    } else {
        let others = names.drop_first();
        let tail = text::joined(all_quoted(others, quote), sep) + rest;
        assert(parts.drop_first() =~= all_quoted(others, quote));
        text::lemma_joined_front(parts, sep);
        assert(s =~= quoted(names[0], quote) + (sep + tail));
        lemma_name(names[0], sep + tail, quote);
        assert((sep + tail).skip(2) =~= tail);
        lemma_names(others, rest, quote);
        assert(seq![names[0]] + others =~= names);
    }
}

/// A list of names in parentheses.
pub open spec fn read_list(s: Seq<char>, quote: char) -> Option<(Seq<Seq<char>>, Seq<char>)> {
    if s.len() == 0 || s[0] != '(' {
        None
    } else if s.len() >= 2 && s[1] == ')' {
        Some((Seq::<Seq<char>>::empty(), s.skip(2)))
    } else {
        match read_names(s.skip(1), quote) {
            Some((names, rest)) => if rest.len() > 0 && rest[0] == ')' {
                Some((names, rest.skip(1)))
            } else {
                None
            },
            None => None,
        }
    }
}

/// A list in parentheses reads back.
pub proof fn lemma_list(names: Seq<Seq<char>>, rest: Seq<char>, quote: char)
    requires
        quote != ',',
        quote != ')',
    ensures
        read_list(
            seq!['('] + text::joined(all_quoted(names, quote), seq![',', ' ']) + seq![')'] + rest,
            quote,
        ) == Some((names, rest)),
{
    let list = text::joined(all_quoted(names, quote), seq![',', ' ']);
    let s = seq!['('] + list + seq![')'] + rest;
    let behind = seq![')'] + rest;
    if names.len() == 0 {
        assert(list =~= Seq::<char>::empty());
        assert(s.skip(2) =~= rest);
        assert(names =~= Seq::<Seq<char>>::empty());
    } else {
        assert(s.skip(1) =~= list + behind);
        lemma_names(names, behind, quote);
        assert(behind.skip(1) =~= rest);
        assert(s[1] == quote) by {
            let parts = all_quoted(names, quote);
            if names.len() > 1 {
                text::lemma_joined_front(parts, seq![',', ' ']);
            }
            assert(list[0] == parts[0][0]);
        }
    }
}

// ---------------------------------------------------------------------------
// Comparisons
// ---------------------------------------------------------------------------

/// How two values are compared.
pub enum Operator {
    AtLeast,
    Above,
    AtMost,
    Below,
}

/// The operator in front of a text, with its spaces, and what stands behind
/// it.
pub open spec fn read_operator(s: Seq<char>) -> Option<(Operator, Seq<char>)> {
    if after(s, " >= "@) is Some {
        Some((Operator::AtLeast, after(s, " >= "@)->0))
    } else if after(s, " > "@) is Some {
        Some((Operator::Above, after(s, " > "@)->0))
    } else if after(s, " <= "@) is Some {
        Some((Operator::AtMost, after(s, " <= "@)->0))
    } else if after(s, " < "@) is Some {
        Some((Operator::Below, after(s, " < "@)->0))
    } else {
        None
    }
}

/// Whether a key compares so with a bound, by an engine's order on keys.
pub open spec fn compares(
    key: ValueModel,
    operator: Operator,
    bound: ValueModel,
    less: spec_fn(ValueModel, ValueModel) -> bool,
) -> bool {
    match operator {
        Operator::AtLeast => !less(key, bound),
        Operator::Above => less(bound, key),
        Operator::AtMost => !less(bound, key),
        Operator::Below => less(key, bound),
    }
}

/// The operators of a half-open range are told apart.
pub proof fn lemma_operators(rest: Seq<char>)
    ensures
        read_operator(" >= "@ + rest) == Some((Operator::AtLeast, rest)),
        read_operator(" < "@ + rest) == Some((Operator::Below, rest)),
{
    reveal_strlit(" >= ");
    reveal_strlit(" > ");
    reveal_strlit(" <= ");
    reveal_strlit(" < ");
    lemma_after(" >= "@, rest);
    lemma_after(" < "@, rest);
    let s = " < "@ + rest;
    assert(s[1] == '<' && s[2] == ' ');
    assert(" >= "@[1] == '>' && " > "@[1] == '>' && " <= "@[2] == '=');
    lemma_not_after(s, " >= "@, 1);
    lemma_not_after(s, " > "@, 1);
    lemma_not_after(s, " <= "@, 2);
}

// ---------------------------------------------------------------------------
// Dropping a table
// ---------------------------------------------------------------------------

/// What a statement drops: whether only where it is there, which table, and
/// whether with what depends on it.
pub struct Dropped {
    pub if_exists: bool,
    pub schema: Seq<char>,
    pub table: Seq<char>,
    pub cascade: bool,
}

/// What a statement drops, in an engine that has schemas.
pub open spec fn read_drop_table(s: Seq<char>, quote: char) -> Option<Dropped> {
    match after(s, "DROP TABLE "@) {
        Some(rest) => {
            let if_exists = after(rest, "IF EXISTS "@) is Some;
            let named = if if_exists {
                after(rest, "IF EXISTS "@)->0
            } else {
                rest
            };
            match read_table(named, quote) {
                Some((schema, table, tail)) => if tail.len() == 0 {
                    Some(Dropped { if_exists, schema, table, cascade: false })
                } else if tail == " CASCADE"@ {
                    Some(Dropped { if_exists, schema, table, cascade: true })
                } else {
                    None
                },
                None => None,
            }
        },
        None => None,
    }
}

/// A statement drops the table that it was written for, and says no more than
/// its dialect allows.
pub proof fn lemma_drop_table(dialect: Dialect, schema: Seq<char>, name: Seq<char>)
    requires
        dialect.supports_schemas,
        dialect.quote_open == dialect.quote_close,
        dialect.quote_open == '"' || dialect.quote_open == '`',
    ensures
        read_drop_table(dialect.drop_table(schema, name), dialect.quote_open) == Some(
            Dropped {
                if_exists: dialect.supports_drop_if_exists,
                schema,
                table: name,
                cascade: dialect.supports_drop_table_cascade,
            },
        ),
{
    reveal_strlit("DROP TABLE ");
    reveal_strlit("IF EXISTS ");
    reveal_strlit(" CASCADE");
    let quote = dialect.quote_open;
    let target = dialect.qualified(schema, name);
    let tail = if dialect.supports_drop_table_cascade {
        " CASCADE"@
    } else {
        Seq::<char>::empty()
    };
    let named = target + tail;
    let s = dialect.drop_table(schema, name);
    lemma_table(schema, name, tail, quote);
    assert(target == quoted(schema, quote) + seq!['.'] + quoted(name, quote));
    if dialect.supports_drop_if_exists {
        assert(s =~= "DROP TABLE "@ + ("IF EXISTS "@ + named));
        lemma_after("DROP TABLE "@, "IF EXISTS "@ + named);
        lemma_after("IF EXISTS "@, named);
    } else {
        assert(s =~= "DROP TABLE "@ + named);
        lemma_after("DROP TABLE "@, named);
        assert(named[0] == quote && "IF EXISTS "@[0] == 'I');
        lemma_not_after(named, "IF EXISTS "@, 0);
    }
}

} // verus!
