//! What MySQL's type strings promise together: a column type that was written
//! is read back as the category that it was written for.
use vstd::prelude::*;

use crate::mysql::ddl;
use crate::mysql::dialect;
use crate::mysql::types;
use crate::native_type;
use crate::number;
use crate::schema::Column;
use crate::text;
use crate::types::Category;

verus! {

/// The categories that MySQL has a type of its own for, with a length where
/// the type has one. The others are written as the nearest type and read back
/// as that. An enumeration's values are cut at commas and lose the quotes at
/// their ends when they are read, so they may have neither.
pub open spec fn is_native(category: Category) -> bool {
    match category {
        Category::Boolean | Category::SmallInt | Category::Integer | Category::BigInt
        | Category::Real | Category::Double | Category::Text | Category::Blob
        | Category::Date => true,
        Category::Decimal { precision, scale } => precision is Some || scale is None,
        Category::Char { length } => length is Some,
        Category::VarChar { length } => length is Some,
        Category::Binary { length } => length is Some,
        Category::VarBinary { length } => length is Some,
        Category::Bit { length } => length is Some,
        Category::Time { precision, with_timezone } => precision != Some(0u32) && !with_timezone,
        Category::Timestamp { precision, with_timezone } => precision != Some(0u32)
            && !with_timezone,
        Category::Json { binary } => binary,
        Category::Geometry { subtype } => subtype == Some("geometry"@),
        Category::Enum { values } => values.len() > 0 && forall|i: int|
            0 <= i < values.len() ==> is_listable(#[trigger] values[i]),
        Category::Unsupported { native_type } => types::mysql_category(native_type) == category,
        _ => false,
    }
}

/// A value that survives in an enumeration's list.
pub open spec fn is_listable(value: Seq<char>) -> bool {
    !value.contains(',') && (value.len() > 0 ==> value[0] != '\'' && value.last() != '\'')
}

/// Length and first characters of the type names, enough to tell them apart.
pub proof fn lemma_type_names()
    ensures
        "tinyint"@.len() == 7,
        "tinyint"@[0] == 't',
        "tinyint"@[1] == 'i',
        "tinyint"@[2] == 'n',
        "smallint"@.len() == 8,
        "smallint"@[0] == 's',
        "smallint"@[1] == 'm',
        "smallint"@[2] == 'a',
        "mediumint"@.len() == 9,
        "mediumint"@[0] == 'm',
        "mediumint"@[1] == 'e',
        "mediumint"@[2] == 'd',
        "int"@.len() == 3,
        "int"@[0] == 'i',
        "int"@[1] == 'n',
        "int"@[2] == 't',
        "integer"@.len() == 7,
        "integer"@[0] == 'i',
        "integer"@[1] == 'n',
        "integer"@[2] == 't',
        "bigint"@.len() == 6,
        "bigint"@[0] == 'b',
        "bigint"@[1] == 'i',
        "bigint"@[2] == 'g',
        "decimal"@.len() == 7,
        "decimal"@[0] == 'd',
        "decimal"@[1] == 'e',
        "decimal"@[2] == 'c',
        "numeric"@.len() == 7,
        "numeric"@[0] == 'n',
        "numeric"@[1] == 'u',
        "numeric"@[2] == 'm',
        "float"@.len() == 5,
        "float"@[0] == 'f',
        "float"@[1] == 'l',
        "float"@[2] == 'o',
        "double"@.len() == 6,
        "double"@[0] == 'd',
        "double"@[1] == 'o',
        "double"@[2] == 'u',
        "char"@.len() == 4,
        "char"@[0] == 'c',
        "char"@[1] == 'h',
        "char"@[2] == 'a',
        "varchar"@.len() == 7,
        "varchar"@[0] == 'v',
        "varchar"@[1] == 'a',
        "varchar"@[2] == 'r',
        "text"@.len() == 4,
        "text"@[0] == 't',
        "text"@[1] == 'e',
        "text"@[2] == 'x',
        "tinytext"@.len() == 8,
        "tinytext"@[0] == 't',
        "tinytext"@[1] == 'i',
        "tinytext"@[2] == 'n',
        "mediumtext"@.len() == 10,
        "mediumtext"@[0] == 'm',
        "mediumtext"@[1] == 'e',
        "mediumtext"@[2] == 'd',
        "longtext"@.len() == 8,
        "longtext"@[0] == 'l',
        "longtext"@[1] == 'o',
        "longtext"@[2] == 'n',
        "binary"@.len() == 6,
        "binary"@[0] == 'b',
        "binary"@[1] == 'i',
        "binary"@[2] == 'n',
        "varbinary"@.len() == 9,
        "varbinary"@[0] == 'v',
        "varbinary"@[1] == 'a',
        "varbinary"@[2] == 'r',
        "blob"@.len() == 4,
        "blob"@[0] == 'b',
        "blob"@[1] == 'l',
        "blob"@[2] == 'o',
        "tinyblob"@.len() == 8,
        "tinyblob"@[0] == 't',
        "tinyblob"@[1] == 'i',
        "tinyblob"@[2] == 'n',
        "mediumblob"@.len() == 10,
        "mediumblob"@[0] == 'm',
        "mediumblob"@[1] == 'e',
        "mediumblob"@[2] == 'd',
        "longblob"@.len() == 8,
        "longblob"@[0] == 'l',
        "longblob"@[1] == 'o',
        "longblob"@[2] == 'n',
        "date"@.len() == 4,
        "date"@[0] == 'd',
        "date"@[1] == 'a',
        "date"@[2] == 't',
        "time"@.len() == 4,
        "time"@[0] == 't',
        "time"@[1] == 'i',
        "time"@[2] == 'm',
        "datetime"@.len() == 8,
        "datetime"@[0] == 'd',
        "datetime"@[1] == 'a',
        "datetime"@[2] == 't',
        "timestamp"@.len() == 9,
        "timestamp"@[0] == 't',
        "timestamp"@[1] == 'i',
        "timestamp"@[2] == 'm',
        "year"@.len() == 4,
        "year"@[0] == 'y',
        "year"@[1] == 'e',
        "year"@[2] == 'a',
        "json"@.len() == 4,
        "json"@[0] == 'j',
        "json"@[1] == 's',
        "json"@[2] == 'o',
        "bit"@.len() == 3,
        "bit"@[0] == 'b',
        "bit"@[1] == 'i',
        "bit"@[2] == 't',
        "geometry"@.len() == 8,
        "geometry"@[0] == 'g',
        "geometry"@[1] == 'e',
        "geometry"@[2] == 'o',
        "point"@.len() == 5,
        "point"@[0] == 'p',
        "point"@[1] == 'o',
        "point"@[2] == 'i',
        "linestring"@.len() == 10,
        "linestring"@[0] == 'l',
        "linestring"@[1] == 'i',
        "linestring"@[2] == 'n',
        "polygon"@.len() == 7,
        "polygon"@[0] == 'p',
        "polygon"@[1] == 'o',
        "polygon"@[2] == 'l',
        "multipoint"@.len() == 10,
        "multipoint"@[0] == 'm',
        "multipoint"@[1] == 'u',
        "multipoint"@[2] == 'l',
        "multilinestring"@.len() == 15,
        "multilinestring"@[0] == 'm',
        "multilinestring"@[1] == 'u',
        "multilinestring"@[2] == 'l',
        "multipolygon"@.len() == 12,
        "multipolygon"@[0] == 'm',
        "multipolygon"@[1] == 'u',
        "multipolygon"@[2] == 'l',
        "geometrycollection"@.len() == 18,
        "geometrycollection"@[0] == 'g',
        "geometrycollection"@[1] == 'e',
        "geometrycollection"@[2] == 'o',
        "double precision"@.len() == 16,
        "double precision"@[0] == 'd',
        "double precision"@[1] == 'o',
        "double precision"@[2] == 'u',
{
    reveal_strlit("tinyint");
    reveal_strlit("smallint");
    reveal_strlit("mediumint");
    reveal_strlit("int");
    reveal_strlit("integer");
    reveal_strlit("bigint");
    reveal_strlit("decimal");
    reveal_strlit("numeric");
    reveal_strlit("float");
    reveal_strlit("double");
    reveal_strlit("char");
    reveal_strlit("varchar");
    reveal_strlit("text");
    reveal_strlit("tinytext");
    reveal_strlit("mediumtext");
    reveal_strlit("longtext");
    reveal_strlit("binary");
    reveal_strlit("varbinary");
    reveal_strlit("blob");
    reveal_strlit("tinyblob");
    reveal_strlit("mediumblob");
    reveal_strlit("longblob");
    reveal_strlit("date");
    reveal_strlit("time");
    reveal_strlit("datetime");
    reveal_strlit("timestamp");
    reveal_strlit("year");
    reveal_strlit("json");
    reveal_strlit("bit");
    reveal_strlit("geometry");
    reveal_strlit("point");
    reveal_strlit("linestring");
    reveal_strlit("polygon");
    reveal_strlit("multipoint");
    reveal_strlit("multilinestring");
    reveal_strlit("multipolygon");
    reveal_strlit("geometrycollection");
    reveal_strlit("double precision");
}

/// Digits hold no whitespace, comma or parenthesis.
pub proof fn lemma_digits_are_plain(n: nat)
    ensures
        text::trimmed(number::digits(n)) == number::digits(n),
        !number::digits(n).contains(','),
        !number::digits(n).contains(')'),
        forall|i: int| 0 <= i < number::digits(n).len() ==> #[trigger] number::digits(n)[i] != ')',
{
    number::lemma_digits(n);
    let d = number::digits(n);
    assert(number::is_digit(d[0]));
    assert(number::is_digit(d[d.len() - 1]));
    assert(text::trimmed_start(d) == d);
    assert(text::trimmed_end(d) == d);
    if d.contains(',') {
        let i = choose|i: int| 0 <= i < d.len() && d[i] == ',';
        assert(number::is_digit(d[i]));
    }
    assert forall|i: int| 0 <= i < d.len() implies #[trigger] d[i] != ')' by {
        assert(number::is_digit(d[i]));
    }
}

proof fn lemma_single_len(n: u32)
    ensures
        native_type::single_len(number::digits(n as nat)) == Some(n),
        native_type::precision_scale(number::digits(n as nat)) == (Some(n), None::<u32>),
{
    lemma_digits_are_plain(n as nat);
    text::lemma_split_bare(number::digits(n as nat), ',');
    number::lemma_u32_round_trip(n);
}

proof fn lemma_precision_scale(p: u32, s: u32)
    ensures
        native_type::precision_scale(
            number::digits(p as nat) + seq![','] + number::digits(s as nat),
        ) == (Some(p), Some(s)),
{
    lemma_digits_are_plain(p as nat);
    lemma_digits_are_plain(s as nat);
    text::lemma_split_bare(number::digits(p as nat), ',');
    text::lemma_split_bare(number::digits(s as nat), ',');
    text::lemma_split_at(number::digits(p as nat), number::digits(s as nat), ',');
    number::lemma_u32_round_trip(p);
    number::lemma_u32_round_trip(s);
}

proof fn lemma_no_args()
    ensures
        native_type::single_len(Seq::<char>::empty()) is None,
        native_type::precision_scale(Seq::<char>::empty()) == (None::<u32>, None::<u32>),
        text::trimmed(Seq::<char>::empty()) == Seq::<char>::empty(),
{
    let none = Seq::<char>::empty();
    assert(text::split_on(none, ',') =~= seq![none]);
    assert(text::trimmed_start(none) == none);
}

/// A type string that neither begins nor ends with whitespace and has no
/// modifier is read as it stands.
proof fn lemma_bare(s: Seq<char>)
    requires
        s.len() > 0,
        !text::is_space(s[0]),
        !text::is_space(s.last()),
        s.len() < 8 || (s.last() != 'l' && s.last() != 'd'),
    ensures
        types::without_modifiers(text::trimmed(s)) == s,
{
    reveal_strlit("zerofill");
    reveal_strlit("unsigned");
    assert(text::trimmed_start(s) == s);
    assert(text::trimmed_end(s) == s);
    if text::ends_with(s, "zerofill"@) {
        assert(s.skip(s.len() - 8)[7] == s.last());
        assert("zerofill"@[7] == 'l');
    }
    if text::ends_with(s, "unsigned"@) {
        assert(s.skip(s.len() - 8)[7] == s.last());
        assert("unsigned"@[7] == 'd');
    }
    assert(text::without_suffixes(s, "zerofill"@) == s);
    assert(text::without_suffixes(s, "unsigned"@) == s);
}

/// A name of letters: what type names are made of.
pub open spec fn is_word(name: Seq<char>) -> bool {
    name.len() > 0 && forall|i: int| 0 <= i < name.len() ==> 'a' <= #[trigger] name[i] <= 'z'
}

/// The name and arguments of `name(args)`.
pub proof fn lemma_name_and_args(name: Seq<char>, args: Seq<char>)
    requires
        is_word(name),
        forall|i: int| 0 <= i < args.len() ==> #[trigger] args[i] != ')',
    ensures
        types::name_and_args(name + seq!['('] + args + seq![')']) == (name, args),
        types::without_modifiers(text::trimmed(name + seq!['('] + args + seq![')'])) == name
            + seq!['('] + args + seq![')'],
{
    let s = name + seq!['('] + args + seq![')'];
    let open = name.len() as int;
    assert(s[0] == name[0]);
    assert(s.last() == ')');
    lemma_bare(s);
    assert forall|k: int| 0 <= k < open implies s[k] != '(' by {
        assert(s[k] == name[k]);
    }
    text::lemma_first_index_is(s, '(', open);
    let tail = s.skip(open);
    let close = args.len() + 1;
    assert forall|k: int| 0 <= k < close implies tail[k] != ')' by {
        if k > 0 {
            assert(tail[k] == args[k - 1]);
        }
    }
    text::lemma_first_index_is(tail, ')', close as int);
    assert(s.take(open) =~= name);
    assert(s.subrange(open + 1, open + close) =~= args);
    assert('a' <= name[0] <= 'z');
    assert('a' <= name[name.len() - 1] <= 'z');
    assert(text::trimmed_start(name) == name);
    assert(text::trimmed_end(name) == name);
}

/// The name of a type string that is nothing but a name.
pub proof fn lemma_bare_name(name: Seq<char>)
    requires
        is_word(name),
        name.len() < 8 || (name.last() != 'l' && name.last() != 'd'),
    ensures
        types::name_and_args(name) == (name, Seq::<char>::empty()),
        types::without_modifiers(text::trimmed(name)) == name,
{
    assert('a' <= name[0] <= 'z');
    assert('a' <= name[name.len() - 1] <= 'z');
    lemma_bare(name);
    text::lemma_first_index_is(name, '(', name.len() as int);
}

/// A type string whose name is none of the two with a syntax of their own
/// gets the category of its name.
proof fn lemma_named(s: Seq<char>, name: Seq<char>, args: Seq<char>)
    requires
        types::without_modifiers(text::trimmed(s)) == s,
        types::name_and_args(s) == (name, args),
        s.len() >= 2,
        s[0] != 'e',
        !(s[0] == 's' && s[1] == 'e'),
        types::named_category(name, args) is Some,
    ensures
        types::mysql_category(s) == types::named_category(name, args)->0,
{
    reveal_strlit("enum(");
    reveal_strlit("set(");
    assert("enum("@[0] == 'e');
    assert("set("@[0] == 's' && "set("@[1] == 'e');
    if text::starts_with(s, "enum("@) {
        assert(s.take(5)[0] == s[0]);
    }
    if text::starts_with(s, "set("@) {
        assert(s.take(4)[0] == s[0]);
        assert(s.take(4)[1] == s[1]);
    }
}

/// One value of an enumeration, as it stands in the list behind a space.
proof fn lemma_enum_value(value: Seq<char>)
    requires
        is_listable(value),
    ensures
        types::enum_value(ddl::literal(value)) == value,
        types::enum_value(seq![' '] + ddl::literal(value)) == value,
        !ddl::literal(value).contains(','),
        !(seq![' '] + ddl::literal(value)).contains(','),
{
    let inner = text::doubled(value, '\'');
    let lit = ddl::literal(value);
    let spaced = seq![' '] + lit;
    lemma_doubled_edges(value, '\'', ',');
    assert(lit[0] == '\'' && lit.last() == '\'');
    assert(text::trimmed_start(lit) == lit);
    assert(text::trimmed_end(lit) == lit);
    assert(spaced.drop_first() =~= lit);
    assert(text::is_space(spaced[0]));
    assert(text::trimmed_start(spaced) == lit);
    // The opening quote goes, and the closing one, and no other.
    let open_off = inner + seq!['\''];
    assert(lit.drop_first() =~= open_off);
    if value.len() == 0 {
        reveal_with_fuel(text::without_leading, 3);
        assert(open_off.drop_first() =~= Seq::<char>::empty());
        assert(text::without_leading(lit, '\'') =~= Seq::<char>::empty());
        assert(value =~= Seq::<char>::empty());
    } else {
        assert(open_off[0] == value[0]);
        assert(text::without_leading(open_off, '\'') == open_off);
        assert(text::without_leading(lit, '\'') == open_off);
        assert(open_off.drop_last() =~= inner);
        assert(text::without_trailing(inner, '\'') == inner);
        assert(text::without_trailing(open_off, '\'') == inner);
        text::lemma_undoubled_doubled(value, '\'');
    }
    assert(!lit.contains(','));
    if spaced.contains(',') {
        let i = choose|i: int| 0 <= i < spaced.len() && spaced[i] == ',';
        assert(lit[i - 1] == ',');
    }
}

/// Doubling keeps the first and the last character, and brings in no other.
proof fn lemma_doubled_edges(s: Seq<char>, c: char, other: char)
    requires
        c != other,
        !s.contains(other),
    ensures
        s.len() == 0 ==> text::doubled(s, c).len() == 0,
        s.len() > 0 ==> text::doubled(s, c).len() > 0 && text::doubled(s, c)[0] == s[0]
            && text::doubled(s, c).last() == s.last(),
        !text::doubled(s, c).contains(other),
        !ddl::literal(s).contains(other) || c != '\'',
    decreases s.len(),
{
    let d = text::doubled(s, c);
    if s.len() > 0 {
        let rest = s.drop_first();
        assert(!rest.contains(other)) by {
            if rest.contains(other) {
                let i = choose|i: int| 0 <= i < rest.len() && rest[i] == other;
                assert(s[i + 1] == other);
            }
        }
        lemma_doubled_edges(rest, c, other);
        let tail = text::doubled(rest, c);
        let head = if s[0] == c {
            seq![c, c]
        } else {
            seq![s[0]]
        };
        assert(d == head + tail);
        if rest.len() > 0 {
            assert(d.last() == tail.last());
            assert(s.last() == rest.last());
        }
        if d.contains(other) {
            let i = choose|i: int| 0 <= i < d.len() && d[i] == other;
            if i < head.len() {
                assert(s[0] == other);
            } else {
                assert(tail[i - head.len()] == other);
            }
        }
    }
    let lit = ddl::literal(s);
    if c == '\'' && lit.contains(other) {
        let i = choose|i: int| 0 <= i < lit.len() && lit[i] == other;
        assert(0 < i < lit.len() - 1);
        assert(d[i - 1] == other);
    }
}

proof fn lemma_enum_list(values: Seq<Seq<char>>)
    requires
        values.len() > 0,
        forall|i: int| 0 <= i < values.len() ==> is_listable(#[trigger] values[i]),
    ensures
        types::enum_values(text::joined(ddl::literals(values), ", "@)) == values,
    decreases values.len(),
{
    reveal_strlit(", ");
    let lits = ddl::literals(values);
    let last = values.last();
    lemma_enum_value(last);
    if values.len() == 1 {
        text::lemma_split_bare(ddl::literal(last), ',');
        assert(types::enum_values(text::joined(lits, ", "@)) =~= values);
    } else {
        let front = values.drop_last();
        assert forall|i: int| 0 <= i < front.len() implies is_listable(#[trigger] front[i]) by {
            assert(front[i] == values[i]);
        }
        lemma_enum_list(front);
        assert(lits.drop_last() =~= ddl::literals(front));
        let head = text::joined(ddl::literals(front), ", "@);
        let piece = seq![' '] + ddl::literal(last);
        assert(text::joined(lits, ", "@) =~= head + seq![','] + piece);
        text::lemma_split_at(head, piece, ',');
        text::lemma_split_bare(piece, ',');
        let parts = text::split_on(head, ',');
        assert(text::split_on(text::joined(lits, ", "@), ',') =~= parts.push(piece));
        assert(types::enum_values(text::joined(lits, ", "@)) =~= types::enum_values(head).push(
            last,
        ));
        assert(front.push(last) =~= values);
    }
}

proof fn lemma_enum_type(values: Seq<Seq<char>>)
    requires
        values.len() > 0,
        forall|i: int| 0 <= i < values.len() ==> is_listable(#[trigger] values[i]),
    ensures
        types::mysql_category(ddl::type_text(Category::Enum { values })) == (Category::Enum {
            values,
        }),
{
    reveal_strlit("enum(");
    reveal_strlit(")");
    let list = text::joined(ddl::literals(values), ", "@);
    let s = ddl::type_text(Category::Enum { values });
    assert(s[0] == "enum("@[0]);
    assert("enum("@[0] == 'e');
    assert(s.last() == ')');
    lemma_bare(s);
    assert(s.take(5) =~= "enum("@);
    assert(s.skip(5).skip(s.skip(5).len() - 1) =~= ")"@);
    assert(s.subrange(5, s.len() - 1) =~= list);
    lemma_enum_list(values);
}

/// The names of the types that are written are words.
pub proof fn lemma_words()
    ensures
        is_word("tinyint"@),
        is_word("smallint"@),
        is_word("int"@),
        is_word("bigint"@),
        is_word("decimal"@),
        is_word("float"@),
        is_word("double"@),
        is_word("char"@),
        is_word("varchar"@),
        is_word("text"@),
        is_word("binary"@),
        is_word("varbinary"@),
        is_word("blob"@),
        is_word("date"@),
        is_word("time"@),
        is_word("datetime"@),
        is_word("json"@),
        is_word("bit"@),
        is_word("geometry"@),
{
    reveal_strlit("tinyint");
    reveal_strlit("smallint");
    reveal_strlit("int");
    reveal_strlit("bigint");
    reveal_strlit("decimal");
    reveal_strlit("float");
    reveal_strlit("double");
    reveal_strlit("char");
    reveal_strlit("varchar");
    reveal_strlit("text");
    reveal_strlit("binary");
    reveal_strlit("varbinary");
    reveal_strlit("blob");
    reveal_strlit("date");
    reveal_strlit("time");
    reveal_strlit("datetime");
    reveal_strlit("json");
    reveal_strlit("bit");
    reveal_strlit("geometry");
}

/// A type name that a bare or sized type string can have.
spec fn is_plain_name(name: Seq<char>) -> bool {
    &&& is_word(name)
    &&& name.len() >= 2
    &&& name.len() < 8 || (name.last() != 'l' && name.last() != 'd')
    &&& name[0] != 'e'
    &&& !(name[0] == 's' && name[1] == 'e')
}

proof fn lemma_plain_names()
    ensures
        is_plain_name("tinyint"@),
        is_plain_name("smallint"@),
        is_plain_name("int"@),
        is_plain_name("bigint"@),
        is_plain_name("decimal"@),
        is_plain_name("float"@),
        is_plain_name("double"@),
        is_plain_name("char"@),
        is_plain_name("varchar"@),
        is_plain_name("text"@),
        is_plain_name("binary"@),
        is_plain_name("varbinary"@),
        is_plain_name("blob"@),
        is_plain_name("date"@),
        is_plain_name("time"@),
        is_plain_name("datetime"@),
        is_plain_name("json"@),
        is_plain_name("bit"@),
        is_plain_name("geometry"@),
{
    lemma_words();
    lemma_type_names();
    reveal_strlit("smallint");
    reveal_strlit("varbinary");
    reveal_strlit("datetime");
    reveal_strlit("geometry");
    assert("smallint"@.last() == 't');
    assert("varbinary"@.last() == 'y');
    assert("datetime"@.last() == 'e');
    assert("geometry"@.last() == 'y');
}

/// What each name that is written stands for.
#[verifier::spinoff_prover]
proof fn lemma_lookup(args: Seq<char>)
    ensures
        text::trimmed(args) == "1"@ ==> types::named_category("tinyint"@, args) == Some(
            Category::Boolean,
        ),
        types::named_category("smallint"@, args) == Some(Category::SmallInt),
        types::named_category("int"@, args) == Some(Category::Integer),
        types::named_category("bigint"@, args) == Some(Category::BigInt),
        types::named_category("decimal"@, args) == Some(
            Category::Decimal {
                precision: native_type::precision_scale(args).0,
                scale: native_type::precision_scale(args).1,
            },
        ),
        types::named_category("float"@, args) == Some(Category::Real),
        types::named_category("double"@, args) == Some(Category::Double),
        types::named_category("char"@, args) == Some(
            Category::Char { length: native_type::single_len(args) },
        ),
        types::named_category("varchar"@, args) == Some(
            Category::VarChar { length: native_type::single_len(args) },
        ),
        types::named_category("text"@, args) == Some(Category::Text),
        types::named_category("binary"@, args) == Some(
            Category::Binary { length: native_type::single_len(args) },
        ),
        types::named_category("varbinary"@, args) == Some(
            Category::VarBinary { length: native_type::single_len(args) },
        ),
        types::named_category("blob"@, args) == Some(Category::Blob),
        types::named_category("date"@, args) == Some(Category::Date),
        types::named_category("time"@, args) == Some(
            Category::Time { precision: native_type::single_len(args), with_timezone: false },
        ),
        types::named_category("datetime"@, args) == Some(
            Category::Timestamp { precision: native_type::single_len(args), with_timezone: false },
        ),
        types::named_category("json"@, args) == Some(Category::Json { binary: true }),
        types::named_category("bit"@, args) == Some(
            Category::Bit { length: native_type::single_len(args) },
        ),
        types::named_category("geometry"@, args) == Some(
            Category::Geometry { subtype: Some("geometry"@) },
        ),
{
    lemma_type_names();
}

/// A type written as `name(n)` is read back.
proof fn lemma_sized(name: Seq<char>, n: u32)
    requires
        is_plain_name(name),
        types::named_category(name, number::digits(n as nat)) is Some,
    ensures
        types::mysql_category(ddl::sized(name, n)) == types::named_category(
            name,
            number::digits(n as nat),
        )->0,
        native_type::single_len(number::digits(n as nat)) == Some(n),
        native_type::precision_scale(number::digits(n as nat)) == (Some(n), None::<u32>),
{
    lemma_single_len(n);
    lemma_digits_are_plain(n as nat);
    lemma_name_and_args(name, number::digits(n as nat));
    let s = ddl::sized(name, n);
    assert(s[0] == name[0] && s[1] == name[1]);
    lemma_named(s, name, number::digits(n as nat));
}

/// A type written as its bare name is read back.
proof fn lemma_unsized(name: Seq<char>)
    requires
        is_plain_name(name),
        types::named_category(name, Seq::<char>::empty()) is Some,
    ensures
        types::mysql_category(name) == types::named_category(name, Seq::<char>::empty())->0,
{
    lemma_bare_name(name);
    lemma_named(name, name, Seq::<char>::empty());
}

/// A decimal written with its precision and scale is read back.
#[verifier::spinoff_prover]
proof fn lemma_decimal(p: u32, d: u32)
    ensures
        types::mysql_category(
            ddl::type_text(Category::Decimal { precision: Some(p), scale: Some(d) }),
        ) == (Category::Decimal { precision: Some(p), scale: Some(d) }),
{
    let category = Category::Decimal { precision: Some(p), scale: Some(d) };
    lemma_plain_names();
    let args = number::digits(p as nat) + seq![','] + number::digits(d as nat);
    lemma_digits_are_plain(p as nat);
    lemma_digits_are_plain(d as nat);
    lemma_precision_scale(p, d);
    lemma_lookup(args);
    assert forall|i: int| 0 <= i < args.len() implies #[trigger] args[i] != ')' by {
        let n = number::digits(p as nat).len();
        if i < n {
            assert(number::digits(p as nat)[i] != ')');
        } else if i > n {
            assert(number::digits(d as nat)[i - n - 1] != ')');
        }
    }
    lemma_name_and_args("decimal"@, args);
    let s = ddl::type_text(category);
    reveal_strlit("decimal(");
    reveal_strlit("decimal");
    assert("decimal("@ =~= "decimal"@ + seq!['(']);
    assert(s =~= "decimal"@ + seq!['('] + args + seq![')']);
    lemma_named(s, "decimal"@, args);
}

/// A column type that was written for one of MySQL's own categories is read
/// back as that category: a recreated table has the columns it had.
#[verifier::spinoff_prover]
#[verifier::rlimit(40)]
pub proof fn lemma_type_round_trip(category: Category)
    requires
        is_native(category),
    ensures
        types::mysql_category(ddl::type_text(category)) == category,
{
    lemma_plain_names();
    lemma_no_args();
    lemma_lookup(Seq::<char>::empty());
    match category {
        Category::Boolean => {
            reveal_strlit("tinyint(1)");
            reveal_strlit("tinyint");
            reveal_strlit("1");
            lemma_digits_are_plain(1);
            assert(number::digits(1) =~= "1"@);
            assert("tinyint(1)"@ =~= ddl::sized("tinyint"@, 1));
            lemma_lookup(number::digits(1));
            lemma_sized("tinyint"@, 1);
        },
        Category::SmallInt => {
            lemma_unsized("smallint"@);
        },
        Category::Integer => lemma_unsized("int"@),
        Category::BigInt => lemma_unsized("bigint"@),
        Category::Decimal { precision, scale } => match (precision, scale) {
            (Some(p), Some(d)) => {
                lemma_decimal(p, d);
            },
            (Some(p), None) => {
                lemma_lookup(number::digits(p as nat));
                lemma_sized("decimal"@, p);
            },
            _ => lemma_unsized("decimal"@),
        },
        Category::Real => lemma_unsized("float"@),
        Category::Double => lemma_unsized("double"@),
        Category::Char { length } => {
            lemma_lookup(number::digits(length->0 as nat));
            lemma_sized("char"@, length->0);
        },
        Category::VarChar { length } => {
            lemma_lookup(number::digits(length->0 as nat));
            lemma_sized("varchar"@, length->0);
        },
        Category::Text => lemma_unsized("text"@),
        Category::Binary { length } => {
            lemma_lookup(number::digits(length->0 as nat));
            lemma_sized("binary"@, length->0);
        },
        Category::VarBinary { length } => {
            lemma_lookup(number::digits(length->0 as nat));
            lemma_sized("varbinary"@, length->0);
        },
        Category::Blob => lemma_unsized("blob"@),
        Category::Date => lemma_unsized("date"@),
        Category::Time { precision, with_timezone: _ } => match precision {
            Some(p) => {
                lemma_lookup(number::digits(p as nat));
                lemma_sized("time"@, p);
            },
            None => lemma_unsized("time"@),
        },
        Category::Timestamp { precision, with_timezone: _ } => match precision {
            Some(p) => {
                lemma_lookup(number::digits(p as nat));
                lemma_sized("datetime"@, p);
            },
            None => {
                lemma_unsized("datetime"@);
            },
        },
        Category::Json { binary: _ } => lemma_unsized("json"@),
        Category::Bit { length } => {
            lemma_lookup(number::digits(length->0 as nat));
            lemma_sized("bit"@, length->0);
        },
        Category::Geometry { subtype: _ } => {
            lemma_unsized("geometry"@);
        },
        Category::Enum { values } => lemma_enum_type(values),
        _ => {},
    }
}

/// Whether a catalog shows a declared column type so: as it was declared, or,
/// where it is one of the whole numbers, with a display width behind it.
pub open spec fn shows_type(shown: Seq<char>, declared: Seq<char>) -> bool {
    shown == declared || {
        &&& declared == "smallint"@ || declared == "int"@ || declared == "bigint"@
        &&& exists|width: u32| shown == #[trigger] ddl::sized(declared, width)
    }
}

/// A column type that was written for one of MySQL's own categories is read
/// back as that category however the catalog shows it.
pub proof fn lemma_shown_type(category: Category, shown: Seq<char>)
    requires
        is_native(category),
        shows_type(shown, ddl::type_text(category)),
    ensures
        types::mysql_category(shown) == category,
{
    lemma_type_round_trip(category);
    let declared = ddl::type_text(category);
    if shown != declared {
        let width = choose|width: u32| shown == #[trigger] ddl::sized(declared, width);
        lemma_plain_names();
        lemma_lookup(Seq::<char>::empty());
        lemma_lookup(number::digits(width as nat));
        lemma_unsized(declared);
        lemma_sized(declared, width);
    }
}

/// What stands behind the type in a column's line.
pub open spec fn column_tail(nullable: bool, default: Option<Seq<char>>, identity: bool) -> Seq<
    char,
> {
    (if nullable {
        Seq::<char>::empty()
    } else {
        " NOT NULL"@
    }) + (if identity {
        " AUTO_INCREMENT"@
    } else {
        match default {
            Some(d) => " DEFAULT "@ + d,
            None => Seq::<char>::empty(),
        }
    })
}

/// A rendered column keeps what the column was: its line is its quoted name,
/// which reads back as the name, a type that reads back as its category, and
/// a tail that tells whether it may be null, whether its key is generated,
/// and, where it is not, its default.
pub proof fn lemma_rendered_column_is_kept(c: Column)
    requires
        is_native(c.data_type.category@),
    ensures
        ddl::column_line(c) == dialect::ident(c.name@) + seq![' '] + ddl::type_text(
            c.data_type.category@,
        ) + column_tail(
            c.nullable,
            crate::types::optional_text(c.default),
            c.identity_generation is Some,
        ),
        dialect::mysql_dialect().unquoted(dialect::ident(c.name@)) == c.name@,
        types::mysql_category(ddl::type_text(c.data_type.category@)) == c.data_type.category@,
{
    lemma_type_round_trip(c.data_type.category@);
    dialect::mysql_dialect().lemma_unquoted(c.name@);
    assert(ddl::column_line(c) =~= dialect::ident(c.name@) + seq![' '] + ddl::type_text(
        c.data_type.category@,
    ) + column_tail(
        c.nullable,
        crate::types::optional_text(c.default),
        c.identity_generation is Some,
    ));
}

/// Tails that read the same say the same.
pub proof fn lemma_tails_differ(
    nullable1: bool,
    default1: Option<Seq<char>>,
    identity1: bool,
    nullable2: bool,
    default2: Option<Seq<char>>,
    identity2: bool,
)
    requires
        column_tail(nullable1, default1, identity1) == column_tail(nullable2, default2, identity2),
    ensures
        nullable1 == nullable2,
        identity1 == identity2,
        !identity1 ==> default1 == default2,
{
    reveal_strlit(" NOT NULL");
    reveal_strlit(" AUTO_INCREMENT");
    reveal_strlit(" DEFAULT ");
    let t1 = column_tail(nullable1, default1, identity1);
    let t2 = column_tail(nullable2, default2, identity2);
    let v1 = value_tail(default1, identity1);
    let v2 = value_tail(default2, identity2);
    lemma_tail_start(nullable1, default1, identity1);
    lemma_tail_start(nullable2, default2, identity2);
    assert(nullable1 == nullable2);
    let n = if nullable1 {
        0int
    } else {
        9int
    };
    assert(t1.skip(n) =~= v1);
    assert(t2.skip(n) =~= v2);
    assert(v1 == v2);
    if identity1 {
        assert(v1[1] == 'A');
    }
    if identity2 {
        assert(v2[1] == 'A');
    }
    if !identity1 && default1 is Some {
        assert(v1[1] == 'D');
        assert(v1.skip(9) =~= default1->0);
    }
    if !identity2 && default2 is Some {
        assert(v2[1] == 'D');
        assert(v2.skip(9) =~= default2->0);
    }
}

spec fn value_tail(default: Option<Seq<char>>, identity: bool) -> Seq<char> {
    if identity {
        " AUTO_INCREMENT"@
    } else {
        match default {
            Some(d) => " DEFAULT "@ + d,
            None => Seq::<char>::empty(),
        }
    }
}

proof fn lemma_tail_start(nullable: bool, default: Option<Seq<char>>, identity: bool)
    ensures
        !nullable ==> column_tail(nullable, default, identity).len() >= 9 && column_tail(
            nullable,
            default,
            identity,
        )[1] == 'N',
        nullable && column_tail(nullable, default, identity).len() >= 2 ==> column_tail(
            nullable,
            default,
            identity,
        )[1] != 'N',
{
    reveal_strlit(" NOT NULL");
    reveal_strlit(" AUTO_INCREMENT");
    reveal_strlit(" DEFAULT ");
    let t = column_tail(nullable, default, identity);
    if nullable {
        assert(t =~= value_tail(default, identity));
    } else {
        assert(t[1] == " NOT NULL"@[1]);
    }
}

/// An enumeration is read back from the catalog's own form of its type, in which
/// only commas stand between the values.
pub proof fn lemma_catalog_enum(values: Seq<Seq<char>>)
    requires
        values.len() > 0,
        forall|i: int| 0 <= i < values.len() ==> is_listable(#[trigger] values[i]),
    ensures
        types::mysql_category(
            "enum("@ + text::joined(ddl::literals(values), seq![',']) + seq![')'],
        ) == (Category::Enum { values }),
{
    reveal_strlit("enum(");
    reveal_strlit(")");
    let lits = ddl::literals(values);
    let list = text::joined(lits, seq![',']);
    let s = "enum("@ + list + seq![')'];
    assert forall|i: int| 0 <= i < lits.len() implies !(#[trigger] lits[i]).contains(',') by {
        lemma_enum_value(values[i]);
    }
    text::lemma_split_joined(lits, ',');
    assert forall|i: int| 0 <= i < values.len() implies types::enum_values(list)[i]
        == values[i] by {
        lemma_enum_value(values[i]);
    }
    assert(types::enum_values(list) =~= values);
    assert(s[0] == "enum("@[0] && "enum("@[0] == 'e' && s.last() == ')');
    lemma_bare(s);
    assert(s.take(5) =~= "enum("@);
    assert(s.skip(5).skip(s.skip(5).len() - 1) =~= ")"@);
    assert(s.subrange(5, s.len() - 1) =~= list);
}

} // verus!
