//! What PostgreSQL's types hold: by which name the driver knows a built-in
//! type, and which kind of value a column of it reads as.
use vstd::prelude::*;

use crate::native_type;
use crate::number;
use crate::postgres::query;
use crate::postgres::query::ColumnDecoder;
use crate::postgres::reading;
use crate::postgres::round_trip;
use crate::postgres::stream;
use crate::postgres::types;
use crate::text;
use crate::types::Category;
use crate::value::ValueModel;

verus! {

// ---------------------------------------------------------------------------
// Built-in types
// ---------------------------------------------------------------------------

/// By which name the driver knows the built-in type that is called so in a
/// type string, without what stands in parentheses.
pub open spec fn driver_name(name: Seq<char>) -> Option<Seq<char>> {
    if name == "boolean"@ || name == "bool"@ {
        Some("BOOL"@)
    } else if name == "smallint"@ || name == "int2"@ {
        Some("INT2"@)
    } else if name == "integer"@ || name == "int"@ || name == "int4"@ {
        Some("INT4"@)
    } else if name == "bigint"@ || name == "int8"@ {
        Some("INT8"@)
    } else if name == "numeric"@ || name == "decimal"@ {
        Some("NUMERIC"@)
    } else if name == "real"@ || name == "float4"@ {
        Some("FLOAT4"@)
    } else if name == "double precision"@ || name == "float8"@ {
        Some("FLOAT8"@)
    } else if name == "character"@ || name == "char"@ || name == "bpchar"@ {
        Some("CHAR"@)
    } else if name == "character varying"@ || name == "varchar"@ {
        Some("VARCHAR"@)
    } else if name == "text"@ {
        Some("TEXT"@)
    } else if name == "bytea"@ {
        Some("BYTEA"@)
    } else if name == "date"@ {
        Some("DATE"@)
    } else if name == "time"@ || name == "time without time zone"@ {
        Some("TIME"@)
    } else if name == "time with time zone"@ || name == "timetz"@ {
        Some("TIMETZ"@)
    } else if name == "timestamp"@ || name == "timestamp without time zone"@ {
        Some("TIMESTAMP"@)
    } else if name == "timestamp with time zone"@ || name == "timestamptz"@ {
        Some("TIMESTAMPTZ"@)
    } else if name == "interval"@ {
        Some("INTERVAL"@)
    } else if name == "uuid"@ {
        Some("UUID"@)
    } else if name == "json"@ {
        Some("JSON"@)
    } else if name == "jsonb"@ {
        Some("JSONB"@)
    } else {
        None
    }
}

/// The size of a category: its length or its precision.
pub open spec fn size_of(c: Category) -> Option<u32> {
    match c {
        Category::Decimal { precision, .. } => precision,
        Category::Char { length } => length,
        Category::VarChar { length } => length,
        Category::Bit { length } => length,
        Category::Time { precision, .. } => precision,
        Category::Timestamp { precision, .. } => precision,
        _ => None,
    }
}

/// Whether a category has a size.
pub open spec fn is_sized(c: Category) -> bool {
    c is Decimal || c is Char || c is VarChar || c is Bit || c is Time || c is Timestamp
}

/// Length and characters of the names, enough to tell them apart.
proof fn lemma_names()
    ensures
        "boolean"@.len() == 7,
        "boolean"@[0] == 'b',
        "bool"@.len() == 4,
        "bool"@[0] == 'b',
        "smallint"@.len() == 8,
        "smallint"@[0] == 's',
        "int2"@.len() == 4,
        "int2"@[0] == 'i',
        "int2"@[3] == '2',
        "integer"@.len() == 7,
        "integer"@[0] == 'i',
        "int"@.len() == 3,
        "int"@[0] == 'i',
        "int4"@.len() == 4,
        "int4"@[0] == 'i',
        "int4"@[3] == '4',
        "bigint"@.len() == 6,
        "bigint"@[0] == 'b',
        "bigint"@[1] == 'i',
        "int8"@.len() == 4,
        "int8"@[0] == 'i',
        "int8"@[3] == '8',
        "numeric"@.len() == 7,
        "numeric"@[0] == 'n',
        "decimal"@.len() == 7,
        "decimal"@[0] == 'd',
        "real"@.len() == 4,
        "real"@[0] == 'r',
        "float4"@.len() == 6,
        "float4"@[0] == 'f',
        "float4"@[5] == '4',
        "double precision"@.len() == 16,
        "double precision"@[0] == 'd',
        "float8"@.len() == 6,
        "float8"@[0] == 'f',
        "float8"@[5] == '8',
        "character"@.len() == 9,
        "character"@[0] == 'c',
        "char"@.len() == 4,
        "char"@[0] == 'c',
        "bpchar"@.len() == 6,
        "bpchar"@[0] == 'b',
        "bpchar"@[1] == 'p',
        "character varying"@.len() == 17,
        "varchar"@.len() == 7,
        "varchar"@[0] == 'v',
        "text"@.len() == 4,
        "text"@[0] == 't',
        "text"@[1] == 'e',
        "bytea"@.len() == 5,
        "date"@.len() == 4,
        "date"@[0] == 'd',
        "time"@.len() == 4,
        "time"@[0] == 't',
        "time"@[1] == 'i',
        "time without time zone"@.len() == 22,
        "time with time zone"@.len() == 19,
        "timetz"@.len() == 6,
        "timetz"@[0] == 't',
        "timestamp"@.len() == 9,
        "timestamp"@[0] == 't',
        "timestamp without time zone"@.len() == 27,
        "timestamp with time zone"@.len() == 24,
        "timestamptz"@.len() == 11,
        "timestamptz"@[0] == 't',
        "bit varying"@.len() == 11,
        "bit varying"@[0] == 'b',
        "interval"@.len() == 8,
        "interval"@[0] == 'i',
        "uuid"@.len() == 4,
        "uuid"@[0] == 'u',
        "json"@.len() == 4,
        "json"@[0] == 'j',
        "jsonb"@.len() == 5,
        "jsonb"@[0] == 'j',
        "bytea"@[0] == 'b',
        "xml"@.len() == 3,
        "xml"@[0] == 'x',
        "bit"@.len() == 3,
        "bit"@[0] == 'b',
{
    reveal_strlit("boolean");
    reveal_strlit("bool");
    reveal_strlit("smallint");
    reveal_strlit("int2");
    reveal_strlit("integer");
    reveal_strlit("int");
    reveal_strlit("int4");
    reveal_strlit("bigint");
    reveal_strlit("int8");
    reveal_strlit("numeric");
    reveal_strlit("decimal");
    reveal_strlit("real");
    reveal_strlit("float4");
    reveal_strlit("double precision");
    reveal_strlit("float8");
    reveal_strlit("character");
    reveal_strlit("char");
    reveal_strlit("bpchar");
    reveal_strlit("character varying");
    reveal_strlit("varchar");
    reveal_strlit("text");
    reveal_strlit("bytea");
    reveal_strlit("date");
    reveal_strlit("time");
    reveal_strlit("time without time zone");
    reveal_strlit("time with time zone");
    reveal_strlit("timetz");
    reveal_strlit("timestamp");
    reveal_strlit("timestamp without time zone");
    reveal_strlit("timestamp with time zone");
    reveal_strlit("timestamptz");
    reveal_strlit("interval");
    reveal_strlit("uuid");
    reveal_strlit("json");
    reveal_strlit("jsonb");
    reveal_strlit("xml");
    reveal_strlit("bit");
    reveal_strlit("bit varying");
}

/// A built-in type is reflected as the category that arrives as that very type,
/// with the size that its parentheses give; a type that is not built in has no
/// category.
#[verifier::spinoff_prover]
#[verifier::rlimit(60)]
pub proof fn lemma_built_in_type(name: Seq<char>, args: Seq<char>)
    ensures
        driver_name(name) matches Some(wire) ==> types::named_category(name, args) matches Some(c)
            && stream::wire_name(c) == Some(wire),
        name == "bytea"@ ==> types::named_category(name, args) == Some(Category::Blob),
        name == "xml"@ <==> types::named_category(name, args) == Some(Category::Xml),
        name == "bit"@ || name == "bit varying"@ ==> types::named_category(name, args) is Some
            && types::named_category(name, args)->0 is Bit,
        types::named_category(name, args) matches Some(c) ==> {
            &&& is_sized(c) ==> size_of(c) == native_type::single_len(args)
            &&& c matches Category::Decimal { scale, .. } ==> scale
                == native_type::precision_scale(args).1
            &&& driver_name(name) is Some || c is Xml || c is Bit
            &&& c is Bit ==> name == "bit"@ || name == "bit varying"@
        },
{
    lemma_names();
}

// ---------------------------------------------------------------------------
// Sizes
// ---------------------------------------------------------------------------

/// Digits in parentheses are the size that they stand for, and behind a comma
/// the scale; without parentheses there is neither.
pub proof fn lemma_sizes(first: Seq<char>, second: Seq<char>, size: u32, scale: u32)
    requires
        number::all_digits(first),
        number::all_digits(second),
        reading::read_nat(first) == Some(size as nat),
        reading::read_nat(second) == Some(scale as nat),
    ensures
        native_type::single_len(first) == Some(size),
        native_type::precision_scale(first) == (Some(size), None::<u32>),
        native_type::precision_scale(first + seq![','] + second) == (Some(size), Some(scale)),
        native_type::single_len(first + seq![','] + second) == Some(size),
        native_type::single_len(Seq::<char>::empty()) is None,
        native_type::precision_scale(Seq::<char>::empty()) == (None::<u32>, None::<u32>),
{
    let none = Seq::<char>::empty();
    lemma_digits(first);
    lemma_digits(second);
    text::lemma_split_bare(first, ',');
    text::lemma_split_bare(second, ',');
    text::lemma_split_at(first, second, ',');
    assert(text::split_on(none, ',') =~= seq![none]);
    assert(text::trimmed_start(none) == none);
    assert(text::trimmed(none) == none);
}

proof fn lemma_digits(s: Seq<char>)
    requires
        number::all_digits(s),
        reading::read_nat(s) matches Some(n) && n <= u32::MAX,
    ensures
        !s.contains(','),
        text::trimmed(s) == s,
        number::u32_value(s) == Some(reading::read_nat(s)->0 as u32),
{
    reading::lemma_value_of_digits(s);
    assert(number::is_digit(s[0]) && number::is_digit(s[s.len() - 1]));
    assert(text::trimmed_start(s) == s);
    assert(text::trimmed_end(s) == s);
    if s.contains(',') {
        let i = choose|i: int| 0 <= i < s.len() && s[i] == ',';
        assert(number::is_digit(s[i]));
    }
}

// ---------------------------------------------------------------------------
// Type strings
// ---------------------------------------------------------------------------

/// Whether a text has no whitespace at either end.
pub open spec fn is_trim(s: Seq<char>) -> bool {
    s.len() > 0 && !text::is_space(s[0]) && !text::is_space(s.last())
}

/// The category of a type by its name and what stands in its parentheses: an
/// enumeration of the schema, a built-in type, or else a type that keeps its
/// type string.
pub open spec fn category_of(
    native: Seq<char>,
    name: Seq<char>,
    args: Seq<char>,
    enums: Map<Seq<char>, Seq<Seq<char>>>,
) -> Category {
    if enums.contains_key(name) {
        Category::Enum { values: enums[name] }
    } else {
        match types::named_category(name, args) {
            Some(c) => c,
            None => Category::Unsupported { native_type: native },
        }
    }
}

/// A type string without parentheses is the name of its type; with them, it is
/// what stands around them; and brackets behind it make an array of it.
pub proof fn lemma_type_string(
    head: Seq<char>,
    args: Seq<char>,
    tail: Seq<char>,
    enums: Map<Seq<char>, Seq<Seq<char>>>,
)
    requires
        is_trim(head),
        !head.contains('('),
        head.last() != ']',
        !args.contains(')'),
        tail.len() > 0 ==> !text::is_space(tail.last()) && tail.last() != ']',
    ensures
        types::pg_category(head, enums) == category_of(
            head,
            head,
            Seq::<char>::empty(),
            enums,
        ),
        types::pg_category(head + seq!['('] + args + seq![')'] + tail, enums) == category_of(
            head + seq!['('] + args + seq![')'] + tail,
            head + tail,
            args,
            enums,
        ),
{
    reveal_strlit("[]");
    let none = Seq::<char>::empty();
    assert(text::trimmed_start(head) == head);
    assert(text::trimmed_end(head) == head);
    if text::ends_with(head, "[]"@) {
        assert(head.skip(head.len() - 2)[1] == head.last());
        assert("[]"@[1] == ']');
    }
    assert forall|k: int| 0 <= k < head.len() implies head[k] != '(' by {
        assert(head.contains(head[k]));
    }
    text::lemma_first_index_is(head, '(', head.len() as int);
    assert(types::name_and_args(head) == (head, none));
    let s = head + seq!['('] + args + seq![')'] + tail;
    let open = head.len() as int;
    assert(s[0] == head[0]);
    assert(s.last() == if tail.len() > 0 {
        tail.last()
    } else {
        ')'
    });
    assert(text::trimmed_start(s) == s);
    assert(text::trimmed_end(s) == s);
    if text::ends_with(s, "[]"@) {
        assert(s.skip(s.len() - 2)[1] == s.last());
        assert("[]"@[1] == ']');
    }
    assert forall|k: int| 0 <= k < open implies s[k] != '(' by {
        assert(s[k] == head[k]);
    }
    text::lemma_first_index_is(s, '(', open);
    let rest = s.skip(open);
    let close = args.len() + 1;
    assert forall|k: int| 0 <= k < close implies rest[k] != ')' by {
        if k > 0 {
            assert(rest[k] == args[k - 1]);
            assert(args.contains(args[k - 1]));
        }
    }
    text::lemma_first_index_is(rest, ')', close as int);
    assert(s.take(open) =~= head);
    assert(s.skip(open + close + 1) =~= tail);
    assert(s.subrange(open + 1, open + close) =~= args);
    assert(types::name_and_args(s) == (head + tail, args));
}

/// Brackets behind a type string make an array of the type.
pub proof fn lemma_array_type_string(native: Seq<char>, enums: Map<Seq<char>, Seq<Seq<char>>>)
    requires
        native.len() > 0,
        !text::is_space(native[0]),
    ensures
        types::pg_category(native + seq!['[', ']'], enums) == (Category::Array {
            element: Box::new(types::pg_category(native, enums)),
        }),
{
    reveal_strlit("[]");
    let s = native + seq!['[', ']'];
    assert(s[0] == native[0] && s.last() == ']');
    assert(text::trimmed_start(s) == s);
    assert(text::trimmed_end(s) == s);
    assert(s.skip(s.len() - 2) =~= "[]"@);
    assert(s.take(s.len() - 2) =~= native);
}

// ---------------------------------------------------------------------------
// Values
// ---------------------------------------------------------------------------

/// Whether a column of a category holds a value, null aside.
pub open spec fn column_holds(c: Category, v: ValueModel) -> bool {
    match c {
        Category::Boolean => v is Boolean,
        Category::SmallInt => v is SmallInt,
        Category::Integer => v is Integer,
        Category::BigInt => v is BigInt,
        Category::Decimal { .. } => v is Decimal,
        Category::Real => v is Real,
        Category::Double => v is Double,
        Category::Char { .. } => v is Text,
        Category::VarChar { .. } => v is Text,
        Category::Text => v is Text,
        Category::Binary { .. } => v is Binary,
        Category::VarBinary { .. } => v is Binary,
        Category::Blob => v is Binary,
        Category::Date => v is Date,
        Category::Time { .. } => v is Time,
        Category::Timestamp { with_timezone, .. } => if with_timezone {
            v is Timestamp
        } else {
            v is TimestampNaive
        },
        Category::Uuid => v is Uuid,
        Category::Json { .. } => v is Json,
        _ => false,
    }
}

/// Which kind of value the driver's type holds, null aside.
pub open spec fn type_holds(wire: Seq<char>, v: ValueModel) -> bool {
    ||| wire == "BOOL"@ && v is Boolean
    ||| wire == "INT2"@ && v is SmallInt
    ||| wire == "INT4"@ && v is Integer
    ||| wire == "INT8"@ && v is BigInt
    ||| wire == "NUMERIC"@ && v is Decimal
    ||| wire == "FLOAT4"@ && v is Real
    ||| wire == "FLOAT8"@ && v is Double
    ||| (wire == "TEXT"@ || wire == "VARCHAR"@ || wire == "BPCHAR"@ || wire == "CHAR"@ || wire
        == "NAME"@ || wire == "CITEXT"@) && v is Text
    ||| wire == "BYTEA"@ && v is Binary
    ||| wire == "DATE"@ && v is Date
    ||| wire == "TIME"@ && v is Time
    ||| wire == "TIMESTAMP"@ && v is TimestampNaive
    ||| wire == "TIMESTAMPTZ"@ && v is Timestamp
    ||| wire == "UUID"@ && v is Uuid
    ||| (wire == "JSON"@ || wire == "JSONB"@) && v is Json
}

proof fn lemma_wire_names()
    ensures
        "BOOL"@.len() == 4,
        "BOOL"@[0] == 'B',
        "INT2"@.len() == 4,
        "INT2"@[0] == 'I',
        "INT2"@[3] == '2',
        "INT4"@.len() == 4,
        "INT4"@[0] == 'I',
        "INT4"@[3] == '4',
        "INT8"@.len() == 4,
        "INT8"@[0] == 'I',
        "INT8"@[3] == '8',
        "NUMERIC"@.len() == 7,
        "NUMERIC"@[0] == 'N',
        "FLOAT4"@.len() == 6,
        "FLOAT4"@[0] == 'F',
        "FLOAT4"@[5] == '4',
        "FLOAT8"@.len() == 6,
        "FLOAT8"@[0] == 'F',
        "FLOAT8"@[5] == '8',
        "TEXT"@.len() == 4,
        "TEXT"@[0] == 'T',
        "TEXT"@[1] == 'E',
        "VARCHAR"@.len() == 7,
        "VARCHAR"@[0] == 'V',
        "BPCHAR"@.len() == 6,
        "BPCHAR"@[0] == 'B',
        "CHAR"@.len() == 4,
        "CHAR"@[0] == 'C',
        "NAME"@.len() == 4,
        "NAME"@[0] == 'N',
        "CITEXT"@.len() == 6,
        "CITEXT"@[0] == 'C',
        "BYTEA"@.len() == 5,
        "BYTEA"@[0] == 'B',
        "DATE"@.len() == 4,
        "DATE"@[0] == 'D',
        "TIME"@.len() == 4,
        "TIME"@[0] == 'T',
        "TIME"@[1] == 'I',
        "TIMESTAMP"@.len() == 9,
        "TIMESTAMPTZ"@.len() == 11,
        "UUID"@.len() == 4,
        "UUID"@[0] == 'U',
        "JSON"@.len() == 4,
        "JSON"@[0] == 'J',
        "JSONB"@.len() == 5,
        "JSONB"@[0] == 'J',
{
    reveal_strlit("BOOL");
    reveal_strlit("INT2");
    reveal_strlit("INT4");
    reveal_strlit("INT8");
    reveal_strlit("NUMERIC");
    reveal_strlit("FLOAT4");
    reveal_strlit("FLOAT8");
    reveal_strlit("TEXT");
    reveal_strlit("VARCHAR");
    reveal_strlit("BPCHAR");
    reveal_strlit("CHAR");
    reveal_strlit("NAME");
    reveal_strlit("CITEXT");
    reveal_strlit("BYTEA");
    reveal_strlit("DATE");
    reveal_strlit("TIME");
    reveal_strlit("TIMESTAMP");
    reveal_strlit("TIMESTAMPTZ");
    reveal_strlit("UUID");
    reveal_strlit("JSON");
    reveal_strlit("JSONB");
}

/// The decoder of a type gives exactly the kind of value that the type holds,
/// and that of an array exactly arrays of such values and of nulls. Byte
/// strings in arrays are the one kind that has no decoder.
#[verifier::spinoff_prover]
pub proof fn lemma_decoder_gives_kind(wire: Seq<char>, v: ValueModel)
    requires
        !(v is Null),
    ensures
        !(v is Array) ==> (round_trip::is_of(query::scalar_named(wire), v) <==> type_holds(wire, v)),
        wire != "BYTEA"@ ==> (round_trip::fits_element(query::kind_named(wire), v) <==> type_holds(
            wire,
            v,
        )),
        wire == "BYTEA"@ ==> query::kind_named(wire) == query::ArrayKind::Unsupported,
{
    lemma_wire_names();
}

/// Whether a value is an array of what a column of a category holds, and of
/// nulls.
pub open spec fn is_array_of(element: Category, v: ValueModel) -> bool {
    v matches ValueModel::Array(items) && forall|i: int|
        0 <= i < items.len() ==> (#[trigger] items[i] is Null || column_holds(element, items[i]))
}

/// A column that is read as it is gives exactly the kind of value that its
/// category holds, and an array of such values where it is an array.
#[verifier::spinoff_prover]
#[verifier::rlimit(40)]
pub proof fn lemma_native_column_gives_kind(c: Category, v: ValueModel)
    requires
        stream::native(c),
        !(v is Null),
    ensures
        !(c is Array) ==> (round_trip::fits(
            query::decoder_named(stream::wire_name(c)->0),
            v,
        ) <==> column_holds(c, v)),
        c is Array && !(*c->element is Array) ==> (round_trip::fits(
            query::decoder_named(stream::wire_name(c)->0),
            v,
        ) <==> is_array_of(*c->element, v)),
{
    lemma_wire_names();
    stream::lemma_native_columns_are_decoded(c);
    reveal_strlit("[]");
    match c {
        Category::Array { element } => {
            if !(*element is Array) {
                stream::lemma_native_columns_are_decoded(*element);
                let name = stream::wire_name(*element)->0;
                let whole = name + "[]"@;
                assert(whole.skip(whole.len() - 2) =~= "[]"@);
                assert(whole.take(whole.len() - 2) =~= name);
                assert forall|x: ValueModel| !(x is Null) implies (round_trip::fits_element(
                    query::kind_named(name),
                    x,
                ) <==> column_holds(*element, x)) by {
                    lemma_element_kind(*element, x);
                }
            }
        },
        _ => lemma_scalar_kind(c, v),
    }
}

proof fn lemma_scalar_kind(c: Category, v: ValueModel)
    requires
        stream::native(c),
        !(c is Array),
        !(v is Null),
    ensures
        round_trip::fits(query::decoder_named(stream::wire_name(c)->0), v) <==> column_holds(c, v),
{
    lemma_wire_names();
    let name = stream::wire_name(c)->0;
    stream::lemma_native_columns_are_decoded(c);
    stream::lemma_scalar_decoders(c);
    lemma_decoder_gives_kind(name, v);
}

proof fn lemma_element_kind(c: Category, v: ValueModel)
    requires
        stream::native(c),
        !(c is Array || c is Blob || c is Binary || c is VarBinary),
        !(v is Null),
    ensures
        round_trip::fits_element(query::kind_named(stream::wire_name(c)->0), v) <==> column_holds(
            c,
            v,
        ),
{
    lemma_wire_names();
    stream::lemma_scalar_decoders(c);
    lemma_decoder_gives_kind(stream::wire_name(c)->0, v);
}

/// A column that is not read as it is has no decoder for the type that it
/// would arrive as.
pub proof fn lemma_other_columns_have_no_decoder(c: Category)
    requires
        !stream::native(c),
        stream::wire_name(c) is Some,
    ensures
        !stream::reads(query::decoder_named(stream::wire_name(c)->0)),
    decreases c,
{
    lemma_wire_names();
    reveal_strlit("[]");
    reveal_strlit("TIMETZ");
    reveal_strlit("INTERVAL");
    assert("TIMETZ"@.len() == 6 && "TIMETZ"@[0] == 'T' && "INTERVAL"@.len() == 8);
    match c {
        Category::Array { element } => {
            if *element is Array {
                lemma_other_columns_have_no_decoder(*element);
            } else {
                let name = stream::wire_name(*element)->0;
                let whole = name + "[]"@;
                assert(whole.skip(whole.len() - 2) =~= "[]"@);
                assert(whole.take(whole.len() - 2) =~= name);
                reveal_with_fuel(stream::native, 2);
                reveal_with_fuel(stream::wire_name, 2);
                assert(stream::wire_name(c) == Some(whole));
                assert(name == "TIMETZ"@ || name == "INTERVAL"@ || name == "BYTEA"@);
                assert(query::kind_named(name) == query::ArrayKind::Unsupported);
            }
        },
        _ => {
            let name = stream::wire_name(c)->0;
            if text::ends_with(name, "[]"@) {
                assert(name.skip(name.len() - 2)[1] == name.last());
                assert("[]"@[1] == ']');
            }
        },
    }
}

/// A text is a size exactly where it is decimal digits, with a plus sign in
/// front of them or none, for a number that fits; and it is that number.
pub proof fn lemma_size_text(s: Seq<char>)
    ensures
        ({
            let digits = if s.len() > 0 && s[0] == '+' {
                s.skip(1)
            } else {
                s
            };
            match reading::read_nat(digits) {
                Some(n) => number::u32_value(s) == (if n <= u32::MAX {
                    Some(n as u32)
                } else {
                    None
                }),
                None => number::u32_value(s) is None,
            }
        }),
{
    let digits = if s.len() > 0 && s[0] == '+' {
        s.skip(1)
    } else {
        s
    };
    if s.len() > 0 && s[0] == '+' {
        assert(s.drop_first() =~= s.skip(1));
    }
    if number::all_digits(digits) {
        reading::lemma_value_of_digits(digits);
    }
    if reading::value_of(digits, 10) is Some {
        lemma_only_digits(digits);
    }
}

proof fn lemma_only_digits(s: Seq<char>)
    requires
        reading::value_of(s, 10) is Some,
    ensures
        number::all_digits(s),
    decreases s.len(),
{
    if s.len() > 0 {
        lemma_only_digits(s.drop_last());
        assert(reading::digit_of(s.last()) is Some);
        assert forall|i: int| 0 <= i < s.len() implies number::is_digit(#[trigger] s[i]) by {
            if i < s.len() - 1 {
                assert(s[i] == s.drop_last()[i]);
            }
        }
    }
}

} // verus!
