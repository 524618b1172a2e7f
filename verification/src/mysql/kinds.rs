//! What MySQL's types hold: by which name the driver knows the type of a
//! column, and which kind of value such a column reads as.
use vstd::prelude::*;

use crate::mysql::ddl;
use crate::mysql::laws;
use crate::mysql::query;
use crate::mysql::query::{Cell, ColumnDecoder};
use crate::mysql::types;
use crate::native_type;
use crate::number;
use crate::scalar;
use crate::text;
use crate::types::Category;
use crate::value::ValueModel;

verus! {

// ---------------------------------------------------------------------------
// Types on the wire
// ---------------------------------------------------------------------------

/// Whether a value is of the kind that a column with this type on the wire
/// reads as. Whole numbers take the smallest kind that holds every number of
/// the column, and the largest unsigned ones are decimals.
pub open spec fn reads_as_kind(wire: Seq<char>, v: ValueModel) -> bool {
    ||| (wire == "BOOLEAN"@ || wire == "TINYINT"@ || wire == "TINYINT UNSIGNED"@ || wire
        == "SMALLINT"@) && v is SmallInt
    ||| (wire == "SMALLINT UNSIGNED"@ || wire == "MEDIUMINT"@ || wire == "INT"@ || wire
        == "YEAR"@) && v is Integer
    ||| (wire == "MEDIUMINT UNSIGNED"@ || wire == "INT UNSIGNED"@ || wire == "BIGINT"@)
        && v is BigInt
    ||| (wire == "BIGINT UNSIGNED"@ || wire == "DECIMAL"@) && v is Decimal
    ||| wire == "FLOAT"@ && v is Real
    ||| wire == "DOUBLE"@ && v is Double
    ||| (wire == "CHAR"@ || wire == "VARCHAR"@ || wire == "TEXT"@ || wire == "ENUM"@ || wire
        == "VAR_STRING"@ || wire == "STRING"@) && v is Text
    ||| (wire == "BINARY"@ || wire == "VARBINARY"@ || wire == "BLOB"@ || wire == "BIT"@)
        && v is Binary
    ||| wire == "DATE"@ && v is Date
    ||| wire == "TIME"@ && v is Time
    ||| (wire == "DATETIME"@ || wire == "TIMESTAMP"@) && v is TimestampNaive
    ||| wire == "JSON"@ && v is Json
    ||| wire == "UUID"@ && v is Uuid
}

/// Whether a type on the wire has a kind of value.
pub open spec fn is_known(wire: Seq<char>) -> bool {
    exists|v: ValueModel| reads_as_kind(wire, v)
}

/// The least and the greatest number of a column of whole numbers.
pub open spec fn range_of(wire: Seq<char>) -> Option<(int, int)> {
    if wire == "BOOLEAN"@ || wire == "TINYINT"@ {
        Some((-0x80, 0x7f))
    } else if wire == "TINYINT UNSIGNED"@ {
        Some((0, 0xff))
    } else if wire == "SMALLINT"@ {
        Some((-0x8000, 0x7fff))
    } else if wire == "SMALLINT UNSIGNED"@ {
        Some((0, 0xffff))
    } else if wire == "MEDIUMINT"@ {
        Some((-0x80_0000, 0x7f_ffff))
    } else if wire == "MEDIUMINT UNSIGNED"@ {
        Some((0, 0xff_ffff))
    } else if wire == "INT"@ {
        Some((-0x8000_0000, 0x7fff_ffff))
    } else if wire == "INT UNSIGNED"@ {
        Some((0, 0xffff_ffff))
    } else if wire == "BIGINT"@ {
        Some((-0x8000_0000_0000_0000, 0x7fff_ffff_ffff_ffff))
    } else if wire == "BIGINT UNSIGNED"@ {
        Some((0, 0xffff_ffff_ffff_ffff))
    } else if wire == "YEAR"@ {
        Some((0, 2155))
    } else {
        None
    }
}

/// Whether a cell is one that the driver reads with this decoder.
pub open spec fn is_cell_of(decoder: ColumnDecoder, cell: Cell) -> bool {
    cell is Null || match decoder {
        ColumnDecoder::I8 => cell is I8,
        ColumnDecoder::I16 => cell is I16,
        ColumnDecoder::I32 => cell is I32,
        ColumnDecoder::I64 => cell is I64,
        ColumnDecoder::U8 => cell is U8,
        ColumnDecoder::U16 => cell is U16,
        ColumnDecoder::U32 => cell is U32,
        ColumnDecoder::U64 => cell is U64,
        ColumnDecoder::Dec => cell is Dec,
        ColumnDecoder::F32 => cell is F32,
        ColumnDecoder::F64 => cell is F64,
        ColumnDecoder::Str => cell is Str,
        ColumnDecoder::Bytes => cell is Bytes,
        ColumnDecoder::Date => cell is Date,
        ColumnDecoder::Time => cell is Time,
        ColumnDecoder::DateTime => cell is DateTime,
        ColumnDecoder::Json => cell is Json,
        ColumnDecoder::Uuid => cell is Uuid,
        ColumnDecoder::Fallback => cell is Str || cell is Bytes,
    }
}

/// Whether a cell of this decoder can hold a whole number.
pub open spec fn can_hold(decoder: ColumnDecoder, n: int) -> bool {
    match decoder {
        ColumnDecoder::I8 => i8::MIN <= n <= i8::MAX,
        ColumnDecoder::I16 => i16::MIN <= n <= i16::MAX,
        ColumnDecoder::I32 => i32::MIN <= n <= i32::MAX,
        ColumnDecoder::I64 => i64::MIN <= n <= i64::MAX,
        ColumnDecoder::U8 => 0 <= n <= u8::MAX,
        ColumnDecoder::U16 => 0 <= n <= u16::MAX,
        ColumnDecoder::U32 => 0 <= n <= u32::MAX,
        ColumnDecoder::U64 => 0 <= n <= u64::MAX,
        _ => false,
    }
}

/// Length and characters of the names, enough to tell them apart.
proof fn lemma_wire_names()
    ensures
        "BOOLEAN"@.len() == 7,
        "TINYINT"@.len() == 7,
        "BOOLEAN"@[0] == 'B',
        "TINYINT"@[0] == 'T',
        "SMALLINT"@.len() == 8,
        "SMALLINT"@[0] == 'S',
        "MEDIUMINT"@.len() == 9,
        "MEDIUMINT"@[0] == 'M',
        "INT"@.len() == 3,
        "INT"@[0] == 'I',
        "BIGINT"@.len() == 6,
        "BIGINT"@[0] == 'B',
        "BIGINT"@[2] == 'G',
        "TINYINT UNSIGNED"@.len() == 16,
        "SMALLINT UNSIGNED"@.len() == 17,
        "MEDIUMINT UNSIGNED"@.len() == 18,
        "INT UNSIGNED"@.len() == 12,
        "BIGINT UNSIGNED"@.len() == 15,
        "YEAR"@.len() == 4,
        "YEAR"@[0] == 'Y',
        "DECIMAL"@.len() == 7,
        "DECIMAL"@[0] == 'D',
        "FLOAT"@.len() == 5,
        "DOUBLE"@.len() == 6,
        "DOUBLE"@[0] == 'D',
        "VARCHAR"@.len() == 7,
        "VARCHAR"@[0] == 'V',
        "CHAR"@.len() == 4,
        "CHAR"@[0] == 'C',
        "TEXT"@.len() == 4,
        "TEXT"@[0] == 'T',
        "TEXT"@[1] == 'E',
        "VAR_STRING"@.len() == 10,
        "STRING"@.len() == 6,
        "STRING"@[0] == 'S',
        "ENUM"@.len() == 4,
        "ENUM"@[0] == 'E',
        "BLOB"@.len() == 4,
        "BLOB"@[0] == 'B',
        "VARBINARY"@.len() == 9,
        "VARBINARY"@[0] == 'V',
        "BINARY"@.len() == 6,
        "BINARY"@[0] == 'B',
        "BINARY"@[2] == 'N',
        "BIT"@.len() == 3,
        "BIT"@[0] == 'B',
        "DATE"@.len() == 4,
        "DATE"@[0] == 'D',
        "TIME"@.len() == 4,
        "TIME"@[0] == 'T',
        "TIME"@[1] == 'I',
        "DATETIME"@.len() == 8,
        "DATETIME"@[0] == 'D',
        "TIMESTAMP"@.len() == 9,
        "TIMESTAMP"@[0] == 'T',
        "JSON"@.len() == 4,
        "JSON"@[0] == 'J',
        "UUID"@.len() == 4,
        "UUID"@[0] == 'U',
{
    reveal_strlit("BOOLEAN");
    reveal_strlit("TINYINT");
    reveal_strlit("SMALLINT");
    reveal_strlit("MEDIUMINT");
    reveal_strlit("INT");
    reveal_strlit("BIGINT");
    reveal_strlit("TINYINT UNSIGNED");
    reveal_strlit("SMALLINT UNSIGNED");
    reveal_strlit("MEDIUMINT UNSIGNED");
    reveal_strlit("INT UNSIGNED");
    reveal_strlit("BIGINT UNSIGNED");
    reveal_strlit("YEAR");
    reveal_strlit("DECIMAL");
    reveal_strlit("FLOAT");
    reveal_strlit("DOUBLE");
    reveal_strlit("VARCHAR");
    reveal_strlit("CHAR");
    reveal_strlit("TEXT");
    reveal_strlit("VAR_STRING");
    reveal_strlit("STRING");
    reveal_strlit("ENUM");
    reveal_strlit("BLOB");
    reveal_strlit("VARBINARY");
    reveal_strlit("BINARY");
    reveal_strlit("BIT");
    reveal_strlit("DATE");
    reveal_strlit("TIME");
    reveal_strlit("DATETIME");
    reveal_strlit("TIMESTAMP");
    reveal_strlit("JSON");
    reveal_strlit("UUID");
}

/// The decoder of a type on the wire reads its cells as the kind of value that
/// such a column holds, whole numbers over the column's whole range and without
/// a sign exactly where the column has none. A type without a kind has no
/// decoder of its own.
#[verifier::spinoff_prover]
pub proof fn lemma_decoder_reads_kind(wire: Seq<char>)
    ensures
        query::decoder_named(wire) != ColumnDecoder::Fallback ==> forall|cell: Cell| #[trigger]
            is_cell_of(query::decoder_named(wire), cell) && !(cell is Null) ==> reads_as_kind(
                wire,
                query::cell_model(cell),
            ),
        query::decoder_named(wire) == ColumnDecoder::Fallback <==> !is_known(wire),
        range_of(wire) matches Some((least, greatest)) ==> forall|n: int|
            least <= n <= greatest ==> #[trigger] can_hold(query::decoder_named(wire), n),
        range_of(wire) matches Some((least, greatest)) ==> (least == 0 <==> !can_hold(
            query::decoder_named(wire),
            -1,
        )),
{
    lemma_wire_names();
    let d = query::decoder_named(wire);
    if d == ColumnDecoder::Fallback {
        assert forall|v: ValueModel| !reads_as_kind(wire, v) by {}
    } else {
        lemma_some_value(wire);
    }
}

/// A type that has a decoder has a kind.
#[verifier::spinoff_prover]
proof fn lemma_some_value(wire: Seq<char>)
    requires
        query::decoder_named(wire) != ColumnDecoder::Fallback,
    ensures
        is_known(wire),
{
    lemma_wire_names();
    let decimal = scalar::DecimalModel { negative: false, coefficient: 0, scale: 0 };
    let float = scalar::FloatModel { bits: 0, text: Seq::<char>::empty() };
    let date = scalar::DateModel { year: 0, month: 1, day: 1 };
    let time = scalar::TimeModel { hour: 0, minute: 0, second: 0, nano: 0 };
    let v = match query::decoder_named(wire) {
        ColumnDecoder::I8 | ColumnDecoder::I16 | ColumnDecoder::U8 => ValueModel::SmallInt(0),
        ColumnDecoder::I32 | ColumnDecoder::U16 => ValueModel::Integer(0),
        ColumnDecoder::I64 | ColumnDecoder::U32 => ValueModel::BigInt(0),
        ColumnDecoder::U64 | ColumnDecoder::Dec => ValueModel::Decimal(decimal),
        ColumnDecoder::F32 => ValueModel::Real(float),
        ColumnDecoder::F64 => ValueModel::Double(float),
        ColumnDecoder::Str => ValueModel::Text(Seq::<char>::empty()),
        ColumnDecoder::Bytes => ValueModel::Binary(Seq::<u8>::empty()),
        ColumnDecoder::Date => ValueModel::Date(date),
        ColumnDecoder::Time => ValueModel::Time(time),
        ColumnDecoder::DateTime => ValueModel::TimestampNaive(
            scalar::DateTimeModel { date, time },
        ),
        ColumnDecoder::Json => ValueModel::Json(Seq::<char>::empty()),
        ColumnDecoder::Uuid => ValueModel::Uuid(Seq::<u8>::empty()),
        ColumnDecoder::Fallback => ValueModel::Null,
    };
    assert(reads_as_kind(wire, v));
}

/// A type on the wire has one kind of value.
#[verifier::spinoff_prover]
pub proof fn lemma_one_kind(wire: Seq<char>, a: ValueModel, b: ValueModel)
    requires
        reads_as_kind(wire, a),
        reads_as_kind(wire, b),
    ensures
        crate::value::same_variant(a, b),
{
    lemma_wire_names();
}

/// A cell says what is in it, and nothing else: its text, its bytes, its day or
/// its time, its document, its number.
pub open spec fn says_its_content(cell: Cell, v: ValueModel) -> bool {
    match cell {
        Cell::Null => v is Null,
        Cell::Dec(d) => v matches ValueModel::Decimal(e) && d@ == e,
        Cell::F32(f) => v matches ValueModel::Real(g) && f@ == g,
        Cell::F64(f) => v matches ValueModel::Double(g) && f@ == g,
        Cell::Str(s) => v matches ValueModel::Text(t) && s@ == t,
        Cell::Bytes(b) => v matches ValueModel::Binary(c) && b@ == c,
        Cell::Date(d) => v matches ValueModel::Date(e) && d@ == e,
        Cell::Time(t) => v matches ValueModel::Time(u) && t@ == u,
        Cell::DateTime(t) => v matches ValueModel::TimestampNaive(u) && t@ == u,
        Cell::Json(j) => v matches ValueModel::Json(k) && j@ == k,
        Cell::Uuid(u) => v matches ValueModel::Uuid(w) && u@ == w,
        _ => query::number_in_value(v) == query::number_in_cell(cell),
    }
}

/// A value says what the cell holds.
pub proof fn lemma_cell_says_its_content(cell: Cell)
    ensures
        says_its_content(cell, query::cell_model(cell)),
{
    query::lemma_numbers_are_kept(cell);
}

// ---------------------------------------------------------------------------
// Declared types
// ---------------------------------------------------------------------------

/// As which type on the wire a signed column arrives, by the word that it is
/// declared with and what stands in its parentheses.
pub open spec fn arrives_as(word: Seq<char>, args: Seq<char>) -> Option<Seq<char>> {
    if word == "tinyint"@ {
        if text::trimmed(args) == "1"@ {
            Some("BOOLEAN"@)
        } else {
            Some("TINYINT"@)
        }
    } else if word == "smallint"@ {
        Some("SMALLINT"@)
    } else if word == "mediumint"@ {
        Some("MEDIUMINT"@)
    } else if word == "int"@ || word == "integer"@ {
        Some("INT"@)
    } else if word == "bigint"@ {
        Some("BIGINT"@)
    } else if word == "decimal"@ || word == "numeric"@ {
        Some("DECIMAL"@)
    } else if word == "float"@ {
        Some("FLOAT"@)
    } else if word == "double"@ || word == "double precision"@ {
        Some("DOUBLE"@)
    } else if word == "char"@ {
        Some("CHAR"@)
    } else if word == "varchar"@ {
        Some("VARCHAR"@)
    } else if word == "text"@ {
        Some("TEXT"@)
    } else if word == "binary"@ {
        Some("BINARY"@)
    } else if word == "varbinary"@ {
        Some("VARBINARY"@)
    } else if word == "blob"@ {
        Some("BLOB"@)
    } else if word == "date"@ {
        Some("DATE"@)
    } else if word == "time"@ {
        Some("TIME"@)
    } else if word == "datetime"@ {
        Some("DATETIME"@)
    } else if word == "timestamp"@ {
        Some("TIMESTAMP"@)
    } else if word == "year"@ {
        Some("YEAR"@)
    } else if word == "json"@ {
        Some("JSON"@)
    } else if word == "bit"@ {
        Some("BIT"@)
    } else {
        None
    }
}

/// Whether a column of a category reads as a value of this kind. A truth value
/// reads as a small number.
pub open spec fn column_reads(c: Category, v: ValueModel) -> bool {
    match c {
        Category::Boolean => v is SmallInt,
        Category::SmallInt => v is SmallInt,
        Category::Integer => v is Integer,
        Category::BigInt => v is BigInt,
        Category::Decimal { .. } => v is Decimal,
        Category::Real => v is Real,
        Category::Double => v is Double,
        Category::Char { .. } => v is Text,
        Category::VarChar { .. } => v is Text,
        Category::Text => v is Text,
        Category::Enum { .. } => v is Text,
        Category::Binary { .. } => v is Binary,
        Category::VarBinary { .. } => v is Binary,
        Category::Blob => v is Binary,
        Category::Bit { .. } => v is Binary,
        Category::Date => v is Date,
        Category::Time { .. } => v is Time,
        Category::Timestamp { .. } => v is TimestampNaive,
        Category::Json { .. } => v is Json,
        _ => false,
    }
}

/// The type on the wire that is a category's own.
pub open spec fn wire_of(c: Category) -> Option<Seq<char>> {
    match c {
        Category::Boolean => Some("BOOLEAN"@),
        Category::SmallInt => Some("SMALLINT"@),
        Category::Integer => Some("INT"@),
        Category::BigInt => Some("BIGINT"@),
        Category::Decimal { .. } => Some("DECIMAL"@),
        Category::Real => Some("FLOAT"@),
        Category::Double => Some("DOUBLE"@),
        Category::Char { .. } => Some("CHAR"@),
        Category::VarChar { .. } => Some("VARCHAR"@),
        Category::Text => Some("TEXT"@),
        Category::Binary { .. } => Some("BINARY"@),
        Category::VarBinary { .. } => Some("VARBINARY"@),
        Category::Blob => Some("BLOB"@),
        Category::Date => Some("DATE"@),
        Category::Time { .. } => Some("TIME"@),
        Category::Timestamp { .. } => Some("DATETIME"@),
        Category::Json { .. } => Some("JSON"@),
        Category::Bit { .. } => Some("BIT"@),
        _ => None,
    }
}

/// Whether a type on the wire is another that reads as the same kind: the
/// narrow integers, the years, and the points in time that update themselves.
pub open spec fn is_variant(wire: Seq<char>) -> bool {
    wire == "TINYINT"@ || wire == "MEDIUMINT"@ || wire == "YEAR"@ || wire == "TIMESTAMP"@
}

/// The length of a category, or its precision.
pub open spec fn size_of(c: Category) -> Option<u32> {
    match c {
        Category::Decimal { precision, .. } => precision,
        Category::Char { length } => length,
        Category::VarChar { length } => length,
        Category::Binary { length } => length,
        Category::VarBinary { length } => length,
        Category::Bit { length } => length,
        Category::Time { precision, .. } => precision,
        Category::Timestamp { precision, .. } => precision,
        _ => None,
    }
}

/// Whether a category has a size.
pub open spec fn is_sized(c: Category) -> bool {
    c is Decimal || c is Char || c is VarChar || c is Binary || c is VarBinary || c is Bit
        || c is Time || c is Timestamp
}

/// A declared type is reflected as the category whose own type it arrives as,
/// or as one that reads as the same kind of value; no point in time carries a
/// time zone, and documents are normalized. Other words for a type are
/// reflected as that type, and a shape keeps its name.
#[verifier::spinoff_prover]
#[verifier::rlimit(40)]
pub proof fn lemma_declared_type(word: Seq<char>, args: Seq<char>)
    ensures
        arrives_as(word, args) matches Some(wire) ==> types::named_category(word, args) matches Some(
            c,
        ) && {
            &&& is_known(wire)
            &&& forall|v: ValueModel| #[trigger] reads_as_kind(wire, v) <==> column_reads(c, v)
            &&& wire_of(c) == Some(wire) || is_variant(wire)
            &&& c matches Category::Time { with_timezone, .. } ==> !with_timezone
            &&& c matches Category::Timestamp { with_timezone, .. } ==> !with_timezone
            &&& c matches Category::Json { binary } ==> binary
            &&& is_sized(c) ==> size_of(c) == native_type::single_len(args)
            &&& c matches Category::Decimal { scale, .. } ==> scale
                == native_type::precision_scale(args).1
        },
        types::named_category("tinytext"@, args) == types::named_category("text"@, args),
        types::named_category("mediumtext"@, args) == types::named_category("text"@, args),
        types::named_category("longtext"@, args) == types::named_category("text"@, args),
        types::named_category("tinyblob"@, args) == types::named_category("blob"@, args),
        types::named_category("mediumblob"@, args) == types::named_category("blob"@, args),
        types::named_category("longblob"@, args) == types::named_category("blob"@, args),
        types::named_category(word, args) matches Some(Category::Geometry { subtype })
            ==> subtype == Some(word),
        types::named_category(word, args) is Some ==> {
            ||| arrives_as(word, args) is Some
            ||| types::named_category(word, args) == Some(Category::Text)
            ||| types::named_category(word, args) == Some(Category::Blob)
            ||| types::named_category(word, args)->0 is Geometry
        },
{
    lemma_wire_names();
    laws::lemma_type_names();
    reveal_strlit("tinyblob");
    reveal_strlit("tinytext");
    reveal_strlit("mediumblob");
    reveal_strlit("mediumtext");
    reveal_strlit("longblob");
    reveal_strlit("longtext");
    assert("tinyblob"@[4] == 'b' && "tinytext"@[4] == 't');
    assert("mediumblob"@[6] == 'b' && "mediumtext"@[6] == 't');
    assert("longblob"@[4] == 'b' && "longtext"@[4] == 't');
    if let Some(wire) = arrives_as(word, args) {
        lemma_some_value(wire);
    }
}

/// Whether values of a category can be kept in a column with this type on the
/// wire: as they are, or, where MySQL has no type for them, as text or as a
/// document.
pub open spec fn can_keep(wire: Seq<char>, c: Category) -> bool {
    match c {
        Category::Interval => wire == "VARCHAR"@,
        Category::Uuid => wire == "CHAR"@,
        Category::Xml => wire == "TEXT"@,
        Category::Array { .. } => wire == "JSON"@,
        _ => wire_of(c) == Some(wire),
    }
}

/// The type that is written for a category arrives as one that can keep its
/// values; its size is the category's, or else the one that is usual, which for
/// a UUID is the length of its text.
#[verifier::spinoff_prover]
#[verifier::rlimit(60)]
pub proof fn lemma_written_type_keeps_values(c: Category)
    requires
        !(c is Enum),
        !(c is Geometry),
        !(c is Unsupported),
    ensures
        ({
            let (word, args) = types::name_and_args(ddl::type_text(c));
            &&& arrives_as(word, args) matches Some(wire) && can_keep(wire, c)
            &&& size_of(c) matches Some(n) ==> {
                ||| args == number::digits(n as nat)
                ||| c matches Category::Decimal { scale: Some(d), .. } && args == number::digits(
                    n as nat,
                ) + seq![','] + number::digits(d as nat)
                ||| ((c is Time || c is Timestamp) && n == 0 && args.len() == 0)
            }
            &&& (c is Char || c is Binary || c is Bit) && size_of(c) is None ==> args
                == number::digits(1)
            &&& (c is VarChar || c is VarBinary) && size_of(c) is None ==> args == number::digits(
                255,
            )
            &&& (c is Decimal || c is Time || c is Timestamp) && size_of(c) is None
                ==> args.len() == 0
            &&& c is Uuid ==> args == number::digits(36)
        }),
{
    laws::lemma_words();
    lemma_wire_names();
    laws::lemma_type_names();
    lemma_bare_words();
    match c {
        Category::Boolean => {
            reveal_strlit("tinyint(1)");
            reveal_strlit("tinyint");
            reveal_strlit("1");
            assert(number::digits(1) =~= "1"@);
            assert("tinyint(1)"@ =~= ddl::sized("tinyint"@, 1));
            laws::lemma_digits_are_plain(1);
            lemma_sized_word("tinyint"@, 1);
        },
        Category::Decimal { precision, scale } => match (precision, scale) {
            (Some(p), Some(d)) => {
                reveal_strlit("decimal(");
                reveal_strlit("decimal");
                let args = number::digits(p as nat) + seq![','] + number::digits(d as nat);
                laws::lemma_digits_are_plain(p as nat);
                laws::lemma_digits_are_plain(d as nat);
                assert forall|i: int| 0 <= i < args.len() implies #[trigger] args[i] != ')' by {
                    let n = number::digits(p as nat).len();
                    if i < n {
                        assert(number::digits(p as nat)[i] != ')');
                    } else if i > n {
                        assert(number::digits(d as nat)[i - n - 1] != ')');
                    }
                }
                laws::lemma_name_and_args("decimal"@, args);
                assert(ddl::type_text(c) =~= "decimal"@ + seq!['('] + args + seq![')']);
            },
            (Some(p), None) => lemma_sized_word("decimal"@, p),
            _ => {},
        },
        Category::Char { length } => lemma_sized_word("char"@, ddl::length_or(length, 1)),
        Category::VarChar { length } => lemma_sized_word("varchar"@, ddl::length_or(length, 255)),
        Category::Binary { length } => lemma_sized_word("binary"@, ddl::length_or(length, 1)),
        Category::VarBinary { length } => lemma_sized_word(
            "varbinary"@,
            ddl::length_or(length, 255),
        ),
        Category::Bit { length } => lemma_sized_word("bit"@, ddl::length_or(length, 1)),
        Category::Time { precision, .. } => {
            if precision is Some {
                lemma_sized_word("time"@, precision->0);
            }
        },
        Category::Timestamp { precision, .. } => {
            if precision is Some {
                lemma_sized_word("datetime"@, precision->0);
            }
        },
        Category::Interval => {
            reveal_strlit("varchar(255)");
            reveal_strlit("varchar");
            reveal_with_fuel(number::digits, 3);
            assert(number::digits(255) =~= seq!['2', '5', '5']);
            assert("varchar(255)"@ =~= ddl::sized("varchar"@, 255));
            lemma_sized_word("varchar"@, 255);
        },
        Category::Uuid => {
            reveal_strlit("char(36)");
            reveal_strlit("char");
            reveal_with_fuel(number::digits, 2);
            assert(number::digits(36) =~= seq!['3', '6']);
            assert("char(36)"@ =~= ddl::sized("char"@, 36));
            lemma_sized_word("char"@, 36);
        },
        _ => {},
    }
}

proof fn lemma_sized_word(name: Seq<char>, n: u32)
    requires
        laws::is_word(name),
    ensures
        types::name_and_args(ddl::sized(name, n)) == (name, number::digits(n as nat)),
{
    laws::lemma_digits_are_plain(n as nat);
    laws::lemma_name_and_args(name, number::digits(n as nat));
}

proof fn lemma_bare_words()
    ensures
        types::name_and_args("smallint"@) == ("smallint"@, Seq::<char>::empty()),
        types::name_and_args("int"@) == ("int"@, Seq::<char>::empty()),
        types::name_and_args("bigint"@) == ("bigint"@, Seq::<char>::empty()),
        types::name_and_args("decimal"@) == ("decimal"@, Seq::<char>::empty()),
        types::name_and_args("float"@) == ("float"@, Seq::<char>::empty()),
        types::name_and_args("double"@) == ("double"@, Seq::<char>::empty()),
        types::name_and_args("text"@) == ("text"@, Seq::<char>::empty()),
        types::name_and_args("blob"@) == ("blob"@, Seq::<char>::empty()),
        types::name_and_args("date"@) == ("date"@, Seq::<char>::empty()),
        types::name_and_args("time"@) == ("time"@, Seq::<char>::empty()),
        types::name_and_args("datetime"@) == ("datetime"@, Seq::<char>::empty()),
        types::name_and_args("json"@) == ("json"@, Seq::<char>::empty()),
{
    laws::lemma_words();
    lemma_bare_word("smallint"@);
    lemma_bare_word("int"@);
    lemma_bare_word("bigint"@);
    lemma_bare_word("decimal"@);
    lemma_bare_word("float"@);
    lemma_bare_word("double"@);
    lemma_bare_word("text"@);
    lemma_bare_word("blob"@);
    lemma_bare_word("date"@);
    lemma_bare_word("time"@);
    lemma_bare_word("datetime"@);
    lemma_bare_word("json"@);
}

proof fn lemma_bare_word(name: Seq<char>)
    requires
        laws::is_word(name),
    ensures
        types::name_and_args(name) == (name, Seq::<char>::empty()),
{
    assert forall|k: int| 0 <= k < name.len() implies name[k] != '(' by {
        assert('a' <= name[k] <= 'z');
    }
    text::lemma_first_index_is(name, '(', name.len() as int);
}

// ---------------------------------------------------------------------------
// Parameters
// ---------------------------------------------------------------------------

/// Whether what is bound for a value stands for it: a moment as its wall-clock
/// time in UTC, a UUID as a text whose digits are its bytes, and anything else
/// as itself.
pub open spec fn stands_for(bound: ValueModel, v: ValueModel) -> bool {
    match v {
        ValueModel::Timestamp(t) => bound matches ValueModel::TimestampNaive(u) && t == u,
        ValueModel::Uuid(u) => bound matches ValueModel::Text(s)
            && crate::postgres::reading::is_uuid(s, u),
        _ => bound == v,
    }
}

/// What is bound for a value stands for it.
pub proof fn lemma_bound_value_stands_for_it(v: ValueModel)
    requires
        v matches ValueModel::Uuid(u) ==> u.len() == 16,
    ensures
        stands_for(query::bound_model(v), v),
{
    if let ValueModel::Uuid(u) = v {
        crate::postgres::reading::lemma_uuid_reads_back(u);
    }
}

/// A shape is written as the type that holds any shape, and a type that is only
/// known by its own name under that name.
pub proof fn lemma_other_written_types(c: Category)
    ensures
        c is Geometry ==> types::named_category(
            ddl::type_text(c),
            Seq::<char>::empty(),
        ) == Some(Category::Geometry { subtype: Some("geometry"@) }),
        c matches Category::Unsupported { native_type } ==> ddl::type_text(c) == native_type,
{
    laws::lemma_type_names();
}

} // verus!
