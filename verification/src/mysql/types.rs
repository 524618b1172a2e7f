//! MySQL's column type strings.
use vstd::prelude::*;

use crate::mysql::kinds;
use crate::native_type;
use crate::text;
use crate::types::{Category, TypeCategory};
use crate::value::ValueModel;

verus! {

/// A type string without the modifiers `unsigned` and `zerofill` behind it.
pub open spec fn without_modifiers(s: Seq<char>) -> Seq<char> {
    let s = text::trimmed_end(text::without_suffixes(text::trimmed_end(s), "zerofill"@));
    text::trimmed_end(text::without_suffixes(s, "unsigned"@))
}

/// Takes the modifiers off a type string. Where both are present, `zerofill`
/// stands behind `unsigned`.
pub fn strip_unsigned_zerofill(s: &[char]) -> (r: &[char])
    ensures
        r@ == without_modifiers(s@),
{
    let s = text::trim_end(text::strip_suffixes(text::trim_end(s), "zerofill"));
    text::trim_end(text::strip_suffixes(s, "unsigned"))
}

/// Whether a type string has a parenthesized argument list.
pub open spec fn has_args(s: Seq<char>) -> bool {
    let open = text::first_index(s, '(');
    open < s.len() && text::first_index(s.skip(open), ')') < s.skip(open).len()
}

/// The type's name and, apart from it, what stands between its parentheses.
pub open spec fn name_and_args(s: Seq<char>) -> (Seq<char>, Seq<char>) {
    let open = text::first_index(s, '(');
    if has_args(s) {
        let close = open + text::first_index(s.skip(open), ')');
        (text::trimmed(s.take(open)), s.subrange(open + 1, close))
    } else {
        (s, Seq::<char>::empty())
    }
}

/// Splits `decimal(10,2)` into `decimal` and `10,2`, and leaves `int` as it
/// is, with no arguments.
pub fn split_name_args(native: &[char]) -> (r: (&[char], &[char]))
    ensures
        (r.0@, r.1@) == name_and_args(native@),
{
    if let Some(open) = text::find_char(native, '(') {
        assert(native@.subrange(open as int, native@.len() as int) =~= native@.skip(open as int));
        if let Some(close) = text::find_char(&native[open..native.len()], ')') {
            proof {
                text::lemma_first_index(native@, '(');
                text::lemma_first_index(native@.skip(open as int), ')');
                assert(native@.skip(open as int)[0] == '(');
            }
            return (text::trim(&native[0..open]), &native[open + 1..open + close]);
        }
    }
    assert(native@.subrange(0, 0) =~= Seq::<char>::empty());
    (native, &native[0..0])
}

/// One value of an enumeration's list: the text between its quotes, with
/// doubled quotes in it written once.
pub open spec fn enum_value(part: Seq<char>) -> Seq<char> {
    let bare = text::without_trailing(text::without_leading(text::trimmed(part), '\''), '\'');
    text::undoubled(bare, '\'')
}

/// The values of an enumeration's list. The list is cut at every comma, also
/// at one between quotes.
pub open spec fn enum_values(list: Seq<char>) -> Seq<Seq<char>> {
    text::split_on(list, ',').map_values(|part: Seq<char>| enum_value(part))
}

/// Splits `'happy','sad'` into `happy` and `sad`.
pub fn parse_quoted_list(inner: &[char]) -> (r: Vec<String>)
    ensures
        text::texts(r@) == enum_values(inner@),
{
    let parts = text::split(inner, ',');
    let mut values: Vec<String> = Vec::new();
    for i in 0..parts.len()
        invariant
            values@.len() == i,
            forall|k: int| 0 <= k < i ==> (#[trigger] values@[k])@ == enum_value(parts@[k]@),
    {
        values.push(text::undouble(text::strip_char(text::trim(parts[i]), '\''), '\''));
    }
    assert(text::texts(values@) =~= enum_values(inner@)) by {
        assert forall|k: int| 0 <= k < parts@.len() implies text::texts(values@)[k] == enum_values(
            inner@,
        )[k] by {
            assert(text::slices(parts@)[k] == parts@[k]@);
        }
    }
    values
}

/// The category of a type with this name and these arguments, if it has one.
pub open spec fn named_category(name: Seq<char>, args: Seq<char>) -> Option<Category> {
    if name == "tinyint"@ && text::trimmed(args) == "1"@ {
        // By convention, a one-digit tinyint is a boolean.
        Some(Category::Boolean)
    } else if name == "tinyint"@ || name == "smallint"@ {
        Some(Category::SmallInt)
    } else if name == "mediumint"@ || name == "int"@ || name == "integer"@ {
        Some(Category::Integer)
    } else if name == "bigint"@ {
        Some(Category::BigInt)
    } else if name == "decimal"@ || name == "numeric"@ {
        let (precision, scale) = native_type::precision_scale(args);
        Some(Category::Decimal { precision, scale })
    } else if name == "float"@ {
        Some(Category::Real)
    } else if name == "double"@ || name == "double precision"@ {
        Some(Category::Double)
    } else if name == "char"@ {
        Some(Category::Char { length: native_type::single_len(args) })
    } else if name == "varchar"@ {
        Some(Category::VarChar { length: native_type::single_len(args) })
    } else if name == "text"@ || name == "tinytext"@ || name == "mediumtext"@ || name
        == "longtext"@ {
        Some(Category::Text)
    } else if name == "binary"@ {
        Some(Category::Binary { length: native_type::single_len(args) })
    } else if name == "varbinary"@ {
        Some(Category::VarBinary { length: native_type::single_len(args) })
    } else if name == "blob"@ || name == "tinyblob"@ || name == "mediumblob"@ || name
        == "longblob"@ {
        Some(Category::Blob)
    } else if name == "date"@ {
        Some(Category::Date)
    } else if name == "time"@ {
        Some(
            Category::Time { precision: native_type::single_len(args), with_timezone: false },
        )
    } else if name == "datetime"@ || name == "timestamp"@ {
        Some(
            Category::Timestamp { precision: native_type::single_len(args), with_timezone: false },
        )
    } else if name == "year"@ {
        Some(Category::Integer)
    } else if name == "json"@ {
        Some(Category::Json { binary: true })
    } else if name == "bit"@ {
        Some(Category::Bit { length: native_type::single_len(args) })
    } else if is_geometry(name) {
        Some(Category::Geometry { subtype: Some(name) })
    } else {
        None
    }
}

pub open spec fn is_geometry(name: Seq<char>) -> bool {
    name == "geometry"@ || name == "point"@ || name == "linestring"@ || name == "polygon"@ || name
        == "multipoint"@ || name == "multilinestring"@ || name == "multipolygon"@ || name
        == "geometrycollection"@
}

/// Whether a bare type string is an enumeration with its list of values.
pub open spec fn is_enum(s: Seq<char>) -> bool {
    text::starts_with(s, "enum("@) && text::ends_with(s.skip(5), ")"@)
}

/// The category of a column with this type string. A type that has none,
/// `set` among them, keeps its type string.
pub open spec fn mysql_category(column_type: Seq<char>) -> Category {
    let s = without_modifiers(text::trimmed(column_type));
    let (name, args) = name_and_args(s);
    if is_enum(s) {
        Category::Enum { values: enum_values(s.subrange(5, s.len() - 1)) }
    } else if text::starts_with(s, "set("@) {
        Category::Unsupported { native_type: column_type }
    } else {
        match named_category(name, args) {
            Some(category) => category,
            None => Category::Unsupported { native_type: column_type },
        }
    }
}

fn category_by_name(name: &[char], args: &[char]) -> (r: Option<TypeCategory>)
    ensures
        match r {
            Some(c) => named_category(name@, args@) == Some(c@),
            None => named_category(name@, args@) is None,
        },
        kinds::arrives_as(name@, args@) matches Some(wire) ==> r matches Some(c) && forall|
            v: ValueModel,
        | #[trigger]
            kinds::reads_as_kind(wire, v) <==> kinds::column_reads(c@, v),
{
    proof {
        kinds::lemma_declared_type(name@, args@);
    }
    if text::is_text(name, "tinyint") && text::is_text(text::trim(args), "1") {
        Some(TypeCategory::Boolean)
    } else if text::is_text(name, "tinyint") || text::is_text(name, "smallint") {
        Some(TypeCategory::SmallInt)
    } else if text::is_text(name, "mediumint") || text::is_text(name, "int") || text::is_text(
        name,
        "integer",
    ) {
        Some(TypeCategory::Integer)
    } else if text::is_text(name, "bigint") {
        Some(TypeCategory::BigInt)
    } else if text::is_text(name, "decimal") || text::is_text(name, "numeric") {
        let (precision, scale) = native_type::parse_precision_scale(args);
        Some(TypeCategory::Decimal { precision, scale })
    } else if text::is_text(name, "float") {
        Some(TypeCategory::Real)
    } else if text::is_text(name, "double") || text::is_text(name, "double precision") {
        Some(TypeCategory::Double)
    } else if text::is_text(name, "char") {
        Some(TypeCategory::Char { length: native_type::parse_single_len(args) })
    } else if text::is_text(name, "varchar") {
        Some(TypeCategory::VarChar { length: native_type::parse_single_len(args) })
    } else if text::is_text(name, "text") || text::is_text(name, "tinytext") || text::is_text(
        name,
        "mediumtext",
    ) || text::is_text(name, "longtext") {
        Some(TypeCategory::Text)
    } else if text::is_text(name, "binary") {
        Some(TypeCategory::Binary { length: native_type::parse_single_len(args) })
    } else if text::is_text(name, "varbinary") {
        Some(TypeCategory::VarBinary { length: native_type::parse_single_len(args) })
    } else if text::is_text(name, "blob") || text::is_text(name, "tinyblob") || text::is_text(
        name,
        "mediumblob",
    ) || text::is_text(name, "longblob") {
        Some(TypeCategory::Blob)
    } else if text::is_text(name, "date") {
        Some(TypeCategory::Date)
    } else if text::is_text(name, "time") {
        Some(
            TypeCategory::Time {
                precision: native_type::parse_single_len(args),
                with_timezone: false,
            },
        )
    } else if text::is_text(name, "datetime") || text::is_text(name, "timestamp") {
        Some(
            TypeCategory::Timestamp {
                precision: native_type::parse_single_len(args),
                with_timezone: false,
            },
        )
    } else if text::is_text(name, "year") {
        Some(TypeCategory::Integer)
    } else if text::is_text(name, "json") {
        Some(TypeCategory::Json { binary: true })
    } else if text::is_text(name, "bit") {
        Some(TypeCategory::Bit { length: native_type::parse_single_len(args) })
    } else if text::is_text(name, "geometry") || text::is_text(name, "point") || text::is_text(
        name,
        "linestring",
    ) || text::is_text(name, "polygon") || text::is_text(name, "multipoint") || text::is_text(
        name,
        "multilinestring",
    ) || text::is_text(name, "multipolygon") || text::is_text(name, "geometrycollection") {
        Some(TypeCategory::Geometry { subtype: Some(text::string_of(name)) })
    } else {
        None
    }
}

/// Maps a `COLUMN_TYPE` string (`varchar(255)`, `decimal(10,2)`,
/// `enum('a','b')`, `int(10) unsigned`) to its category.
pub fn map_mysql_type(column_type: &str) -> (r: TypeCategory)
    ensures
        r@ == mysql_category(column_type@),
{
    let chars = text::chars_of(column_type);
    let s = strip_unsigned_zerofill(text::trim(&chars));
    proof {
        reveal_strlit("enum(");
        reveal_strlit(")");
    }
    if text::has_prefix(s, "enum(") {
        assert(s@.subrange(5, s@.len() as int) =~= s@.skip(5));
        if text::has_suffix(&s[5..s.len()], ")") {
            return TypeCategory::Enum { values: parse_quoted_list(&s[5..s.len() - 1]) };
        }
    }
    if text::has_prefix(s, "set(") {
        return TypeCategory::Unsupported { native_type: column_type.to_string() };
    }
    let (name, args) = split_name_args(s);
    match category_by_name(name, args) {
        Some(category) => category,
        None => TypeCategory::Unsupported { native_type: column_type.to_string() },
    }
}

/// A type without a category is never lost: its type string is kept as it is.
pub proof fn lemma_unmapped_type_is_kept(column_type: Seq<char>)
    ensures
        mysql_category(column_type) matches Category::Unsupported { native_type } ==> native_type
            == column_type,
{
}

} // verus!
