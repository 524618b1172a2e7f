//! PostgreSQL's type strings.
use vstd::prelude::*;

use crate::native_type;
use crate::postgres::kinds;
use crate::postgres::stream;
use crate::text;
use crate::types::{Category, TypeCategory};

verus! {

// ---------------------------------------------------------------------------
// Enumeration types
// ---------------------------------------------------------------------------

#[derive(Debug)]
struct EnumType {
    name: String,
    labels: Vec<String>,
}

/// The user-defined enumeration types of a schema: for each type's name, its
/// labels in order. No name occurs twice.
#[derive(Debug)]
pub struct EnumTypes {
    entries: Vec<EnumType>,
}

spec fn distinct_names(entries: Seq<EnumType>) -> bool {
    forall|i: int, j: int|
        0 <= i < j < entries.len() ==> (#[trigger] entries[i]).name@ != (#[trigger] entries[j]).name@
}

spec fn label_map(entries: Seq<EnumType>) -> Map<Seq<char>, Seq<Seq<char>>>
    decreases entries.len(),
{
    if entries.len() == 0 {
        Map::empty()
    } else {
        label_map(entries.drop_last()).insert(
            entries.last().name@,
            text::texts(entries.last().labels@),
        )
    }
}

proof fn lemma_label_map(entries: Seq<EnumType>, name: Seq<char>)
    requires
        distinct_names(entries),
    ensures
        label_map(entries).contains_key(name) <==> exists|i: int|
            0 <= i < entries.len() && (#[trigger] entries[i]).name@ == name,
        forall|i: int|
            0 <= i < entries.len() && (#[trigger] entries[i]).name@ == name ==> label_map(
                entries,
            )[name] == text::texts(entries[i].labels@),
    decreases entries.len(),
{
    if entries.len() > 0 {
        let front = entries.drop_last();
        let last = entries.len() - 1;
        assert(distinct_names(front)) by {
            assert forall|i: int, j: int| 0 <= i < j < front.len() implies (
            #[trigger] front[i]).name@ != (#[trigger] front[j]).name@ by {
                assert(front[i] == entries[i] && front[j] == entries[j]);
            }
        }
        lemma_label_map(front, name);
        if label_map(entries).contains_key(name) {
            if entries[last].name@ != name {
                let i = choose|i: int| 0 <= i < front.len() && (#[trigger] front[i]).name@ == name;
                assert(entries[i] == front[i]);
            }
        }
        assert forall|i: int| 0 <= i < entries.len() && (#[trigger] entries[i]).name@
            == name implies label_map(entries).contains_key(name) && label_map(entries)[name]
            == text::texts(entries[i].labels@) by {
            if i < last {
                assert(front[i] == entries[i]);
                assert(entries[i].name@ != entries[last].name@);
            }
        }
    }
}

impl View for EnumTypes {
    type V = Map<Seq<char>, Seq<Seq<char>>>;

    closed spec fn view(&self) -> Map<Seq<char>, Seq<Seq<char>>> {
        label_map(self.entries@)
    }
}

impl EnumTypes {
    #[verifier::type_invariant]
    spec fn wf(self) -> bool {
        distinct_names(self.entries@)
    }

    /// No types.
    pub fn new() -> (r: EnumTypes)
        ensures
            r@ == Map::<Seq<char>, Seq<Seq<char>>>::empty(),
    {
        EnumTypes { entries: Vec::new() }
    }

    /// Adds a label behind those that its type has already.
    pub fn add_label(&mut self, name: String, label: String)
        ensures
            final(self)@ == old(self)@.insert(
                name@,
                (if old(self)@.contains_key(name@) {
                    old(self)@[name@]
                } else {
                    Seq::<Seq<char>>::empty()
                }).push(label@),
            ),
    {
        proof {
            use_type_invariant(&*self);
            lemma_label_map(self.entries@, name@);
        }
        let ghost before = self.entries@;
        let mut entries: Vec<EnumType> = Vec::new();
        std::mem::swap(&mut entries, &mut self.entries);
        let mut found: usize = 0;
        while found < entries.len() && !(entries[found].name == name)
            invariant
                found <= entries@.len(),
                forall|k: int| 0 <= k < found ==> (#[trigger] entries@[k]).name@ != name@,
            decreases entries@.len() - found,
        {
            found = found + 1;
        }
        if found < entries.len() {
            let mut entry = entries.remove(found);
            entry.labels.push(label);
            assert(text::texts(entry.labels@) =~= text::texts(before[found as int].labels@).push(
                label@,
            ));
            entries.insert(found, entry);
            proof {
                assert(entries@ =~= before.update(found as int, entries@[found as int]));
                lemma_label_map_update(before, found as int, entries@[found as int]);
            }
        } else {
            let mut labels: Vec<String> = Vec::new();
            labels.push(label);
            assert(text::texts(labels@) =~= seq![label@]);
            entries.push(EnumType { name, labels });
            proof {
                assert(entries@.drop_last() =~= before);
            }
        }
        self.entries = entries;
        assert(self@ =~= label_map(self.entries@));
    }

    /// The labels of the type with this name, if there is such a type.
    pub fn labels(&self, name: &[char]) -> (r: Option<&Vec<String>>)
        ensures
            match r {
                Some(labels) => self@.contains_key(name@) && text::texts(labels@) == self@[name@],
                None => !self@.contains_key(name@),
            },
    {
        proof {
            use_type_invariant(self);
            lemma_label_map(self.entries@, name@);
        }
        for i in 0..self.entries.len()
            invariant
                distinct_names(self.entries@),
                forall|k: int| 0 <= k < i ==> (#[trigger] self.entries@[k]).name@ != name@,
        {
            if text::is_text(name, self.entries[i].name.as_str()) {
                proof {
                    lemma_label_map(self.entries@, name@);
                }
                return Some(&self.entries[i].labels);
            }
        }
        None
    }
}

proof fn lemma_label_map_update(entries: Seq<EnumType>, k: int, entry: EnumType)
    requires
        distinct_names(entries),
        0 <= k < entries.len(),
        entry.name@ == entries[k].name@,
    ensures
        distinct_names(entries.update(k, entry)),
        label_map(entries.update(k, entry)) == label_map(entries).insert(
            entry.name@,
            text::texts(entry.labels@),
        ),
    decreases entries.len(),
{
    let changed = entries.update(k, entry);
    let front = entries.drop_last();
    let last = entries.len() - 1;
    assert(distinct_names(front)) by {
        assert forall|i: int, j: int| 0 <= i < j < front.len() implies (#[trigger] front[i]).name@
            != (#[trigger] front[j]).name@ by {
            assert(front[i] == entries[i] && front[j] == entries[j]);
        }
    }
    assert forall|i: int, j: int| 0 <= i < j < changed.len() implies (#[trigger] changed[i]).name@
        != (#[trigger] changed[j]).name@ by {
        assert(entries[i].name@ != entries[j].name@);
    }
    if k == last {
        assert(changed.drop_last() =~= front);
        assert(label_map(changed) =~= label_map(entries).insert(
            entry.name@,
            text::texts(entry.labels@),
        ));
    } else {
        assert(changed.drop_last() =~= front.update(k, entry));
        assert(front[k] == entries[k]);
        lemma_label_map_update(front, k, entry);
        assert(entries[k].name@ != entries[last].name@);
        assert(label_map(changed) =~= label_map(entries).insert(
            entry.name@,
            text::texts(entry.labels@),
        ));
    }
}

// ---------------------------------------------------------------------------
// Type strings
// ---------------------------------------------------------------------------

/// Whether a type string has a parenthesized argument list.
pub open spec fn has_args(s: Seq<char>) -> bool {
    let open = text::first_index(s, '(');
    open < s.len() && text::first_index(s.skip(open), ')') < s.skip(open).len()
}

/// The type's name, with the parentheses taken out of it, and what stands
/// between them: `timestamp(3) with time zone` is named
/// `timestamp with time zone`, with the argument `3`.
pub open spec fn name_and_args(s: Seq<char>) -> (Seq<char>, Seq<char>) {
    let open = text::first_index(s, '(');
    if has_args(s) {
        let close = open + text::first_index(s.skip(open), ')');
        (text::trimmed_end(s.take(open)) + s.skip(close + 1), s.subrange(open + 1, close))
    } else {
        (s, Seq::<char>::empty())
    }
}

/// Takes the parentheses out of a type string.
pub fn split_name_args(native: &[char]) -> (r: (Vec<char>, &[char]))
    ensures
        (r.0@, r.1@) == name_and_args(native@),
{
    let mut name: Vec<char> = Vec::new();
    if let Some(open) = text::find_char(native, '(') {
        assert(native@.subrange(open as int, native@.len() as int) =~= native@.skip(open as int));
        if let Some(close) = text::find_char(&native[open..native.len()], ')') {
            proof {
                text::lemma_first_index(native@, '(');
                text::lemma_first_index(native@.skip(open as int), ')');
                assert(native@.skip(open as int)[0] == '(');
            }
            let end: usize = open + close;
            text::copy_chars(&mut name, text::trim_end(&native[0..open]));
            assert(native@.subrange(end + 1, native@.len() as int) =~= native@.skip(end + 1));
            text::copy_chars(&mut name, &native[end + 1..native.len()]);
            return (name, &native[open + 1..end]);
        }
    }
    assert(native@.subrange(0, 0) =~= Seq::<char>::empty());
    text::copy_chars(&mut name, native);
    (name, &native[0..0])
}

/// The category of a built-in type with this name and these arguments, if it
/// has one. A name that only begins like that of a built-in type is another
/// type's.
pub open spec fn named_category(name: Seq<char>, args: Seq<char>) -> Option<Category> {
    if name == "boolean"@ || name == "bool"@ {
        Some(Category::Boolean)
    } else if name == "smallint"@ || name == "int2"@ {
        Some(Category::SmallInt)
    } else if name == "integer"@ || name == "int"@ || name == "int4"@ {
        Some(Category::Integer)
    } else if name == "bigint"@ || name == "int8"@ {
        Some(Category::BigInt)
    } else if name == "numeric"@ || name == "decimal"@ {
        let (precision, scale) = native_type::precision_scale(args);
        Some(Category::Decimal { precision, scale })
    } else if name == "real"@ || name == "float4"@ {
        Some(Category::Real)
    } else if name == "double precision"@ || name == "float8"@ {
        Some(Category::Double)
    } else if name == "character"@ || name == "char"@ || name == "bpchar"@ {
        Some(Category::Char { length: native_type::single_len(args) })
    } else if name == "character varying"@ || name == "varchar"@ {
        Some(Category::VarChar { length: native_type::single_len(args) })
    } else if name == "text"@ {
        Some(Category::Text)
    } else if name == "bytea"@ {
        Some(Category::Blob)
    } else if name == "date"@ {
        Some(Category::Date)
    } else if name == "timestamp"@ || name == "timestamp without time zone"@ {
        Some(
            Category::Timestamp {
                precision: native_type::single_len(args),
                with_timezone: false,
            },
        )
    } else if name == "timestamp with time zone"@ || name == "timestamptz"@ {
        Some(
            Category::Timestamp { precision: native_type::single_len(args), with_timezone: true },
        )
    } else if name == "time"@ || name == "time without time zone"@ {
        Some(Category::Time { precision: native_type::single_len(args), with_timezone: false })
    } else if name == "time with time zone"@ || name == "timetz"@ {
        Some(Category::Time { precision: native_type::single_len(args), with_timezone: true })
    } else if name == "interval"@ {
        Some(Category::Interval)
    } else if name == "uuid"@ {
        Some(Category::Uuid)
    } else if name == "json"@ {
        Some(Category::Json { binary: false })
    } else if name == "jsonb"@ {
        Some(Category::Json { binary: true })
    } else if name == "xml"@ {
        Some(Category::Xml)
    } else if name == "bit"@ || name == "bit varying"@ {
        Some(Category::Bit { length: native_type::single_len(args) })
    } else {
        None
    }
}

fn category_by_name(name: &[char], args: &[char]) -> (r: Option<TypeCategory>)
    ensures
        match r {
            Some(c) => named_category(name@, args@) == Some(c@),
            None => named_category(name@, args@) is None,
        },
        kinds::driver_name(name@) matches Some(wire) ==> r matches Some(c) && stream::wire_name(c@)
            == Some(wire),
{
    proof {
        kinds::lemma_built_in_type(name@, args@);
    }
    if text::is_text(name, "boolean") || text::is_text(name, "bool") {
        Some(TypeCategory::Boolean)
    } else if text::is_text(name, "smallint") || text::is_text(name, "int2") {
        Some(TypeCategory::SmallInt)
    } else if text::is_text(name, "integer") || text::is_text(name, "int") || text::is_text(
        name,
        "int4",
    ) {
        Some(TypeCategory::Integer)
    } else if text::is_text(name, "bigint") || text::is_text(name, "int8") {
        Some(TypeCategory::BigInt)
    } else if text::is_text(name, "numeric") || text::is_text(name, "decimal") {
        let (precision, scale) = native_type::parse_precision_scale(args);
        Some(TypeCategory::Decimal { precision, scale })
    } else if text::is_text(name, "real") || text::is_text(name, "float4") {
        Some(TypeCategory::Real)
    } else if text::is_text(name, "double precision") || text::is_text(name, "float8") {
        Some(TypeCategory::Double)
    } else if text::is_text(name, "character") || text::is_text(name, "char") || text::is_text(
        name,
        "bpchar",
    ) {
        Some(TypeCategory::Char { length: native_type::parse_single_len(args) })
    } else if text::is_text(name, "character varying") || text::is_text(name, "varchar") {
        Some(TypeCategory::VarChar { length: native_type::parse_single_len(args) })
    } else if text::is_text(name, "text") {
        Some(TypeCategory::Text)
    } else if text::is_text(name, "bytea") {
        Some(TypeCategory::Blob)
    } else if text::is_text(name, "date") {
        Some(TypeCategory::Date)
    } else if text::is_text(name, "timestamp") || text::is_text(
        name,
        "timestamp without time zone",
    ) {
        Some(
            TypeCategory::Timestamp {
                precision: native_type::parse_single_len(args),
                with_timezone: false,
            },
        )
    } else if text::is_text(name, "timestamp with time zone") || text::is_text(
        name,
        "timestamptz",
    ) {
        Some(
            TypeCategory::Timestamp {
                precision: native_type::parse_single_len(args),
                with_timezone: true,
            },
        )
    } else if text::is_text(name, "time") || text::is_text(name, "time without time zone") {
        Some(
            TypeCategory::Time {
                precision: native_type::parse_single_len(args),
                with_timezone: false,
            },
        )
    } else if text::is_text(name, "time with time zone") || text::is_text(name, "timetz") {
        Some(
            TypeCategory::Time {
                precision: native_type::parse_single_len(args),
                with_timezone: true,
            },
        )
    } else if text::is_text(name, "interval") {
        Some(TypeCategory::Interval)
    } else if text::is_text(name, "uuid") {
        Some(TypeCategory::Uuid)
    } else if text::is_text(name, "json") {
        Some(TypeCategory::Json { binary: false })
    } else if text::is_text(name, "jsonb") {
        Some(TypeCategory::Json { binary: true })
    } else if text::is_text(name, "xml") {
        Some(TypeCategory::Xml)
    } else if text::is_text(name, "bit") || text::is_text(name, "bit varying") {
        Some(TypeCategory::Bit { length: native_type::parse_single_len(args) })
    } else {
        None
    }
}

/// The category of a type string. `[]` behind a type is an array of it; a
/// user-defined enumeration goes before a built-in type of the same name; a
/// type that has no category keeps its type string.
pub open spec fn pg_category(
    native: Seq<char>,
    enums: Map<Seq<char>, Seq<Seq<char>>>,
) -> Category
    decreases native.len(),
{
    let s = text::trimmed(native);
    let (name, args) = name_and_args(s);
    if text::ends_with(s, "[]"@) {
        proof {
            text::lemma_trimmed_len(native);
            reveal_strlit("[]");
        }
        Category::Array { element: Box::new(pg_category(s.take(s.len() - 2), enums)) }
    } else if enums.contains_key(name) {
        Category::Enum { values: enums[name] }
    } else {
        match named_category(name, args) {
            Some(category) => category,
            None => Category::Unsupported { native_type: s },
        }
    }
}

fn category_of_chars(native: &[char], enum_types: &EnumTypes) -> (r: TypeCategory)
    ensures
        r@ == pg_category(native@, enum_types@),
    decreases native@.len(),
{
    let s = text::trim(native);
    if text::has_suffix(s, "[]") {
        proof {
            text::lemma_trimmed_len(native@);
            reveal_strlit("[]");
        }
        let element = category_of_chars(&s[0..s.len() - 2], enum_types);
        return TypeCategory::Array { element: Box::new(element) };
    }
    let (name, args) = split_name_args(s);
    if let Some(labels) = enum_types.labels(&name) {
        return TypeCategory::Enum { values: text::copy_strings(labels) };
    }
    match category_by_name(&name, args) {
        Some(category) => category,
        None => TypeCategory::Unsupported { native_type: text::string_of(s) },
    }
}

/// Maps a `format_type()` string (`character varying(255)`, `numeric(10,2)`,
/// `timestamp(3) with time zone`) to its category. `enum_types` holds the
/// enumeration types of the schema being reflected.
pub fn map_pg_type(native: &str, enum_types: &EnumTypes) -> (r: TypeCategory)
    ensures
        r@ == pg_category(native@, enum_types@),
{
    let chars = text::chars_of(native);
    category_of_chars(&chars, enum_types)
}

/// The category of an array's innermost elements; of anything else, its own.
pub open spec fn innermost(category: Category) -> Category
    decreases category,
{
    match category {
        Category::Array { element } => innermost(*element),
        other => other,
    }
}

/// A type string without the brackets of arrays and the whitespace around it.
pub open spec fn element_type(native: Seq<char>) -> Seq<char>
    decreases native.len(),
{
    let s = text::trimmed(native);
    if text::ends_with(s, "[]"@) {
        proof {
            text::lemma_trimmed_len(native);
            reveal_strlit("[]");
        }
        element_type(s.take(s.len() - 2))
    } else {
        s
    }
}

/// A type without a category is never lost, not even as the element of an
/// array: its type string is kept, but for brackets and whitespace around it.
pub proof fn lemma_unmapped_type_is_kept(
    native: Seq<char>,
    enums: Map<Seq<char>, Seq<Seq<char>>>,
)
    ensures
        innermost(pg_category(native, enums)) matches Category::Unsupported { native_type }
            ==> native_type == element_type(native),
    decreases native.len(),
{
    let s = text::trimmed(native);
    if text::ends_with(s, "[]"@) {
        text::lemma_trimmed_len(native);
        reveal_strlit("[]");
        lemma_unmapped_type_is_kept(s.take(s.len() - 2), enums);
    }
}

} // verus!
