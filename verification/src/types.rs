//! The canonical column types that every engine's native types map into and
//! back out of.
use vstd::prelude::*;

use crate::text;

verus! {

/// A fixed set of type categories. Logic above an adapter works only against
/// these, never against an engine's own type names.
///
/// `Unsupported` is the escape hatch: a type without a category keeps the
/// engine's own name, so that nothing is lost in reflection.
#[derive(Debug, Eq)]
pub enum TypeCategory {
    Boolean,
    SmallInt,
    Integer,
    BigInt,
    Decimal { precision: Option<u32>, scale: Option<u32> },
    Real,
    Double,
    Char { length: Option<u32> },
    VarChar { length: Option<u32> },
    Text,
    Binary { length: Option<u32> },
    VarBinary { length: Option<u32> },
    Blob,
    Date,
    Time { precision: Option<u32>, with_timezone: bool },
    Timestamp { precision: Option<u32>, with_timezone: bool },
    Interval,
    Uuid,
    /// `binary` holds where the engine keeps a normalized document rather
    /// than the text that was stored (`jsonb` and MySQL's `JSON`).
    Json { binary: bool },
    Xml,
    Bit { length: Option<u32> },
    Enum { values: Vec<String> },
    Array { element: Box<TypeCategory> },
    Geometry { subtype: Option<String> },
    Unsupported { native_type: String },
}

/// What a `TypeCategory` says, with strings as sequences of characters.
pub enum Category {
    Boolean,
    SmallInt,
    Integer,
    BigInt,
    Decimal { precision: Option<u32>, scale: Option<u32> },
    Real,
    Double,
    Char { length: Option<u32> },
    VarChar { length: Option<u32> },
    Text,
    Binary { length: Option<u32> },
    VarBinary { length: Option<u32> },
    Blob,
    Date,
    Time { precision: Option<u32>, with_timezone: bool },
    Timestamp { precision: Option<u32>, with_timezone: bool },
    Interval,
    Uuid,
    Json { binary: bool },
    Xml,
    Bit { length: Option<u32> },
    Enum { values: Seq<Seq<char>> },
    Array { element: Box<Category> },
    Geometry { subtype: Option<Seq<char>> },
    Unsupported { native_type: Seq<char> },
}

/// The optional text that an optional string holds.
pub open spec fn optional_text(s: Option<String>) -> Option<Seq<char>> {
    match s {
        Some(s) => Some(s@),
        None => None,
    }
}

pub open spec fn category_of(c: TypeCategory) -> Category
    decreases c,
{
    match c {
        TypeCategory::Boolean => Category::Boolean,
        TypeCategory::SmallInt => Category::SmallInt,
        TypeCategory::Integer => Category::Integer,
        TypeCategory::BigInt => Category::BigInt,
        TypeCategory::Decimal { precision, scale } => Category::Decimal { precision, scale },
        TypeCategory::Real => Category::Real,
        TypeCategory::Double => Category::Double,
        TypeCategory::Char { length } => Category::Char { length },
        TypeCategory::VarChar { length } => Category::VarChar { length },
        TypeCategory::Text => Category::Text,
        TypeCategory::Binary { length } => Category::Binary { length },
        TypeCategory::VarBinary { length } => Category::VarBinary { length },
        TypeCategory::Blob => Category::Blob,
        TypeCategory::Date => Category::Date,
        TypeCategory::Time { precision, with_timezone } => Category::Time {
            precision,
            with_timezone,
        },
        TypeCategory::Timestamp { precision, with_timezone } => Category::Timestamp {
            precision,
            with_timezone,
        },
        TypeCategory::Interval => Category::Interval,
        TypeCategory::Uuid => Category::Uuid,
        TypeCategory::Json { binary } => Category::Json { binary },
        TypeCategory::Xml => Category::Xml,
        TypeCategory::Bit { length } => Category::Bit { length },
        TypeCategory::Enum { values } => Category::Enum { values: text::texts(values@) },
        TypeCategory::Array { element } => Category::Array {
            element: Box::new(category_of(*element)),
        },
        TypeCategory::Geometry { subtype } => Category::Geometry {
            subtype: optional_text(subtype),
        },
        TypeCategory::Unsupported { native_type } => Category::Unsupported {
            native_type: native_type@,
        },
    }
}

impl View for TypeCategory {
    type V = Category;

    open spec fn view(&self) -> Category {
        category_of(*self)
    }
}

impl Clone for TypeCategory {
    fn clone(&self) -> (r: TypeCategory)
        ensures
            r@ == self@,
        decreases self,
    {
        match self {
            TypeCategory::Boolean => TypeCategory::Boolean,
            TypeCategory::SmallInt => TypeCategory::SmallInt,
            TypeCategory::Integer => TypeCategory::Integer,
            TypeCategory::BigInt => TypeCategory::BigInt,
            TypeCategory::Decimal { precision, scale } => TypeCategory::Decimal {
                precision: *precision,
                scale: *scale,
            },
            TypeCategory::Real => TypeCategory::Real,
            TypeCategory::Double => TypeCategory::Double,
            TypeCategory::Char { length } => TypeCategory::Char { length: *length },
            TypeCategory::VarChar { length } => TypeCategory::VarChar { length: *length },
            TypeCategory::Text => TypeCategory::Text,
            TypeCategory::Binary { length } => TypeCategory::Binary { length: *length },
            TypeCategory::VarBinary { length } => TypeCategory::VarBinary { length: *length },
            TypeCategory::Blob => TypeCategory::Blob,
            TypeCategory::Date => TypeCategory::Date,
            TypeCategory::Time { precision, with_timezone } => TypeCategory::Time {
                precision: *precision,
                with_timezone: *with_timezone,
            },
            TypeCategory::Timestamp { precision, with_timezone } => TypeCategory::Timestamp {
                precision: *precision,
                with_timezone: *with_timezone,
            },
            TypeCategory::Interval => TypeCategory::Interval,
            TypeCategory::Uuid => TypeCategory::Uuid,
            TypeCategory::Json { binary } => TypeCategory::Json { binary: *binary },
            TypeCategory::Xml => TypeCategory::Xml,
            TypeCategory::Bit { length } => TypeCategory::Bit { length: *length },
            TypeCategory::Enum { values } => TypeCategory::Enum {
                values: text::copy_strings(values),
            },
            TypeCategory::Array { element } => TypeCategory::Array {
                element: Box::new((&**element).clone()),
            },
            TypeCategory::Geometry { subtype } => TypeCategory::Geometry {
                subtype: match subtype {
                    Some(s) => Some(s.clone()),
                    None => None,
                },
            },
            TypeCategory::Unsupported { native_type } => TypeCategory::Unsupported {
                native_type: native_type.clone(),
            },
        }
    }
}

fn same_size(a: Option<u32>, b: Option<u32>) -> (r: bool)
    ensures
        r == (a == b),
{
    match (a, b) {
        (Some(x), Some(y)) => x == y,
        (None, None) => true,
        _ => false,
    }
}

fn same_category(a: &TypeCategory, b: &TypeCategory) -> (r: bool)
    ensures
        r == (a@ == b@),
    decreases a,
{
    match (a, b) {
        (TypeCategory::Boolean, TypeCategory::Boolean) => true,
        (TypeCategory::SmallInt, TypeCategory::SmallInt) => true,
        (TypeCategory::Integer, TypeCategory::Integer) => true,
        (TypeCategory::BigInt, TypeCategory::BigInt) => true,
        (
            TypeCategory::Decimal { precision: p, scale: s },
            TypeCategory::Decimal { precision: q, scale: t },
        ) => same_size(*p, *q) && same_size(*s, *t),
        (TypeCategory::Real, TypeCategory::Real) => true,
        (TypeCategory::Double, TypeCategory::Double) => true,
        (TypeCategory::Char { length: x }, TypeCategory::Char { length: y }) => same_size(*x, *y),
        (TypeCategory::VarChar { length: x }, TypeCategory::VarChar { length: y }) => same_size(
            *x,
            *y,
        ),
        (TypeCategory::Text, TypeCategory::Text) => true,
        (TypeCategory::Binary { length: x }, TypeCategory::Binary { length: y }) => same_size(
            *x,
            *y,
        ),
        (TypeCategory::VarBinary { length: x }, TypeCategory::VarBinary { length: y }) => same_size(
            *x,
            *y,
        ),
        (TypeCategory::Blob, TypeCategory::Blob) => true,
        (TypeCategory::Date, TypeCategory::Date) => true,
        (
            TypeCategory::Time { precision: x, with_timezone: v },
            TypeCategory::Time { precision: y, with_timezone: w },
        ) => same_size(*x, *y) && *v == *w,
        (
            TypeCategory::Timestamp { precision: x, with_timezone: v },
            TypeCategory::Timestamp { precision: y, with_timezone: w },
        ) => same_size(*x, *y) && *v == *w,
        (TypeCategory::Interval, TypeCategory::Interval) => true,
        (TypeCategory::Uuid, TypeCategory::Uuid) => true,
        (TypeCategory::Json { binary: x }, TypeCategory::Json { binary: y }) => *x == *y,
        (TypeCategory::Xml, TypeCategory::Xml) => true,
        (TypeCategory::Bit { length: x }, TypeCategory::Bit { length: y }) => same_size(*x, *y),
        (TypeCategory::Enum { values: x }, TypeCategory::Enum { values: y }) => text::same_texts(
            x,
            y,
        ),
        (TypeCategory::Array { element: x }, TypeCategory::Array { element: y }) => same_category(
            &**x,
            &**y,
        ),
        (TypeCategory::Geometry { subtype: x }, TypeCategory::Geometry { subtype: y }) => match (
            x,
            y,
        ) {
            (Some(s), Some(t)) => text::same_text(s.as_str(), t.as_str()),
            (None, None) => true,
            _ => false,
        },
        (
            TypeCategory::Unsupported { native_type: x },
            TypeCategory::Unsupported { native_type: y },
        ) => text::same_text(x.as_str(), y.as_str()),
        _ => false,
    }
}

impl PartialEq for TypeCategory {
    fn eq(&self, other: &TypeCategory) -> (r: bool) {
        same_category(self, other)
    }
}

impl vstd::std_specs::cmp::PartialEqSpecImpl for TypeCategory {
    open spec fn obeys_eq_spec() -> bool {
        true
    }

    open spec fn eq_spec(&self, other: &TypeCategory) -> bool {
        self@ == other@
    }
}

/// A column's full type: the canonical category, and the engine's own type
/// string for diagnostics and for where the category is lossy.
#[derive(Debug, Clone, PartialEq, Eq)]
pub struct DataType {
    pub category: TypeCategory,
    pub native_type: String,
}

} // verus!
