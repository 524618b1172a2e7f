//! Cell values and rows, the same for every engine.
use vstd::prelude::*;

use crate::scalar;
use crate::scalar::{DateTimeValue, DateValue, DecimalValue, FloatValue, JsonDocument, TimeValue};
use crate::scalar::{DateModel, DateTimeModel, DecimalModel, FloatModel, TimeModel};

verus! {

/// A single cell. Rows that are read, rows that are written and query
/// parameters are all made of these, never of an engine's own types.
#[derive(Debug)]
pub enum Value {
    Null,
    Boolean(bool),
    SmallInt(i16),
    Integer(i32),
    BigInt(i64),
    Decimal(DecimalValue),
    Real(FloatValue),
    Double(FloatValue),
    Text(String),
    Binary(Vec<u8>),
    Date(DateValue),
    Time(TimeValue),
    /// A point in time, in UTC.
    Timestamp(DateTimeValue),
    /// A wall-clock reading with no time zone. Kept apart from `Timestamp`:
    /// to stamp it as UTC would change what the data means.
    TimestampNaive(DateTimeValue),
    Uuid([u8; 16]),
    Json(JsonDocument),
    Array(Vec<Value>),
}

/// What a `Value` says.
pub enum ValueModel {
    Null,
    Boolean(bool),
    SmallInt(i16),
    Integer(i32),
    BigInt(i64),
    Decimal(DecimalModel),
    Real(FloatModel),
    Double(FloatModel),
    Text(Seq<char>),
    Binary(Seq<u8>),
    Date(DateModel),
    Time(TimeModel),
    Timestamp(DateTimeModel),
    TimestampNaive(DateTimeModel),
    Uuid(Seq<u8>),
    Json(Seq<char>),
    Array(Seq<ValueModel>),
}

pub open spec fn value_model(v: Value) -> ValueModel
    decreases v,
{
    match v {
        Value::Null => ValueModel::Null,
        Value::Boolean(b) => ValueModel::Boolean(b),
        Value::SmallInt(n) => ValueModel::SmallInt(n),
        Value::Integer(n) => ValueModel::Integer(n),
        Value::BigInt(n) => ValueModel::BigInt(n),
        Value::Decimal(d) => ValueModel::Decimal(d@),
        Value::Real(f) => ValueModel::Real(f@),
        Value::Double(f) => ValueModel::Double(f@),
        Value::Text(s) => ValueModel::Text(s@),
        Value::Binary(b) => ValueModel::Binary(b@),
        Value::Date(d) => ValueModel::Date(d@),
        Value::Time(t) => ValueModel::Time(t@),
        Value::Timestamp(t) => ValueModel::Timestamp(t@),
        Value::TimestampNaive(t) => ValueModel::TimestampNaive(t@),
        Value::Uuid(u) => ValueModel::Uuid(u@),
        Value::Json(j) => ValueModel::Json(j@),
        Value::Array(items) => ValueModel::Array(
            Seq::new(
                items@.len(),
                |i: int|
                    if 0 <= i < items@.len() {
                        value_model(items@[i])
                    } else {
                        ValueModel::Null
                    },
            ),
        ),
    }
}

impl View for Value {
    type V = ValueModel;

    open spec fn view(&self) -> ValueModel {
        value_model(*self)
    }
}

/// What each value of a list says.
pub open spec fn models(values: Seq<Value>) -> Seq<ValueModel> {
    values.map_values(|v: Value| v@)
}

/// Whether two values are equal. Floating-point numbers compare by their
/// bits, so that a NaN that went through a database equals the NaN that went
/// in; decimals compare as numbers; values of different kinds are never
/// equal.
pub open spec fn same_value(a: ValueModel, b: ValueModel) -> bool
    decreases a,
{
    match (a, b) {
        (ValueModel::Null, ValueModel::Null) => true,
        (ValueModel::Boolean(x), ValueModel::Boolean(y)) => x == y,
        (ValueModel::SmallInt(x), ValueModel::SmallInt(y)) => x == y,
        (ValueModel::Integer(x), ValueModel::Integer(y)) => x == y,
        (ValueModel::BigInt(x), ValueModel::BigInt(y)) => x == y,
        (ValueModel::Decimal(x), ValueModel::Decimal(y)) => x.same_number(y),
        (ValueModel::Real(x), ValueModel::Real(y)) => x.bits == y.bits,
        (ValueModel::Double(x), ValueModel::Double(y)) => x.bits == y.bits,
        (ValueModel::Text(x), ValueModel::Text(y)) => x == y,
        (ValueModel::Binary(x), ValueModel::Binary(y)) => x == y,
        (ValueModel::Date(x), ValueModel::Date(y)) => x == y,
        (ValueModel::Time(x), ValueModel::Time(y)) => x == y,
        (ValueModel::Timestamp(x), ValueModel::Timestamp(y)) => x == y,
        (ValueModel::TimestampNaive(x), ValueModel::TimestampNaive(y)) => x == y,
        (ValueModel::Uuid(x), ValueModel::Uuid(y)) => x == y,
        (ValueModel::Json(x), ValueModel::Json(y)) => scalar::same_document(x, y),
        (ValueModel::Array(xs), ValueModel::Array(ys)) => xs.len() == ys.len() && forall|i: int|
            0 <= i < xs.len() ==> same_value(#[trigger] xs[i], ys[i]),
        _ => false,
    }
}

/// Every value equals itself, a NaN included.
pub proof fn lemma_value_equals_itself(v: ValueModel)
    ensures
        same_value(v, v),
    decreases v,
{
    match v {
        ValueModel::Array(items) => {
            assert forall|i: int| 0 <= i < items.len() implies same_value(
                #[trigger] items[i],
                items[i],
            ) by {
                lemma_value_equals_itself(items[i]);
            }
        },
        _ => {},
    }
}

/// Whether two values are of the same kind.
pub open spec fn same_variant(a: ValueModel, b: ValueModel) -> bool {
    match (a, b) {
        (ValueModel::Null, ValueModel::Null) => true,
        (ValueModel::Boolean(_), ValueModel::Boolean(_)) => true,
        (ValueModel::SmallInt(_), ValueModel::SmallInt(_)) => true,
        (ValueModel::Integer(_), ValueModel::Integer(_)) => true,
        (ValueModel::BigInt(_), ValueModel::BigInt(_)) => true,
        (ValueModel::Decimal(_), ValueModel::Decimal(_)) => true,
        (ValueModel::Real(_), ValueModel::Real(_)) => true,
        (ValueModel::Double(_), ValueModel::Double(_)) => true,
        (ValueModel::Text(_), ValueModel::Text(_)) => true,
        (ValueModel::Binary(_), ValueModel::Binary(_)) => true,
        (ValueModel::Date(_), ValueModel::Date(_)) => true,
        (ValueModel::Time(_), ValueModel::Time(_)) => true,
        (ValueModel::Timestamp(_), ValueModel::Timestamp(_)) => true,
        (ValueModel::TimestampNaive(_), ValueModel::TimestampNaive(_)) => true,
        (ValueModel::Uuid(_), ValueModel::Uuid(_)) => true,
        (ValueModel::Json(_), ValueModel::Json(_)) => true,
        (ValueModel::Array(_), ValueModel::Array(_)) => true,
        _ => false,
    }
}

/// Equal values are of the same kind.
pub proof fn lemma_equal_values_are_of_one_kind(a: ValueModel, b: ValueModel)
    requires
        same_value(a, b),
    ensures
        same_variant(a, b),
{
}

/// It does not matter which of two values is compared with which.
pub proof fn lemma_equality_is_symmetric(a: ValueModel, b: ValueModel)
    ensures
        same_value(a, b) == same_value(b, a),
    decreases a,
{
    match (a, b) {
        (ValueModel::Array(xs), ValueModel::Array(ys)) => {
            if xs.len() == ys.len() {
                assert forall|i: int| 0 <= i < xs.len() implies same_value(#[trigger] xs[i], ys[i])
                    == same_value(ys[i], xs[i]) by {
                    lemma_equality_is_symmetric(xs[i], ys[i]);
                }
                if same_value(a, b) {
                    assert forall|i: int| 0 <= i < ys.len() implies same_value(
                        #[trigger] ys[i],
                        xs[i],
                    ) by {
                        assert(same_value(xs[i], ys[i]));
                    }
                }
                if same_value(b, a) {
                    assert forall|i: int| 0 <= i < xs.len() implies same_value(
                        #[trigger] xs[i],
                        ys[i],
                    ) by {
                        assert(same_value(ys[i], xs[i]));
                    }
                }
            }
        },
        _ => {},
    }
}

/// Numbers that equal the same number equal each other.
pub proof fn lemma_same_number_is_transitive(x: DecimalModel, y: DecimalModel, z: DecimalModel)
    requires
        x.same_number(y),
        y.same_number(z),
    ensures
        x.same_number(z),
{
    let (p, q, r) = (x.signed(), y.signed(), z.signed());
    let a = vstd::arithmetic::power::pow(10, x.scale);
    let b = vstd::arithmetic::power::pow(10, y.scale);
    let c = vstd::arithmetic::power::pow(10, z.scale);
    vstd::arithmetic::power::lemma_pow_positive(10, y.scale);
    assert((p * c) * b == (r * a) * b) by (nonlinear_arith)
        requires
            p * b == q * a,
            q * c == r * b,
    {
        assert((p * c) * b == (p * b) * c);
        assert((q * a) * c == (q * c) * a);
        assert((r * b) * a == (r * a) * b);
    }
    assert(p * c == r * a) by (nonlinear_arith)
        requires
            (p * c) * b == (r * a) * b,
            b > 0,
    ;
}

/// Values that equal the same value equal each other.
pub proof fn lemma_equality_is_transitive(a: ValueModel, b: ValueModel, c: ValueModel)
    requires
        same_value(a, b),
        same_value(b, c),
    ensures
        same_value(a, c),
    decreases a,
{
    match (a, b, c) {
        (ValueModel::Decimal(x), ValueModel::Decimal(y), ValueModel::Decimal(z)) => {
            lemma_same_number_is_transitive(x, y, z);
        },
        (ValueModel::Array(xs), ValueModel::Array(ys), ValueModel::Array(zs)) => {
            assert forall|i: int| 0 <= i < xs.len() implies same_value(#[trigger] xs[i], zs[i]) by {
                assert(same_value(xs[i], ys[i]));
                assert(same_value(ys[i], zs[i]));
                lemma_equality_is_transitive(xs[i], ys[i], zs[i]);
            }
        },
        _ => {},
    }
}

fn same_bytes(a: &Vec<u8>, b: &Vec<u8>) -> (r: bool)
    ensures
        r == (a@ == b@),
{
    if a.len() != b.len() {
        return false;
    }
    for i in 0..a.len()
        invariant
            a@.len() == b@.len(),
            forall|k: int| 0 <= k < i ==> a@[k] == b@[k],
    {
        if a[i] != b[i] {
            return false;
        }
    }
    assert(a@ =~= b@);
    true
}

fn equal_values(a: &Value, b: &Value) -> (r: bool)
    ensures
        r == same_value(a@, b@),
    decreases a,
{
    match (a, b) {
        (Value::Null, Value::Null) => true,
        (Value::Boolean(x), Value::Boolean(y)) => *x == *y,
        (Value::SmallInt(x), Value::SmallInt(y)) => *x == *y,
        (Value::Integer(x), Value::Integer(y)) => *x == *y,
        (Value::BigInt(x), Value::BigInt(y)) => *x == *y,
        (Value::Decimal(x), Value::Decimal(y)) => x.same_number(y),
        (Value::Real(x), Value::Real(y)) => x.bits() == y.bits(),
        (Value::Double(x), Value::Double(y)) => x.bits() == y.bits(),
        (Value::Text(x), Value::Text(y)) => *x == *y,
        (Value::Binary(x), Value::Binary(y)) => same_bytes(x, y),
        (Value::Date(x), Value::Date(y)) => x.same_day(y),
        (Value::Time(x), Value::Time(y)) => x.same_time(y),
        (Value::Timestamp(x), Value::Timestamp(y)) => x.same_moment(y),
        (Value::TimestampNaive(x), Value::TimestampNaive(y)) => x.same_moment(y),
        (Value::Uuid(x), Value::Uuid(y)) => scalar::same_uuid(x, y),
        (Value::Json(x), Value::Json(y)) => x.same_document(y),
        (Value::Array(xs), Value::Array(ys)) => {
            if xs.len() != ys.len() {
                return false;
            }
            for i in 0..xs.len()
                invariant
                    xs@.len() == ys@.len(),
                    a matches Value::Array(v) && v == xs,
                    b matches Value::Array(v) && v == ys,
                    forall|k: int| 0 <= k < i ==> same_value((#[trigger] xs@[k])@, ys@[k]@),
            {
                if !equal_values(&xs[i], &ys[i]) {
                    assert(a@->Array_0[i as int] == xs@[i as int]@);
                    return false;
                }
            }
            assert forall|k: int| 0 <= k < xs@.len() implies same_value(
                #[trigger] a@->Array_0[k],
                b@->Array_0[k],
            ) by {
                assert(a@->Array_0[k] == xs@[k]@);
            }
            true
        },
        _ => false,
    }
}

impl PartialEq for Value {
    fn eq(&self, other: &Value) -> (r: bool) {
        equal_values(self, other)
    }
}

impl vstd::std_specs::cmp::PartialEqSpecImpl for Value {
    open spec fn obeys_eq_spec() -> bool {
        true
    }

    open spec fn eq_spec(&self, other: &Value) -> bool {
        same_value(self@, other@)
    }
}

impl Clone for Value {
    fn clone(&self) -> (r: Value)
        ensures
            r@ == self@,
        decreases self,
    {
        match self {
            Value::Null => Value::Null,
            Value::Boolean(b) => Value::Boolean(*b),
            Value::SmallInt(n) => Value::SmallInt(*n),
            Value::Integer(n) => Value::Integer(*n),
            Value::BigInt(n) => Value::BigInt(*n),
            Value::Decimal(d) => Value::Decimal(*d),
            Value::Real(f) => Value::Real(f.clone()),
            Value::Double(f) => Value::Double(f.clone()),
            Value::Text(s) => Value::Text(s.clone()),
            Value::Binary(b) => {
                let copy: Vec<u8> = b.clone();
                assert(copy@ =~= b@);
                Value::Binary(copy)
            },
            Value::Date(d) => Value::Date(*d),
            Value::Time(t) => Value::Time(*t),
            Value::Timestamp(t) => Value::Timestamp(*t),
            Value::TimestampNaive(t) => Value::TimestampNaive(*t),
            Value::Uuid(u) => Value::Uuid(*u),
            Value::Json(j) => Value::Json(j.clone()),
            Value::Array(items) => {
                let mut copy: Vec<Value> = Vec::new();
                for i in 0..items.len()
                    invariant
                        self matches Value::Array(v) && v == items,
                        copy@.len() == i,
                        forall|k: int| 0 <= k < i ==> (#[trigger] copy@[k])@ == items@[k]@,
                {
                    copy.push((&items[i]).clone());
                }
                let r = Value::Array(copy);
                assert(r@->Array_0 =~= self@->Array_0);
                r
            },
        }
    }
}

/// One row, in the column order of the table or query that it belongs to.
#[derive(Debug, Clone)]
pub struct Row(pub Vec<Value>);

impl Row {
    /// What each cell says.
    pub open spec fn cells(self) -> Seq<ValueModel> {
        models(self.0@)
    }
}

impl Default for Row {
    fn default() -> (r: Row)
        ensures
            r.0@.len() == 0,
    {
        Row(Vec::new())
    }
}

/// Whether two rows have the same number of cells and equal cells in each
/// place.
pub open spec fn same_cells(a: Seq<ValueModel>, b: Seq<ValueModel>) -> bool {
    a.len() == b.len() && forall|i: int| 0 <= i < a.len() ==> same_value(#[trigger] a[i], b[i])
}

impl PartialEq for Row {
    fn eq(&self, other: &Row) -> (r: bool) {
        if self.0.len() != other.0.len() {
            return false;
        }
        for i in 0..self.0.len()
            invariant
                self.0@.len() == other.0@.len(),
                forall|k: int|
                    0 <= k < i ==> same_value(#[trigger] self.cells()[k], other.cells()[k]),
        {
            if !equal_values(&self.0[i], &other.0[i]) {
                assert(self.cells()[i as int] == self.0@[i as int]@);
                return false;
            }
        }
        true
    }
}

impl vstd::std_specs::cmp::PartialEqSpecImpl for Row {
    open spec fn obeys_eq_spec() -> bool {
        true
    }

    open spec fn eq_spec(&self, other: &Row) -> bool {
        same_cells(self.cells(), other.cells())
    }
}

/// Whether a list names each of `n` rows exactly once: an order in which a
/// server may return them.
pub open spec fn is_order(order: Seq<int>, n: nat) -> bool {
    &&& order.len() == n
    &&& order.no_duplicates()
    &&& forall|i: int| 0 <= i < order.len() ==> 0 <= #[trigger] order[i] < n
}

/// Whether one of the values is an array.
pub open spec fn has_array(values: Seq<ValueModel>) -> bool {
    exists|i: int| 0 <= i < values.len() && #[trigger] values[i] is Array
}

/// Whether one of the values is an array.
pub fn any_array(values: &[Value]) -> (r: bool)
    ensures
        r == has_array(models(values@)),
{
    let ghost all = models(values@);
    for i in 0..values.len()
        invariant
            all == models(values@),
            forall|k: int| 0 <= k < i ==> !(#[trigger] all[k] is Array),
    {
        assert(all[i as int] == values@[i as int]@);
        if let Value::Array(_) = &values[i] {
            assert(all[i as int] is Array);
            return true;
        }
    }
    false
}

/// A decimal as a whole number of the smallest unit that any decimal has.
pub open spec fn in_smallest_units(d: DecimalModel) -> int {
    d.signed() * vstd::arithmetic::power::pow(10, (28 - d.scale) as nat)
}

/// Equal values say the same: decimals count the same number of units, floating-
/// point numbers have the same bits, and a value of any other kind that is no
/// document and no array is the very same value.
pub proof fn lemma_equal_values_say_the_same(a: ValueModel, b: ValueModel)
    ensures
        !(a is Decimal || a is Real || a is Double || a is Json || a is Array) ==> (same_value(a, b)
            <==> a == b),
        a matches ValueModel::Decimal(x) ==> b matches ValueModel::Decimal(y) ==> x.in_range()
            ==> y.in_range() ==> (same_value(a, b) <==> in_smallest_units(x) == in_smallest_units(
            y,
        )),
        a matches ValueModel::Real(x) ==> b matches ValueModel::Real(y) ==> (same_value(a, b)
            <==> x.bits == y.bits),
        a matches ValueModel::Double(x) ==> b matches ValueModel::Double(y) ==> (same_value(a, b)
            <==> x.bits == y.bits),
        a matches ValueModel::Json(x) ==> b matches ValueModel::Json(y) ==> x == y ==> same_value(
            a,
            b,
        ),
        a matches ValueModel::Array(xs) ==> b matches ValueModel::Array(ys) ==> xs.len() != ys.len()
            ==> !same_value(a, b),
        same_value(a, b) ==> same_variant(a, b),
{
    if let ValueModel::Decimal(x) = a {
        if let ValueModel::Decimal(y) = b {
            if x.in_range() && y.in_range() {
                lemma_units(x, y);
            }
        }
    }
}

proof fn lemma_units(x: DecimalModel, y: DecimalModel)
    requires
        x.scale <= 28,
        y.scale <= 28,
    ensures
        x.same_number(y) <==> in_smallest_units(x) == in_smallest_units(y),
{
    let p = x.signed();
    let q = y.signed();
    let a = vstd::arithmetic::power::pow(10, x.scale);
    let b = vstd::arithmetic::power::pow(10, y.scale);
    let c = vstd::arithmetic::power::pow(10, (28 - x.scale) as nat);
    let d = vstd::arithmetic::power::pow(10, (28 - y.scale) as nat);
    let all = vstd::arithmetic::power::pow(10, 28);
    vstd::arithmetic::power::lemma_pow_adds(10, x.scale, (28 - x.scale) as nat);
    vstd::arithmetic::power::lemma_pow_adds(10, y.scale, (28 - y.scale) as nat);
    vstd::arithmetic::power::lemma_pow_positive(10, x.scale);
    vstd::arithmetic::power::lemma_pow_positive(10, y.scale);
    vstd::arithmetic::power::lemma_pow_positive(10, (28 - x.scale) as nat);
    vstd::arithmetic::power::lemma_pow_positive(10, (28 - y.scale) as nat);
    assert(a * c == all && b * d == all);
    // Both sides times the units of the other: p * b * (c * d) and q * a * (c * d).
    assert((p * b) * (c * d) == (p * c) * all) by (nonlinear_arith)
        requires
            b * d == all,
    ;
    assert((q * a) * (c * d) == (q * d) * all) by (nonlinear_arith)
        requires
            a * c == all,
    ;
    assert(c * d > 0) by (nonlinear_arith)
        requires
            c > 0,
            d > 0,
    ;
    assert(all > 0) by (nonlinear_arith)
        requires
            a * c == all,
            a > 0,
            c > 0,
    ;
    let m = c * d;
    let l = p * b;
    let r = q * a;
    let u = p * c;
    let v = q * d;
    if l == r {
        assert(u * all == v * all);
        assert(u == v) by (nonlinear_arith)
            requires
                u * all == v * all,
                all > 0,
        ;
    }
    if u == v {
        assert(l * m == r * m);
        assert(l == r) by (nonlinear_arith)
            requires
                l * m == r * m,
                m > 0,
        ;
    }
}

/// There is an array among values exactly where one of them is an array,
/// wherever it stands.
pub proof fn lemma_has_array(values: Seq<ValueModel>, v: ValueModel)
    ensures
        !has_array(Seq::<ValueModel>::empty()),
        has_array(values.push(v)) <==> has_array(values) || v is Array,
        has_array(seq![v] + values) <==> has_array(values) || v is Array,
{
    let back = values.push(v);
    let front = seq![v] + values;
    if has_array(values) {
        let i = choose|i: int| 0 <= i < values.len() && #[trigger] values[i] is Array;
        assert(back[i] is Array);
        assert(front[i + 1] is Array);
    }
    if v is Array {
        assert(back[values.len() as int] is Array);
        assert(front[0] is Array);
    }
    if has_array(back) {
        let i = choose|i: int| 0 <= i < back.len() && #[trigger] back[i] is Array;
        if i < values.len() {
            assert(values[i] is Array);
        }
    }
    if has_array(front) {
        let i = choose|i: int| 0 <= i < front.len() && #[trigger] front[i] is Array;
        if i > 0 {
            assert(values[i - 1] is Array);
        }
    }
}

} // verus!
