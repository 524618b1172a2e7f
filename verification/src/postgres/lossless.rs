//! The text of a value tells it apart from every other value of its kind, so
//! that a column reads back what was written to it.
use vstd::arithmetic::power::pow;
use vstd::prelude::*;

use crate::number;
use crate::postgres::bulk;
use crate::postgres::laws;
use crate::scalar;
use crate::value::ValueModel;

verus! {

// ---------------------------------------------------------------------------
// Taking texts apart
// ---------------------------------------------------------------------------

proof fn lemma_same_parts(a1: Seq<char>, b1: Seq<char>, a2: Seq<char>, b2: Seq<char>)
    requires
        a1 + b1 == a2 + b2,
        a1.len() == a2.len(),
    ensures
        a1 == a2,
        b1 == b2,
{
    assert((a1 + b1).take(a1.len() as int) =~= a1);
    assert((a2 + b2).take(a1.len() as int) =~= a2);
    assert((a1 + b1).skip(a1.len() as int) =~= b1);
    assert((a2 + b2).skip(a1.len() as int) =~= b2);
}

/// Texts in front of the same separator, which neither holds.
proof fn lemma_same_front(a1: Seq<char>, b1: Seq<char>, a2: Seq<char>, b2: Seq<char>, sep: char)
    requires
        a1 + seq![sep] + b1 == a2 + seq![sep] + b2,
        !a1.contains(sep),
        !a2.contains(sep),
    ensures
        a1 == a2,
        b1 == b2,
{
    let w1 = a1 + seq![sep] + b1;
    let w2 = a2 + seq![sep] + b2;
    assert(w1[a1.len() as int] == sep);
    assert(w2[a2.len() as int] == sep);
    if a1.len() < a2.len() {
        assert(w2[a1.len() as int] == a2[a1.len() as int]);
        assert(a2.contains(sep));
    }
    if a2.len() < a1.len() {
        assert(w1[a2.len() as int] == a1[a2.len() as int]);
        assert(a1.contains(sep));
    }
    assert(w1 =~= a1 + (seq![sep] + b1));
    assert(w2 =~= a2 + (seq![sep] + b2));
    lemma_same_parts(a1, seq![sep] + b1, a2, seq![sep] + b2);
    lemma_same_parts(seq![sep], b1, seq![sep], b2);
}

proof fn lemma_digits_hold_no(s: Seq<char>, c: char)
    requires
        number::all_digits(s),
        !number::is_digit(c),
    ensures
        !s.contains(c),
{
    if s.contains(c) {
        let i = choose|i: int| 0 <= i < s.len() && s[i] == c;
        assert(number::is_digit(s[i]));
    }
}

// ---------------------------------------------------------------------------
// Numbers
// ---------------------------------------------------------------------------

proof fn lemma_same_digits(a: nat, b: nat)
    requires
        number::digits(a) == number::digits(b),
    ensures
        a == b,
{
    number::lemma_digits(a);
    number::lemma_digits(b);
}

proof fn lemma_same_int(a: int, b: int)
    requires
        number::int_text(a) == number::int_text(b),
    ensures
        a == b,
{
    let s = number::int_text(a);
    if a < 0 {
        number::lemma_digits((-a) as nat);
    } else {
        number::lemma_digits(a as nat);
        assert(number::is_digit(number::digits(a as nat)[0]));
    }
    if b < 0 {
        number::lemma_digits((-b) as nat);
    } else {
        number::lemma_digits(b as nat);
        assert(number::is_digit(number::digits(b as nat)[0]));
    }
    if a < 0 {
        assert(s[0] == '-');
        lemma_same_parts(
            seq!['-'],
            number::digits((-a) as nat),
            seq!['-'],
            number::digits((-b) as nat),
        );
        lemma_same_digits((-a) as nat, (-b) as nat);
    } else {
        assert(number::is_digit(s[0]));
        lemma_same_digits(a as nat, b as nat);
    }
}

proof fn lemma_leading_zeros(zeros: nat, d: Seq<char>)
    ensures
        number::digits_value(Seq::new(zeros, |i: int| '0') + d) == number::digits_value(d),
    decreases zeros + d.len(),
{
    let z = Seq::new(zeros, |i: int| '0');
    if d.len() > 0 {
        lemma_leading_zeros(zeros, d.drop_last());
        assert((z + d).drop_last() =~= z + d.drop_last());
    } else if zeros > 0 {
        let before = (zeros - 1) as nat;
        lemma_leading_zeros(before, d);
        assert(z + d =~= z);
        assert(z.drop_last() =~= Seq::new(before, |i: int| '0') + d);
        assert(number::digits_value(d) == 0);
    } else {
        assert(z + d =~= d);
    }
}

proof fn lemma_digits_len(n: nat, width: nat)
    requires
        width >= 1,
        n < pow(10, width),
    ensures
        number::digits(n).len() <= width,
    decreases n,
{
    if n >= 10 {
        vstd::arithmetic::power::lemma_pow1(10);
        if width == 1 {
            assert(false);
        }
        let less = (width - 1) as nat;
        assert(pow(10, width) == 10 * pow(10, less)) by {
            reveal(pow);
        }
        assert(n / 10 < pow(10, less));
        lemma_digits_len(n / 10, less);
    }
}

/// A number that fits its width is written in exactly that many digits.
pub proof fn lemma_padded(n: nat, width: nat)
    requires
        width >= 1,
        n < pow(10, width),
    ensures
        number::padded(n, width).len() == width,
        number::all_digits(number::padded(n, width)),
        number::digits_value(number::padded(n, width)) == n,
{
    let d = number::digits(n);
    number::lemma_digits(n);
    lemma_digits_len(n, width);
    if d.len() < width {
        let zeros = (width - d.len()) as nat;
        lemma_leading_zeros(zeros, d);
        let p = number::padded(n, width);
        assert forall|i: int| 0 <= i < p.len() implies number::is_digit(#[trigger] p[i]) by {
            if i >= zeros {
                assert(p[i] == d[i - zeros]);
            }
        }
    }
}

/// Powers of ten.
pub proof fn lemma_small_powers()
    ensures
        pow(10, 2) == 100,
        pow(10, 3) == 1_000,
        pow(10, 4) == 10_000,
        pow(10, 6) == 1_000_000,
        pow(10, 9) == 1_000_000_000,
{
    reveal_with_fuel(pow, 10);
}

// ---------------------------------------------------------------------------
// Decimals
// ---------------------------------------------------------------------------

/// The sign in front of a decimal.
pub open spec fn sign_of(d: scalar::DecimalModel) -> Seq<char> {
    if d.negative {
        seq!['-']
    } else {
        Seq::<char>::empty()
    }
}

/// The whole part of a decimal.
pub open spec fn whole_of(d: scalar::DecimalModel) -> nat {
    (d.coefficient as int / pow(10, d.scale)) as nat
}

/// What stands behind the point of a decimal, as a whole number.
pub open spec fn part_of(d: scalar::DecimalModel) -> nat {
    (d.coefficient as int % pow(10, d.scale)) as nat
}

/// A decimal from its point on.
pub open spec fn fraction_of(d: scalar::DecimalModel) -> Seq<char> {
    if d.scale == 0 {
        Seq::<char>::empty()
    } else {
        seq!['.'] + number::padded(part_of(d), d.scale)
    }
}

/// A decimal is written as its sign, its whole part and its fraction.
#[verifier::spinoff_prover]
pub proof fn lemma_decimal_parts(d: scalar::DecimalModel)
    ensures
        d.text() == sign_of(d) + (number::digits(whole_of(d)) + fraction_of(d)),
        number::digits(whole_of(d)).len() >= 1,
        number::all_digits(number::digits(whole_of(d))),
        d.scale > 0 ==> {
            &&& number::padded(part_of(d), d.scale).len() == d.scale
            &&& number::digits_value(number::padded(part_of(d), d.scale)) == part_of(d)
        },
        d.coefficient == whole_of(d) * pow(10, d.scale) + part_of(d),
{
    let unit = pow(10, d.scale);
    vstd::arithmetic::power::lemma_pow_positive(10, d.scale);
    vstd::arithmetic::div_mod::lemma_fundamental_div_mod(d.coefficient as int, unit);
    vstd::arithmetic::div_mod::lemma_mod_bound(d.coefficient as int, unit);
    vstd::arithmetic::div_mod::lemma_div_pos_is_pos(d.coefficient as int, unit);
    vstd::arithmetic::mul::lemma_mul_is_commutative(unit, d.coefficient as int / unit);
    number::lemma_digits(whole_of(d));
    if d.scale > 0 {
        lemma_padded(part_of(d), d.scale);
    }
    assert(d.text() =~= sign_of(d) + (number::digits(whole_of(d)) + fraction_of(d)));
}

#[verifier::spinoff_prover]
#[verifier::rlimit(40)]
proof fn lemma_same_decimal(a: scalar::DecimalModel, b: scalar::DecimalModel)
    requires
        a.text() == b.text(),
    ensures
        a == b,
{
    lemma_decimal_parts(a);
    lemma_decimal_parts(b);
    let wa = number::digits(whole_of(a));
    let wb = number::digits(whole_of(b));
    let ra = wa + fraction_of(a);
    let rb = wb + fraction_of(b);
    assert(number::is_digit(wa[0]) && number::is_digit(wb[0]));
    assert(ra[0] == wa[0] && rb[0] == wb[0]);
    assert(a.text()[0] == if a.negative {
        '-'
    } else {
        ra[0]
    });
    assert(b.text()[0] == if b.negative {
        '-'
    } else {
        rb[0]
    });
    assert(a.negative == b.negative);
    lemma_same_parts(sign_of(a), ra, sign_of(b), rb);
    lemma_digits_hold_no(wa, '.');
    lemma_digits_hold_no(wb, '.');
    if a.scale == 0 && b.scale == 0 {
        assert(ra =~= wa && rb =~= wb);
    } else if a.scale == 0 {
        assert(ra =~= wa);
        assert(rb[wb.len() as int] == '.');
        assert(wa.contains('.'));
    } else if b.scale == 0 {
        assert(rb =~= wb);
        assert(ra[wa.len() as int] == '.');
        assert(wb.contains('.'));
    } else {
        let pa = number::padded(part_of(a), a.scale);
        let pb = number::padded(part_of(b), b.scale);
        assert(ra =~= wa + seq!['.'] + pa);
        assert(rb =~= wb + seq!['.'] + pb);
        lemma_same_front(wa, pa, wb, pb, '.');
        assert(a.scale == b.scale);
    }
    assert(wa == wb);
    lemma_same_digits(whole_of(a), whole_of(b));
    assert(a.scale == b.scale);
    if a.scale == 0 {
        vstd::arithmetic::power::lemma_pow0(10);
    }
    assert(part_of(a) == part_of(b));
}

// ---------------------------------------------------------------------------
// Dates and times
// ---------------------------------------------------------------------------

/// How a year is written.
pub open spec fn year_text(year: int) -> Seq<char> {
    if 0 <= year <= 9999 {
        number::padded(year as nat, 4)
    } else if year < 0 {
        seq!['-'] + number::padded((-year) as nat, 4)
    } else {
        seq!['+'] + number::padded(year as nat, 4)
    }
}

/// A number is written in at least four digits, which stand for it.
pub proof fn lemma_wide(n: nat)
    ensures
        number::all_digits(number::padded(n, 4)),
        number::padded(n, 4).len() >= 1,
        number::digits_value(number::padded(n, 4)) == n,
{
    let d = number::digits(n);
    number::lemma_digits(n);
    if d.len() < 4 {
        let zeros = (4 - d.len()) as nat;
        lemma_leading_zeros(zeros, d);
        let p = number::padded(n, 4);
        assert forall|i: int| 0 <= i < p.len() implies number::is_digit(#[trigger] p[i]) by {
            if i >= zeros {
                assert(p[i] == d[i - zeros]);
            }
        }
    }
}

proof fn lemma_same_year(a: int, b: int)
    requires
        year_text(a) == year_text(b),
    ensures
        a == b,
{
    let sa = if a < 0 {
        (-a) as nat
    } else {
        a as nat
    };
    let sb = if b < 0 {
        (-b) as nat
    } else {
        b as nat
    };
    lemma_wide(sa);
    lemma_wide(sb);
    assert(number::is_digit(number::padded(sa, 4)[0]));
    assert(number::is_digit(number::padded(sb, 4)[0]));
    let first = year_text(a)[0];
    if first == '-' || first == '+' {
        lemma_same_parts(
            seq![first],
            number::padded(sa, 4),
            seq![first],
            number::padded(sb, 4),
        );
    }
}

/// A day is written as its year, its month and its day.
#[verifier::spinoff_prover]
pub proof fn lemma_date_parts(d: scalar::DateModel)
    requires
        d.is_real(),
    ensures
        number::padded(d.month as nat, 2).len() == 2,
        number::padded(d.day as nat, 2).len() == 2,
        number::digits_value(number::padded(d.month as nat, 2)) == d.month,
        number::digits_value(number::padded(d.day as nat, 2)) == d.day,
        d.text() == year_text(d.year) + (seq!['-'] + (number::padded(d.month as nat, 2) + (seq!['-']
            + number::padded(d.day as nat, 2)))),
        !d.text().contains(' '),
{
    lemma_small_powers();
    lemma_padded(d.month as nat, 2);
    lemma_padded(d.day as nat, 2);
    let size = if d.year < 0 {
        (-d.year) as nat
    } else {
        d.year as nat
    };
    lemma_wide(size);
    let m = number::padded(d.month as nat, 2);
    let y = year_text(d.year);
    let p = number::padded(size, 4);
    let t = number::padded(d.day as nat, 2);
    assert(d.text() =~= y + (seq!['-'] + (m + (seq!['-'] + t))));
    lemma_digits_hold_no(m, ' ');
    lemma_digits_hold_no(t, ' ');
    lemma_digits_hold_no(p, ' ');
    assert forall|i: int| 0 <= i < d.text().len() implies d.text()[i] != ' ' by {
        let n = y.len();
        if i < n {
            assert(d.text()[i] == y[i]);
            if 0 <= d.year <= 9999 {
                assert(p.contains(p[i]));
            } else if i > 0 {
                assert(y[i] == p[i - 1]);
                assert(p.contains(p[i - 1]));
            }
        } else if n < i < n + 3 {
            assert(d.text()[i] == m[i - n - 1]);
            assert(m.contains(m[i - n - 1]));
        } else if i > n + 3 {
            assert(d.text()[i] == t[i - n - 4]);
            assert(t.contains(t[i - n - 4]));
        }
    }
}

#[verifier::spinoff_prover]
proof fn lemma_same_date(a: scalar::DateModel, b: scalar::DateModel)
    requires
        a.is_real(),
        b.is_real(),
        a.text() == b.text(),
    ensures
        a == b,
{
    lemma_date_parts(a);
    lemma_date_parts(b);
    let ma = number::padded(a.month as nat, 2);
    let mb = number::padded(b.month as nat, 2);
    let da = number::padded(a.day as nat, 2);
    let db = number::padded(b.day as nat, 2);
    let ra = seq!['-'] + (ma + (seq!['-'] + da));
    let rb = seq!['-'] + (mb + (seq!['-'] + db));
    assert(a.text().len() == year_text(a.year).len() + 6);
    assert(b.text().len() == year_text(b.year).len() + 6);
    lemma_same_parts(year_text(a.year), ra, year_text(b.year), rb);
    lemma_same_year(a.year, b.year);
    lemma_same_parts(seq!['-'], ma + (seq!['-'] + da), seq!['-'], mb + (seq!['-'] + db));
    lemma_same_parts(ma, seq!['-'] + da, mb, seq!['-'] + db);
    lemma_same_parts(seq!['-'], da, seq!['-'], db);
}

/// A time of day that is no leap second.
pub open spec fn ordinary(t: scalar::TimeModel) -> bool {
    t.is_real() && t.nano < 1_000_000_000
}

/// How many nanoseconds the last digit of a fraction of this length counts.
spec fn last_digit(len: nat) -> nat {
    if len == 4 {
        1_000_000
    } else if len == 7 {
        1_000
    } else {
        1
    }
}

#[verifier::spinoff_prover]
proof fn lemma_fraction(t: scalar::TimeModel)
    requires
        ordinary(t),
    ensures
        t.nano == 0 <==> t.fraction().len() == 0,
        t.nano != 0 ==> t.nano == number::digits_value(t.fraction().skip(1)) * last_digit(
            t.fraction().len(),
        ),
{
    lemma_small_powers();
    let nano = t.nano;
    assert(nano % 1_000_000_000 == nano);
    if nano == 0 {
    } else if nano % 1_000_000 == 0 {
        let n = nano / 1_000_000;
        lemma_padded(n, 3);
        assert(t.fraction().skip(1) =~= number::padded(n, 3));
    } else if nano % 1_000 == 0 {
        let n = nano / 1_000;
        lemma_padded(n, 6);
        assert(t.fraction().skip(1) =~= number::padded(n, 6));
    } else {
        lemma_padded(nano, 9);
        assert(t.fraction().skip(1) =~= number::padded(nano, 9));
    }
}

#[verifier::spinoff_prover]
proof fn lemma_same_time(a: scalar::TimeModel, b: scalar::TimeModel)
    requires
        ordinary(a),
        ordinary(b),
        a.text() == b.text(),
    ensures
        a == b,
{
    lemma_small_powers();
    lemma_padded(a.hour, 2);
    lemma_padded(a.minute, 2);
    lemma_padded(a.second, 2);
    lemma_padded(b.hour, 2);
    lemma_padded(b.minute, 2);
    lemma_padded(b.second, 2);
    let ha = number::padded(a.hour, 2);
    let hb = number::padded(b.hour, 2);
    let ma = number::padded(a.minute, 2);
    let mb = number::padded(b.minute, 2);
    let sa = number::padded(a.second, 2);
    let sb = number::padded(b.second, 2);
    assert(a.second + a.nano / 1_000_000_000 == a.second);
    assert(b.second + b.nano / 1_000_000_000 == b.second);
    let ra = seq![':'] + (ma + (seq![':'] + (sa + a.fraction())));
    let rb = seq![':'] + (mb + (seq![':'] + (sb + b.fraction())));
    assert(a.text() =~= ha + ra);
    assert(b.text() =~= hb + rb);
    lemma_same_parts(ha, ra, hb, rb);
    lemma_same_parts(
        seq![':'],
        ma + (seq![':'] + (sa + a.fraction())),
        seq![':'],
        mb + (seq![':'] + (sb + b.fraction())),
    );
    lemma_same_parts(ma, seq![':'] + (sa + a.fraction()), mb, seq![':'] + (sb + b.fraction()));
    lemma_same_parts(seq![':'], sa + a.fraction(), seq![':'], sb + b.fraction());
    lemma_same_parts(sa, a.fraction(), sb, b.fraction());
    lemma_fraction(a);
    lemma_fraction(b);
}

proof fn lemma_same_date_time(a: scalar::DateTimeModel, b: scalar::DateTimeModel)
    requires
        a.date.is_real(),
        b.date.is_real(),
        ordinary(a.time),
        ordinary(b.time),
        a.naive_text() == b.naive_text(),
    ensures
        a == b,
{
    lemma_date_parts(a.date);
    lemma_date_parts(b.date);
    lemma_same_front(a.date.text(), a.time.text(), b.date.text(), b.time.text(), ' ');
    lemma_same_date(a.date, b.date);
    lemma_same_time(a.time, b.time);
}

proof fn lemma_same_moment(a: scalar::DateTimeModel, b: scalar::DateTimeModel)
    requires
        a.date.is_real(),
        b.date.is_real(),
        ordinary(a.time),
        ordinary(b.time),
        a.utc_text() == b.utc_text(),
    ensures
        a == b,
{
    let utc = seq!['+', '0', '0', ':', '0', '0'];
    assert(a.utc_text().len() == a.naive_text().len() + 6);
    assert(b.utc_text().len() == b.naive_text().len() + 6);
    lemma_same_parts(a.naive_text(), utc, b.naive_text(), utc);
    lemma_same_date_time(a, b);
}

// ---------------------------------------------------------------------------
// All kinds
// ---------------------------------------------------------------------------

/// Whether two values are of one kind, one that a column's type tells apart
/// from the others. Floating-point numbers are left out: several bit patterns
/// are written as `NaN`.
pub open spec fn same_kind(a: ValueModel, b: ValueModel) -> bool {
    match (a, b) {
        (ValueModel::Boolean(_), ValueModel::Boolean(_)) => true,
        (ValueModel::SmallInt(_), ValueModel::SmallInt(_)) => true,
        (ValueModel::Integer(_), ValueModel::Integer(_)) => true,
        (ValueModel::BigInt(_), ValueModel::BigInt(_)) => true,
        (ValueModel::Decimal(_), ValueModel::Decimal(_)) => true,
        (ValueModel::Text(_), ValueModel::Text(_)) => true,
        (ValueModel::Binary(_), ValueModel::Binary(_)) => true,
        (ValueModel::Date(_), ValueModel::Date(_)) => true,
        (ValueModel::Time(_), ValueModel::Time(_)) => true,
        (ValueModel::Timestamp(_), ValueModel::Timestamp(_)) => true,
        (ValueModel::TimestampNaive(_), ValueModel::TimestampNaive(_)) => true,
        (ValueModel::Uuid(_), ValueModel::Uuid(_)) => true,
        (ValueModel::Json(_), ValueModel::Json(_)) => true,
        _ => false,
    }
}

/// Whether a value is one that its type can hold, and no leap second, which
/// is written like the second behind it.
pub open spec fn distinct_text(v: ValueModel) -> bool {
    match v {
        ValueModel::Date(d) => d.is_real(),
        ValueModel::Time(t) => ordinary(t),
        ValueModel::Timestamp(t) => t.date.is_real() && ordinary(t.time),
        ValueModel::TimestampNaive(t) => t.date.is_real() && ordinary(t.time),
        ValueModel::Uuid(u) => u.len() == 16,
        _ => true,
    }
}

/// Different values of one kind are written differently: nothing of a value
/// is lost in its text.
#[verifier::spinoff_prover]
pub proof fn lemma_text_is_lossless(a: ValueModel, b: ValueModel)
    requires
        same_kind(a, b),
        distinct_text(a),
        distinct_text(b),
        bulk::scalar_text(a) == bulk::scalar_text(b),
    ensures
        a == b,
{
    match (a, b) {
        (ValueModel::Boolean(x), ValueModel::Boolean(y)) => {
            assert(seq!['t'][0] == 't' && seq!['f'][0] == 'f');
            assert(x == y);
        },
        (ValueModel::Text(x), ValueModel::Text(y)) => assert(x == y),
        (ValueModel::Json(x), ValueModel::Json(y)) => assert(x == y),
        (ValueModel::SmallInt(x), ValueModel::SmallInt(y)) => lemma_same_int(x as int, y as int),
        (ValueModel::Integer(x), ValueModel::Integer(y)) => lemma_same_int(x as int, y as int),
        (ValueModel::BigInt(x), ValueModel::BigInt(y)) => lemma_same_int(x as int, y as int),
        (ValueModel::Decimal(x), ValueModel::Decimal(y)) => lemma_same_decimal(x, y),
        (ValueModel::Binary(x), ValueModel::Binary(y)) => {
            lemma_same_parts(seq!['\\', 'x'], number::hex(x), seq!['\\', 'x'], number::hex(y));
            number::lemma_same_hex(x, y);
        },
        (ValueModel::Date(x), ValueModel::Date(y)) => lemma_same_date(x, y),
        (ValueModel::Time(x), ValueModel::Time(y)) => lemma_same_time(x, y),
        (ValueModel::Timestamp(x), ValueModel::Timestamp(y)) => lemma_same_moment(x, y),
        (ValueModel::TimestampNaive(x), ValueModel::TimestampNaive(y)) => lemma_same_date_time(x, y),
        (ValueModel::Uuid(x), ValueModel::Uuid(y)) => scalar::lemma_same_uuid(x, y),
        _ => {},
    }
}

/// Whether two cells can stand in one column: each is null or of the column's
/// kind, and has a text of its own.
pub open spec fn same_column(a: ValueModel, b: ValueModel) -> bool {
    &&& a is Null || b is Null || same_kind(a, b)
    &&& a is Null || same_kind(a, a)
    &&& b is Null || same_kind(b, b)
    &&& distinct_text(a)
    &&& distinct_text(b)
}

/// Rows that go into one table and are written the same are the same: the
/// bulk text of a table holds everything that its rows hold.
pub proof fn lemma_copy_is_lossless(rows1: Seq<Seq<ValueModel>>, rows2: Seq<Seq<ValueModel>>)
    requires
        forall|i: int| 0 <= i < rows1.len() ==> (#[trigger] rows1[i]).len() > 0,
        forall|i: int| 0 <= i < rows2.len() ==> (#[trigger] rows2[i]).len() > 0,
        forall|i: int, k: int|
            0 <= i < rows1.len() && 0 <= i < rows2.len() && 0 <= k < rows1[i].len() && 0 <= k
                < rows2[i].len() ==> same_column(#[trigger] rows1[i][k], #[trigger] rows2[i][k]),
        laws::copy_text(rows1) == laws::copy_text(rows2),
    ensures
        rows1 == rows2,
{
    laws::lemma_rows_read_back(rows1);
    laws::lemma_rows_read_back(rows2);
    let read1 = rows1.map_values(|r: Seq<ValueModel>| laws::copy_fields(r));
    let read2 = rows2.map_values(|r: Seq<ValueModel>| laws::copy_fields(r));
    assert(read1 == read2);
    assert(read1.len() == rows1.len() && read2.len() == rows2.len());
    assert forall|i: int| 0 <= i < rows1.len() implies rows1[i] == rows2[i] by {
        assert(read1[i] == laws::copy_fields(rows1[i]));
        assert(read2[i] == laws::copy_fields(rows2[i]));
        assert(rows1[i].len() == read1[i].len() && rows2[i].len() == read2[i].len());
        assert forall|k: int| 0 <= k < rows1[i].len() implies rows1[i][k] == rows2[i][k] by {
            let a = rows1[i][k];
            let b = rows2[i][k];
            assert(read1[i][k] == bulk::copy_field(a));
            assert(read2[i][k] == bulk::copy_field(b));
            assert(same_column(a, b));
            if !(a is Null) && !(b is Null) {
                lemma_text_is_lossless(a, b);
            }
        }
        assert(rows1[i] =~= rows2[i]);
    }
    assert(rows1 =~= rows2);
}

} // verus!
