//! How PostgreSQL reads the text of a value of each kind, and that it reads
//! back what was written. The readers go by the characters alone, from the
//! left or the right end of a text; none of them writes.
use vstd::arithmetic::power::pow;
use vstd::prelude::*;

use crate::number;
use crate::postgres::bulk;
use crate::postgres::laws;
use crate::postgres::laws::Element;
use crate::postgres::lossless;
use crate::scalar;
use crate::scalar::{DateModel, DateTimeModel, DecimalModel, TimeModel};
use crate::text;
use crate::value;
use crate::value::ValueModel;

verus! {

// ---------------------------------------------------------------------------
// Digits
// ---------------------------------------------------------------------------

/// What a digit counts, up to the hexadecimal ones.
pub open spec fn digit_of(c: char) -> Option<nat> {
    if '0' <= c <= '9' {
        Some((c as nat - '0' as nat) as nat)
    } else if 'a' <= c <= 'f' {
        Some((c as nat - 'a' as nat + 10) as nat)
    } else if 'A' <= c <= 'F' {
        Some((c as nat - 'A' as nat + 10) as nat)
    } else {
        None
    }
}

/// The number that digits stand for in a base, the first counting most.
pub open spec fn value_of(s: Seq<char>, base: nat) -> Option<nat>
    decreases s.len(),
{
    if s.len() == 0 {
        Some(0)
    } else {
        match (value_of(s.drop_last(), base), digit_of(s.last())) {
            (Some(front), Some(d)) => if d < base {
                Some(front * base + d)
            } else {
                None
            },
            _ => None,
        }
    }
}

/// A number in decimal digits, at least one of them.
pub open spec fn read_nat(s: Seq<char>) -> Option<nat> {
    if s.len() == 0 {
        None
    } else {
        value_of(s, 10)
    }
}

/// A number with a sign in front of it or none.
pub open spec fn read_int(s: Seq<char>) -> Option<int> {
    if s.len() > 0 && s[0] == '-' {
        match read_nat(s.skip(1)) {
            Some(n) => Some(-(n as int)),
            None => None,
        }
    } else if s.len() > 0 && s[0] == '+' {
        match read_nat(s.skip(1)) {
            Some(n) => Some(n as int),
            None => None,
        }
    } else {
        match read_nat(s) {
            Some(n) => Some(n as int),
            None => None,
        }
    }
}

/// Decimal digits read as what they are worth.
pub proof fn lemma_value_of_digits(s: Seq<char>)
    requires
        number::all_digits(s),
    ensures
        value_of(s, 10) == Some(number::digits_value(s)),
    decreases s.len(),
{
    if s.len() > 0 {
        assert(number::is_digit(s[s.len() - 1]));
        assert forall|i: int| 0 <= i < s.drop_last().len() implies number::is_digit(
            #[trigger] s.drop_last()[i],
        ) by {
            assert(number::is_digit(s[i]));
        }
        lemma_value_of_digits(s.drop_last());
    }
}

/// The decimal digits of a number read as that number.
pub proof fn lemma_nat_reads_back(n: nat)
    ensures
        read_nat(number::digits(n)) == Some(n),
        number::digits(n).len() > 0,
        number::all_digits(number::digits(n)),
{
    number::lemma_digits(n);
    lemma_value_of_digits(number::digits(n));
}

/// A number reads back, whatever its sign.
pub proof fn lemma_int_reads_back(n: int)
    ensures
        read_int(number::int_text(n)) == Some(n),
{
    if n < 0 {
        lemma_nat_reads_back((-n) as nat);
        assert(number::int_text(n).skip(1) =~= number::digits((-n) as nat));
    } else {
        lemma_nat_reads_back(n as nat);
        assert(number::is_digit(number::digits(n as nat)[0]));
    }
}

proof fn lemma_padded_reads_back(n: nat, width: nat)
    requires
        width >= 1,
        n < pow(10, width),
    ensures
        number::padded(n, width).len() == width,
        number::all_digits(number::padded(n, width)),
        read_nat(number::padded(n, width)) == Some(n),
{
    lossless::lemma_padded(n, width);
    lemma_value_of_digits(number::padded(n, width));
}

// ---------------------------------------------------------------------------
// Decimals
// ---------------------------------------------------------------------------

/// A number with a point in it or none: all its digits as a whole number, and
/// how many of them stand behind the point.
pub open spec fn read_unsigned_decimal(s: Seq<char>) -> Option<(nat, nat)> {
    let point = text::first_index(s, '.');
    if point >= s.len() {
        match read_nat(s) {
            Some(n) => Some((n, 0)),
            None => None,
        }
    } else {
        match (read_nat(s.take(point)), read_nat(s.skip(point + 1))) {
            (Some(whole), Some(part)) => {
                let scale = (s.len() - point - 1) as nat;
                Some(((whole * pow(10, scale) + part) as nat, scale))
            },
            _ => None,
        }
    }
}

/// A number with a point in it or none, and a minus sign in front of it or
/// none.
pub open spec fn read_decimal(s: Seq<char>) -> Option<(int, nat)> {
    if s.len() > 0 && s[0] == '-' {
        match read_unsigned_decimal(s.skip(1)) {
            Some((n, scale)) => Some((-(n as int), scale)),
            None => None,
        }
    } else {
        match read_unsigned_decimal(s) {
            Some((n, scale)) => Some((n as int, scale)),
            None => None,
        }
    }
}

/// A decimal reads back, its scale included.
pub proof fn lemma_decimal_reads_back(d: DecimalModel)
    ensures
        read_decimal(d.text()) == Some((d.signed(), d.scale)),
{
    lossless::lemma_decimal_parts(d);
    let whole = number::digits(lossless::whole_of(d));
    let body = whole + lossless::fraction_of(d);
    lemma_nat_reads_back(lossless::whole_of(d));
    assert(number::is_digit(whole[0]));
    assert(body[0] == whole[0]);
    if d.negative {
        assert(d.text().skip(1) =~= body);
        assert(d.text()[0] == '-');
    } else {
        assert(d.text() =~= body);
    }
    vstd::arithmetic::power::lemma_pow0(10);
    assert forall|k: int| 0 <= k < whole.len() implies body[k] != '.' by {
        assert(number::is_digit(whole[k]));
        assert(body[k] == whole[k]);
    }
    if d.scale == 0 {
        assert(body =~= whole);
        text::lemma_first_index_is(body, '.', body.len() as int);
        assert(lossless::part_of(d) == 0);
    } else {
        let part = number::padded(lossless::part_of(d), d.scale);
        assert(body[whole.len() as int] == '.');
        text::lemma_first_index_is(body, '.', whole.len() as int);
        assert(body.take(whole.len() as int) =~= whole);
        assert(body.skip(whole.len() as int + 1) =~= part);
        vstd::arithmetic::power::lemma_pow_positive(10, d.scale);
        vstd::arithmetic::div_mod::lemma_mod_bound(d.coefficient as int, pow(10, d.scale));
        lemma_padded_reads_back(lossless::part_of(d), d.scale);
        assert(read_unsigned_decimal(body) == Some((d.coefficient, d.scale)));
    }
}

// ---------------------------------------------------------------------------
// Bytes
// ---------------------------------------------------------------------------

/// The byte in the `k`-th pair of hexadecimal digits.
pub open spec fn pair_at(s: Seq<char>, k: int) -> Option<nat> {
    value_of(s.subrange(2 * k, 2 * k + 2), 16)
}

/// Whether a text is the pairs of hexadecimal digits of these bytes.
pub open spec fn is_pairs(s: Seq<char>, bytes: Seq<u8>) -> bool {
    &&& s.len() == 2 * bytes.len()
    &&& forall|k: int| 0 <= k < bytes.len() ==> pair_at(s, k) == Some(#[trigger] bytes[k] as nat)
}

/// Bytes read back from their pairs of digits.
pub proof fn lemma_hex_reads_back(bytes: Seq<u8>)
    ensures
        is_pairs(number::hex(bytes), bytes),
{
    let s = number::hex(bytes);
    assert forall|k: int| 0 <= k < bytes.len() implies pair_at(s, k) == Some(
        #[trigger] bytes[k] as nat,
    ) by {
        let pair = s.subrange(2 * k, 2 * k + 2);
        let b = bytes[k] as int;
        let hi = 2 * k;
        let lo = 2 * k + 1;
        assert(s[hi] == number::hex_digit(b / 16));
        assert(s[lo] == number::hex_digit(b % 16));
        assert(pair[0] == s[hi] && pair[1] == s[lo]);
        assert(pair.drop_last() =~= seq![pair[0]]);
        assert(pair.drop_last().drop_last() =~= Seq::<char>::empty());
        assert(digit_of(pair[0]) == Some((b / 16) as nat));
        assert(digit_of(pair[1]) == Some((b % 16) as nat));
        reveal_with_fuel(value_of, 3);
        assert(value_of(pair.drop_last(), 16) == Some((b / 16) as nat));
    }
}

/// A text without a character.
pub open spec fn without(s: Seq<char>, c: char) -> Seq<char>
    decreases s.len(),
{
    if s.len() == 0 {
        s
    } else if s.last() == c {
        without(s.drop_last(), c)
    } else {
        without(s.drop_last(), c).push(s.last())
    }
}

proof fn lemma_without_concat(a: Seq<char>, b: Seq<char>, c: char)
    ensures
        without(a + b, c) == without(a, c) + without(b, c),
    decreases b.len(),
{
    if b.len() == 0 {
        assert(a + b =~= a);
        assert(without(a, c) + b =~= without(a, c));
    } else {
        lemma_without_concat(a, b.drop_last(), c);
        assert((a + b).drop_last() =~= a + b.drop_last());
        assert(without(a + b, c) =~= without(a, c) + without(b, c));
    }
}

proof fn lemma_without_hex(bytes: Seq<u8>)
    ensures
        without(number::hex(bytes), '-') == number::hex(bytes),
{
    let s = number::hex(bytes);
    assert forall|i: int| 0 <= i < s.len() implies s[i] != '-' by {
        assert(s[i] == number::hex_digit(
            if i % 2 == 0 {
                bytes[i / 2] as int / 16
            } else {
                bytes[i / 2] as int % 16
            },
        ));
    }
    lemma_without_none(s, '-');
}

proof fn lemma_without_none(s: Seq<char>, c: char)
    requires
        forall|i: int| 0 <= i < s.len() ==> s[i] != c,
    ensures
        without(s, c) == s,
    decreases s.len(),
{
    if s.len() > 0 {
        assert(s.last() == s[s.len() - 1]);
        lemma_without_none(s.drop_last(), c);
        assert(s.drop_last().push(s.last()) =~= s);
    }
}

/// Whether a text is that of a UUID: without its hyphens, the pairs of
/// hexadecimal digits of its bytes.
pub open spec fn is_uuid(s: Seq<char>, bytes: Seq<u8>) -> bool {
    bytes.len() == 16 && is_pairs(without(s, '-'), bytes)
}

/// A UUID reads back, byte for byte, from its text.
#[verifier::spinoff_prover]
pub proof fn lemma_uuid_reads_back(bytes: Seq<u8>)
    requires
        bytes.len() == 16,
    ensures
        is_uuid(scalar::uuid_text(bytes), bytes),
        scalar::uuid_text(bytes).len() == 36,
{
    let h0 = number::hex(bytes.subrange(0, 4));
    let h1 = number::hex(bytes.subrange(4, 6));
    let h2 = number::hex(bytes.subrange(6, 8));
    let h3 = number::hex(bytes.subrange(8, 10));
    let h4 = number::hex(bytes.subrange(10, 16));
    let dash = seq!['-'];
    assert(without(dash, '-') =~= Seq::<char>::empty()) by {
        reveal_with_fuel(without, 2);
        assert(dash.last() == '-');
        assert(dash.drop_last() =~= Seq::<char>::empty());
    }
    lemma_without_hex(bytes.subrange(0, 4));
    lemma_without_hex(bytes.subrange(4, 6));
    lemma_without_hex(bytes.subrange(6, 8));
    lemma_without_hex(bytes.subrange(8, 10));
    lemma_without_hex(bytes.subrange(10, 16));
    lemma_without_concat(h0, dash, '-');
    lemma_without_concat(h0 + dash, h1, '-');
    lemma_without_concat(h0 + dash + h1, dash, '-');
    lemma_without_concat(h0 + dash + h1 + dash, h2, '-');
    lemma_without_concat(h0 + dash + h1 + dash + h2, dash, '-');
    lemma_without_concat(h0 + dash + h1 + dash + h2 + dash, h3, '-');
    lemma_without_concat(h0 + dash + h1 + dash + h2 + dash + h3, dash, '-');
    lemma_without_concat(h0 + dash + h1 + dash + h2 + dash + h3 + dash, h4, '-');
    let all = without(scalar::uuid_text(bytes), '-');
    assert(all =~= h0 + h1 + h2 + h3 + h4);
    lemma_hex_concat(bytes.subrange(0, 4), bytes.subrange(4, 6));
    lemma_hex_concat(bytes.subrange(0, 4) + bytes.subrange(4, 6), bytes.subrange(6, 8));
    lemma_hex_concat(
        bytes.subrange(0, 4) + bytes.subrange(4, 6) + bytes.subrange(6, 8),
        bytes.subrange(8, 10),
    );
    lemma_hex_concat(
        bytes.subrange(0, 4) + bytes.subrange(4, 6) + bytes.subrange(6, 8) + bytes.subrange(8, 10),
        bytes.subrange(10, 16),
    );
    assert(bytes.subrange(0, 4) + bytes.subrange(4, 6) + bytes.subrange(6, 8) + bytes.subrange(
        8,
        10,
    ) + bytes.subrange(10, 16) =~= bytes);
    assert(all == number::hex(bytes));
    lemma_hex_reads_back(bytes);
}

proof fn lemma_hex_concat(a: Seq<u8>, b: Seq<u8>)
    ensures
        number::hex(a + b) == number::hex(a) + number::hex(b),
{
    let whole = number::hex(a + b);
    let parts = number::hex(a) + number::hex(b);
    assert(whole.len() == parts.len());
    assert forall|i: int| 0 <= i < whole.len() implies whole[i] == parts[i] by {
        let n = 2 * a.len();
        if i >= n {
            assert((i - n) / 2 == i / 2 - a.len());
            assert((i - n) % 2 == i % 2);
            assert((a + b)[i / 2] == b[(i - n) / 2]);
        } else {
            assert((a + b)[i / 2] == a[i / 2]);
        }
    }
    assert(whole =~= parts);
}

// ---------------------------------------------------------------------------
// Dates and times
// ---------------------------------------------------------------------------

/// A day, by its last two digits, the two digits before them, and the year in
/// front of those.
pub open spec fn read_date(s: Seq<char>) -> Option<DateModel> {
    let n = s.len();
    if n < 7 || s[n - 3] != '-' || s[n - 6] != '-' {
        None
    } else {
        match (
            read_int(s.take(n - 6)),
            read_nat(s.subrange(n - 5, n - 3)),
            read_nat(s.subrange(n - 2, n as int)),
        ) {
            (Some(year), Some(month), Some(day)) => Some(
                DateModel { year, month: month as int, day: day as int },
            ),
            _ => None,
        }
    }
}

/// The nanoseconds in the fraction of a second.
pub open spec fn read_fraction(s: Seq<char>) -> Option<nat> {
    if s.len() == 0 {
        Some(0)
    } else if s[0] != '.' || s.len() > 10 {
        None
    } else {
        match read_nat(s.skip(1)) {
            Some(n) => Some((n * pow(10, (10 - s.len()) as nat)) as nat),
            None => None,
        }
    }
}

/// A time of day, by two digits each for hour, minute and second, and the
/// fraction of a second.
pub open spec fn read_time(s: Seq<char>) -> Option<TimeModel> {
    if s.len() < 8 || s[2] != ':' || s[5] != ':' {
        None
    } else {
        match (
            read_nat(s.subrange(0, 2)),
            read_nat(s.subrange(3, 5)),
            read_nat(s.subrange(6, 8)),
            read_fraction(s.skip(8)),
        ) {
            (Some(hour), Some(minute), Some(second), Some(nano)) => Some(
                TimeModel { hour, minute, second, nano },
            ),
            _ => None,
        }
    }
}

/// A day and a time of day, with a space between them.
pub open spec fn read_date_time(s: Seq<char>) -> Option<DateTimeModel> {
    let space = text::first_index(s, ' ');
    if space >= s.len() {
        None
    } else {
        match (read_date(s.take(space)), read_time(s.skip(space + 1))) {
            (Some(date), Some(time)) => Some(DateTimeModel { date, time }),
            _ => None,
        }
    }
}

/// A point in time, in UTC: a day and a time of day with a zero offset behind
/// them.
pub open spec fn read_moment(s: Seq<char>) -> Option<DateTimeModel> {
    let n = s.len() - 6;
    if n < 0 || s.skip(n) != seq!['+', '0', '0', ':', '0', '0'] {
        None
    } else {
        read_date_time(s.take(n))
    }
}

/// A time as its text says it: a leap second counts as the second behind it.
pub open spec fn as_read(t: TimeModel) -> TimeModel {
    TimeModel {
        hour: t.hour,
        minute: t.minute,
        second: t.second + t.nano / 1_000_000_000,
        nano: t.nano % 1_000_000_000,
    }
}

/// A day reads back.
#[verifier::spinoff_prover]
pub proof fn lemma_date_reads_back(d: DateModel)
    requires
        d.is_real(),
    ensures
        read_date(d.text()) == Some(d),
        !d.text().contains(' '),
{
    lossless::lemma_date_parts(d);
    lossless::lemma_small_powers();
    let year = lossless::year_text(d.year);
    let month = number::padded(d.month as nat, 2);
    let day = number::padded(d.day as nat, 2);
    let s = d.text();
    let n = s.len();
    lemma_padded_reads_back(d.month as nat, 2);
    lemma_padded_reads_back(d.day as nat, 2);
    assert(n == year.len() + 6);
    assert(s.take(n - 6) =~= year);
    assert(s.subrange(n - 5, n - 3) =~= month);
    assert(s.subrange(n - 2, n as int) =~= day);
    assert(s[n - 3] == '-' && s[n - 6] == '-');
    let size = if d.year < 0 {
        (-d.year) as nat
    } else {
        d.year as nat
    };
    lossless::lemma_wide(size);
    let digits = number::padded(size, 4);
    lemma_value_of_digits(digits);
    assert(number::is_digit(digits[0]));
    if 0 <= d.year <= 9999 {
        assert(year =~= digits);
    } else {
        assert(year.skip(1) =~= digits);
    }
    assert(read_int(year) == Some(d.year));
    assert(n >= 7);
}

#[verifier::spinoff_prover]
proof fn lemma_fraction_reads_back(t: TimeModel)
    ensures
        read_fraction(t.fraction()) == Some(t.nano % 1_000_000_000),
{
    lossless::lemma_small_powers();
    vstd::arithmetic::power::lemma_pow0(10);
    let nano = t.nano % 1_000_000_000;
    let f = t.fraction();
    if nano == 0 {
    } else if nano % 1_000_000 == 0 {
        lemma_padded_reads_back(nano / 1_000_000, 3);
        assert(f.skip(1) =~= number::padded(nano / 1_000_000, 3));
        assert(f[0] == '.' && f.len() == 4);
        assert((nano / 1_000_000) * 1_000_000 == nano);
    } else if nano % 1_000 == 0 {
        lemma_padded_reads_back(nano / 1_000, 6);
        assert(f.skip(1) =~= number::padded(nano / 1_000, 6));
        assert(f[0] == '.' && f.len() == 7);
        assert((nano / 1_000) * 1_000 == nano);
    } else {
        lemma_padded_reads_back(nano, 9);
        assert(f.skip(1) =~= number::padded(nano, 9));
        assert(f[0] == '.' && f.len() == 10);
    }
}

/// A time of day reads back; a leap second reads as the second behind it.
#[verifier::spinoff_prover]
pub proof fn lemma_time_reads_back(t: TimeModel)
    requires
        t.is_real(),
    ensures
        read_time(t.text()) == Some(as_read(t)),
{
    lossless::lemma_small_powers();
    let second = t.second + t.nano / 1_000_000_000;
    assert(second < 100);
    lemma_padded_reads_back(t.hour, 2);
    lemma_padded_reads_back(t.minute, 2);
    lemma_padded_reads_back(second, 2);
    lemma_fraction_reads_back(t);
    let s = t.text();
    assert(s.subrange(0, 2) =~= number::padded(t.hour, 2));
    assert(s.subrange(3, 5) =~= number::padded(t.minute, 2));
    assert(s.subrange(6, 8) =~= number::padded(second, 2));
    assert(s.skip(8) =~= t.fraction());
    assert(s[2] == ':' && s[5] == ':');
}

/// A day and a time of day read back.
pub proof fn lemma_date_time_reads_back(t: DateTimeModel)
    requires
        t.date.is_real(),
        t.time.is_real(),
    ensures
        read_date_time(t.naive_text()) == Some(
            DateTimeModel { date: t.date, time: as_read(t.time) },
        ),
        read_moment(t.utc_text()) == Some(DateTimeModel { date: t.date, time: as_read(t.time) }),
{
    lemma_date_reads_back(t.date);
    lemma_time_reads_back(t.time);
    let s = t.naive_text();
    let n = t.date.text().len() as int;
    assert(s[n] == ' ');
    assert forall|k: int| 0 <= k < n implies s[k] != ' ' by {
        assert(s[k] == t.date.text()[k]);
        assert(t.date.text().contains(t.date.text()[k]));
    }
    text::lemma_first_index_is(s, ' ', n);
    assert(s.take(n) =~= t.date.text());
    assert(s.skip(n + 1) =~= t.time.text());
    let u = t.utc_text();
    assert(u.take(u.len() - 6) =~= s);
    assert(u.skip(u.len() - 6) =~= seq!['+', '0', '0', ':', '0', '0']);
}

// ---------------------------------------------------------------------------
// Values
// ---------------------------------------------------------------------------

/// Which bits the server and the driver read in the text of a floating-point
/// number, single and double.
pub struct FloatReading {
    pub single: spec_fn(Seq<char>) -> u64,
    pub double: spec_fn(Seq<char>) -> u64,
}

/// Whether a column of a value's kind reads a text as this value. A decimal
/// goes by its number and a document by what it says; a text is itself.
pub open spec fn reads_as(s: Seq<char>, v: ValueModel, floats: FloatReading) -> bool {
    match v {
        ValueModel::Boolean(b) => s == seq![
            (if b {
                't'
            } else {
                'f'
            }),
        ],
        ValueModel::SmallInt(n) => read_int(s) == Some(n as int),
        ValueModel::Integer(n) => read_int(s) == Some(n as int),
        ValueModel::BigInt(n) => read_int(s) == Some(n as int),
        ValueModel::Decimal(d) => read_decimal(s) matches Some((n, scale)) && n * pow(10, d.scale)
            == d.signed() * pow(10, scale),
        ValueModel::Real(f) => (floats.single)(s) == f.bits,
        ValueModel::Double(f) => (floats.double)(s) == f.bits,
        ValueModel::Text(t) => s == t,
        ValueModel::Binary(b) => s.len() >= 2 && s[0] == '\\' && s[1] == 'x' && is_pairs(
            s.skip(2),
            b,
        ),
        ValueModel::Date(d) => read_date(s) == Some(d),
        ValueModel::Time(t) => read_time(s) == Some(as_read(t)),
        ValueModel::Timestamp(t) => read_moment(s) == Some(
            DateTimeModel { date: t.date, time: as_read(t.time) },
        ),
        ValueModel::TimestampNaive(t) => read_date_time(s) == Some(
            DateTimeModel { date: t.date, time: as_read(t.time) },
        ),
        ValueModel::Uuid(u) => is_uuid(s, u),
        ValueModel::Json(j) => scalar::same_document(s, j),
        ValueModel::Null | ValueModel::Array(_) => false,
    }
}

/// Whether an element of an array literal says a value.
pub open spec fn element_says(e: Element, v: ValueModel, floats: FloatReading) -> bool
    decreases v,
{
    match (e, v) {
        (Element::Null, ValueModel::Null) => true,
        (Element::Text(s), v) => reads_as(s, v, floats),
        (Element::List(es), ValueModel::Array(items)) => es.len() == items.len() && forall|i: int|
            0 <= i < items.len() ==> element_says(es[i], #[trigger] items[i], floats),
        _ => false,
    }
}

/// Whether a field of a bulk load says a value: an array by its literal, from
/// the first character to the last, and anything else by its text.
pub open spec fn field_says(
    field: Option<Seq<char>>,
    v: ValueModel,
    floats: FloatReading,
) -> bool {
    match (field, v) {
        (None, ValueModel::Null) => true,
        (Some(s), ValueModel::Array(_)) => laws::read_element(s) matches Some((e, rest))
            && rest.len() == 0 && element_says(e, v, floats),
        (Some(s), v) => reads_as(s, v, floats),
        _ => false,
    }
}

/// Whether a value is one of its kind: days and times are on the calendar and
/// the clock, a UUID has sixteen bytes, and a floating-point number is the one
/// that is read in its text.
pub open spec fn is_proper(v: ValueModel, floats: FloatReading) -> bool
    decreases v,
{
    match v {
        ValueModel::Real(f) => (floats.single)(f.text) == f.bits,
        ValueModel::Double(f) => (floats.double)(f.text) == f.bits,
        ValueModel::Date(d) => d.is_real(),
        ValueModel::Time(t) => t.is_real(),
        ValueModel::Timestamp(t) => t.date.is_real() && t.time.is_real(),
        ValueModel::TimestampNaive(t) => t.date.is_real() && t.time.is_real(),
        ValueModel::Uuid(u) => u.len() == 16,
        ValueModel::Array(items) => forall|i: int|
            0 <= i < items.len() ==> is_proper(#[trigger] items[i], floats),
        _ => true,
    }
}

/// The plain text of a value reads back as that value.
pub proof fn lemma_text_reads_back(v: ValueModel, floats: FloatReading)
    requires
        is_proper(v, floats),
        !(v is Null),
        !(v is Array),
    ensures
        reads_as(bulk::scalar_text(v), v, floats),
{
    match v {
        ValueModel::SmallInt(n) => lemma_int_reads_back(n as int),
        ValueModel::Integer(n) => lemma_int_reads_back(n as int),
        ValueModel::BigInt(n) => lemma_int_reads_back(n as int),
        ValueModel::Decimal(d) => lemma_decimal_reads_back(d),
        ValueModel::Binary(b) => {
            lemma_hex_reads_back(b);
            assert(bulk::scalar_text(v).skip(2) =~= number::hex(b));
        },
        ValueModel::Date(d) => lemma_date_reads_back(d),
        ValueModel::Time(t) => lemma_time_reads_back(t),
        ValueModel::Timestamp(t) => lemma_date_time_reads_back(t),
        ValueModel::TimestampNaive(t) => lemma_date_time_reads_back(t),
        ValueModel::Uuid(u) => lemma_uuid_reads_back(u),
        _ => {},
    }
}

proof fn lemma_element_says(v: ValueModel, floats: FloatReading)
    requires
        is_proper(v, floats),
    ensures
        element_says(laws::element_of(v), v, floats),
    decreases v,
{
    match v {
        ValueModel::Null => {},
        ValueModel::Array(items) => {
            laws::lemma_elements_of(items);
            assert forall|i: int| 0 <= i < items.len() implies element_says(
                laws::elements_of(items)[i],
                #[trigger] items[i],
                floats,
            ) by {
                assert(laws::elements_of(items)[i] == laws::element_of(items[i]));
                lemma_element_says(items[i], floats);
            }
        },
        _ => lemma_text_reads_back(v, floats),
    }
}

/// A cell that was written into a line of bulk data says its value, whatever
/// its kind: the field that the line is cut into, read as PostgreSQL reads a
/// field and then a text of that kind, gives back the value.
pub proof fn lemma_cell_says_its_value(v: ValueModel, floats: FloatReading)
    requires
        is_proper(v, floats),
    ensures
        field_says(laws::read_field(bulk::copy_value(v)), v, floats),
{
    laws::lemma_value_read_back(v);
    match v {
        ValueModel::Null => {},
        ValueModel::Array(_) => {
            let none = Seq::<char>::empty();
            laws::lemma_element_read_back(v, none);
            assert(bulk::element_text(v) + none =~= bulk::element_text(v));
            lemma_element_says(v, floats);
        },
        _ => lemma_text_reads_back(v, floats),
    }
}

// ---------------------------------------------------------------------------
// One text, one value
// ---------------------------------------------------------------------------

proof fn lemma_one_bytes(s: Seq<char>, a: Seq<u8>, b: Seq<u8>)
    requires
        is_pairs(s, a),
        is_pairs(s, b),
    ensures
        a == b,
{
    assert forall|k: int| 0 <= k < a.len() implies a[k] == b[k] by {
        assert(pair_at(s, k) == Some(a[k] as nat));
        assert(pair_at(s, k) == Some(b[k] as nat));
    }
    assert(a =~= b);
}

proof fn lemma_one_time(a: TimeModel, b: TimeModel)
    requires
        lossless::ordinary(a),
        lossless::ordinary(b),
        as_read(a) == as_read(b),
    ensures
        a == b,
{
    assert(a.nano / 1_000_000_000 == 0 && b.nano / 1_000_000_000 == 0);
    assert(a.nano % 1_000_000_000 == a.nano && b.nano % 1_000_000_000 == b.nano);
}

proof fn lemma_one_decimal(n: int, scale: nat, a: DecimalModel, b: DecimalModel)
    requires
        n * pow(10, a.scale) == a.signed() * pow(10, scale),
        n * pow(10, b.scale) == b.signed() * pow(10, scale),
    ensures
        a.same_number(b),
{
    let read = DecimalModel {
        negative: n < 0,
        coefficient: (if n < 0 {
            -n
        } else {
            n
        }) as nat,
        scale,
    };
    assert(read.signed() == n);
    assert(a.same_number(read));
    assert(read.same_number(b));
    value::lemma_same_number_is_transitive(a, read, b);
}

/// A text says at most one value of a kind: two values that it says are equal.
/// Leap seconds are left out, since their text is that of the second behind.
pub proof fn lemma_text_says_one_value(
    s: Seq<char>,
    a: ValueModel,
    b: ValueModel,
    floats: FloatReading,
)
    requires
        value::same_variant(a, b),
        reads_as(s, a, floats),
        reads_as(s, b, floats),
        lossless::distinct_text(a),
        lossless::distinct_text(b),
    ensures
        value::same_value(a, b),
{
    match (a, b) {
        (ValueModel::Boolean(x), ValueModel::Boolean(y)) => {
            assert(s[0] == if x {
                't'
            } else {
                'f'
            });
            assert(s[0] == if y {
                't'
            } else {
                'f'
            });
        },
        (ValueModel::Decimal(x), ValueModel::Decimal(y)) => {
            let (n, scale) = read_decimal(s)->0;
            lemma_one_decimal(n, scale, x, y);
        },
        (ValueModel::Binary(x), ValueModel::Binary(y)) => lemma_one_bytes(s.skip(2), x, y),
        (ValueModel::Time(x), ValueModel::Time(y)) => lemma_one_time(x, y),
        (ValueModel::Timestamp(x), ValueModel::Timestamp(y)) => lemma_one_time(x.time, y.time),
        (ValueModel::TimestampNaive(x), ValueModel::TimestampNaive(y)) => lemma_one_time(
            x.time,
            y.time,
        ),
        (ValueModel::Uuid(x), ValueModel::Uuid(y)) => lemma_one_bytes(without(s, '-'), x, y),
        _ => {},
    }
}

} // verus!
