//! Cell values whose text form a library of their own decides: decimals,
//! dates and times, UUIDs, JSON documents and floating-point numbers.
//!
//! Each is held as plain integers or text, with its range as an invariant.
use vstd::arithmetic::power::pow;
use vstd::prelude::*;

use chrono::Timelike;

use crate::number;

verus! {

// ---------------------------------------------------------------------------
// Decimals
// ---------------------------------------------------------------------------

/// What a decimal says: `coefficient / 10^scale`, with a sign that a zero may
/// carry too.
pub struct DecimalModel {
    pub negative: bool,
    pub coefficient: nat,
    pub scale: nat,
}

impl DecimalModel {
    pub open spec fn in_range(self) -> bool {
        self.coefficient < 0x1_0000_0000_0000_0000_0000_0000 && self.scale <= 28
    }

    /// The coefficient with its sign.
    pub open spec fn signed(self) -> int {
        if self.negative {
            -(self.coefficient as int)
        } else {
            self.coefficient as int
        }
    }

    /// Whether both stand for the same number, whatever their scales.
    pub open spec fn same_number(self, other: DecimalModel) -> bool {
        self.signed() * pow(10, other.scale) == other.signed() * pow(10, self.scale)
    }

    /// The number in decimal notation, with exactly `scale` digits behind the
    /// point and no point where there are none.
    pub open spec fn text(self) -> Seq<char> {
        let unit = pow(10, self.scale);
        let sign = if self.negative {
            seq!['-']
        } else {
            Seq::<char>::empty()
        };
        let whole = number::digits((self.coefficient as int / unit) as nat);
        let fraction = if self.scale == 0 {
            Seq::<char>::empty()
        } else {
            seq!['.'] + number::padded((self.coefficient as int % unit) as nat, self.scale)
        };
        sign + whole + fraction
    }
}

/// A decimal of up to 96 bits with up to 28 digits behind the point.
#[derive(Debug, Clone, Copy)]
pub struct DecimalValue {
    negative: bool,
    coefficient: u128,
    scale: u32,
}

impl View for DecimalValue {
    type V = DecimalModel;

    closed spec fn view(&self) -> DecimalModel {
        DecimalModel {
            negative: self.negative,
            coefficient: self.coefficient as nat,
            scale: self.scale as nat,
        }
    }
}

/// `rust_decimal::Decimal`'s `Display`, on the decimal with this sign,
/// coefficient and scale: the sign, the whole part without leading zeros, and
/// behind a point exactly `scale` digits.
#[verifier::external_body]
fn render_decimal(negative: bool, coefficient: u128, scale: u32) -> (r: String)
    requires
        coefficient < 0x1_0000_0000_0000_0000_0000_0000,
        scale <= 28,
    ensures
        r@ == (DecimalModel {
            negative,
            coefficient: coefficient as nat,
            scale: scale as nat,
        }).text(),
{
    let mut d = rust_decimal::Decimal::from_i128_with_scale(coefficient as i128, scale);
    d.set_sign_negative(negative);
    d.to_string()
}

/// `rust_decimal::Decimal`'s `==`: the two stand for the same number,
/// whatever their scales.
#[verifier::external_body]
fn equal_decimals(
    left_negative: bool,
    left: u128,
    left_scale: u32,
    right_negative: bool,
    right: u128,
    right_scale: u32,
) -> (r: bool)
    requires
        left < 0x1_0000_0000_0000_0000_0000_0000,
        right < 0x1_0000_0000_0000_0000_0000_0000,
        left_scale <= 28,
        right_scale <= 28,
    ensures
        r == (DecimalModel {
            negative: left_negative,
            coefficient: left as nat,
            scale: left_scale as nat,
        }).same_number(
            (DecimalModel {
                negative: right_negative,
                coefficient: right as nat,
                scale: right_scale as nat,
            }),
        ),
{
    let mut a = rust_decimal::Decimal::from_i128_with_scale(left as i128, left_scale);
    a.set_sign_negative(left_negative);
    let mut b = rust_decimal::Decimal::from_i128_with_scale(right as i128, right_scale);
    b.set_sign_negative(right_negative);
    a == b
}

impl DecimalValue {
    #[verifier::type_invariant]
    spec fn wf(self) -> bool {
        self.coefficient < 0x1_0000_0000_0000_0000_0000_0000 && self.scale <= 28
    }

    /// The decimal `coefficient / 10^scale`, where it is in range.
    pub fn new(negative: bool, coefficient: u128, scale: u32) -> (r: Option<DecimalValue>)
        ensures
            ({
                let model = DecimalModel {
                    negative,
                    coefficient: coefficient as nat,
                    scale: scale as nat,
                };
                match r {
                    Some(d) => model.in_range() && d@ == model,
                    None => !model.in_range(),
                }
            }),
    {
        if coefficient < 0x1_0000_0000_0000_0000_0000_0000 && scale <= 28 {
            Some(DecimalValue { negative, coefficient, scale })
        } else {
            None
        }
    }

    /// The whole number `n`.
    pub fn from_u64(n: u64) -> (r: DecimalValue)
        ensures
            r@ == (DecimalModel { negative: false, coefficient: n as nat, scale: 0 }),
    {
        DecimalValue { negative: false, coefficient: n as u128, scale: 0 }
    }

    pub fn negative(&self) -> (r: bool)
        ensures
            r == self@.negative,
    {
        self.negative
    }

    pub fn coefficient(&self) -> (r: u128)
        ensures
            r == self@.coefficient,
    {
        self.coefficient
    }

    pub fn scale(&self) -> (r: u32)
        ensures
            r == self@.scale,
    {
        self.scale
    }

    /// The decimal as text.
    pub fn text(&self) -> (r: String)
        ensures
            r@ == self@.text(),
    {
        proof {
            use_type_invariant(self);
        }
        render_decimal(self.negative, self.coefficient, self.scale)
    }

    /// Whether both stand for the same number.
    pub fn same_number(&self, other: &DecimalValue) -> (r: bool)
        ensures
            r == self@.same_number(other@),
    {
        proof {
            use_type_invariant(self);
            use_type_invariant(other);
        }
        equal_decimals(
            self.negative,
            self.coefficient,
            self.scale,
            other.negative,
            other.coefficient,
            other.scale,
        )
    }
}

// ---------------------------------------------------------------------------
// Dates and times
// ---------------------------------------------------------------------------

pub open spec fn is_leap_year(year: int) -> bool {
    year % 4 == 0 && (year % 100 != 0 || year % 400 == 0)
}

pub open spec fn days_in_month(year: int, month: int) -> int {
    if month == 2 {
        if is_leap_year(year) {
            29
        } else {
            28
        }
    } else if month == 4 || month == 6 || month == 9 || month == 11 {
        30
    } else {
        31
    }
}

/// A day of the proleptic Gregorian calendar.
pub struct DateModel {
    pub year: int,
    pub month: int,
    pub day: int,
}

impl DateModel {
    pub open spec fn is_real(self) -> bool {
        &&& -262143 <= self.year <= 262142
        &&& 1 <= self.month <= 12
        &&& 1 <= self.day <= days_in_month(self.year, self.month)
    }

    /// `YYYY-MM-DD`, with a sign in front of a year that has not four digits.
    pub open spec fn text(self) -> Seq<char> {
        let year = if 0 <= self.year <= 9999 {
            number::padded(self.year as nat, 4)
        } else if self.year < 0 {
            seq!['-'] + number::padded((-self.year) as nat, 4)
        } else {
            seq!['+'] + number::padded(self.year as nat, 4)
        };
        year + seq!['-'] + number::padded(self.month as nat, 2) + seq!['-'] + number::padded(
            self.day as nat,
            2,
        )
    }
}

/// A time of day. A leap second is second 59 with a billion or more
/// nanoseconds.
pub struct TimeModel {
    pub hour: nat,
    pub minute: nat,
    pub second: nat,
    pub nano: nat,
}

impl TimeModel {
    pub open spec fn is_real(self) -> bool {
        self.hour < 24 && self.minute < 60 && self.second < 60 && self.nano < 2_000_000_000
    }

    /// The fraction of a second in three, six or nine digits, as many as it
    /// takes; nothing for a whole second.
    pub open spec fn fraction(self) -> Seq<char> {
        let nano = self.nano % 1_000_000_000;
        if nano == 0 {
            Seq::<char>::empty()
        } else if nano % 1_000_000 == 0 {
            seq!['.'] + number::padded(nano / 1_000_000, 3)
        } else if nano % 1_000 == 0 {
            seq!['.'] + number::padded(nano / 1_000, 6)
        } else {
            seq!['.'] + number::padded(nano, 9)
        }
    }

    /// `HH:MM:SS` and the fraction of a second.
    pub open spec fn text(self) -> Seq<char> {
        number::padded(self.hour, 2) + seq![':'] + number::padded(self.minute, 2) + seq![':']
            + number::padded(self.second + self.nano / 1_000_000_000, 2) + self.fraction()
    }
}

/// A day and a time of day.
pub struct DateTimeModel {
    pub date: DateModel,
    pub time: TimeModel,
}

impl DateTimeModel {
    /// The date, a space, and the time.
    pub open spec fn naive_text(self) -> Seq<char> {
        self.date.text() + seq![' '] + self.time.text()
    }

    /// The same, with the offset of UTC behind it.
    pub open spec fn utc_text(self) -> Seq<char> {
        self.naive_text() + seq!['+', '0', '0', ':', '0', '0']
    }
}

/// A calendar day between the years -262143 and 262142.
#[derive(Debug, Clone, Copy)]
pub struct DateValue {
    year: i32,
    month: u32,
    day: u32,
}

impl View for DateValue {
    type V = DateModel;

    closed spec fn view(&self) -> DateModel {
        DateModel { year: self.year as int, month: self.month as int, day: self.day as int }
    }
}

/// A time of day to the nanosecond.
#[derive(Debug, Clone, Copy)]
pub struct TimeValue {
    hour: u32,
    minute: u32,
    second: u32,
    nano: u32,
}

impl View for TimeValue {
    type V = TimeModel;

    closed spec fn view(&self) -> TimeModel {
        TimeModel {
            hour: self.hour as nat,
            minute: self.minute as nat,
            second: self.second as nat,
            nano: self.nano as nat,
        }
    }
}

/// A day and a time of day, without saying in which time zone.
#[derive(Debug, Clone, Copy)]
pub struct DateTimeValue {
    pub date: DateValue,
    pub time: TimeValue,
}

impl View for DateTimeValue {
    type V = DateTimeModel;

    open spec fn view(&self) -> DateTimeModel {
        DateTimeModel { date: self.date@, time: self.time@ }
    }
}

/// `chrono::NaiveDate`'s `Display`, on the day that
/// `NaiveDate::from_ymd_opt` makes of the arguments: year, month and day
/// joined by hyphens.
#[verifier::external_body]
fn render_date(year: i32, month: u32, day: u32) -> (r: String)
    requires
        (DateModel { year: year as int, month: month as int, day: day as int }).is_real(),
    ensures
        r@ == (DateModel { year: year as int, month: month as int, day: day as int }).text(),
{
    chrono::NaiveDate::from_ymd_opt(year, month, day).unwrap().to_string()
}

/// `chrono::NaiveTime`'s `Display`, on the time with these parts: hour,
/// minute and second joined by colons, and the fraction of a second in three,
/// six or nine digits.
#[verifier::external_body]
fn render_time(hour: u32, minute: u32, second: u32, nano: u32) -> (r: String)
    requires
        (TimeModel {
            hour: hour as nat,
            minute: minute as nat,
            second: second as nat,
            nano: nano as nat,
        }).is_real(),
    ensures
        r@ == (TimeModel {
            hour: hour as nat,
            minute: minute as nat,
            second: second as nat,
            nano: nano as nat,
        }).text(),
{
    let time = chrono::NaiveTime::from_hms_opt(hour, minute, second).unwrap();
    time.with_nanosecond(nano).unwrap().to_string()
}

/// `chrono::NaiveDateTime::format` with the pattern `%Y-%m-%d %H:%M:%S%.f`:
/// the date, a space, the time, and the fraction of a second where there is
/// one.
#[verifier::external_body]
fn render_naive(date: (i32, u32, u32), time: (u32, u32, u32, u32)) -> (r: String)
    requires
        date_of_parts(date).is_real(),
        time_of_parts(time).is_real(),
    ensures
        r@ == (DateTimeModel { date: date_of_parts(date), time: time_of_parts(time) }).naive_text(),
{
    let day = chrono::NaiveDate::from_ymd_opt(date.0, date.1, date.2).unwrap();
    let clock = chrono::NaiveTime::from_hms_opt(time.0, time.1, time.2).unwrap();
    let clock = clock.with_nanosecond(time.3).unwrap();
    day.and_time(clock).format("%Y-%m-%d %H:%M:%S%.f").to_string()
}

/// `chrono::DateTime::<Utc>::format` with the pattern
/// `%Y-%m-%d %H:%M:%S%.f%:z`: as for the naive pattern, followed by the
/// offset of UTC.
#[verifier::external_body]
fn render_utc(date: (i32, u32, u32), time: (u32, u32, u32, u32)) -> (r: String)
    requires
        date_of_parts(date).is_real(),
        time_of_parts(time).is_real(),
    ensures
        r@ == (DateTimeModel { date: date_of_parts(date), time: time_of_parts(time) }).utc_text(),
{
    let day = chrono::NaiveDate::from_ymd_opt(date.0, date.1, date.2).unwrap();
    let clock = chrono::NaiveTime::from_hms_opt(time.0, time.1, time.2).unwrap();
    let clock = clock.with_nanosecond(time.3).unwrap();
    day.and_time(clock).and_utc().format("%Y-%m-%d %H:%M:%S%.f%:z").to_string()
}

/// The day with this year, month and day.
pub open spec fn date_of_parts(p: (i32, u32, u32)) -> DateModel {
    DateModel { year: p.0 as int, month: p.1 as int, day: p.2 as int }
}

/// The time with this hour, minute, second and nanosecond.
pub open spec fn time_of_parts(p: (u32, u32, u32, u32)) -> TimeModel {
    TimeModel { hour: p.0 as nat, minute: p.1 as nat, second: p.2 as nat, nano: p.3 as nat }
}

fn month_length(year: i32, month: u32) -> (r: u32)
    requires
        -262143 <= year <= 262142,
    ensures
        r == days_in_month(year as int, month as int),
{
    if month == 2 {
        // Shifted by a multiple of 400 years, so that the remainders are
        // taken of a non-negative number.
        let shifted: u32 = (year + 262400) as u32;
        assert(shifted as int % 4 == year as int % 4);
        assert(shifted as int % 100 == year as int % 100);
        assert(shifted as int % 400 == year as int % 400);
        if shifted % 4 == 0 && (shifted % 100 != 0 || shifted % 400 == 0) {
            29
        } else {
            28
        }
    } else if month == 4 || month == 6 || month == 9 || month == 11 {
        30
    } else {
        31
    }
}

impl DateValue {
    #[verifier::type_invariant]
    spec fn wf(self) -> bool {
        (DateModel { year: self.year as int, month: self.month as int, day: self.day as int }).is_real()
    }

    /// The day with this year, month and day of the month, where there is one.
    pub fn new(year: i32, month: u32, day: u32) -> (r: Option<DateValue>)
        ensures
            match r {
                Some(d) => d@ == date_of_parts((year, month, day)) && d@.is_real(),
                None => !date_of_parts((year, month, day)).is_real(),
            },
    {
        if year < -262143 || year > 262142 || month < 1 || month > 12 || day < 1 {
            return None;
        }
        if day > month_length(year, month) {
            return None;
        }
        Some(DateValue { year, month, day })
    }

    /// Year, month and day of the month.
    pub fn parts(&self) -> (r: (i32, u32, u32))
        ensures
            date_of_parts(r) == self@,
            self@.is_real(),
    {
        proof {
            use_type_invariant(self);
        }
        (self.year, self.month, self.day)
    }

    /// The day as text.
    pub fn text(&self) -> (r: String)
        ensures
            r@ == self@.text(),
    {
        proof {
            use_type_invariant(self);
        }
        render_date(self.year, self.month, self.day)
    }

    pub fn same_day(&self, other: &DateValue) -> (r: bool)
        ensures
            r == (self@ == other@),
    {
        self.year == other.year && self.month == other.month && self.day == other.day
    }
}

impl TimeValue {
    #[verifier::type_invariant]
    spec fn wf(self) -> bool {
        self.hour < 24 && self.minute < 60 && self.second < 60 && self.nano < 2_000_000_000
    }

    /// The time of day with these parts, where there is one.
    pub fn new(hour: u32, minute: u32, second: u32, nano: u32) -> (r: Option<TimeValue>)
        ensures
            match r {
                Some(t) => t@ == time_of_parts((hour, minute, second, nano)) && t@.is_real(),
                None => !time_of_parts((hour, minute, second, nano)).is_real(),
            },
    {
        if hour < 24 && minute < 60 && second < 60 && nano < 2_000_000_000 {
            Some(TimeValue { hour, minute, second, nano })
        } else {
            None
        }
    }

    /// Hour, minute, second and nanosecond.
    pub fn parts(&self) -> (r: (u32, u32, u32, u32))
        ensures
            time_of_parts(r) == self@,
            self@.is_real(),
    {
        proof {
            use_type_invariant(self);
        }
        (self.hour, self.minute, self.second, self.nano)
    }

    /// The time as text.
    pub fn text(&self) -> (r: String)
        ensures
            r@ == self@.text(),
    {
        proof {
            use_type_invariant(self);
        }
        render_time(self.hour, self.minute, self.second, self.nano)
    }

    pub fn same_time(&self, other: &TimeValue) -> (r: bool)
        ensures
            r == (self@ == other@),
    {
        self.hour == other.hour && self.minute == other.minute && self.second == other.second
            && self.nano == other.nano
    }
}

impl DateTimeValue {
    /// The date and time as text, without an offset.
    pub fn naive_text(&self) -> (r: String)
        ensures
            r@ == self@.naive_text(),
    {
        render_naive(self.date.parts(), self.time.parts())
    }

    /// The date and time as text, with the offset of UTC.
    pub fn utc_text(&self) -> (r: String)
        ensures
            r@ == self@.utc_text(),
    {
        render_utc(self.date.parts(), self.time.parts())
    }

    pub fn same_moment(&self, other: &DateTimeValue) -> (r: bool)
        ensures
            r == (self@ == other@),
    {
        self.date.same_day(&other.date) && self.time.same_time(&other.time)
    }
}

// ---------------------------------------------------------------------------
// UUIDs
// ---------------------------------------------------------------------------

/// The hyphenated form of a UUID: its hexadecimal digits in groups of 8, 4,
/// 4, 4 and 12.
pub open spec fn uuid_text(b: Seq<u8>) -> Seq<char> {
    number::hex(b.subrange(0, 4)) + seq!['-'] + number::hex(b.subrange(4, 6)) + seq!['-']
        + number::hex(b.subrange(6, 8)) + seq!['-'] + number::hex(b.subrange(8, 10)) + seq!['-']
        + number::hex(b.subrange(10, 16))
}

/// Different UUIDs are written differently.
#[verifier::spinoff_prover]
pub proof fn lemma_same_uuid(a: Seq<u8>, b: Seq<u8>)
    requires
        a.len() == 16,
        b.len() == 16,
        uuid_text(a) == uuid_text(b),
    ensures
        a == b,
{
    let t = uuid_text(a);
    assert(t.subrange(0, 8) =~= number::hex(a.subrange(0, 4)));
    assert(t.subrange(0, 8) =~= number::hex(b.subrange(0, 4)));
    assert(t.subrange(9, 13) =~= number::hex(a.subrange(4, 6)));
    assert(t.subrange(9, 13) =~= number::hex(b.subrange(4, 6)));
    assert(t.subrange(14, 18) =~= number::hex(a.subrange(6, 8)));
    assert(t.subrange(14, 18) =~= number::hex(b.subrange(6, 8)));
    assert(t.subrange(19, 23) =~= number::hex(a.subrange(8, 10)));
    assert(t.subrange(19, 23) =~= number::hex(b.subrange(8, 10)));
    assert(t.subrange(24, 36) =~= number::hex(a.subrange(10, 16)));
    assert(t.subrange(24, 36) =~= number::hex(b.subrange(10, 16)));
    number::lemma_same_hex(a.subrange(0, 4), b.subrange(0, 4));
    number::lemma_same_hex(a.subrange(4, 6), b.subrange(4, 6));
    number::lemma_same_hex(a.subrange(6, 8), b.subrange(6, 8));
    number::lemma_same_hex(a.subrange(8, 10), b.subrange(8, 10));
    number::lemma_same_hex(a.subrange(10, 16), b.subrange(10, 16));
    assert(a =~= a.subrange(0, 4) + a.subrange(4, 6) + a.subrange(6, 8) + a.subrange(8, 10)
        + a.subrange(10, 16));
    assert(b =~= b.subrange(0, 4) + b.subrange(4, 6) + b.subrange(6, 8) + b.subrange(8, 10)
        + b.subrange(10, 16));
}

/// `uuid::Uuid`'s `Display`: the hyphenated form in lower case.
#[verifier::external_body]
pub(crate) fn render_uuid(bytes: &[u8; 16]) -> (r: String)
    ensures
        r@ == uuid_text(bytes@),
{
    uuid::Uuid::from_bytes(*bytes).to_string()
}

/// `uuid::Uuid::new_v4`: random bytes, but for the version 4 in the upper half
/// of byte 6 and the variant in the upper two bits of byte 8. Which bytes come
/// is left to chance, and two calls may differ.
#[verifier::external_body]
pub(crate) fn random_uuid() -> (r: [u8; 16])
    ensures
        r@[6] / 16 == 4,
        r@[8] / 64 == 2,
{
    uuid::Uuid::new_v4().into_bytes()
}

/// Whether two UUIDs are the same.
pub fn same_uuid(a: &[u8; 16], b: &[u8; 16]) -> (r: bool)
    ensures
        r == (a@ == b@),
{
    for i in 0..16usize
        invariant
            forall|k: int| 0 <= k < i ==> a@[k] == b@[k],
    {
        if a[i] != b[i] {
            return false;
        }
    }
    assert(a@ =~= b@);
    true
}

// ---------------------------------------------------------------------------
// JSON documents
// ---------------------------------------------------------------------------

/// What `serde_json` makes of a text: the compact form of the document that
/// it holds, or nothing where it is no JSON document.
pub uninterp spec fn compact_json(text: Seq<char>) -> Option<Seq<char>>;

/// Which document `serde_json` reads in a text, as a number: two texts have
/// the same one where `serde_json` takes their documents for equal, and a text
/// that is no JSON document has none.
pub uninterp spec fn json_document(text: Seq<char>) -> Option<int>;

/// `serde_json::from_str` into `serde_json::Value`, and the `Display` of that
/// value: the compact form of the document, if `text` is one. The same texts
/// are documents here as in a comparison.
#[verifier::external_body]
fn read_json(text: &str) -> (r: Option<String>)
    ensures
        match r {
            Some(s) => compact_json(text@) == Some(s@),
            None => compact_json(text@) is None,
        },
        r is Some == json_document(text@) is Some,
{
    match serde_json::from_str::<serde_json::Value>(text) {
        Ok(value) => Some(value.to_string()),
        Err(_) => None,
    }
}

/// `serde_json::Value`'s `==`, on the documents that `serde_json::from_str`
/// reads; false where either text is none, or is nested too deeply for that
/// parser. That documents can be told apart by a number says that `==` is an
/// equivalence, which `serde_json` promises by implementing `Eq` for its
/// values.
#[verifier::external_body]
fn compare_json(a: &str, b: &str) -> (r: bool)
    ensures
        r == (json_document(a@) is Some && json_document(a@) == json_document(b@)),
{
    let left = serde_json::from_str::<serde_json::Value>(a);
    let right = serde_json::from_str::<serde_json::Value>(b);
    match (left, right) {
        (Ok(x), Ok(y)) => x == y,
        _ => false,
    }
}

/// A JSON document, held in its compact form, however deeply it is nested.
#[derive(Debug)]
pub struct JsonDocument {
    text: String,
}

impl View for JsonDocument {
    type V = Seq<char>;

    closed spec fn view(&self) -> Seq<char> {
        self.text@
    }
}

/// Whether two documents in their compact form are equal. The same text is
/// the same document; other texts may still differ only in how a number is
/// written.
pub open spec fn same_document(a: Seq<char>, b: Seq<char>) -> bool {
    a == b || (json_document(a) is Some && json_document(a) == json_document(b))
}

impl JsonDocument {
    /// The document whose compact form this is, as its owner has printed it.
    /// The text is not parsed, so that no depth of nesting is too much.
    pub fn from_compact(text: String) -> (r: JsonDocument)
        ensures
            r@ == text@,
    {
        JsonDocument { text }
    }

    /// The document that `text` holds, or nothing where it is no JSON that the
    /// parser reads.
    pub fn parse(text: &str) -> (r: Option<JsonDocument>)
        ensures
            match r {
                Some(d) => compact_json(text@) == Some(d@),
                None => compact_json(text@) is None,
            },
            r is Some == json_document(text@) is Some,
    {
        match read_json(text) {
            Some(text) => Some(JsonDocument { text }),
            None => None,
        }
    }

    /// The document in its compact form.
    pub fn as_str(&self) -> (r: &str)
        ensures
            r@ == self@,
    {
        self.text.as_str()
    }

    pub fn same_document(&self, other: &JsonDocument) -> (r: bool)
        ensures
            r == same_document(self@, other@),
    {
        self.text == other.text || compare_json(self.text.as_str(), other.text.as_str())
    }
}

impl Clone for JsonDocument {
    fn clone(&self) -> (r: JsonDocument)
        ensures
            r@ == self@,
    {
        JsonDocument { text: self.text.clone() }
    }
}

// ---------------------------------------------------------------------------
// Floating-point numbers
// ---------------------------------------------------------------------------

/// The characters that need no escape in a line of bulk data.
pub open spec fn is_plain(c: char) -> bool {
    c != '\\' && c != '\t' && c != '\n' && c != '\r'
}

pub open spec fn all_plain(s: Seq<char>) -> bool {
    forall|i: int| 0 <= i < s.len() ==> is_plain(#[trigger] s[i])
}

/// What a floating-point number says: its bits, and its text form.
pub struct FloatModel {
    pub bits: u64,
    pub text: Seq<char>,
}

/// A floating-point number as its IEEE 754 bits (those of a single-precision
/// number in the lower half) and the text that it is written as. The text is
/// a plain token: it holds nothing that a line of bulk data must escape.
#[derive(Debug)]
pub struct FloatValue {
    bits: u64,
    text: String,
}

impl View for FloatValue {
    type V = FloatModel;

    closed spec fn view(&self) -> FloatModel {
        FloatModel { bits: self.bits, text: self.text@ }
    }
}

impl FloatValue {
    #[verifier::type_invariant]
    spec fn wf(self) -> bool {
        all_plain(self.text@)
    }

    /// The number with these bits, written as `text`; nothing where `text` is
    /// no plain token.
    pub fn new(bits: u64, text: String) -> (r: Option<FloatValue>)
        ensures
            match r {
                Some(f) => all_plain(text@) && f@ == (FloatModel { bits, text: text@ }),
                None => !all_plain(text@),
            },
    {
        for c in it: text.as_str().chars()
            invariant
                it.seq() == text@,
                forall|k: int| 0 <= k < it.index() ==> is_plain(#[trigger] text@[k]),
        {
            if c == '\\' || c == '\t' || c == '\n' || c == '\r' {
                assert(!is_plain(text@[it.index() as int]));
                return None;
            }
        }
        Some(FloatValue { bits, text })
    }

    pub fn bits(&self) -> (r: u64)
        ensures
            r == self@.bits,
    {
        self.bits
    }

    /// The number as text.
    pub fn as_str(&self) -> (r: &str)
        ensures
            r@ == self@.text,
            all_plain(r@),
    {
        proof {
            use_type_invariant(self);
        }
        self.text.as_str()
    }
}

impl Clone for FloatValue {
    fn clone(&self) -> (r: FloatValue)
        ensures
            r@ == self@,
    {
        proof {
            use_type_invariant(self);
        }
        FloatValue { bits: self.bits, text: self.text.clone() }
    }
}

// ---------------------------------------------------------------------------
// The calendar
// ---------------------------------------------------------------------------

/// How many days a year has.
pub open spec fn days_in_year(year: int) -> int {
    days_in_month(year, 1) + days_in_month(year, 2) + days_in_month(year, 3) + days_in_month(
        year,
        4,
    ) + days_in_month(year, 5) + days_in_month(year, 6) + days_in_month(year, 7) + days_in_month(
        year,
        8,
    ) + days_in_month(year, 9) + days_in_month(year, 10) + days_in_month(year, 11)
        + days_in_month(year, 12)
}

/// How many days the years before one have, counted from the year zero.
pub open spec fn days_before(year: nat) -> int
    decreases year,
{
    if year == 0 {
        0
    } else {
        days_before((year - 1) as nat) + days_in_year(year - 1)
    }
}

/// The calendar is the Gregorian one: every four centuries it has the same
/// 146 097 days, a century has 36 524 but for the first of the four, and no
/// month has fewer than 28 days or more than 31.
pub proof fn lemma_calendar(year: int, month: int)
    ensures
        28 <= days_in_month(year, month) <= 31,
        days_in_month(year + 400, month) == days_in_month(year, month),
        days_in_year(year) == if year % 4 == 0 && year % 100 != 0 || year % 400 == 0 {
            366int
        } else {
            365int
        },
        days_before(100) == 36_525,
        days_before(200) - days_before(100) == 36_524,
        days_before(300) - days_before(200) == 36_524,
        days_before(400) == 146_097,
{
    assert((year + 400) % 4 == year % 4);
    assert((year + 400) % 100 == year % 100);
    assert((year + 400) % 400 == year % 400);
    lemma_days_before(100);
    lemma_days_before(200);
    lemma_days_before(300);
    lemma_days_before(400);
}

/// A year has a day for each leap year before it beside its 365.
proof fn lemma_days_before(year: nat)
    requires
        year <= 400,
    ensures
        year > 0 ==> days_before(year) == 365 * year + (year - 1) / 4 - (year - 1) / 100 + 1,
    decreases year,
{
    if year > 0 {
        let last = (year - 1) as nat;
        lemma_days_before(last);
        if last == 0 {
            reveal_with_fuel(days_before, 2);
        }
        assert(days_in_year(last as int) == if is_leap_year(last as int) {
            366int
        } else {
            365int
        });
        assert(last > 0 ==> last % 400 != 0);
    }
}

} // verus!
