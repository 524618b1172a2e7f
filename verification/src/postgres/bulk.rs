//! Rows as PostgreSQL's `COPY` text format.
use vstd::prelude::*;

use crate::number;
use crate::postgres::dialect;
use crate::postgres::laws;
use crate::postgres::reading;
use crate::postgres::statements;
use crate::scalar;
use crate::schema::TableRef;
use crate::text;
use crate::value::{Row, Value, ValueModel};

verus! {

// ---------------------------------------------------------------------------
// The format
// ---------------------------------------------------------------------------

/// The plain text of a value that is neither null nor an array.
pub open spec fn scalar_text(v: ValueModel) -> Seq<char> {
    match v {
        ValueModel::Null => Seq::<char>::empty(),
        ValueModel::Boolean(b) => if b {
            seq!['t']
        } else {
            seq!['f']
        },
        ValueModel::SmallInt(n) => number::int_text(n as int),
        ValueModel::Integer(n) => number::int_text(n as int),
        ValueModel::BigInt(n) => number::int_text(n as int),
        ValueModel::Decimal(d) => d.text(),
        ValueModel::Real(f) => f.text,
        ValueModel::Double(f) => f.text,
        ValueModel::Text(s) => s,
        ValueModel::Binary(b) => seq!['\\', 'x'] + number::hex(b),
        ValueModel::Date(d) => d.text(),
        ValueModel::Time(t) => t.text(),
        ValueModel::Timestamp(t) => t.utc_text(),
        ValueModel::TimestampNaive(t) => t.naive_text(),
        ValueModel::Uuid(u) => scalar::uuid_text(u),
        ValueModel::Json(j) => j,
        ValueModel::Array(_) => Seq::<char>::empty(),
    }
}

/// A text with a backslash in front of every quote and backslash.
pub open spec fn backslashed(s: Seq<char>) -> Seq<char>
    decreases s.len(),
{
    if s.len() == 0 {
        Seq::<char>::empty()
    } else if s[0] == '"' || s[0] == '\\' {
        seq!['\\', s[0]] + backslashed(s.drop_first())
    } else {
        seq![s[0]] + backslashed(s.drop_first())
    }
}

/// A value as an element of an array literal: the bare word `NULL`, a nested
/// literal, or a quoted text.
pub open spec fn element_text(v: ValueModel) -> Seq<char>
    decreases v,
{
    match v {
        ValueModel::Null => seq!['N', 'U', 'L', 'L'],
        ValueModel::Array(items) => seq!['{'] + text::joined(element_texts(items), seq![','])
            + seq!['}'],
        scalar => seq!['"'] + backslashed(scalar_text(scalar)) + seq!['"'],
    }
}

/// Each element of an array literal.
pub open spec fn element_texts(items: Seq<ValueModel>) -> Seq<Seq<char>>
    decreases items,
{
    if items.len() == 0 {
        Seq::<Seq<char>>::empty()
    } else {
        element_texts(items.drop_last()).push(element_text(items.last()))
    }
}

/// The elements keep their number and their order.
pub proof fn lemma_element_texts(items: Seq<ValueModel>)
    ensures
        element_texts(items).len() == items.len(),
        forall|i: int|
            0 <= i < items.len() ==> #[trigger] element_texts(items)[i] == element_text(items[i]),
    decreases items.len(),
{
    if items.len() > 0 {
        lemma_element_texts(items.drop_last());
    }
}

/// The text that a cell stands for; none for null.
pub open spec fn copy_field(v: ValueModel) -> Option<Seq<char>> {
    match v {
        ValueModel::Null => None,
        ValueModel::Array(_) => Some(element_text(v)),
        _ => Some(scalar_text(v)),
    }
}

/// How one character of a field is written.
pub open spec fn copy_char(c: char) -> Seq<char> {
    if c == '\\' {
        seq!['\\', '\\']
    } else if c == '\t' {
        seq!['\\', 't']
    } else if c == '\n' {
        seq!['\\', 'n']
    } else if c == '\r' {
        seq!['\\', 'r']
    } else {
        seq![c]
    }
}

/// How the text of a field is written: backslashes, tabs and line ends
/// escaped.
pub open spec fn copy_escaped(s: Seq<char>) -> Seq<char>
    decreases s.len(),
{
    if s.len() == 0 {
        Seq::<char>::empty()
    } else {
        copy_char(s[0]) + copy_escaped(s.drop_first())
    }
}

/// One cell: `\N` for null, and the escaped text of anything else.
pub open spec fn copy_value(v: ValueModel) -> Seq<char> {
    match copy_field(v) {
        Some(t) => copy_escaped(t),
        None => seq!['\\', 'N'],
    }
}

/// The cells of a row.
pub open spec fn copy_values(cells: Seq<ValueModel>) -> Seq<Seq<char>> {
    cells.map_values(|v: ValueModel| copy_value(v))
}

/// One row: its cells with tabs between them, and a line end.
pub open spec fn copy_line(cells: Seq<ValueModel>) -> Seq<char> {
    text::joined(copy_values(cells), seq!['\t']) + seq!['\n']
}

// ---------------------------------------------------------------------------
// Plain texts need no escape
// ---------------------------------------------------------------------------

proof fn lemma_plain_concat(a: Seq<char>, b: Seq<char>)
    requires
        scalar::all_plain(a),
        scalar::all_plain(b),
    ensures
        scalar::all_plain(a + b),
{
    assert forall|i: int| 0 <= i < (a + b).len() implies scalar::is_plain(#[trigger] (a + b)[i]) by {
        if i < a.len() {
            assert((a + b)[i] == a[i]);
        } else {
            assert((a + b)[i] == b[i - a.len()]);
        }
    }
}

proof fn lemma_plain_escape(s: Seq<char>)
    requires
        scalar::all_plain(s),
    ensures
        copy_escaped(s) == s,
    decreases s.len(),
{
    if s.len() > 0 {
        let rest = s.drop_first();
        assert forall|i: int| 0 <= i < rest.len() implies scalar::is_plain(#[trigger] rest[i]) by {
            assert(rest[i] == s[i + 1]);
        }
        lemma_plain_escape(rest);
        assert(scalar::is_plain(s[0]));
        assert(seq![s[0]] + rest =~= s);
    }
}

proof fn lemma_plain_digits(n: nat)
    ensures
        scalar::all_plain(number::digits(n)),
{
    number::lemma_digits(n);
    let d = number::digits(n);
    assert forall|i: int| 0 <= i < d.len() implies scalar::is_plain(#[trigger] d[i]) by {
        assert(number::is_digit(d[i]));
    }
}

proof fn lemma_plain_padded(n: nat, width: nat)
    ensures
        scalar::all_plain(number::padded(n, width)),
{
    lemma_plain_digits(n);
    let d = number::digits(n);
    if d.len() < width {
        let zeros = Seq::new((width - d.len()) as nat, |i: int| '0');
        lemma_plain_concat(zeros, d);
    }
}

proof fn lemma_plain_int(n: int)
    ensures
        scalar::all_plain(number::int_text(n)),
{
    if n < 0 {
        lemma_plain_digits((-n) as nat);
        lemma_plain_concat(seq!['-'], number::digits((-n) as nat));
    } else {
        lemma_plain_digits(n as nat);
    }
}

proof fn lemma_plain_hex(b: Seq<u8>)
    ensures
        scalar::all_plain(number::hex(b)),
{
    let h = number::hex(b);
    assert forall|i: int| 0 <= i < h.len() implies scalar::is_plain(#[trigger] h[i]) by {
        assert(h[i] == number::hex_digit(
            if i % 2 == 0 {
                b[i / 2] as int / 16
            } else {
                b[i / 2] as int % 16
            },
        ));
    }
}

proof fn lemma_plain_decimal(d: scalar::DecimalModel)
    ensures
        scalar::all_plain(d.text()),
{
    let unit = vstd::arithmetic::power::pow(10, d.scale);
    let sign = if d.negative {
        seq!['-']
    } else {
        Seq::<char>::empty()
    };
    let whole = (d.coefficient as int / unit) as nat;
    let part = (d.coefficient as int % unit) as nat;
    lemma_plain_digits(whole);
    lemma_plain_padded(part, d.scale);
    lemma_plain_concat(sign, number::digits(whole));
    lemma_plain_concat(seq!['.'], number::padded(part, d.scale));
    if d.scale == 0 {
        lemma_plain_concat(sign + number::digits(whole), Seq::<char>::empty());
    } else {
        lemma_plain_concat(
            sign + number::digits(whole),
            seq!['.'] + number::padded(part, d.scale),
        );
    }
}

proof fn lemma_plain_date(d: scalar::DateModel)
    ensures
        scalar::all_plain(d.text()),
{
    let size = if d.year < 0 {
        (-d.year) as nat
    } else {
        d.year as nat
    };
    lemma_plain_padded(size, 4);
    lemma_plain_concat(seq!['-'], number::padded(size, 4));
    lemma_plain_concat(seq!['+'], number::padded(size, 4));
    let year = if 0 <= d.year <= 9999 {
        number::padded(size, 4)
    } else if d.year < 0 {
        seq!['-'] + number::padded(size, 4)
    } else {
        seq!['+'] + number::padded(size, 4)
    };
    let month = number::padded(d.month as nat, 2);
    let day = number::padded(d.day as nat, 2);
    lemma_plain_padded(d.month as nat, 2);
    lemma_plain_padded(d.day as nat, 2);
    lemma_plain_concat(year, seq!['-']);
    lemma_plain_concat(year + seq!['-'], month);
    lemma_plain_concat(year + seq!['-'] + month, seq!['-']);
    lemma_plain_concat(year + seq!['-'] + month + seq!['-'], day);
}

proof fn lemma_plain_time(t: scalar::TimeModel)
    ensures
        scalar::all_plain(t.text()),
{
    let hour = number::padded(t.hour, 2);
    let minute = number::padded(t.minute, 2);
    let second = number::padded(t.second + t.nano / 1_000_000_000, 2);
    let nano = t.nano % 1_000_000_000;
    lemma_plain_padded(t.hour, 2);
    lemma_plain_padded(t.minute, 2);
    lemma_plain_padded(t.second + t.nano / 1_000_000_000, 2);
    lemma_plain_padded(nano / 1_000_000, 3);
    lemma_plain_padded(nano / 1_000, 6);
    lemma_plain_padded(nano, 9);
    lemma_plain_concat(seq!['.'], number::padded(nano / 1_000_000, 3));
    lemma_plain_concat(seq!['.'], number::padded(nano / 1_000, 6));
    lemma_plain_concat(seq!['.'], number::padded(nano, 9));
    lemma_plain_concat(hour, seq![':']);
    lemma_plain_concat(hour + seq![':'], minute);
    lemma_plain_concat(hour + seq![':'] + minute, seq![':']);
    lemma_plain_concat(hour + seq![':'] + minute + seq![':'], second);
    lemma_plain_concat(hour + seq![':'] + minute + seq![':'] + second, t.fraction());
}

proof fn lemma_plain_date_time(t: scalar::DateTimeModel)
    ensures
        scalar::all_plain(t.naive_text()),
        scalar::all_plain(t.utc_text()),
{
    lemma_plain_date(t.date);
    lemma_plain_time(t.time);
    lemma_plain_concat(t.date.text(), seq![' ']);
    lemma_plain_concat(t.date.text() + seq![' '], t.time.text());
    lemma_plain_concat(t.naive_text(), seq!['+', '0', '0', ':', '0', '0']);
}

proof fn lemma_plain_uuid(b: Seq<u8>)
    ensures
        scalar::all_plain(scalar::uuid_text(b)),
{
    let h0 = number::hex(b.subrange(0, 4));
    let h1 = number::hex(b.subrange(4, 6));
    let h2 = number::hex(b.subrange(6, 8));
    let h3 = number::hex(b.subrange(8, 10));
    let h4 = number::hex(b.subrange(10, 16));
    lemma_plain_hex(b.subrange(0, 4));
    lemma_plain_hex(b.subrange(4, 6));
    lemma_plain_hex(b.subrange(6, 8));
    lemma_plain_hex(b.subrange(8, 10));
    lemma_plain_hex(b.subrange(10, 16));
    lemma_plain_concat(h0, seq!['-']);
    lemma_plain_concat(h0 + seq!['-'], h1);
    lemma_plain_concat(h0 + seq!['-'] + h1, seq!['-']);
    lemma_plain_concat(h0 + seq!['-'] + h1 + seq!['-'], h2);
    lemma_plain_concat(h0 + seq!['-'] + h1 + seq!['-'] + h2, seq!['-']);
    lemma_plain_concat(h0 + seq!['-'] + h1 + seq!['-'] + h2 + seq!['-'], h3);
    lemma_plain_concat(h0 + seq!['-'] + h1 + seq!['-'] + h2 + seq!['-'] + h3, seq!['-']);
    lemma_plain_concat(h0 + seq!['-'] + h1 + seq!['-'] + h2 + seq!['-'] + h3 + seq!['-'], h4);
}

/// A bytea text differs from its escaped form only in the backslash that it
/// begins with.
proof fn lemma_binary_escape(b: Seq<u8>)
    ensures
        copy_escaped(seq!['\\', 'x'] + number::hex(b)) == seq!['\\', '\\', 'x'] + number::hex(b),
{
    let h = number::hex(b);
    let s = seq!['\\', 'x'] + h;
    lemma_plain_hex(b);
    lemma_plain_concat(seq!['x'], h);
    assert(s.drop_first() =~= seq!['x'] + h);
    lemma_plain_escape(seq!['x'] + h);
    assert(copy_escaped(s) =~= seq!['\\', '\\', 'x'] + h);
}

// ---------------------------------------------------------------------------
// Writing it
// ---------------------------------------------------------------------------

/// Appends a field's text, escaped.
pub fn escape_copy_text(buffer: &mut String, s: &str)
    ensures
        final(buffer)@ == old(buffer)@ + copy_escaped(s@),
{
    let chars = text::chars_of(s);
    let ghost goal = buffer@ + copy_escaped(s@);
    assert(chars@.skip(0) =~= chars@);
    for i in 0..chars.len()
        invariant
            buffer@ + copy_escaped(chars@.skip(i as int)) == goal,
    {
        let c = chars[i];
        let ghost before = buffer@;
        assert(chars@.skip(i as int).drop_first() =~= chars@.skip(i + 1));
        if c == '\\' {
            buffer.push('\\');
            buffer.push('\\');
        } else if c == '\t' {
            buffer.push('\\');
            buffer.push('t');
        } else if c == '\n' {
            buffer.push('\\');
            buffer.push('n');
        } else if c == '\r' {
            buffer.push('\\');
            buffer.push('r');
        } else {
            buffer.push(c);
        }
        assert(buffer@ =~= before + copy_char(c));
        assert(buffer@ + copy_escaped(chars@.skip(i + 1)) =~= before + copy_escaped(
            chars@.skip(i as int),
        ));
    }
    assert(buffer@ + copy_escaped(chars@.skip(chars@.len() as int)) =~= buffer@);
}

fn int_string(n: i64) -> (r: String)
    ensures
        r@ == number::int_text(n as int),
{
    let mut out = String::new();
    number::push_int(&mut out, n);
    assert(out@ =~= number::int_text(n as int));
    out
}

/// The plain text of a value that is neither null nor an array, with no
/// escapes applied.
pub fn scalar_literal(value: &Value) -> (r: String)
    requires
        !(value@ is Null),
        !(value@ is Array),
    ensures
        r@ == scalar_text(value@),
        !(value@ is Text) && !(value@ is Binary) && !(value@ is Json) ==> scalar::all_plain(r@),
        forall|floats: reading::FloatReading| #[trigger]
            reading::is_proper(value@, floats) ==> reading::reads_as(r@, value@, floats),
{
    proof {
        assert forall|floats: reading::FloatReading| #[trigger]
            reading::is_proper(value@, floats) implies reading::reads_as(
            scalar_text(value@),
            value@,
            floats,
        ) by {
            reading::lemma_text_reads_back(value@, floats);
        }
    }
    match value {
        Value::Boolean(b) => {
            let mut out = String::new();
            if *b {
                out.push('t');
            } else {
                out.push('f');
            }
            assert(out@ =~= scalar_text(value@));
            out
        },
        Value::SmallInt(n) => {
            proof {
                lemma_plain_int(*n as int);
            }
            int_string(*n as i64)
        },
        Value::Integer(n) => {
            proof {
                lemma_plain_int(*n as int);
            }
            int_string(*n as i64)
        },
        Value::BigInt(n) => {
            proof {
                lemma_plain_int(*n as int);
            }
            int_string(*n)
        },
        Value::Decimal(d) => {
            proof {
                lemma_plain_decimal(d@);
            }
            d.text()
        },
        Value::Real(f) => f.as_str().to_string(),
        Value::Double(f) => f.as_str().to_string(),
        Value::Text(s) => s.clone(),
        Value::Binary(b) => {
            let mut out = String::new();
            out.push('\\');
            out.push('x');
            number::push_hex(&mut out, b.as_slice());
            assert(out@ =~= scalar_text(value@));
            out
        },
        Value::Date(d) => {
            proof {
                lemma_plain_date(d@);
            }
            d.text()
        },
        Value::Time(t) => {
            proof {
                lemma_plain_time(t@);
            }
            t.text()
        },
        Value::Timestamp(t) => {
            proof {
                lemma_plain_date_time(t@);
            }
            t.utc_text()
        },
        Value::TimestampNaive(t) => {
            proof {
                lemma_plain_date_time(t@);
            }
            t.naive_text()
        },
        Value::Uuid(u) => {
            proof {
                lemma_plain_uuid(u@);
            }
            scalar::render_uuid(u)
        },
        Value::Json(j) => j.as_str().to_string(),
        Value::Null | Value::Array(_) => String::new(),
    }
}

fn push_backslashed(out: &mut String, s: &str)
    ensures
        final(out)@ == old(out)@ + backslashed(s@),
{
    let chars = text::chars_of(s);
    let ghost goal = out@ + backslashed(s@);
    assert(chars@.skip(0) =~= chars@);
    for i in 0..chars.len()
        invariant
            out@ + backslashed(chars@.skip(i as int)) == goal,
    {
        let c = chars[i];
        let ghost before = out@;
        assert(chars@.skip(i as int).drop_first() =~= chars@.skip(i + 1));
        if c == '"' || c == '\\' {
            out.push('\\');
        }
        out.push(c);
        assert(out@ + backslashed(chars@.skip(i + 1)) =~= before + backslashed(
            chars@.skip(i as int),
        ));
    }
    assert(out@ + backslashed(chars@.skip(chars@.len() as int)) =~= out@);
}

fn write_element(out: &mut String, item: &Value)
    ensures
        final(out)@ == old(out)@ + element_text(item@),
    decreases item,
{
    match item {
        Value::Null => {
            out.push('N');
            out.push('U');
            out.push('L');
            out.push('L');
            assert(out@ =~= old(out)@ + element_text(item@));
        },
        Value::Array(nested) => {
            assert(item@->Array_0 =~= crate::value::models(nested@));
            write_array_literal(out, nested);
        },
        scalar => {
            let literal = scalar_literal(scalar);
            out.push('"');
            push_backslashed(out, literal.as_str());
            out.push('"');
            assert(out@ =~= old(out)@ + element_text(item@));
        },
    }
}

/// Appends an array literal (`{"a","b",NULL}`). Every element but null is
/// quoted, so that none that holds a comma, a brace or a quote can split or
/// merge with another; a null is the bare word, which no quoted text is.
pub fn write_array_literal(out: &mut String, items: &Vec<Value>)
    ensures
        final(out)@ == old(out)@ + element_text(ValueModel::Array(crate::value::models(items@))),
    decreases items,
{
    let ghost start = out@;
    let ghost cells = crate::value::models(items@);
    let ghost parts = element_texts(cells);
    proof {
        lemma_element_texts(cells);
    }
    out.push('{');
    for i in 0..items.len()
        invariant
            cells == crate::value::models(items@),
            parts.len() == cells.len(),
            forall|j: int| 0 <= j < cells.len() ==> #[trigger] parts[j] == element_text(cells[j]),
            out@ =~= start + seq!['{'] + text::joined(parts.take(i as int), seq![',']),
    {
        if i > 0 {
            out.push(',');
        }
        let ghost comma = out@;
        write_element(out, &items[i]);
        assert(cells[i as int] == items@[i as int]@);
        assert(out@ == comma + parts[i as int]);
        assert(parts.take(i + 1).drop_last() =~= parts.take(i as int));
    }
    out.push('}');
    assert(parts.take(items@.len() as int) =~= parts);
    assert(out@ =~= start + element_text(ValueModel::Array(cells)));
}

/// Appends one cell.
pub fn write_copy_value(buffer: &mut String, value: &Value)
    ensures
        final(buffer)@ == old(buffer)@ + copy_value(value@),
        forall|floats: reading::FloatReading| #[trigger]
            reading::is_proper(value@, floats) ==> reading::field_says(
                laws::read_field(final(buffer)@.skip(old(buffer)@.len() as int)),
                value@,
                floats,
            ),
{
    proof {
        assert((old(buffer)@ + copy_value(value@)).skip(old(buffer)@.len() as int) =~= copy_value(
            value@,
        ));
        assert forall|floats: reading::FloatReading| #[trigger]
            reading::is_proper(value@, floats) implies reading::field_says(
            laws::read_field(copy_value(value@)),
            value@,
            floats,
        ) by {
            reading::lemma_cell_says_its_value(value@, floats);
        }
    }
    match value {
        Value::Null => {
            buffer.push('\\');
            buffer.push('N');
            assert(buffer@ =~= old(buffer)@ + copy_value(value@));
        },
        Value::Text(s) => escape_copy_text(buffer, s.as_str()),
        Value::Json(j) => escape_copy_text(buffer, j.as_str()),
        Value::Binary(b) => {
            // COPY reads `\x...`, so the backslash is escaped.
            buffer.push('\\');
            buffer.push('\\');
            buffer.push('x');
            number::push_hex(buffer, b.as_slice());
            proof {
                lemma_binary_escape(b@);
            }
            assert(buffer@ =~= old(buffer)@ + copy_value(value@));
        },
        Value::Array(items) => {
            // The literal's own quotes and backslashes go through COPY's
            // escape as a whole.
            let mut literal = String::new();
            write_array_literal(&mut literal, items);
            assert(value@->Array_0 =~= crate::value::models(items@));
            assert(literal@ =~= element_text(value@));
            escape_copy_text(buffer, literal.as_str());
        },
        scalar => {
            let literal = scalar_literal(scalar);
            proof {
                lemma_plain_escape(literal@);
            }
            buffer.append(literal.as_str());
        },
    }
}

/// Appends one row.
pub fn write_copy_line(buffer: &mut String, row: &Row)
    ensures
        final(buffer)@ == old(buffer)@ + copy_line(row.cells()),
{
    let ghost start = buffer@;
    let ghost parts = copy_values(row.cells());
    for i in 0..row.0.len()
        invariant
            parts == copy_values(row.cells()),
            buffer@ =~= start + text::joined(parts.take(i as int), seq!['\t']),
    {
        if i > 0 {
            buffer.push('\t');
        }
        write_copy_value(buffer, &row.0[i]);
        assert(parts[i as int] == copy_value(row.0@[i as int]@));
        assert(parts.take(i + 1).drop_last() =~= parts.take(i as int));
    }
    assert(parts.take(row.0@.len() as int) =~= parts);
    buffer.push('\n');
    assert(buffer@ =~= start + copy_line(row.cells()));
}

// ---------------------------------------------------------------------------
// Sending it
// ---------------------------------------------------------------------------

/// The statement that opens a bulk load.
pub open spec fn copy_statement_text(table: TableRef) -> Seq<char> {
    "COPY "@ + dialect::qualified(table.schema@, table.name@) + " FROM STDIN WITH (FORMAT text)"@
}

/// The statement that opens a bulk load into `table`.
pub fn copy_statement(table: &TableRef) -> (r: String)
    ensures
        r@ == copy_statement_text(*table),
        statements::read_copy(r@) == Some((table.schema@, table.name@)),
{
    proof {
        statements::lemma_copy_reads_back(*table);
    }
    let mut sql = "COPY ".to_string();
    sql.append(dialect::quote_qualified(table.schema.as_str(), table.name.as_str()).as_str());
    sql.append(" FROM STDIN WITH (FORMAT text)");
    sql
}

/// How many rows are held before they are sent.
pub const FLUSH_EVERY: usize = 10_000;

/// Where a bulk load stands: the text not yet sent, how many rows it holds,
/// and how many rows came in all.
pub struct CopyState {
    pub text: Seq<char>,
    pub rows: int,
    pub total: int,
}

impl CopyState {
    /// Before the first row.
    pub open spec fn start() -> CopyState {
        CopyState { text: Seq::<char>::empty(), rows: 0, total: 0 }
    }

    /// What a row leaves to be sent at once.
    pub open spec fn sent_by(self, cells: Seq<ValueModel>) -> Option<Seq<char>> {
        if self.rows + 1 >= FLUSH_EVERY {
            Some(self.text + copy_line(cells))
        } else {
            None
        }
    }

    /// The state behind a row.
    pub open spec fn after(self, cells: Seq<ValueModel>) -> CopyState {
        if self.rows + 1 >= FLUSH_EVERY {
            CopyState { text: Seq::<char>::empty(), rows: 0, total: self.total + 1 }
        } else {
            CopyState {
                text: self.text + copy_line(cells),
                rows: self.rows + 1,
                total: self.total + 1,
            }
        }
    }
}

/// Collects rows into chunks of bounded size, so that a load of any length
/// stays bounded in memory.
pub struct CopyBuffer {
    text: String,
    rows: usize,
    total: u64,
}

impl View for CopyBuffer {
    type V = CopyState;

    closed spec fn view(&self) -> CopyState {
        CopyState { text: self.text@, rows: self.rows as int, total: self.total as int }
    }
}

impl CopyBuffer {
    #[verifier::type_invariant]
    spec fn bounded(self) -> bool {
        &&& self.rows < FLUSH_EVERY
        &&& self.rows == 0 <==> self.text@.len() == 0
    }

    /// A buffer without rows.
    pub fn new() -> (r: CopyBuffer)
        ensures
            r@ == CopyState::start(),
    {
        let r = CopyBuffer { text: String::new(), rows: 0, total: 0 };
        assert(r.text@ =~= Seq::<char>::empty());
        r
    }

    /// Takes in a row, and hands out the chunk to send when it is full.
    pub fn push(&mut self, row: &Row) -> (r: Option<String>)
        requires
            old(self)@.total < u64::MAX,
        ensures
            final(self)@ == old(self)@.after(row.cells()),
            match r {
                Some(chunk) => old(self)@.sent_by(row.cells()) == Some(chunk@),
                None => old(self)@.sent_by(row.cells()) is None,
            },
    {
        proof {
            use_type_invariant(&*self);
        }
        let mut held = CopyBuffer::new();
        std::mem::swap(self, &mut held);
        let mut chunk = held.text;
        write_copy_line(&mut chunk, row);
        let total: u64 = held.total + 1;
        if held.rows + 1 >= FLUSH_EVERY {
            *self = CopyBuffer { text: String::new(), rows: 0, total };
            assert(self.text@ =~= Seq::<char>::empty());
            Some(chunk)
        } else {
            *self = CopyBuffer { text: chunk, rows: held.rows + 1, total };
            None
        }
    }

    /// How many rows came in.
    pub fn total(&self) -> (r: u64)
        ensures
            r == self@.total,
    {
        self.total
    }

    /// Ends the load: the last chunk, where there is anything left to send,
    /// and how many rows came in.
    pub fn finish(self) -> (r: (Option<String>, u64))
        ensures
            match r.0 {
                Some(chunk) => self@.text.len() > 0 && chunk@ == self@.text,
                None => self@.text.len() == 0,
            },
            r.1 == self@.total,
    {
        proof {
            use_type_invariant(&self);
        }
        if self.rows == 0 {
            (None, self.total)
        } else {
            (Some(self.text), self.total)
        }
    }
}

} // verus!
