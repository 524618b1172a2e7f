//! Writing rows in batches of multi-row `INSERT` statements.
use vstd::prelude::*;

use crate::error::DdbCoreError;
use crate::mysql::dialect;
use crate::mysql::statements;
use crate::schema::TableRef;
use crate::text;
use crate::value::{self, Row, Value, ValueModel};

verus! {

// ---------------------------------------------------------------------------
// The statement
// ---------------------------------------------------------------------------

/// The same text a number of times.
pub open spec fn repeated(s: Seq<char>, n: nat) -> Seq<Seq<char>> {
    Seq::new(n, |i: int| s)
}

/// The places for one row.
pub open spec fn row_places(columns: nat) -> Seq<char> {
    "("@ + text::joined(repeated("?"@, columns), ", "@) + ")"@
}

/// The statement that inserts a number of rows.
pub open spec fn insert_text(table: TableRef, columns: nat, rows: nat) -> Seq<char> {
    "INSERT INTO "@ + dialect::qualified(table.schema@, table.name@) + " VALUES "@ + text::joined(
        repeated(row_places(columns), rows),
        ", "@,
    )
}

/// How many places for values a text has.
pub open spec fn places(s: Seq<char>) -> nat
    decreases s.len(),
{
    if s.len() == 0 {
        0
    } else {
        places(s.drop_last()) + if s.last() == '?' {
            1nat
        } else {
            0nat
        }
    }
}

proof fn lemma_places_concat(a: Seq<char>, b: Seq<char>)
    ensures
        places(a + b) == places(a) + places(b),
    decreases b.len(),
{
    if b.len() == 0 {
        assert(a + b =~= a);
    } else {
        lemma_places_concat(a, b.drop_last());
        assert((a + b).drop_last() =~= a + b.drop_last());
    }
}

proof fn lemma_places_repeated(s: Seq<char>, n: nat)
    ensures
        places(text::joined(repeated(s, n), ", "@)) == n * places(s),
    decreases n,
{
    reveal_strlit(", ");
    let parts = repeated(s, n);
    if n == 0 {
        assert(places(text::joined(parts, ", "@)) == 0);
    } else if n == 1 {
        assert(text::joined(parts, ", "@) == s);
    } else {
        let before = (n - 1) as nat;
        lemma_places_repeated(s, before);
        assert(parts.drop_last() =~= repeated(s, before));
        let front = text::joined(repeated(s, before), ", "@);
        lemma_places_concat(front, ", "@);
        lemma_places_concat(front + ", "@, s);
        assert(places(", "@) == 0) by {
            reveal_with_fuel(places, 3);
            assert(", "@.last() == ' ');
            assert(", "@.drop_last().last() == ',');
        }
        assert(n * places(s) == before * places(s) + places(s)) by (nonlinear_arith)
            requires
                before == n - 1,
        ;
    }
}

/// Behind the table's name, an insert statement has exactly one place for
/// each cell of each row.
pub proof fn lemma_places_match_cells(columns: nat, rows: nat)
    ensures
        places(text::joined(repeated(row_places(columns), rows), ", "@)) == rows * columns,
{
    reveal_strlit("?");
    reveal_strlit("(");
    reveal_strlit(")");
    let inner = text::joined(repeated("?"@, columns), ", "@);
    lemma_places_repeated("?"@, columns);
    assert(places("?"@) == 1 && places("("@) == 0 && places(")"@) == 0) by {
        reveal_with_fuel(places, 2);
        assert("?"@.last() == '?' && "("@.last() == '(' && ")"@.last() == ')');
    }
    let each = places("?"@);
    assert(columns * each == columns) by (nonlinear_arith)
        requires
            each == 1,
    ;
    lemma_places_concat("("@, inner);
    lemma_places_concat("("@ + inner, ")"@);
    assert(places(row_places(columns)) == columns);
    lemma_places_repeated(row_places(columns), rows);
}

fn join_repeated(s: &str, n: usize) -> (r: String)
    ensures
        r@ == text::joined(repeated(s@, n as nat), ", "@),
{
    let mut parts: Vec<String> = Vec::new();
    for i in 0..n
        invariant
            parts@.len() == i,
            forall|k: int| 0 <= k < i ==> (#[trigger] parts@[k])@ == s@,
    {
        parts.push(s.to_string());
    }
    assert(text::texts(parts@) =~= repeated(s@, n as nat));
    text::join(&parts, ", ")
}

/// The statement that inserts `rows` rows of `columns` cells each.
pub fn insert_statement(table: &TableRef, columns: usize, rows: usize) -> (r: String)
    ensures
        r@ == insert_text(*table, columns as nat, rows as nat),
        statements::read_insert(r@) == Some(
            (table.schema@, table.name@, Seq::new(rows as nat, |i: int| columns as nat)),
        ),
{
    proof {
        statements::lemma_insert_reads_back(*table, columns as nat, rows as nat);
    }
    let mut places = "(".to_string();
    places.append(join_repeated("?", columns).as_str());
    places.append(")");
    let mut sql = "INSERT INTO ".to_string();
    sql.append(dialect::quote_qualified(table.schema.as_str(), table.name.as_str()).as_str());
    sql.append(" VALUES ");
    sql.append(join_repeated(places.as_str(), rows).as_str());
    sql
}

// ---------------------------------------------------------------------------
// Batches
// ---------------------------------------------------------------------------

/// How many rows a statement inserts at most.
pub const BATCH_SIZE: usize = 500;

/// How many places for values a prepared statement has at most.
pub const MAX_PLACEHOLDERS: usize = 65_535;

/// How many bytes of values a statement carries at most, below the smallest
/// packet that a server accepts by default. A single row may carry more.
pub const BYTE_BUDGET: usize = 4_000_000;

/// What any value takes on the wire besides its text or its bytes.
pub const CELL_BYTES: usize = 40;

/// An upper bound on what a value takes on the wire.
pub open spec fn cell_size(v: ValueModel) -> nat {
    CELL_BYTES as nat + match v {
        ValueModel::Text(s) => vstd::utf8::encode_utf8(s).len(),
        ValueModel::Json(s) => vstd::utf8::encode_utf8(s).len(),
        ValueModel::Binary(b) => b.len(),
        _ => 0,
    }
}

/// An upper bound on what a row takes on the wire.
pub open spec fn row_size(cells: Seq<ValueModel>) -> nat
    decreases cells.len(),
{
    if cells.len() == 0 {
        0
    } else {
        row_size(cells.drop_last()) + cell_size(cells.last())
    }
}

/// An upper bound on what a batch takes on the wire.
pub open spec fn batch_size(rows: Seq<Seq<ValueModel>>) -> nat
    decreases rows.len(),
{
    if rows.len() == 0 {
        0
    } else {
        batch_size(rows.drop_last()) + row_size(rows.last())
    }
}

/// Whether a row can join a batch. The first always can.
pub open spec fn joins(batch: Seq<Seq<ValueModel>>, row: Seq<ValueModel>) -> bool {
    batch.len() == 0 || {
        &&& (batch.len() + 1) * batch[0].len() <= MAX_PLACEHOLDERS
        &&& batch_size(batch) + row_size(row) <= BYTE_BUDGET
    }
}

/// The batch that a row leaves to be written at once.
pub open spec fn written_by(batch: Seq<Seq<ValueModel>>, row: Seq<ValueModel>) -> Option<
    Seq<Seq<ValueModel>>,
> {
    if !joins(batch, row) {
        Some(batch)
    } else if batch.len() + 1 >= BATCH_SIZE {
        Some(batch.push(row))
    } else {
        None
    }
}

/// The batch behind a row.
pub open spec fn batch_after(batch: Seq<Seq<ValueModel>>, row: Seq<ValueModel>) -> Seq<
    Seq<ValueModel>,
> {
    if !joins(batch, row) {
        seq![row]
    } else if batch.len() + 1 >= BATCH_SIZE {
        Seq::<Seq<ValueModel>>::empty()
    } else {
        batch.push(row)
    }
}

/// `n`, or one more than the budget where it is beyond the budget.
pub open spec fn capped(n: nat) -> nat {
    if n > BYTE_BUDGET {
        (BYTE_BUDGET + 1) as nat
    } else {
        n
    }
}

fn add_capped(a: usize, b: usize) -> (r: usize)
    requires
        a <= BYTE_BUDGET + 1,
    ensures
        r == capped((a + b) as nat),
{
    if b > BYTE_BUDGET || a + b > BYTE_BUDGET {
        BYTE_BUDGET + 1
    } else {
        a + b
    }
}

fn payload(v: &Value) -> (r: usize)
    ensures
        r + CELL_BYTES == cell_size(v@),
{
    match v {
        Value::Text(s) => s.as_str().as_bytes().len(),
        Value::Json(j) => j.as_str().as_bytes().len(),
        Value::Binary(b) => b.len(),
        _ => 0,
    }
}

/// What a row takes on the wire at most, as far as the budget can tell.
pub fn sized_row(row: &Row) -> (r: usize)
    ensures
        r == capped(row_size(row.cells())),
{
    let ghost cells = row.cells();
    let mut total: usize = 0;
    for i in 0..row.0.len()
        invariant
            cells == row.cells(),
            total == capped(row_size(cells.take(i as int))),
    {
        assert(cells.take(i + 1).drop_last() =~= cells.take(i as int));
        assert(cells.take(i + 1).last() == row.0@[i as int]@);
        let bytes = payload(&row.0[i]);
        total = add_capped(total, bytes);
        total = add_capped(total, CELL_BYTES);
    }
    assert(cells.take(row.0@.len() as int) =~= cells);
    total
}

/// What each row of a list says.
pub open spec fn all_cells(rows: Seq<Row>) -> Seq<Seq<ValueModel>> {
    rows.map_values(|r: Row| r.cells())
}

/// Collects rows into batches that one statement can insert: bounded in their
/// rows, in their places for values and in their bytes.
pub struct InsertBatch {
    rows: Vec<Row>,
    bytes: usize,
}

impl View for InsertBatch {
    type V = Seq<Seq<ValueModel>>;

    closed spec fn view(&self) -> Seq<Seq<ValueModel>> {
        all_cells(self.rows@)
    }
}

impl InsertBatch {
    #[verifier::type_invariant]
    spec fn measured(self) -> bool {
        &&& self.bytes == capped(batch_size(all_cells(self.rows@)))
        &&& self.rows@.len() < BATCH_SIZE
    }

    /// A batch without rows.
    pub fn new() -> (r: InsertBatch)
        ensures
            r@ == Seq::<Seq<ValueModel>>::empty(),
    {
        let rows: Vec<Row> = Vec::new();
        assert(all_cells(rows@) =~= Seq::<Seq<ValueModel>>::empty());
        InsertBatch { rows, bytes: 0 }
    }

    /// Takes in a row, and hands out the batch to write when the row fills it
    /// or finds no more room in it. Refuses a row with an array: writing null
    /// in its place would lose data.
    pub fn push(&mut self, row: Row) -> (r: Result<Option<Vec<Row>>, DdbCoreError>)
        ensures
            match r {
                Ok(written) => {
                    &&& !value::has_array(row.cells())
                    &&& final(self)@ == batch_after(old(self)@, row.cells())
                    &&& match written {
                        Some(rows) => written_by(old(self)@, row.cells()) == Some(
                            all_cells(rows@),
                        ),
                        None => written_by(old(self)@, row.cells()) is None,
                    }
                },
                Err(e) => {
                    &&& value::has_array(row.cells())
                    &&& final(self)@ == old(self)@
                    &&& e.is_unsupported(
                        "MySQL has no array type; array values cannot be bulk-written"@,
                    )
                },
            },
    {
        if value::any_array(row.0.as_slice()) {
            return Err(
                DdbCoreError::Unsupported(
                    "MySQL has no array type; array values cannot be bulk-written".to_string(),
                ),
            );
        }
        proof {
            use_type_invariant(&*self);
        }
        let ghost before = self@;
        let mut held = InsertBatch::new();
        std::mem::swap(self, &mut held);
        let bytes = sized_row(&row);
        let together: usize = add_capped(held.bytes, bytes);
        proof {
            lemma_capped_sum(batch_size(before), row_size(row.cells()));
        }
        let mut rows = held.rows;
        if rows.len() > 0 {
            assert(before[0] == rows@[0].cells());
            let width: usize = rows[0].0.len();
            let room: usize = MAX_PLACEHOLDERS / (rows.len() + 1);
            proof {
                lemma_room(width as int, (rows@.len() + 1) as int, MAX_PLACEHOLDERS as int);
            }
            if width > room || together > BYTE_BUDGET {
                let mut fresh: Vec<Row> = Vec::new();
                fresh.push(row);
                assert(all_cells(fresh@) =~= seq![row.cells()]);
                proof {
                    lemma_single(row.cells());
                }
                *self = InsertBatch { rows: fresh, bytes };
                return Ok(Some(rows));
            }
        }
        rows.push(row);
        assert(all_cells(rows@) =~= before.push(row.cells()));
        assert(before.push(row.cells()).drop_last() =~= before);
        if rows.len() >= BATCH_SIZE {
            *self = InsertBatch::new();
            Ok(Some(rows))
        } else {
            *self = InsertBatch { rows, bytes: together };
            Ok(None)
        }
    }

    /// Ends the writing: the last batch, where any rows are left.
    pub fn finish(self) -> (r: Option<Vec<Row>>)
        ensures
            match r {
                Some(rows) => self@.len() > 0 && all_cells(rows@) == self@,
                None => self@.len() == 0,
            },
    {
        if self.rows.len() == 0 {
            None
        } else {
            Some(self.rows)
        }
    }
}

proof fn lemma_capped_sum(a: nat, b: nat)
    ensures
        capped(capped(a) + capped(b)) == capped(a + b),
{
}

proof fn lemma_room(width: int, rows: int, limit: int)
    requires
        width >= 0,
        rows > 0,
        limit >= 0,
    ensures
        width <= limit / rows <==> rows * width <= limit,
{
    assert(width <= limit / rows ==> rows * width <= limit) by (nonlinear_arith)
        requires
            width >= 0,
            rows > 0,
            limit >= 0,
    ;
    assert(rows * width <= limit ==> width <= limit / rows) by (nonlinear_arith)
        requires
            width >= 0,
            rows > 0,
            limit >= 0,
    ;
}

proof fn lemma_single(row: Seq<ValueModel>)
    ensures
        batch_size(seq![row]) == row_size(row),
{
    assert(seq![row].drop_last() =~= Seq::<Seq<ValueModel>>::empty());
    assert(batch_size(Seq::<Seq<ValueModel>>::empty()) == 0);
}

// ---------------------------------------------------------------------------
// A whole write
// ---------------------------------------------------------------------------

/// The batch behind a number of rows.
pub open spec fn held(rows: Seq<Seq<ValueModel>>) -> Seq<Seq<ValueModel>>
    decreases rows.len(),
{
    if rows.len() == 0 {
        Seq::<Seq<ValueModel>>::empty()
    } else {
        batch_after(held(rows.drop_last()), rows.last())
    }
}

/// The batches written behind a number of rows.
pub open spec fn written(rows: Seq<Seq<ValueModel>>) -> Seq<Seq<Seq<ValueModel>>>
    decreases rows.len(),
{
    if rows.len() == 0 {
        Seq::<Seq<Seq<ValueModel>>>::empty()
    } else {
        match written_by(held(rows.drop_last()), rows.last()) {
            Some(batch) => written(rows.drop_last()).push(batch),
            None => written(rows.drop_last()),
        }
    }
}

/// Whether one statement can insert a batch: it has a row, no more than the
/// limit of rows, and, unless it is a single row, neither too many places nor
/// too many bytes.
pub open spec fn insertable(batch: Seq<Seq<ValueModel>>) -> bool {
    &&& 0 < batch.len() <= BATCH_SIZE
    &&& batch.len() == 1 || {
        &&& batch.len() * batch[0].len() <= MAX_PLACEHOLDERS
        &&& batch_size(batch) <= BYTE_BUDGET
    }
}

/// Whatever the rows, every row is written or held, exactly once and in
/// order, and every batch is one that a statement can insert.
pub proof fn lemma_write_is_complete(rows: Seq<Seq<ValueModel>>)
    ensures
        written(rows).flatten() + held(rows) == rows,
        forall|i: int| 0 <= i < written(rows).len() ==> insertable(#[trigger] written(rows)[i]),
        held(rows).len() < BATCH_SIZE,
        held(rows).len() > 0 ==> insertable(held(rows)),
    decreases rows.len(),
{
    if rows.len() == 0 {
        written(rows).lemma_flatten_and_flatten_alt_are_equivalent();
        assert(written(rows).flatten() + held(rows) =~= rows);
    } else {
        let front = rows.drop_last();
        let row = rows.last();
        let batch = held(front);
        lemma_write_is_complete(front);
        assert(batch.push(row).drop_last() =~= batch);
        match written_by(batch, row) {
            Some(done) => {
                lemma_flatten_last(written(front), done);
                assert(written(rows).flatten() =~= written(front).flatten() + done);
                assert forall|i: int| 0 <= i < written(rows).len() implies insertable(
                    #[trigger] written(rows)[i],
                ) by {
                    if i < written(front).len() {
                        assert(written(rows)[i] == written(front)[i]);
                    }
                }
            },
            None => {},
        }
        assert(written(rows).flatten() + held(rows) =~= (written(front).flatten() + batch).push(
            row,
        ));
        assert(front.push(row) =~= rows);
    }
}

proof fn lemma_flatten_last(parts: Seq<Seq<Seq<ValueModel>>>, last: Seq<Seq<ValueModel>>)
    ensures
        parts.push(last).flatten() == parts.flatten() + last,
{
    parts.push(last).lemma_flatten_and_flatten_alt_are_equivalent();
    parts.lemma_flatten_and_flatten_alt_are_equivalent();
    assert(parts.push(last).drop_last() =~= parts);
}

/// A statement has at most 500 rows, and unless it is a single row, no more
/// places than the 65 535 that a prepared statement can have; it is written as
/// soon as it has 500 rows, and not before its row finds no more room.
pub proof fn lemma_limits(batch: Seq<Seq<ValueModel>>, row: Seq<ValueModel>)
    ensures
        insertable(batch) ==> 0 < batch.len() <= 500 && (batch.len() > 1 ==> batch.len()
            * batch[0].len() <= 65_535),
        joins(batch, row) && batch.len() == 499 ==> written_by(batch, row) == Some(batch.push(row)),
        joins(batch, row) && batch.len() < 499 ==> written_by(batch, row) is None && batch_after(
            batch,
            row,
        ) == batch.push(row),
        !joins(batch, row) ==> written_by(batch, row) == Some(batch) && batch_after(batch, row)
            == seq![row],
{
}

/// How many bytes a value has besides what any value takes.
pub open spec fn content_bytes(v: ValueModel) -> nat {
    match v {
        ValueModel::Text(s) => vstd::utf8::encode_utf8(s).len(),
        ValueModel::Json(s) => vstd::utf8::encode_utf8(s).len(),
        ValueModel::Binary(b) => b.len(),
        ValueModel::Uuid(u) => crate::scalar::uuid_text(u).len(),
        ValueModel::Decimal(d) => if d.in_range() {
            31
        } else {
            0
        },
        _ => 8,
    }
}

/// No value is taken for smaller than it is: what is counted for it leaves room
/// for its bytes and a few more, and no batch is taken for smaller than any of
/// its rows, nor a row than any of its cells.
pub proof fn lemma_nothing_is_undercounted(
    batch: Seq<Seq<ValueModel>>,
    i: int,
    k: int,
)
    requires
        0 <= i < batch.len(),
        0 <= k < batch[i].len(),
        batch[i][k] matches ValueModel::Uuid(u) ==> u.len() == 16,
    ensures
        content_bytes(batch[i][k]) + 4 <= cell_size(batch[i][k]),
        cell_size(batch[i][k]) <= row_size(batch[i]),
        row_size(batch[i]) <= batch_size(batch),
{
    if let ValueModel::Uuid(u) = batch[i][k] {
        crate::postgres::reading::lemma_uuid_reads_back(u);
    }
    lemma_cell_in_row(batch[i], k);
    lemma_row_in_batch(batch, i);
}

proof fn lemma_cell_in_row(cells: Seq<ValueModel>, k: int)
    requires
        0 <= k < cells.len(),
    ensures
        cell_size(cells[k]) <= row_size(cells),
    decreases cells.len(),
{
    if k < cells.len() - 1 {
        lemma_cell_in_row(cells.drop_last(), k);
        assert(cells.drop_last()[k] == cells[k]);
    }
}

proof fn lemma_row_in_batch(batch: Seq<Seq<ValueModel>>, i: int)
    requires
        0 <= i < batch.len(),
    ensures
        row_size(batch[i]) <= batch_size(batch),
    decreases batch.len(),
{
    if i < batch.len() - 1 {
        lemma_row_in_batch(batch.drop_last(), i);
        assert(batch.drop_last()[i] == batch[i]);
    }
}

/// A row is counted cell by cell, and a batch row by row, wherever it is cut.
pub proof fn lemma_sizes_add_up(
    a: Seq<ValueModel>,
    b: Seq<ValueModel>,
    first: Seq<Seq<ValueModel>>,
    second: Seq<Seq<ValueModel>>,
)
    ensures
        row_size(a + b) == row_size(a) + row_size(b),
        batch_size(first + second) == batch_size(first) + batch_size(second),
    decreases b.len() + second.len(),
{
    if b.len() > 0 {
        lemma_sizes_add_up(a, b.drop_last(), first, second);
        assert((a + b).drop_last() =~= a + b.drop_last());
    } else {
        assert(a + b =~= a);
    }
    if second.len() > 0 {
        lemma_sizes_add_up(a, b, first, second.drop_last());
        assert((first + second).drop_last() =~= first + second.drop_last());
    } else {
        assert(first + second =~= first);
    }
}

} // verus!
