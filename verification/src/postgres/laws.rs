//! Reading back what the bulk encoder writes.
use vstd::prelude::*;

use crate::postgres::bulk;
use crate::text;
use crate::value::ValueModel;

verus! {

// ---------------------------------------------------------------------------
// How COPY reads a line
// ---------------------------------------------------------------------------

/// The text that an escaped field stands for.
pub open spec fn copy_unescaped(s: Seq<char>) -> Seq<char>
    decreases s.len(),
{
    if s.len() == 0 {
        Seq::<char>::empty()
    } else if s[0] == '\\' && s.len() >= 2 {
        let c = if s[1] == 't' {
            '\t'
        } else if s[1] == 'n' {
            '\n'
        } else if s[1] == 'r' {
            '\r'
        } else {
            s[1]
        };
        seq![c] + copy_unescaped(s.skip(2))
    } else {
        seq![s[0]] + copy_unescaped(s.drop_first())
    }
}

/// What a field says; nothing where it is `\N`.
pub open spec fn read_field(field: Seq<char>) -> Option<Seq<char>> {
    if field == seq!['\\', 'N'] {
        None
    } else {
        Some(copy_unescaped(field))
    }
}

/// The fields of a line without its line end.
pub open spec fn read_line(line: Seq<char>) -> Seq<Option<Seq<char>>> {
    text::split_on(line, '\t').map_values(|f: Seq<char>| read_field(f))
}

/// The lines of a text in which every line has its end.
pub open spec fn read_lines(s: Seq<char>) -> Seq<Seq<Option<Seq<char>>>> {
    text::split_on(s, '\n').drop_last().map_values(|l: Seq<char>| read_line(l))
}

/// What each cell of a row stands for.
pub open spec fn copy_fields(cells: Seq<ValueModel>) -> Seq<Option<Seq<char>>> {
    cells.map_values(|v: ValueModel| bulk::copy_field(v))
}

/// Rows one behind the other.
pub open spec fn copy_text(rows: Seq<Seq<ValueModel>>) -> Seq<char>
    decreases rows.len(),
{
    if rows.len() == 0 {
        Seq::<char>::empty()
    } else {
        copy_text(rows.drop_last()) + bulk::copy_line(rows.last())
    }
}

/// No tab and no line end.
pub open spec fn one_field(s: Seq<char>) -> bool {
    forall|i: int| 0 <= i < s.len() ==> s[i] != '\t' && #[trigger] s[i] != '\n' && s[i] != '\r'
}

/// Reading an escaped text gives back the text.
pub proof fn lemma_unescape_escape(s: Seq<char>)
    ensures
        copy_unescaped(bulk::copy_escaped(s)) == s,
    decreases s.len(),
{
    if s.len() > 0 {
        let rest = bulk::copy_escaped(s.drop_first());
        let all = bulk::copy_escaped(s);
        lemma_unescape_escape(s.drop_first());
        if all[0] == '\\' {
            assert(all.skip(2) =~= rest);
        } else {
            assert(all.drop_first() =~= rest);
        }
        assert(seq![s[0]] + s.drop_first() =~= s);
    }
}

/// An escaped text holds no tab and no line end, and is never `\N`.
pub proof fn lemma_escaped_is_one_field(s: Seq<char>)
    ensures
        one_field(bulk::copy_escaped(s)),
        bulk::copy_escaped(s) != seq!['\\', 'N'],
    decreases s.len(),
{
    let null = seq!['\\', 'N'];
    assert(null.len() == 2 && null[0] == '\\' && null[1] == 'N');
    if s.len() > 0 {
        let head = bulk::copy_char(s[0]);
        let rest = bulk::copy_escaped(s.drop_first());
        let all = bulk::copy_escaped(s);
        lemma_escaped_is_one_field(s.drop_first());
        assert forall|i: int| 0 <= i < all.len() implies all[i] != '\t' && #[trigger] all[i] != '\n'
            && all[i] != '\r' by {
            if i < head.len() {
                assert(all[i] == head[i]);
            } else {
                assert(all[i] == rest[i - head.len()]);
            }
        }
        if all == null {
            assert(all[0] == head[0]);
            assert(all[1] == head[1]);
        }
    }
}

/// A cell is one field, and reads back as what its value stands for. In
/// particular a null and the text `\N` stay apart.
pub proof fn lemma_value_read_back(v: ValueModel)
    ensures
        one_field(bulk::copy_value(v)),
        read_field(bulk::copy_value(v)) == bulk::copy_field(v),
{
    match bulk::copy_field(v) {
        Some(t) => {
            lemma_escaped_is_one_field(t);
            lemma_unescape_escape(t);
        },
        None => {},
    }
}

/// The cells of a row with tabs between them hold no line end.
proof fn lemma_body_has_no_line_end(cells: Seq<ValueModel>)
    ensures
        !text::joined(bulk::copy_values(cells), seq!['\t']).contains('\n'),
    decreases cells.len(),
{
    let parts = bulk::copy_values(cells);
    let body = text::joined(parts, seq!['\t']);
    if cells.len() > 0 {
        lemma_value_read_back(cells.last());
        assert(parts.last() == bulk::copy_value(cells.last()));
        if cells.len() > 1 {
            lemma_body_has_no_line_end(cells.drop_last());
            assert(parts.drop_last() =~= bulk::copy_values(cells.drop_last()));
            let front = text::joined(parts.drop_last(), seq!['\t']);
            assert(body == front + seq!['\t'] + parts.last());
            assert forall|i: int| 0 <= i < body.len() implies body[i] != '\n' by {
                if i < front.len() {
                    assert(body[i] == front[i]);
                    assert(front.contains(front[i]));
                } else if i > front.len() {
                    assert(body[i] == parts.last()[i - front.len() - 1]);
                }
            }
        }
    }
}

/// A row is one line: its only line end is its last character.
pub proof fn lemma_row_is_one_line(cells: Seq<ValueModel>)
    ensures
        bulk::copy_line(cells).len() > 0,
        bulk::copy_line(cells).last() == '\n',
        !bulk::copy_line(cells).drop_last().contains('\n'),
{
    lemma_body_has_no_line_end(cells);
    assert(bulk::copy_line(cells).drop_last() =~= text::joined(
        bulk::copy_values(cells),
        seq!['\t'],
    ));
}

/// A row with at least one cell reads back, cell for cell.
pub proof fn lemma_row_read_back(cells: Seq<ValueModel>)
    requires
        cells.len() > 0,
    ensures
        read_line(bulk::copy_line(cells).drop_last()) == copy_fields(cells),
{
    let parts = bulk::copy_values(cells);
    assert(bulk::copy_line(cells).drop_last() =~= text::joined(parts, seq!['\t']));
    assert forall|i: int| 0 <= i < parts.len() implies !(#[trigger] parts[i]).contains('\t') by {
        lemma_value_read_back(cells[i]);
        assert(one_field(parts[i]));
    }
    text::lemma_split_joined(parts, '\t');
    assert forall|i: int| 0 <= i < cells.len() implies #[trigger] read_line(
        bulk::copy_line(cells).drop_last(),
    )[i] == copy_fields(cells)[i] by {
        lemma_value_read_back(cells[i]);
    }
    assert(read_line(bulk::copy_line(cells).drop_last()) =~= copy_fields(cells));
}

/// Rows read back in order, none lost and none split, whatever their texts
/// hold.
pub proof fn lemma_rows_read_back(rows: Seq<Seq<ValueModel>>)
    requires
        forall|i: int| 0 <= i < rows.len() ==> (#[trigger] rows[i]).len() > 0,
    ensures
        read_lines(copy_text(rows)) == rows.map_values(|r: Seq<ValueModel>| copy_fields(r)),
{
    lemma_lines(rows);
    let bodies = rows.map_values(|r: Seq<ValueModel>| bulk::copy_line(r).drop_last());
    assert(text::split_on(copy_text(rows), '\n').drop_last() =~= bodies);
    let goal = rows.map_values(|r: Seq<ValueModel>| copy_fields(r));
    assert forall|i: int| 0 <= i < rows.len() implies #[trigger] read_lines(copy_text(rows))[i]
        == goal[i] by {
        lemma_row_read_back(rows[i]);
    }
    assert(read_lines(copy_text(rows)) =~= goal);
}

proof fn lemma_lines(rows: Seq<Seq<ValueModel>>)
    ensures
        text::split_on(copy_text(rows), '\n') == rows.map_values(
            |r: Seq<ValueModel>| bulk::copy_line(r).drop_last(),
        ).push(Seq::<char>::empty()),
    decreases rows.len(),
{
    let bodies = rows.map_values(|r: Seq<ValueModel>| bulk::copy_line(r).drop_last());
    if rows.len() > 0 {
        let front = rows.drop_last();
        let before = front.map_values(|r: Seq<ValueModel>| bulk::copy_line(r).drop_last());
        let line = bulk::copy_line(rows.last());
        let body = line.drop_last();
        lemma_lines(front);
        lemma_row_is_one_line(rows.last());
        text::lemma_split_bare(body, '\n');
        assert(line =~= body + seq!['\n'] + Seq::<char>::empty());
        text::lemma_split_at(body, Seq::<char>::empty(), '\n');
        assert(text::split_on(line, '\n') =~= seq![body, Seq::<char>::empty()]);
        if front.len() == 0 {
            assert(copy_text(front) =~= Seq::<char>::empty());
            assert(copy_text(rows) =~= line);
            assert(bodies.push(Seq::<char>::empty()) =~= seq![body, Seq::<char>::empty()]);
        } else {
            let head = copy_text(front);
            lemma_text_ends_line(front);
            let stem = head.drop_last();
            assert(head =~= stem + seq!['\n'] + Seq::<char>::empty());
            text::lemma_split_at(stem, Seq::<char>::empty(), '\n');
            text::lemma_split_bare(Seq::<char>::empty(), '\n');
            assert(text::split_on(stem, '\n') =~= before) by {
                assert(text::split_on(head, '\n').drop_last() =~= text::split_on(stem, '\n'));
                assert(before.push(Seq::<char>::empty()).drop_last() =~= before);
            }
            assert(copy_text(rows) =~= stem + seq!['\n'] + line);
            text::lemma_split_at(stem, line, '\n');
            assert(bodies.push(Seq::<char>::empty()) =~= before + seq![body, Seq::<char>::empty()]);
        }
    } else {
        assert(bodies.push(Seq::<char>::empty()) =~= seq![Seq::<char>::empty()]);
    }
}

proof fn lemma_text_ends_line(rows: Seq<Seq<ValueModel>>)
    requires
        rows.len() > 0,
    ensures
        copy_text(rows).len() > 0,
        copy_text(rows).last() == '\n',
{
    lemma_row_is_one_line(rows.last());
}

// ---------------------------------------------------------------------------
// A whole load
// ---------------------------------------------------------------------------

/// The state behind a number of rows.
pub open spec fn loaded(rows: Seq<Seq<ValueModel>>) -> bulk::CopyState
    decreases rows.len(),
{
    if rows.len() == 0 {
        bulk::CopyState::start()
    } else {
        loaded(rows.drop_last()).after(rows.last())
    }
}

/// What has been sent behind a number of rows.
pub open spec fn sent(rows: Seq<Seq<ValueModel>>) -> Seq<char>
    decreases rows.len(),
{
    if rows.len() == 0 {
        Seq::<char>::empty()
    } else {
        match loaded(rows.drop_last()).sent_by(rows.last()) {
            Some(chunk) => sent(rows.drop_last()) + chunk,
            None => sent(rows.drop_last()),
        }
    }
}

/// Whatever the number of rows, what was sent and what is held are together
/// the text of all rows in order, every row is counted, and what is held
/// stays below the limit.
pub proof fn lemma_load_is_complete(rows: Seq<Seq<ValueModel>>)
    ensures
        sent(rows) + loaded(rows).text == copy_text(rows),
        loaded(rows).total == rows.len(),
        0 <= loaded(rows).rows < bulk::FLUSH_EVERY,
    decreases rows.len(),
{
    if rows.len() == 0 {
        assert(sent(rows) + loaded(rows).text =~= copy_text(rows));
    } else {
        let front = rows.drop_last();
        lemma_load_is_complete(front);
        let line = bulk::copy_line(rows.last());
        assert(sent(rows) + loaded(rows).text =~= (sent(front) + loaded(front).text) + line);
    }
}

// ---------------------------------------------------------------------------
// How an array literal reads
// ---------------------------------------------------------------------------

/// What an element of an array literal says.
pub enum Element {
    Null,
    Text(Seq<char>),
    List(Seq<Element>),
}

/// What a value says as an element.
pub open spec fn element_of(v: ValueModel) -> Element
    decreases v,
{
    match v {
        ValueModel::Null => Element::Null,
        ValueModel::Array(items) => Element::List(elements_of(items)),
        scalar => Element::Text(bulk::scalar_text(scalar)),
    }
}

/// What each value of a list says as an element.
pub open spec fn elements_of(items: Seq<ValueModel>) -> Seq<Element>
    decreases items,
{
    if items.len() == 0 {
        Seq::<Element>::empty()
    } else {
        elements_of(items.drop_last()).push(element_of(items.last()))
    }
}

/// Elements keep their number and their order.
pub proof fn lemma_elements_of(items: Seq<ValueModel>)
    ensures
        elements_of(items).len() == items.len(),
        forall|i: int|
            0 <= i < items.len() ==> #[trigger] elements_of(items)[i] == element_of(items[i]),
    decreases items.len(),
{
    if items.len() > 0 {
        lemma_elements_of(items.drop_last());
    }
}

/// A quoted text behind its opening quote, and what stands behind its closing
/// quote.
pub open spec fn read_quoted(s: Seq<char>) -> Option<(Seq<char>, Seq<char>)>
    decreases s.len(),
{
    if s.len() == 0 {
        None
    } else if s[0] == '"' {
        Some((Seq::<char>::empty(), s.drop_first()))
    } else if s[0] == '\\' {
        if s.len() < 2 {
            None
        } else {
            match read_quoted(s.skip(2)) {
                Some((t, rest)) => Some((seq![s[1]] + t, rest)),
                None => None,
            }
        }
    } else {
        match read_quoted(s.drop_first()) {
            Some((t, rest)) => Some((seq![s[0]] + t, rest)),
            None => None,
        }
    }
}

/// The element that `s` begins with, and what stands behind it.
pub open spec fn read_element(s: Seq<char>) -> Option<(Element, Seq<char>)>
    decreases s.len(), 0int,
{
    if s.len() == 0 {
        None
    } else if s[0] == '"' {
        match read_quoted(s.drop_first()) {
            Some((t, rest)) => Some((Element::Text(t), rest)),
            None => None,
        }
    } else if s[0] == '{' {
        if s.len() >= 2 && s[1] == '}' {
            Some((Element::List(Seq::<Element>::empty()), s.skip(2)))
        } else {
            match read_items(s.drop_first()) {
                Some((items, rest)) => Some((Element::List(items), rest)),
                None => None,
            }
        }
    } else if s.len() >= 4 && s.take(4) == seq!['N', 'U', 'L', 'L'] {
        Some((Element::Null, s.skip(4)))
    } else {
        None
    }
}

/// The elements up to the closing brace, and what stands behind it.
pub open spec fn read_items(s: Seq<char>) -> Option<(Seq<Element>, Seq<char>)>
    decreases s.len(), 1int,
{
    match read_element(s) {
        None => None,
        Some((e, rest)) => if rest.len() == 0 || rest.len() >= s.len() {
            None
        } else if rest[0] == '}' {
            Some((seq![e], rest.drop_first()))
        } else if rest[0] == ',' {
            match read_items(rest.drop_first()) {
                Some((more, behind)) => Some((seq![e] + more, behind)),
                None => None,
            }
        } else {
            None
        },
    }
}

proof fn lemma_quoted(s: Seq<char>, rest: Seq<char>)
    ensures
        read_quoted(bulk::backslashed(s) + seq!['"'] + rest) == Some((s, rest)),
    decreases s.len(),
{
    let all = bulk::backslashed(s) + seq!['"'] + rest;
    if s.len() == 0 {
        assert(all.drop_first() =~= rest);
    } else {
        let tail = bulk::backslashed(s.drop_first()) + seq!['"'] + rest;
        lemma_quoted(s.drop_first(), rest);
        if s[0] == '"' || s[0] == '\\' {
            assert(all.skip(2) =~= tail);
        } else {
            assert(all.drop_first() =~= tail);
        }
        assert(seq![s[0]] + s.drop_first() =~= s);
    }
}

proof fn lemma_element_len(v: ValueModel)
    ensures
        bulk::element_text(v).len() > 0,
        bulk::element_text(v)[0] != '}',
{
}

/// An array literal reads back into exactly its elements: none splits, none
/// merges with its neighbour, and a null stays apart from every text.
pub proof fn lemma_element_read_back(v: ValueModel, rest: Seq<char>)
    ensures
        read_element(bulk::element_text(v) + rest) == Some((element_of(v), rest)),
    decreases v, 0int,
{
    let all = bulk::element_text(v) + rest;
    match v {
        ValueModel::Null => {
            assert(all.take(4) =~= seq!['N', 'U', 'L', 'L']);
            assert(all.skip(4) =~= rest);
        },
        ValueModel::Array(items) => {
            if items.len() == 0 {
                assert(all =~= seq!['{', '}'] + rest);
                assert(all.skip(2) =~= rest);
            } else {
                let body = text::joined(bulk::element_texts(items), seq![',']);
                lemma_items_read_back(items, rest);
                assert(all.drop_first() =~= body + seq!['}'] + rest);
                assert(all[1] != '}') by {
                    bulk::lemma_element_texts(items);
                    lemma_element_len(items[0]);
                    if items.len() > 1 {
                        text::lemma_joined_front(bulk::element_texts(items), seq![',']);
                    }
                    assert(body[0] == bulk::element_text(items[0])[0]);
                    assert(all[1] == body[0]);
                }
            }
        },
        scalar => {
            let t = bulk::scalar_text(scalar);
            lemma_quoted(t, rest);
            assert(all.drop_first() =~= bulk::backslashed(t) + seq!['"'] + rest);
        },
    }
}

proof fn lemma_items_read_back(items: Seq<ValueModel>, rest: Seq<char>)
    requires
        items.len() > 0,
    ensures
        read_items(text::joined(bulk::element_texts(items), seq![',']) + seq!['}'] + rest) == Some(
            (elements_of(items), rest),
        ),
    decreases items, 1int,
{
    let parts = bulk::element_texts(items);
    let all = text::joined(parts, seq![',']) + seq!['}'] + rest;
    bulk::lemma_element_texts(items);
    lemma_elements_of(items);
    lemma_element_len(items[0]);
    if items.len() == 1 {
        let behind = seq!['}'] + rest;
        lemma_element_read_back(items[0], behind);
        assert(all =~= bulk::element_text(items[0]) + behind);
        assert(behind.drop_first() =~= rest);
        assert(elements_of(items) =~= seq![element_of(items[0])]);
    } else {
        let others = items.drop_first();
        let tail = text::joined(bulk::element_texts(others), seq![',']) + seq!['}'] + rest;
        let behind = seq![','] + tail;
        bulk::lemma_element_texts(others);
        lemma_elements_of(others);
        assert(parts.drop_first() =~= bulk::element_texts(others));
        text::lemma_joined_front(parts, seq![',']);
        assert(all =~= bulk::element_text(items[0]) + behind);
        lemma_element_read_back(items[0], behind);
        lemma_items_read_back(others, rest);
        assert(behind.drop_first() =~= tail);
        assert(elements_of(items) =~= seq![element_of(items[0])] + elements_of(others));
    }
}

/// A load is sent in chunks of ten thousand rows, so that no more than that is
/// ever held.
pub proof fn lemma_chunks(rows: Seq<Seq<ValueModel>>)
    ensures
        loaded(rows).rows == rows.len() % 10_000,
    decreases rows.len(),
{
    if rows.len() > 0 {
        lemma_chunks(rows.drop_last());
        lemma_load_is_complete(rows.drop_last());
    }
}

} // verus!
