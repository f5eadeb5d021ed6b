//! Row and column bookkeeping for tables rendered into a virtual buffer:
//! numbering cells, following row and column spans, and collecting the
//! header cells of each column and row.

use crate::keyed_map::KeyedMap;
use crate::wide::{append_units, decimal, dec};
use std::collections::HashMap;
use vstd::prelude::*;

verus! {

broadcast use vstd::std_specs::hash::group_hash_axioms;

/// A header applies to the columns it spans.
pub const TABLEHEADER_COLUMN: i32 = 0x1;
/// A header applies to the rows it spans.
pub const TABLEHEADER_ROW: i32 = 0x2;

/// A header cell known by its element id: its unique id and whether it
/// heads columns, rows or both.
#[derive(Clone, Copy)]
pub struct TableHeaderInfo {
    pub unique_id: i32,
    pub kind: i32,
}

/// The state of one table while its rows and cells are rendered.
pub struct TableInfo {
    pub table_id: i32,
    /// The current row, counted from 1 (0 before the first row).
    pub cur_row_number: i32,
    /// The column of the last cell placed in the current row (its last
    /// column when it spans several).
    pub cur_column_number: i32,
    /// Something marks this as a data table rather than a layout table.
    pub definit_data: bool,
    /// Column -> rows still covered by a cell from an earlier row.
    pub column_row_spans: HashMap<i32, i32>,
    /// Column -> its header cells, as `doc,id;` entries.
    pub column_headers: HashMap<i32, Vec<u16>>,
    /// Row -> its header cells, as `doc,id;` entries.
    pub row_headers: HashMap<i32, Vec<u16>>,
    /// Header element id -> header cell.
    pub headers_info: KeyedMap<Vec<u16>, TableHeaderInfo>,
    /// Cells (by a key of the caller's) whose explicit headers are
    /// resolved when the table is finished, with their headers attribute.
    pub nodes_with_explicit_headers: Vec<(u64, Vec<u16>)>,
}

/// Every span left is positive and sits on a column before the last one,
/// so that stepping past it stays within range.
pub open spec fn spans_ok(spans: Map<i32, i32>) -> bool {
    forall|k: i32| #[trigger] spans.contains_key(k) ==> spans[k] > 0 && k < i32::MAX
}

/// Stepping from column `col` past the columns that cells of earlier rows
/// still cover: each such column uses up one row of its span (a span that
/// reaches zero is dropped). Gives the spans after and the first column
/// not covered.
pub open spec fn skip_spanned(spans: Map<i32, i32>, col: i32) -> (Map<i32, i32>, i32)
    decreases i32::MAX - col,
{
    if spans.contains_key(col) && col < i32::MAX {
        let left = spans[col] - 1;
        let next = if left == 0 {
            spans.remove(col)
        } else {
            spans.insert(col, left as i32)
        };
        skip_spanned(next, (col + 1) as i32)
    } else {
        (spans, col)
    }
}

/// After skipping, the column reached is not covered, no column before it
/// was passed over, the spans stay valid, and spans of columns outside
/// the ones passed are untouched.
pub proof fn lemma_skip_spanned(spans: Map<i32, i32>, col: i32)
    requires
        spans_ok(spans),
    ensures
        !skip_spanned(spans, col).0.contains_key(skip_spanned(spans, col).1),
        col <= skip_spanned(spans, col).1,
        spans_ok(skip_spanned(spans, col).0),
        forall|k: i32|
            (k < col || k >= skip_spanned(spans, col).1) ==> (#[trigger] skip_spanned(
                spans,
                col,
            ).0.contains_key(k) == spans.contains_key(k) && (spans.contains_key(k) ==> skip_spanned(
                spans,
                col,
            ).0[k] == spans[k])),
    decreases i32::MAX - col,
{
    if spans.contains_key(col) && col < i32::MAX {
        let left = spans[col] - 1;
        let next = if left == 0 {
            spans.remove(col)
        } else {
            spans.insert(col, left as i32)
        };
        assert(spans_ok(next));
        lemma_skip_spanned(next, (col + 1) as i32);
    }
}

impl TableInfo {
    /// The spans, column headers, row headers and header ids as maps.
    pub open spec fn spans(&self) -> Map<i32, i32> {
        self.column_row_spans@
    }

    /// The table's invariant: its spans are valid.
    pub open spec fn wf(&self) -> bool {
        spans_ok(self.spans())
    }

    /// A table with the given id, before its first row.
    pub fn new(table_id: i32) -> (t: Self)
        ensures
            t.wf(),
            t.table_id == table_id,
            t.cur_row_number == 0,
            t.cur_column_number == 0,
            !t.definit_data,
            t.spans() == Map::<i32, i32>::empty(),
            t.column_headers@ == Map::<i32, Vec<u16>>::empty(),
            t.row_headers@ == Map::<i32, Vec<u16>>::empty(),
            t.headers_info@ == Map::<Seq<u16>, TableHeaderInfo>::empty(),
            t.nodes_with_explicit_headers@ == Seq::<(u64, Vec<u16>)>::empty(),
            t.state() == TableInfo::new_state(table_id),
    {
        let t = TableInfo {
            table_id,
            cur_row_number: 0,
            cur_column_number: 0,
            definit_data: false,
            column_row_spans: HashMap::new(),
            column_headers: HashMap::new(),
            row_headers: HashMap::new(),
            headers_info: KeyedMap::new(),
            nodes_with_explicit_headers: Vec::new(),
        };
        assert(texts(t.column_headers@) =~= Map::<i32, Seq<u16>>::empty());
        assert(texts(t.row_headers@) =~= Map::<i32, Seq<u16>>::empty());
        assert(t.nodes_with_explicit_headers@.map_values(|p: (u64, Vec<u16>)| (p.0, p.1@)) =~= Seq::<
            (u64, Seq<u16>),
        >::empty());
        t
    }

    /// A new row starts: the row number goes up and the column goes back
    /// to 0.
    pub fn start_row(&mut self)
        requires
            old(self).cur_row_number < i32::MAX,
        ensures
            final(self).cur_row_number == old(self).cur_row_number + 1,
            final(self).cur_column_number == 0,
            final(self).table_id == old(self).table_id,
            final(self).definit_data == old(self).definit_data,
            final(self).spans() == old(self).spans(),
            final(self).column_headers@ == old(self).column_headers@,
            final(self).row_headers@ == old(self).row_headers@,
            final(self).headers_info@ == old(self).headers_info@,
            final(self).nodes_with_explicit_headers@ == old(self).nodes_with_explicit_headers@,
    {
        self.cur_row_number = self.cur_row_number + 1;
        self.cur_column_number = 0;
    }

    /// Moves the current column past the columns that cells of earlier
    /// rows still cover, using up one row of each such span (see
    /// `skip_spanned`).
    pub fn handle_cols_spanned_by_prev_rows(&mut self)
        requires
            old(self).wf(),
        ensures
            final(self).wf(),
            (final(self).spans(), final(self).cur_column_number) == skip_spanned(
                old(self).spans(),
                old(self).cur_column_number,
            ),
            final(self).cur_row_number == old(self).cur_row_number,
            final(self).table_id == old(self).table_id,
            final(self).definit_data == old(self).definit_data,
            final(self).column_headers@ == old(self).column_headers@,
            final(self).row_headers@ == old(self).row_headers@,
            final(self).headers_info@ == old(self).headers_info@,
            final(self).nodes_with_explicit_headers@ == old(self).nodes_with_explicit_headers@,
    {
        let ghost target = skip_spanned(old(self).spans(), old(self).cur_column_number);
        loop
            invariant
                spans_ok(self.spans()),
                target == skip_spanned(old(self).spans(), old(self).cur_column_number),
                skip_spanned(self.spans(), self.cur_column_number) == target,
                self.cur_row_number == old(self).cur_row_number,
                self.table_id == old(self).table_id,
                self.definit_data == old(self).definit_data,
                self.column_headers@ == old(self).column_headers@,
                self.row_headers@ == old(self).row_headers@,
                self.headers_info@ == old(self).headers_info@,
                self.nodes_with_explicit_headers@ == old(self).nodes_with_explicit_headers@,
            ensures
                spans_ok(self.spans()),
                (self.spans(), self.cur_column_number) == target,
                self.cur_row_number == old(self).cur_row_number,
                self.table_id == old(self).table_id,
                self.definit_data == old(self).definit_data,
                self.column_headers@ == old(self).column_headers@,
                self.row_headers@ == old(self).row_headers@,
                self.headers_info@ == old(self).headers_info@,
                self.nodes_with_explicit_headers@ == old(self).nodes_with_explicit_headers@,
            decreases i32::MAX - self.cur_column_number,
        {
            let col = self.cur_column_number;
            let remaining: i32 = match self.column_row_spans.get(&col) {
                None => {
                    assert(skip_spanned(self.spans(), col) == (self.spans(), col));
                    return ;
                },
                Some(span) => *span - 1,
            };
            if remaining == 0 {
                self.column_row_spans.remove(&col);
            } else {
                self.column_row_spans.insert(col, remaining);
            }
            self.cur_column_number = col + 1;
        }
    }
}

/// The header entry for one header cell: `doc,id;`.
pub open spec fn header_entry(doc_handle: i32, unique_id: i32) -> Seq<u16> {
    decimal(doc_handle as int) + seq![0x2Cu16] + decimal(unique_id as int) + seq![0x3Bu16]
}

/// Builds the header entry `doc,id;` of a header cell.
pub fn header_cell_entry(doc_handle: i32, unique_id: i32) -> (entry: Vec<u16>)
    ensures
        entry@ == header_entry(doc_handle, unique_id),
{
    let mut entry = dec(doc_handle);
    entry.push(0x2C);
    let id = dec(unique_id);
    append_units(&mut entry, id.as_slice());
    entry.push(0x3B);
    entry
}

/// The texts of a map of code-unit vectors.
pub open spec fn texts(m: Map<i32, Vec<u16>>) -> Map<i32, Seq<u16>> {
    m.map_values(|v: Vec<u16>| v@)
}

/// The text at `k`, or nothing.
pub open spec fn text_at(m: Map<i32, Seq<u16>>, k: i32) -> Seq<u16> {
    if m.contains_key(k) {
        m[k]
    } else {
        Seq::empty()
    }
}

/// `m` with `entry` appended to the text of every key from `from` to
/// `to` (inclusive), adding keys as needed.
pub open spec fn headers_over(m: Map<i32, Seq<u16>>, from: int, to: int, entry: Seq<u16>) -> Map<
    i32,
    Seq<u16>,
> {
    Map::new(
        |k: i32| m.contains_key(k) || from <= k <= to,
        |k: i32|
            if from <= k <= to {
                text_at(m, k) + entry
            } else {
                m[k]
            },
    )
}

/// `spans` with every column from `from` to `to` (inclusive) covered for
/// `rows` more rows.
pub open spec fn spans_over(spans: Map<i32, i32>, from: int, to: int, rows: i32) -> Map<i32, i32> {
    Map::new(
        |k: i32| spans.contains_key(k) || from <= k <= to,
        |k: i32|
            if from <= k <= to {
                rows
            } else {
                spans[k]
            },
    )
}

/// Appends `entry` to the texts of keys `from..=to`.
fn add_header_range(map: &mut HashMap<i32, Vec<u16>>, from: i32, to: i32, entry: &[u16])
    requires
        from <= to,
    ensures
        texts(final(map)@) == headers_over(texts(old(map)@), from as int, to as int, entry@),
{
    let ghost start = texts(old(map)@);
    let mut k: i64 = from as i64;
    assert(headers_over(start, from as int, from - 1, entry@) =~= start);
    while k <= to as i64
        invariant
            from <= k <= to as int + 1,
            texts(map@) == headers_over(start, from as int, k - 1, entry@),
        decreases to as int + 1 - k,
    {
        let key = k as i32;
        let mut text: Vec<u16> = Vec::new();
        match map.get(&key) {
            Some(existing) => {
                append_units(&mut text, existing.as_slice());
            },
            None => {},
        }
        append_units(&mut text, entry);
        let ghost before = texts(map@);
        let ghost before_map = map@;
        assert(text@ == text_at(before, key) + entry@);
        map.insert(key, text);
        proof {
            let target = headers_over(start, from as int, k as int, entry@);
            assert forall|j: i32| #[trigger] texts(map@).contains_key(j) <==> target.contains_key(j) by {
                assert(texts(map@).contains_key(j) == map@.contains_key(j));
                assert(before.contains_key(j) == before_map.contains_key(j));
                assert(before.contains_key(j) == headers_over(start, from as int, k - 1, entry@).contains_key(j));
            }
            assert forall|j: i32| #[trigger] texts(map@).contains_key(j) implies texts(map@)[j]
                == target[j] by {
                if j != key {
                    assert(texts(map@)[j] == before[j]);
                }
            }
            assert(texts(map@) =~= target);
        }
        k += 1;
    }
}

/// Covers columns `from..=to` for `rows` more rows.
fn cover_columns(spans: &mut HashMap<i32, i32>, from: i32, to: i32, rows: i32)
    requires
        from <= to,
    ensures
        final(spans)@ == spans_over(old(spans)@, from as int, to as int, rows),
{
    let ghost start = old(spans)@;
    let mut k: i64 = from as i64;
    assert(spans_over(start, from as int, from - 1, rows) =~= start);
    while k <= to as i64
        invariant
            from <= k <= to as int + 1,
            spans@ == spans_over(start, from as int, k - 1, rows),
        decreases to as int + 1 - k,
    {
        spans.insert(k as i32, rows);
        assert(spans@ =~= spans_over(start, from as int, k as int, rows));
        k += 1;
    }
}

/// A table's state as values: numbering, spans, header texts, header
/// ids and the cells waiting for their explicit headers.
pub struct TableState {
    pub table_id: i32,
    pub row: i32,
    pub col: i32,
    pub definit_data: bool,
    pub spans: Map<i32, i32>,
    pub column_headers: Map<i32, Seq<u16>>,
    pub row_headers: Map<i32, Seq<u16>>,
    pub headers_info: Map<Seq<u16>, TableHeaderInfo>,
    pub explicit: Seq<(u64, Seq<u16>)>,
}

impl TableInfo {
    /// The bookkeeping as a mathematical value.
    pub open spec fn state(&self) -> TableState {
        TableState {
            table_id: self.table_id,
            row: self.cur_row_number,
            col: self.cur_column_number,
            definit_data: self.definit_data,
            spans: self.column_row_spans@,
            column_headers: texts(self.column_headers@),
            row_headers: texts(self.row_headers@),
            headers_info: self.headers_info@,
            explicit: self.nodes_with_explicit_headers@.map_values(|p: (u64, Vec<u16>)| (p.0, p.1@)),
        }
    }
}

impl TableInfo {
    /// The state of a new table with the given id.
    pub open spec fn new_state(table_id: i32) -> TableState {
        TableState {
            table_id,
            row: 0,
            col: 0,
            definit_data: false,
            spans: Map::empty(),
            column_headers: Map::empty(),
            row_headers: Map::empty(),
            headers_info: Map::empty(),
            explicit: Seq::empty(),
        }
    }
}

/// A cell starts: the column goes one on, past any column still covered
/// from an earlier row.
pub open spec fn begin_cell_state(s: TableState) -> TableState {
    let (spans, col) = skip_spanned(s.spans, (s.col + 1) as i32);
    TableState { spans, col, ..s }
}

/// The extra columns or rows a span value adds: one less than the value,
/// and none for values below 2.
pub open spec fn span_extra(value: i32) -> int {
    if value - 1 > 0 {
        value - 1
    } else {
        0
    }
}

/// The numbers fit: a column span keeps the column in range and a row
/// span keeps its last column before the last one and its last row in
/// range.
pub open spec fn spans_fit(s: TableState, col_span: Option<i32>, row_span: Option<i32>) -> bool {
    let col = s.col + match col_span {
        Some(v) => span_extra(v),
        None => 0,
    };
    &&& col_span matches Some(v) ==> v > i32::MIN
    &&& col <= i32::MAX
    &&& row_span matches Some(v) ==> v > i32::MIN && (span_extra(v) > 0 ==> col < i32::MAX
        && s.row + span_extra(v) <= i32::MAX)
}

/// After a column span: the column moves to the cell's last column.
pub open spec fn after_col_span(s: TableState, col_span: Option<i32>) -> TableState {
    match col_span {
        Some(v) => TableState { col: (s.col + span_extra(v)) as i32, ..s },
        None => s,
    }
}

/// After a row span of more than one row: the cell's columns stay covered
/// for the rows below; gives the state and the cell's last row.
pub open spec fn after_row_span(s: TableState, start_col: i32, row_span: Option<i32>) -> (
    TableState,
    int,
) {
    match row_span {
        Some(v) => if span_extra(v) > 0 {
            (
                TableState {
                    spans: spans_over(s.spans, start_col as int, s.col as int, (v - 1) as i32),
                    ..s
                },
                s.row + span_extra(v),
            )
        } else {
            (s, s.row as int)
        },
        None => (s, s.row as int),
    }
}

/// After a header cell of the given kind: its entry is added to the
/// columns (from `start_col` to the current column) and rows (from the
/// current row to `end_row`) it heads, and its element id, if any, is
/// recorded.
pub open spec fn after_header(
    s: TableState,
    start_col: i32,
    end_row: int,
    kind: i32,
    entry: Seq<u16>,
    element_id: Option<Seq<u16>>,
    unique_id: i32,
) -> TableState {
    let s1 = if kind & TABLEHEADER_COLUMN != 0 {
        TableState {
            column_headers: headers_over(s.column_headers, start_col as int, s.col as int, entry),
            ..s
        }
    } else {
        s
    };
    let s2 = if kind & TABLEHEADER_ROW != 0 {
        TableState { row_headers: headers_over(s1.row_headers, s.row as int, end_row, entry), ..s1 }
    } else {
        s1
    };
    match element_id {
        Some(e) => TableState {
            headers_info: s2.headers_info.insert(e, TableHeaderInfo { unique_id, kind }),
            ..s2
        },
        None => s2,
    }
}

impl TableInfo {
    /// Starts a cell: moves to the next column not covered from an earlier
    /// row (see `begin_cell_state`) and gives its row and column.
    pub fn begin_cell(&mut self) -> (place: (i32, i32))
        requires
            old(self).wf(),
            old(self).cur_column_number < i32::MAX,
        ensures
            final(self).wf(),
            final(self).state() == begin_cell_state(old(self).state()),
            place == (final(self).cur_row_number, final(self).cur_column_number),
            !final(self).spans().contains_key(final(self).cur_column_number),
            final(self).cur_column_number > old(self).cur_column_number,
    {
        self.cur_column_number = self.cur_column_number + 1;
        self.handle_cols_spanned_by_prev_rows();
        proof {
            lemma_skip_spanned(old(self).spans(), (old(self).cur_column_number + 1) as i32);
        }
        (self.cur_row_number, self.cur_column_number)
    }

    /// The header cells already collected for the column and the row of a
    /// cell (those of header cells above and before it).
    pub fn implicit_header_cells(&self, row: i32, col: i32) -> (cells: (
        Option<Vec<u16>>,
        Option<Vec<u16>>,
    ))
        ensures
            cells.0 matches Some(c) ==> self.state().column_headers.contains_key(col) && c@
                == self.state().column_headers[col],
            cells.0 is None ==> !self.state().column_headers.contains_key(col),
            cells.1 matches Some(r) ==> self.state().row_headers.contains_key(row) && r@
                == self.state().row_headers[row],
            cells.1 is None ==> !self.state().row_headers.contains_key(row),
    {
        let column = match self.column_headers.get(&col) {
            Some(h) => {
                let mut copy: Vec<u16> = Vec::new();
                append_units(&mut copy, h.as_slice());
                assert(copy@ =~= h@);
                Some(copy)
            },
            None => None,
        };
        let row_cells = match self.row_headers.get(&row) {
            Some(h) => {
                let mut copy: Vec<u16> = Vec::new();
                append_units(&mut copy, h.as_slice());
                assert(copy@ =~= h@);
                Some(copy)
            },
            None => None,
        };
        (column, row_cells)
    }

    /// Remembers a cell whose explicit headers are resolved when the table
    /// is finished.
    pub fn record_explicit_headers(&mut self, cell: u64, headers: Vec<u16>)
        ensures
            final(self).state() == (TableState {
                explicit: old(self).state().explicit.push((cell, headers@)),
                ..old(self).state()
            }),
            final(self).wf() == old(self).wf(),
    {
        self.nodes_with_explicit_headers.push((cell, headers));
        proof {
            assert(self.state().explicit =~= old(self).state().explicit.push((cell, headers@)));
        }
    }

    /// Applies a cell's column span (see `after_col_span`).
    pub fn apply_col_span(&mut self, value: i32)
        requires
            value > i32::MIN,
            old(self).cur_column_number + span_extra(value) <= i32::MAX,
        ensures
            final(self).state() == after_col_span(old(self).state(), Some(value)),
            final(self).wf() == old(self).wf(),
    {
        let extra = value - 1;
        if extra > 0 {
            self.cur_column_number = self.cur_column_number + extra;
        }
    }

    /// Applies a cell's row span (see `after_row_span`) and gives the
    /// cell's last row.
    pub fn apply_row_span(&mut self, start_col: i32, value: i32) -> (end_row: i32)
        requires
            old(self).wf(),
            value > i32::MIN,
            start_col <= old(self).cur_column_number,
            span_extra(value) > 0 ==> old(self).cur_column_number < i32::MAX
                && old(self).cur_row_number + span_extra(value) <= i32::MAX,
        ensures
            final(self).wf(),
            (final(self).state(), end_row as int) == after_row_span(
                old(self).state(),
                start_col,
                Some(value),
            ),
    {
        let span = value - 1;
        if span > 0 {
            cover_columns(&mut self.column_row_spans, start_col, self.cur_column_number, span);
            self.cur_row_number + span
        } else {
            self.cur_row_number
        }
    }

    /// Records a header cell (see `after_header`).
    pub fn register_header(
        &mut self,
        start_col: i32,
        end_row: i32,
        kind: i32,
        entry: &[u16],
        element_id: Option<Vec<u16>>,
        unique_id: i32,
    )
        requires
            start_col <= old(self).cur_column_number,
            old(self).cur_row_number <= end_row,
        ensures
            final(self).state() == after_header(
                old(self).state(),
                start_col,
                end_row as int,
                kind,
                entry@,
                match element_id {
                    Some(e) => Some(e@),
                    None => None,
                },
                unique_id,
            ),
            final(self).wf() == old(self).wf(),
    {
        if kind & TABLEHEADER_COLUMN != 0 {
            add_header_range(&mut self.column_headers, start_col, self.cur_column_number, entry);
        }
        if kind & TABLEHEADER_ROW != 0 {
            add_header_range(&mut self.row_headers, self.cur_row_number, end_row, entry);
        }
        match element_id {
            Some(e) => {
                self.headers_info.insert(e, TableHeaderInfo { unique_id, kind });
            },
            None => {},
        }
    }
}

/// The entry a header id contributes to the headers of one kind (`bit`):
/// that of the header cell with this id when it heads that kind.
pub open spec fn lookup_entry(info: Map<Seq<u16>, TableHeaderInfo>, id: Seq<u16>, doc_handle: i32, bit: i32) -> Seq<u16> {
    if info.contains_key(id) && info[id].kind & bit != 0 {
        header_entry(doc_handle, info[id].unique_id)
    } else {
        Seq::empty()
    }
}

/// A header cell registered under an element id is found again by that
/// id: resolving the id gives the cell's entry for each axis that the
/// header covers, and nothing for the others.
pub proof fn lemma_registered_header_resolves(
    s: TableState,
    start_col: i32,
    end_row: int,
    kind: i32,
    entry: Seq<u16>,
    element_id: Seq<u16>,
    unique_id: i32,
    doc_handle: i32,
    bit: i32,
)
    ensures
        lookup_entry(
            after_header(s, start_col, end_row, kind, entry, Some(element_id), unique_id).headers_info,
            element_id,
            doc_handle,
            bit,
        ) == (if kind & bit != 0 {
            header_entry(doc_handle, unique_id)
        } else {
            Seq::<u16>::empty()
        }),
{
}

/// A column header applies to every column from its first to the current
/// one: each of them gets the header's entry after the headers it had, and
/// every other column keeps its headers.
pub proof fn lemma_column_header_covers_its_columns(
    s: TableState,
    start_col: i32,
    end_row: int,
    kind: i32,
    entry: Seq<u16>,
    element_id: Option<Seq<u16>>,
    unique_id: i32,
    k: i32,
)
    requires
        kind & TABLEHEADER_COLUMN != 0,
    ensures
        ({
            let t = after_header(s, start_col, end_row, kind, entry, element_id, unique_id);
            &&& start_col <= k <= s.col ==> t.column_headers.contains_key(k)
                && t.column_headers[k] == text_at(s.column_headers, k) + entry
            &&& !(start_col <= k <= s.col) ==> (t.column_headers.contains_key(k)
                == s.column_headers.contains_key(k) && (s.column_headers.contains_key(k)
                ==> t.column_headers[k] == s.column_headers[k]))
        }),
{
}

/// A row header applies to every row from the current one to its last:
/// each of them gets the header's entry after the headers it had, and
/// every other row keeps its headers.
pub proof fn lemma_row_header_covers_its_rows(
    s: TableState,
    start_col: i32,
    end_row: int,
    kind: i32,
    entry: Seq<u16>,
    element_id: Option<Seq<u16>>,
    unique_id: i32,
    k: i32,
)
    requires
        kind & TABLEHEADER_ROW != 0,
    ensures
        ({
            let t = after_header(s, start_col, end_row, kind, entry, element_id, unique_id);
            &&& s.row <= k <= end_row ==> t.row_headers.contains_key(k) && t.row_headers[k]
                == text_at(s.row_headers, k) + entry
            &&& !(s.row <= k <= end_row) ==> (t.row_headers.contains_key(k)
                == s.row_headers.contains_key(k) && (s.row_headers.contains_key(k)
                ==> t.row_headers[k] == s.row_headers[k]))
        }),
{
}

/// The entries of a list of header ids, in order.
pub open spec fn resolved_headers(
    ids: Seq<Seq<u16>>,
    info: Map<Seq<u16>, TableHeaderInfo>,
    doc_handle: i32,
    bit: i32,
) -> Seq<u16>
    decreases ids.len(),
{
    if ids.len() == 0 {
        Seq::empty()
    } else {
        lookup_entry(info, ids[0], doc_handle, bit) + resolved_headers(ids.drop_first(), info, doc_handle, bit)
    }
}

impl TableInfo {
    /// Appends what the header id `id` contributes to the column headers
    /// and to the row headers.
    pub fn resolve_header_id(&self, id: &[u16], doc_handle: i32, columns: &mut Vec<u16>, rows: &mut Vec<u16>)
        ensures
            final(columns)@ == old(columns)@ + lookup_entry(
                self.headers_info@,
                id@,
                doc_handle,
                TABLEHEADER_COLUMN,
            ),
            final(rows)@ == old(rows)@ + lookup_entry(self.headers_info@, id@, doc_handle, TABLEHEADER_ROW),
    {
        let mut key: Vec<u16> = Vec::new();
        append_units(&mut key, id);
        assert(key@ =~= id@);
        match self.headers_info.get(&key) {
            Some(info) => {
                let entry = header_cell_entry(doc_handle, info.unique_id);
                if info.kind & TABLEHEADER_COLUMN != 0 {
                    append_units(columns, entry.as_slice());
                } else {
                    assert(columns@ =~= old(columns)@ + Seq::<u16>::empty());
                }
                if info.kind & TABLEHEADER_ROW != 0 {
                    append_units(rows, entry.as_slice());
                } else {
                    assert(rows@ =~= old(rows)@ + Seq::<u16>::empty());
                }
            },
            None => {
                assert(columns@ =~= old(columns)@ + Seq::<u16>::empty());
                assert(rows@ =~= old(rows)@ + Seq::<u16>::empty());
            },
        }
    }
}

/// The table attributes a cell node gets.
pub struct CellTableAttributes {
    pub table_id: i32,
    pub row_number: i32,
    pub column_number: i32,
    /// `table-columnheadercells`, when the column has header cells and the
    /// cell names no explicit headers.
    pub column_header_cells: Option<Vec<u16>>,
    /// `table-rowheadercells`, likewise for the row.
    pub row_header_cells: Option<Vec<u16>>,
    /// `table-columnsspanned`: the column span as written.
    pub columns_spanned: Option<Vec<u16>>,
    /// `table-rowsspanned`: the row span as written.
    pub rows_spanned: Option<Vec<u16>>,
}

/// The text of an optional vector.
pub open spec fn opt_text(v: Option<Vec<u16>>) -> Option<Seq<u16>> {
    match v {
        Some(t) => Some(t@),
        None => None,
    }
}

/// The text at `k` of a map, if any.
pub open spec fn text_lookup(m: Map<i32, Seq<u16>>, k: i32) -> Option<Seq<u16>> {
    if m.contains_key(k) {
        Some(m[k])
    } else {
        None
    }
}

/// The attributes of a cell placed at `s1` (the state once the cell has
/// begun) in a table that was at `s0`: its table id, row and column, the
/// implicit headers unless it has explicit ones, and its spans as
/// written.
pub open spec fn cell_attributes_ok(
    out: CellTableAttributes,
    s0: TableState,
    s1: TableState,
    has_explicit_headers: bool,
    col_span: Option<Seq<u16>>,
    row_span: Option<Seq<u16>>,
) -> bool {
    &&& out.table_id == s0.table_id
    &&& out.row_number == s0.row
    &&& out.column_number == s1.col
    &&& has_explicit_headers ==> out.column_header_cells is None && out.row_header_cells is None
    &&& !has_explicit_headers ==> opt_text(out.column_header_cells) == text_lookup(
        s1.column_headers,
        s1.col,
    ) && opt_text(out.row_header_cells) == text_lookup(s1.row_headers, s0.row)
    &&& opt_text(out.columns_spanned) == col_span
    &&& opt_text(out.rows_spanned) == row_span
}

/// A copy of an optional vector.
pub fn copy_opt(v: &Option<Vec<u16>>) -> (c: Option<Vec<u16>>)
    ensures
        opt_text(c) == opt_text(*v),
{
    match v {
        Some(t) => {
            let mut copy: Vec<u16> = Vec::new();
            append_units(&mut copy, t.as_slice());
            assert(copy@ =~= t@);
            Some(copy)
        },
        None => None,
    }
}

impl TableInfo {
    /// The `table-rowcount` and `table-columncount` values of a finished
    /// table: its last row and column numbers in decimal.
    pub fn table_counts(&self) -> (counts: (Vec<u16>, Vec<u16>))
        ensures
            counts.0@ == decimal(self.cur_row_number as int),
            counts.1@ == decimal(self.cur_column_number as int),
    {
        (dec(self.cur_row_number), dec(self.cur_column_number))
    }
}

} // verus!
