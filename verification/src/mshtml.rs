//! MSHTML (Internet Explorer) virtual-buffer rules: attribute maps keyed
//! by UTF-16 names, tables from HTML attributes, and small text helpers.

use crate::keyed_map::KeyedMap;
use crate::numbers::{is_wspace, leading_int, parse_leading_int, white_space_unit};
use crate::table_layout::{
    after_col_span, after_header, after_row_span, begin_cell_state, cell_attributes_ok,
    copy_opt, header_cell_entry, header_entry, opt_text, resolved_headers, spans_fit, TableInfo,
    TableState, TABLEHEADER_COLUMN, TABLEHEADER_ROW,
};
use crate::url_name::{first_index_of, lemma_first_index_of_range, name_for_url, name_for_url_exec, SPACE};
use crate::wide::{append_units, decimal, dec, utf16, utf16_encode};
use vstd::prelude::*;

verus! {

/// The attributes collected for an HTML node, by UTF-16 name.
pub type Attribs = KeyedMap<Vec<u16>, Vec<u16>>;

/// The UTF-16 encoding of `s`.
pub fn u(s: &str) -> (units: Vec<u16>)
    ensures
        units@ == utf16_encode(s@),
{
    utf16(s)
}

/// The decimal representation of `n` in UTF-16.
pub fn ui(n: i32) -> (units: Vec<u16>)
    ensures
        units@ == decimal(n as int),
{
    dec(n)
}

/// `true` when `a` is the UTF-16 encoding of `b`.
pub fn weq(a: &[u16], b: &str) -> (eq: bool)
    ensures
        eq == (a@ == utf16_encode(b@)),
{
    crate::wide::weq(a, b)
}

/// Case-insensitive (ASCII) comparison against the bytes of `b`.
pub fn eq_ic(a: &[u16], b: &str) -> (eq: bool)
    ensures
        eq == crate::wide::eq_ic_spec(a@, b),
{
    crate::wide::eq_ic(a, b)
}

/// The key of a raw HTML attribute: `HTMLAttrib::` and the name.
pub open spec fn html_key_of(name: Seq<char>) -> Seq<u16> {
    utf16_encode("HTMLAttrib::"@) + utf16_encode(name)
}

/// Builds the key `HTMLAttrib::<name>`.
pub fn html_key(name: &str) -> (key: Vec<u16>)
    ensures
        key@ == html_key_of(name@),
{
    let mut key = utf16("HTMLAttrib::");
    let rest = utf16(name);
    append_units(&mut key, rest.as_slice());
    key
}

/// The value of the raw HTML attribute `name`, if collected.
pub fn attr_html<'a>(attribs: &'a Attribs, name: &str) -> (value: Option<&'a Vec<u16>>)
    ensures
        value matches Some(v) ==> attribs@.contains_key(html_key_of(name@)) && *v == attribs@[html_key_of(
            name@,
        )],
        value is None ==> !attribs@.contains_key(html_key_of(name@)),
{
    let key = html_key(name);
    attribs.get(&key)
}

/// `_wtoi` as the HTML backend reads it: the leading integer after white
/// space, 0 when there is none.
pub fn wtoi(s: &[u16]) -> (value: i32)
    ensures
        value == (match leading_int(s@, white_space_unit()) {
            Some(v) => v,
            None => 0,
        }),
{
    match parse_leading_int(s) {
        Some(v) => v,
        None => 0,
    }
}

/// A short readable name for `url` (see `crate::url_name`); when the last
/// `#` comes before the last `?`, the query is left out.
pub fn get_name_for_url(url: &[u16]) -> (name: Vec<u16>)
    ensures
        name@ == name_for_url(url@, false),
{
    name_for_url_exec(url, false)
}

} // verus!

verus! {

/// The value of the raw HTML attribute `name` in a map, if collected.
pub open spec fn html_attr(m: Map<Seq<u16>, Vec<u16>>, name: Seq<char>) -> Option<Seq<u16>> {
    if m.contains_key(html_key_of(name)) {
        Some(m[html_key_of(name)]@)
    } else {
        None
    }
}

/// The number a span attribute gives, if present.
pub open spec fn html_span(m: Map<Seq<u16>, Vec<u16>>, name: Seq<char>) -> Option<i32> {
    match html_attr(m, name) {
        Some(t) => Some(
            match leading_int(t, white_space_unit()) {
                Some(v) => v,
                None => 0,
            },
        ),
        None => None,
    }
}

/// What an HTML header cell heads: its `scope` (`col`, `row` or `Both`)
/// decides; without one, a header in the first column heads its rows and
/// one in the first row heads its columns.
pub open spec fn html_header_kind(scope: Option<Seq<u16>>, col: i32, row: i32) -> i32 {
    let by_scope = match scope {
        Some(s) => if s == utf16_encode("col"@) {
            TABLEHEADER_COLUMN
        } else if s == utf16_encode("row"@) {
            TABLEHEADER_ROW
        } else if s == utf16_encode("Both"@) {
            3
        } else {
            0
        },
        None => 0,
    };
    if by_scope != 0 {
        by_scope
    } else if col == 1 && row == 1 {
        3
    } else if col == 1 {
        TABLEHEADER_ROW
    } else if row == 1 {
        TABLEHEADER_COLUMN
    } else {
        0
    }
}

/// Computes `html_header_kind`.
pub fn header_kind(scope: Option<&Vec<u16>>, col: i32, row: i32) -> (kind: i32)
    ensures
        kind == html_header_kind(
            match scope {
                Some(s) => Some(s@),
                None => None,
            },
            col,
            row,
        ),
{
    let mut kind: i32 = 0;
    if let Some(s) = scope {
        if weq(s.as_slice(), "col") {
            kind = TABLEHEADER_COLUMN;
        } else if weq(s.as_slice(), "row") {
            kind = TABLEHEADER_ROW;
        } else if weq(s.as_slice(), "Both") {
            kind = 3;
        }
    }
    if kind == 0 {
        if col == 1 && row == 1 {
            kind = 3;
        } else if col == 1 {
            kind = TABLEHEADER_ROW;
        } else if row == 1 {
            kind = TABLEHEADER_COLUMN;
        }
    }
    kind
}

/// The table after placing an HTML cell (`TD`, or `TH` when `is_th`):
/// like a PDF cell, except that a `headers` attribute also marks the
/// table as a data table and header kinds follow `html_header_kind`.
pub open spec fn html_cell_state(
    s0: TableState,
    cell: u64,
    doc_handle: i32,
    unique_id: i32,
    is_th: bool,
    m: Map<Seq<u16>, Vec<u16>>,
) -> TableState {
    let s1 = begin_cell_state(s0);
    let s2 = match html_attr(m, "headers"@) {
        Some(h) => TableState { definit_data: true, explicit: s1.explicit.push((cell, h)), ..s1 },
        None => s1,
    };
    let s3 = after_col_span(s2, html_span(m, "colspan"@));
    let (s4, end_row) = after_row_span(s3, s1.col, html_span(m, "rowspan"@));
    if is_th {
        after_header(
            s4,
            s1.col,
            end_row,
            html_header_kind(html_attr(m, "scope"@), s4.col, s4.row),
            header_entry(doc_handle, unique_id),
            html_attr(m, "id"@),
            unique_id,
        )
    } else {
        s4
    }
}

fn copy_units(v: &Vec<u16>) -> (c: Vec<u16>)
    ensures
        c@ == v@,
{
    let mut c: Vec<u16> = Vec::new();
    append_units(&mut c, v.as_slice());
    assert(c@ =~= v@);
    c
}

/// Places a cell of an HTML table (see `html_cell_state`) and gives the
/// table attributes of its node.
pub fn handle_cell(
    ti: &mut TableInfo,
    cell: u64,
    doc_handle: i32,
    unique_id: i32,
    is_th: bool,
    attribs: &Attribs,
) -> (out: crate::table_layout::CellTableAttributes)
    requires
        old(ti).wf(),
        old(ti).cur_column_number < i32::MAX,
        spans_fit(
            begin_cell_state(old(ti).state()),
            html_span(attribs@, "colspan"@),
            html_span(attribs@, "rowspan"@),
        ),
    ensures
        final(ti).wf(),
        final(ti).state() == html_cell_state(old(ti).state(), cell, doc_handle, unique_id, is_th, attribs@),
        cell_attributes_ok(
            out,
            old(ti).state(),
            begin_cell_state(old(ti).state()),
            html_attr(attribs@, "headers"@) is Some,
            html_attr(attribs@, "colspan"@),
            html_attr(attribs@, "rowspan"@),
        ),
{
    let (cur_row, start_col) = ti.begin_cell();
    let table_id = ti.table_id;
    let (column_header_cells, row_header_cells) = match attr_html(attribs, "headers") {
        Some(h) => {
            ti.definit_data = true;
            ti.record_explicit_headers(cell, copy_units(h));
            (None, None)
        },
        None => ti.implicit_header_cells(cur_row, start_col),
    };
    let mut end_row = cur_row;
    let colspan = attr_html(attribs, "colspan");
    if let Some(c) = colspan {
        let value = wtoi(c.as_slice());
        ti.apply_col_span(value);
    }
    let rowspan = attr_html(attribs, "rowspan");
    if let Some(r) = rowspan {
        let value = wtoi(r.as_slice());
        end_row = ti.apply_row_span(start_col, value);
    }
    if is_th {
        let kind = header_kind(attr_html(attribs, "scope"), ti.cur_column_number, ti.cur_row_number);
        let entry = header_cell_entry(doc_handle, unique_id);
        let element_id = match attr_html(attribs, "id") {
            Some(e) => Some(copy_units(e)),
            None => None,
        };
        ti.register_header(start_col, end_row, kind, entry.as_slice(), element_id, unique_id);
    }
    crate::table_layout::CellTableAttributes {
        table_id,
        row_number: cur_row,
        column_number: start_col,
        column_header_cells,
        row_header_cells,
        columns_spanned: match colspan {
            Some(c) => Some(copy_units(c)),
            None => None,
        },
        rows_spanned: match rowspan {
            Some(r) => Some(copy_units(r)),
            None => None,
        },
    }
}

} // verus!

verus! {

/// The texts of an attribute map.
pub open spec fn attrib_texts(m: Map<Seq<u16>, Vec<u16>>) -> Map<Seq<u16>, Seq<u16>> {
    m.map_values(|v: Vec<u16>| v@)
}

/// Sets `key` to `value` in an attribute map.
pub fn insert_text(attribs: &mut Attribs, key: Vec<u16>, value: Vec<u16>)
    ensures
        attrib_texts(final(attribs)@) == attrib_texts(old(attribs)@).insert(key@, value@),
{
    let ghost k = key@;
    let ghost v = value@;
    attribs.insert(key, value);
    assert(attrib_texts(attribs@) =~= attrib_texts(old(attribs)@).insert(k, v));
}

/// `m` with `key` set to `value` when there is one.
pub open spec fn with_opt(m: Map<Seq<u16>, Seq<u16>>, key: Seq<u16>, value: Option<Seq<u16>>) -> Map<
    Seq<u16>,
    Seq<u16>,
> {
    match value {
        Some(t) => m.insert(key, t),
        None => m,
    }
}

/// The attribute texts after a cell's table attributes are added:
/// `table-id`, `table-rownumber`, `table-columnnumber`, then the header
/// cells and spans it has.
pub open spec fn with_cell_texts(
    m: Map<Seq<u16>, Seq<u16>>,
    table_id: i32,
    row: i32,
    col: i32,
    column_headers: Option<Seq<u16>>,
    row_headers: Option<Seq<u16>>,
    columns_spanned: Option<Seq<u16>>,
    rows_spanned: Option<Seq<u16>>,
) -> Map<Seq<u16>, Seq<u16>> {
    let m1 = m.insert(utf16_encode("table-id"@), decimal(table_id as int)).insert(
        utf16_encode("table-rownumber"@),
        decimal(row as int),
    ).insert(utf16_encode("table-columnnumber"@), decimal(col as int));
    let m2 = with_opt(
        with_opt(m1, utf16_encode("table-columnheadercells"@), column_headers),
        utf16_encode("table-rowheadercells"@),
        row_headers,
    );
    with_opt(
        with_opt(m2, utf16_encode("table-columnsspanned"@), columns_spanned),
        utf16_encode("table-rowsspanned"@),
        rows_spanned,
    )
}

/// `with_cell_texts` for the attributes of a placed cell.
pub open spec fn with_cell_attributes(
    m: Map<Seq<u16>, Seq<u16>>,
    out: crate::table_layout::CellTableAttributes,
) -> Map<Seq<u16>, Seq<u16>> {
    with_cell_texts(
        m,
        out.table_id,
        out.row_number,
        out.column_number,
        opt_text(out.column_header_cells),
        opt_text(out.row_header_cells),
        opt_text(out.columns_spanned),
        opt_text(out.rows_spanned),
    )
}

/// The attribute texts of an HTML cell placed in a table at `s0`, with
/// attributes `m`.
pub open spec fn html_cell_texts(
    before: Map<Seq<u16>, Seq<u16>>,
    s0: TableState,
    m: Map<Seq<u16>, Vec<u16>>,
) -> Map<Seq<u16>, Seq<u16>> {
    let s1 = begin_cell_state(s0);
    let explicit = html_attr(m, "headers"@) is Some;
    with_cell_texts(
        before,
        s0.table_id,
        s0.row,
        s1.col,
        if explicit {
            None
        } else {
            crate::table_layout::text_lookup(s1.column_headers, s1.col)
        },
        if explicit {
            None
        } else {
            crate::table_layout::text_lookup(s1.row_headers, s0.row)
        },
        html_attr(m, "colspan"@),
        html_attr(m, "rowspan"@),
    )
}

fn insert_opt(attribs: &mut Attribs, name: &str, value: Option<Vec<u16>>)
    ensures
        attrib_texts(final(attribs)@) == with_opt(
            attrib_texts(old(attribs)@),
            utf16_encode(name@),
            opt_text(value),
        ),
{
    match value {
        Some(v) => insert_text(attribs, u(name), v),
        None => {},
    }
}

/// Adds a cell's table attributes to its attribute map (see
/// `with_cell_attributes`).
pub fn add_cell_attributes(attribs: &mut Attribs, out: crate::table_layout::CellTableAttributes)
    ensures
        attrib_texts(final(attribs)@) == with_cell_attributes(attrib_texts(old(attribs)@), out),
{
    let ghost o = out;
    insert_text(attribs, u("table-id"), ui(out.table_id));
    insert_text(attribs, u("table-rownumber"), ui(out.row_number));
    insert_text(attribs, u("table-columnnumber"), ui(out.column_number));
    insert_opt(attribs, "table-columnheadercells", out.column_header_cells);
    insert_opt(attribs, "table-rowheadercells", out.row_header_cells);
    insert_opt(attribs, "table-columnsspanned", out.columns_spanned);
    insert_opt(attribs, "table-rowsspanned", out.rows_spanned);
}

/// The element names that mark a table as a data table.
pub open spec fn marks_data_table(name: Seq<u16>) -> bool {
    name == utf16_encode("THEAD"@) || name == utf16_encode("TFOOT"@) || name == utf16_encode("TH"@)
        || name == utf16_encode("CAPTION"@) || name == utf16_encode("COLGROUP"@) || name
        == utf16_encode("ROWGROUP"@)
}

/// What an HTML element is to its table.
pub enum TablePart {
    Table,
    Row,
    Cell { is_th: bool },
    Other,
}

/// The table role of an element name: `TABLE`, `TR`, `TD`/`TH`, or none.
pub open spec fn table_part(name: Seq<u16>) -> TablePart {
    if name == utf16_encode("TABLE"@) {
        TablePart::Table
    } else if name == utf16_encode("TR"@) {
        TablePart::Row
    } else if name == utf16_encode("TD"@) || name == utf16_encode("TH"@) {
        TablePart::Cell { is_th: name == utf16_encode("TH"@) }
    } else {
        TablePart::Other
    }
}

/// Updates the table state for an HTML node and writes its table
/// attributes: data-table markers flag the enclosing table; a `TABLE`
/// starts a new table (a data table when it has a `summary`), which is
/// returned for its descendants; a `TR` starts a row; a `TD` or `TH` is
/// placed (see `handle_cell`). Returns `None` when the descendants keep
/// the enclosing table.
pub fn collect_and_update_table_info(
    table_info: &mut Option<TableInfo>,
    cell: u64,
    node_name: &[u16],
    doc_handle: i32,
    unique_id: i32,
    attribs: &mut Attribs,
) -> (new_table: Option<TableInfo>)
    requires
        *old(table_info) matches Some(t) ==> t.wf() && t.cur_row_number < i32::MAX
            && t.cur_column_number < i32::MAX && spans_fit(
            begin_cell_state(t.state()),
            html_span(old(attribs)@, "colspan"@),
            html_span(old(attribs)@, "rowspan"@),
        ),
    ensures
        *old(table_info) is Some <==> *final(table_info) is Some,
        *old(table_info) matches Some(t0) ==> *final(table_info) matches Some(t1) && ({
            let s0 = if marks_data_table(node_name@) {
                TableState { definit_data: true, ..t0.state() }
            } else {
                t0.state()
            };
            &&& t1.wf()
            &&& match table_part(node_name@) {
                TablePart::Row => t1.state() == (TableState { row: (s0.row + 1) as i32, col: 0, ..s0 }),
                TablePart::Cell { is_th } => t1.state() == html_cell_state(
                    s0,
                    cell,
                    doc_handle,
                    unique_id,
                    is_th,
                    old(attribs)@,
                ),
                _ => t1.state() == s0,
            }
        }),
        match table_part(node_name@) {
            TablePart::Table => new_table matches Some(t) && t.wf() && t.state() == (TableState {
                definit_data: html_attr(old(attribs)@, "summary"@) is Some,
                ..TableInfo::new_state(unique_id)
            }) && attrib_texts(final(attribs)@) == attrib_texts(old(attribs)@).insert(
                utf16_encode("table-id"@),
                decimal(unique_id as int),
            ),
            TablePart::Cell { .. } => new_table is None && (*old(table_info) is None ==> attrib_texts(
                final(attribs)@,
            ) == attrib_texts(old(attribs)@)),
            _ => new_table is None && attrib_texts(final(attribs)@) == attrib_texts(old(attribs)@),
        },
        *old(table_info) matches Some(t0) ==> (table_part(node_name@) is Cell ==> attrib_texts(
            final(attribs)@,
        ) == html_cell_texts(
            attrib_texts(old(attribs)@),
            if marks_data_table(node_name@) {
                TableState { definit_data: true, ..t0.state() }
            } else {
                t0.state()
            },
            old(attribs)@,
        )),
{
    let is_marker = weq(node_name, "THEAD") || weq(node_name, "TFOOT") || weq(node_name, "TH")
        || weq(node_name, "CAPTION") || weq(node_name, "COLGROUP") || weq(node_name, "ROWGROUP");
    if is_marker {
        if let Some(ti) = table_info {
            ti.definit_data = true;
        }
    }
    if weq(node_name, "TABLE") {
        let mut ti = TableInfo::new(unique_id);
        if attr_html(attribs, "summary").is_some() {
            ti.definit_data = true;
        }
        insert_text(attribs, u("table-id"), ui(unique_id));
        Some(ti)
    } else if weq(node_name, "TR") {
        if let Some(ti) = table_info {
            ti.start_row();
        }
        None
    } else if weq(node_name, "TD") || weq(node_name, "TH") {
        let is_th = weq(node_name, "TH");
        if let Some(ti) = table_info {
            let ghost s0 = ti.state();
            assert(s0 == (if marks_data_table(node_name@) {
                TableState { definit_data: true, ..old(table_info)->0.state() }
            } else {
                old(table_info)->0.state()
            }));
            let out = handle_cell(ti, cell, doc_handle, unique_id, is_th, attribs);
            let ghost o = out;
            assert(cell_attributes_ok(
                o,
                s0,
                begin_cell_state(s0),
                html_attr(old(attribs)@, "headers"@) is Some,
                html_attr(old(attribs)@, "colspan"@),
                html_attr(old(attribs)@, "rowspan"@),
            ));
            add_cell_attributes(attribs, out);
            assert(attrib_texts(attribs@) == with_cell_attributes(attrib_texts(old(attribs)@), o));
            assert(opt_text(o.column_header_cells) == (if html_attr(old(attribs)@, "headers"@) is Some {
                None
            } else {
                crate::table_layout::text_lookup(begin_cell_state(s0).column_headers, begin_cell_state(s0).col)
            }));
            assert(opt_text(o.row_header_cells) == (if html_attr(old(attribs)@, "headers"@) is Some {
                None
            } else {
                crate::table_layout::text_lookup(begin_cell_state(s0).row_headers, s0.row)
            }));
            assert(with_cell_attributes(attrib_texts(old(attribs)@), o) == html_cell_texts(
                attrib_texts(old(attribs)@),
                s0,
                old(attribs)@,
            ));
        }
        None
    } else {
        None
    }
}

/// The header ids of an explicit `headers` value, read from `start`:
/// ids separated by single spaces (an empty id between two spaces).
pub open spec fn html_header_ids(attr: Seq<u16>, start: int) -> Seq<Seq<u16>>
    decreases attr.len() + 1 - start,
{
    if start < 0 || start >= attr.len() {
        Seq::empty()
    } else {
        let end = match first_index_of(attr.skip(start), SPACE) {
            Some(off) => start + off,
            None => attr.len() as int,
        };
        proof {
            lemma_first_index_of_range(attr.skip(start), SPACE);
        }
        seq![attr.subrange(start, end)] + html_header_ids(attr, end + 1)
    }
}

/// Resolves the explicit `headers` of an HTML cell against the header
/// cells of the finished table: `(table-columnheadercells,
/// table-rowheadercells)`, each `None` when empty.
pub fn fill_explicit_table_headers_for_cell(ti: &TableInfo, doc_handle: i32, headers_attr: &[u16]) -> (cells: (
    Option<Vec<u16>>,
    Option<Vec<u16>>,
))
    ensures
        ({
            let ids = html_header_ids(headers_attr@, 0);
            let columns = resolved_headers(ids, ti.headers_info@, doc_handle, TABLEHEADER_COLUMN);
            let rows = resolved_headers(ids, ti.headers_info@, doc_handle, TABLEHEADER_ROW);
            &&& cells.0 matches Some(c) ==> c@ == columns && columns.len() > 0
            &&& cells.0 is None ==> columns.len() == 0
            &&& cells.1 matches Some(r) ==> r@ == rows && rows.len() > 0
            &&& cells.1 is None ==> rows.len() == 0
        }),
{
    let mut columns: Vec<u16> = Vec::new();
    let mut rows: Vec<u16> = Vec::new();
    let n = headers_attr.len();
    let mut start: usize = 0;
    let ghost ids = html_header_ids(headers_attr@, 0);
    let ghost info = ti.headers_info@;
    while start < n
        invariant
            n == headers_attr@.len(),
            start <= n,
            ids == html_header_ids(headers_attr@, 0),
            info == ti.headers_info@,
            columns@ + resolved_headers(html_header_ids(headers_attr@, start as int), info, doc_handle, TABLEHEADER_COLUMN)
                == resolved_headers(ids, info, doc_handle, TABLEHEADER_COLUMN),
            rows@ + resolved_headers(html_header_ids(headers_attr@, start as int), info, doc_handle, TABLEHEADER_ROW)
                == resolved_headers(ids, info, doc_handle, TABLEHEADER_ROW),
        decreases n - start,
    {
        let rest = vstd::slice::slice_subrange(headers_attr, start, n);
        assert(rest@ =~= headers_attr@.skip(start as int));
        let end: usize = match crate::url_name::position_of(rest, SPACE) {
            Some(off) => start + off,
            None => n,
        };
        let id = vstd::slice::slice_subrange(headers_attr, start, end);
        let ghost here = html_header_ids(headers_attr@, start as int);
        let ghost next = html_header_ids(headers_attr@, end + 1);
        assert(here == seq![id@] + next);
        assert(here[0] == id@);
        assert(here.drop_first() =~= next);
        let ghost cols_before = columns@;
        let ghost rows_before = rows@;
        ti.resolve_header_id(id, doc_handle, &mut columns, &mut rows);
        assert(columns@ + resolved_headers(next, info, doc_handle, TABLEHEADER_COLUMN) =~= cols_before
            + resolved_headers(here, info, doc_handle, TABLEHEADER_COLUMN));
        assert(rows@ + resolved_headers(next, info, doc_handle, TABLEHEADER_ROW) =~= rows_before
            + resolved_headers(here, info, doc_handle, TABLEHEADER_ROW));
        if end < n {
            start = end + 1;
        } else {
            assert(next == html_header_ids(headers_attr@, n as int));
            start = n;
        }
    }
    proof {
        let tail = html_header_ids(headers_attr@, start as int);
        assert(tail == Seq::<Seq<u16>>::empty());
        assert(columns@ =~= columns@ + resolved_headers(tail, info, doc_handle, TABLEHEADER_COLUMN));
        assert(rows@ =~= rows@ + resolved_headers(tail, info, doc_handle, TABLEHEADER_ROW));
    }
    let c = if columns.len() > 0 {
        Some(columns)
    } else {
        None
    };
    let r = if rows.len() > 0 {
        Some(rows)
    } else {
        None
    };
    (c, r)
}

/// A table that nothing marked as a data table is a layout table.
pub fn is_layout_table(ti: &TableInfo) -> (b: bool)
    ensures
        b == !ti.definit_data,
{
    !ti.definit_data
}

} // verus!
