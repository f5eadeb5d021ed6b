//! Adobe Acrobat (PDF) virtual-buffer rules: text clean-up, element
//! semantics, and table cells with their `Table` attributes.

use crate::numbers::{blank_or_tab, leading_int, wtoi_blank};
use crate::table_layout::{
    after_col_span, after_header, after_row_span, begin_cell_state, header_cell_entry,
    header_entry, resolved_headers, span_extra, spans_fit, TableInfo, TableState,
    TABLEHEADER_COLUMN, TABLEHEADER_ROW,
};
use crate::url_name::{first_index_of, lemma_first_index_of_range, SPACE};
use crate::wide::{append_units, decimal, dec, slice_eq, utf16, utf16_encode, widened_bytes};
use vstd::prelude::*;
use vstd::string::StringSliceAdditionalSpecFns;

verus! {

pub const ROLE_SYSTEM_COLUMNHEADER: i32 = 0x19;
pub const ROLE_SYSTEM_ROWHEADER: i32 = 0x1a;
pub const ROLE_SYSTEM_LIST: i32 = 0x21;
pub const ROLE_SYSTEM_COMBOBOX: i32 = 0x2e;
pub const TEXTFLAG_UNDERLINE: i32 = 0x1;
pub const TEXTFLAG_STRIKETHROUGH: i32 = 0x2;
pub const FONTINFO_NOINFO: i32 = 2;
pub const FONTINFO_MIXEDINFO: i32 = 3;
pub const FONTINFO_VALID: i32 = 4;
pub const CPDDOMNODE_WORD: i32 = 5;

/// The UTF-16 encoding of `s`.
pub fn u(s: &str) -> (units: Vec<u16>)
    ensures
        units@ == utf16_encode(s@),
{
    utf16(s)
}

/// `s` without carriage returns and line feeds.
pub open spec fn without_line_breaks(s: Seq<u16>) -> Seq<u16> {
    s.filter(|c: u16| c != 0x0D && c != 0x0A)
}

/// Strips carriage returns and line feeds from text.
pub fn process_text(in_text: &[u16]) -> (out: Vec<u16>)
    ensures
        out@ == without_line_breaks(in_text@),
{
    let mut out: Vec<u16> = Vec::new();
    let mut i: usize = 0;
    while i < in_text.len()
        invariant
            i <= in_text@.len(),
            out@ == without_line_breaks(in_text@.take(i as int)),
        decreases in_text@.len() - i,
    {
        let c = in_text[i];
        proof {
            assert(in_text@.take(i + 1) =~= in_text@.take(i as int).push(c));
            in_text@.take(i as int).lemma_filter_push(c, |c: u16| c != 0x0D && c != 0x0A);
        }
        if c != 0x0D && c != 0x0A {
            out.push(c);
        }
        i += 1;
    }
    assert(in_text@.take(i as int) =~= in_text@);
    out
}

/// `_wtoi`: the leading integer after spaces and tabs, 0 when there is
/// none.
pub fn wtoi(s: &[u16]) -> (value: i32)
    ensures
        value == (match leading_int(s@, blank_or_tab()) {
            Some(v) => v,
            None => 0,
        }),
{
    wtoi_blank(s)
}

/// The effect of a PDF structure type (`stdName`):
/// `(inline, render_space)`. `Span`, `Link` and `Quote` are inline; a
/// `Formula` is rendered as a single space.
pub fn std_name_effects(std_name: &[u16]) -> (effects: (bool, bool))
    ensures
        effects.0 == (std_name@ == widened_bytes("Span".spec_bytes()) || std_name@ == widened_bytes(
            "Link".spec_bytes(),
        ) || std_name@ == widened_bytes("Quote".spec_bytes())),
        effects.1 == (std_name@ == widened_bytes("Formula".spec_bytes())),
{
    let inline = slice_eq(std_name, "Span") || slice_eq(std_name, "Link") || slice_eq(std_name, "Quote");
    (inline, slice_eq(std_name, "Formula"))
}

/// The text flags of a `TextDecorationType`: `Underline` underlines,
/// `LineThrough` strikes through, anything else neither.
pub fn text_decoration_flags(decoration: &[u16]) -> (flags: i32)
    ensures
        flags == (if decoration@ == widened_bytes("Underline".spec_bytes()) {
            TEXTFLAG_UNDERLINE
        } else if decoration@ == widened_bytes("LineThrough".spec_bytes()) {
            TEXTFLAG_STRIKETHROUGH
        } else {
            0
        }),
{
    if slice_eq(decoration, "Underline") {
        TEXTFLAG_UNDERLINE
    } else if slice_eq(decoration, "LineThrough") {
        TEXTFLAG_STRIKETHROUGH
    } else {
        0
    }
}

/// A node's language: its own `Lang` when it has a non-empty one, else
/// the language it inherits.
pub fn resolve_language(own: Option<&[u16]>, inherited: &[u16]) -> (lang: Vec<u16>)
    ensures
        lang@ == (match own {
            Some(l) => if l@.len() > 0 {
                l@
            } else {
                inherited@
            },
            None => inherited@,
        }),
{
    let mut lang: Vec<u16> = Vec::new();
    match own {
        Some(l) => {
            if l.len() > 0 {
                append_units(&mut lang, l);
            } else {
                append_units(&mut lang, inherited);
            }
        },
        None => {
            append_units(&mut lang, inherited);
        },
    }
    lang
}

/// Children are walked unless the node is rendered as a space or is a
/// list or combo box (whose children Acrobat does not expose).
pub fn descends_into_children(render_space: bool, role: i32) -> (b: bool)
    ensures
        b == (!render_space && role != ROLE_SYSTEM_LIST && role != ROLE_SYSTEM_COMBOBOX),
{
    !render_space && role != ROLE_SYSTEM_LIST && role != ROLE_SYSTEM_COMBOBOX
}

/// The font status used for rendering text: "no info" with children
/// (other than a word node) is treated as mixed, and "mixed" without
/// children as no info.
pub fn effective_font_status(status: i32, child_count: i32, node_type: Option<i32>) -> (s: i32)
    ensures
        s == (if status == FONTINFO_NOINFO && child_count > 0 {
            match node_type {
                Some(t) => if t != CPDDOMNODE_WORD {
                    FONTINFO_MIXEDINFO
                } else {
                    status
                },
                None => status,
            }
        } else if status == FONTINFO_MIXEDINFO && child_count == 0 {
            FONTINFO_NOINFO
        } else {
            status
        }),
{
    if status == FONTINFO_NOINFO && child_count > 0 {
        match node_type {
            Some(t) => if t != CPDDOMNODE_WORD {
                FONTINFO_MIXEDINFO
            } else {
                status
            },
            None => status,
        }
    } else if status == FONTINFO_MIXEDINFO && child_count == 0 {
        FONTINFO_NOINFO
    } else {
        status
    }
}

/// The page number text of a node on pages `first..=last` (0-based):
/// only a node on a single page has one, its 1-based number.
pub fn page_number_text(first: i32, last: i32) -> (text: Option<Vec<u16>>)
    requires
        first < i32::MAX,
    ensures
        first != last ==> text is None,
        first == last ==> (text matches Some(t) && t@ == decimal(first + 1)),
{
    if first != last {
        return None;
    }
    Some(dec(first + 1))
}

} // verus!

verus! {

/// The `Table` attributes of a PDF cell element that its placement uses.
pub struct PdfCellAttributes {
    pub headers: Option<Vec<u16>>,
    pub col_span: Option<Vec<u16>>,
    pub row_span: Option<Vec<u16>>,
    pub scope: Option<Vec<u16>>,
    /// The element's id, when it has a non-empty one.
    pub element_id: Option<Vec<u16>>,
}

/// `_wtoi` of a text.
pub open spec fn wtoi_value(s: Seq<u16>) -> i32 {
    match leading_int(s, blank_or_tab()) {
        Some(v) => v,
        None => 0,
    }
}

/// The number a span attribute gives, if present.
pub open spec fn span_value(v: Option<Vec<u16>>) -> Option<i32> {
    match v {
        Some(t) => Some(wtoi_value(t@)),
        None => None,
    }
}

/// What a PDF header cell heads: its `Scope` (`Column`, `Row` or `Both`)
/// decides; without a recognised scope, a column header heads its columns
/// and a row header its rows.
pub open spec fn pdf_header_kind(role: i32, scope: Option<Seq<u16>>) -> i32 {
    let by_scope = match scope {
        Some(s) => if s == widened_bytes("Column".spec_bytes()) {
            TABLEHEADER_COLUMN
        } else if s == widened_bytes("Row".spec_bytes()) {
            TABLEHEADER_ROW
        } else if s == widened_bytes("Both".spec_bytes()) {
            TABLEHEADER_COLUMN | TABLEHEADER_ROW
        } else {
            0
        },
        None => 0,
    };
    if by_scope != 0 {
        by_scope
    } else if role == ROLE_SYSTEM_COLUMNHEADER {
        TABLEHEADER_COLUMN
    } else {
        TABLEHEADER_ROW
    }
}

/// The units of the `Scope` value `Row`.
pub open spec fn scope_row() -> Seq<u16> {
    seq![0x52u16, 0x6Fu16, 0x77u16]
}

/// The units of the `Scope` value `Column`.
pub open spec fn scope_column() -> Seq<u16> {
    seq![0x43u16, 0x6Fu16, 0x6Cu16, 0x75u16, 0x6Du16, 0x6Eu16]
}

/// The units of the `Scope` value `Both`.
pub open spec fn scope_both() -> Seq<u16> {
    seq![0x42u16, 0x6Fu16, 0x74u16, 0x68u16]
}

proof fn lemma_scope_literals()
    ensures
        widened_bytes("Row".spec_bytes()) == scope_row(),
        widened_bytes("Column".spec_bytes()) == scope_column(),
        widened_bytes("Both".spec_bytes()) == scope_both(),
{
    reveal_strlit("Row");
    reveal_strlit("Column");
    reveal_strlit("Both");
    assert(vstd::string::is_ascii("Row"));
    assert(vstd::string::is_ascii("Column"));
    assert(vstd::string::is_ascii("Both"));
    vstd::string::is_ascii_spec_bytes("Row");
    vstd::string::is_ascii_spec_bytes("Column");
    vstd::string::is_ascii_spec_bytes("Both");
    assert(widened_bytes("Row".spec_bytes()) =~= scope_row());
    assert(widened_bytes("Column".spec_bytes()) =~= scope_column());
    assert(widened_bytes("Both".spec_bytes()) =~= scope_both());
}

/// A recognised `Scope` decides what a header cell heads, whatever its
/// role: `Row` its rows, `Column` its columns, `Both` both. Without a
/// recognised scope a column header heads its columns and any other
/// header its rows. Every header heads something.
pub proof fn lemma_scope_decides_header_kind(role: i32, scope: Option<Seq<u16>>)
    ensures
        scope == Some(scope_row()) ==> pdf_header_kind(role, scope) == TABLEHEADER_ROW,
        scope == Some(scope_column()) ==> pdf_header_kind(role, scope) == TABLEHEADER_COLUMN,
        scope == Some(scope_both()) ==> pdf_header_kind(role, scope) == (TABLEHEADER_COLUMN
            | TABLEHEADER_ROW),
        (scope != Some(scope_row()) && scope != Some(scope_column()) && scope != Some(scope_both()))
            ==> pdf_header_kind(role, scope) == (if role == ROLE_SYSTEM_COLUMNHEADER {
            TABLEHEADER_COLUMN
        } else {
            TABLEHEADER_ROW
        }),
        pdf_header_kind(role, scope) != 0,
{
    lemma_scope_literals();
    assert(scope_row() != scope_column() && scope_row() != scope_both() && scope_column()
        != scope_both()) by {
        assert(scope_row().len() != scope_column().len());
        assert(scope_row().len() != scope_both().len());
        assert(scope_column().len() != scope_both().len());
    }
    assert((TABLEHEADER_COLUMN | TABLEHEADER_ROW) == 3i32) by (bit_vector);
}

/// Computes `pdf_header_kind`.
pub fn header_kind(role: i32, scope: Option<&[u16]>) -> (kind: i32)
    ensures
        kind == pdf_header_kind(
            role,
            match scope {
                Some(s) => Some(s@),
                None => None,
            },
        ),
{
    let mut kind: i32 = 0;
    if let Some(s) = scope {
        if slice_eq(s, "Column") {
            kind = TABLEHEADER_COLUMN;
        } else if slice_eq(s, "Row") {
            kind = TABLEHEADER_ROW;
        } else if slice_eq(s, "Both") {
            kind = TABLEHEADER_COLUMN | TABLEHEADER_ROW;
        }
    }
    if kind == 0 {
        kind = if role == ROLE_SYSTEM_COLUMNHEADER {
            TABLEHEADER_COLUMN
        } else {
            TABLEHEADER_ROW
        };
    }
    kind
}

/// The table after placing a PDF cell (see `TableInfo::begin_cell`,
/// `after_col_span`, `after_row_span`, `after_header`): explicit headers
/// are remembered for later, spans applied, and a header cell registered.
pub open spec fn pdf_cell_state(
    s0: TableState,
    cell: u64,
    doc_handle: i32,
    unique_id: i32,
    role: i32,
    attrs: PdfCellAttributes,
) -> TableState {
    let s1 = begin_cell_state(s0);
    let s2 = match attrs.headers {
        Some(h) => TableState { explicit: s1.explicit.push((cell, h@)), ..s1 },
        None => s1,
    };
    let s3 = after_col_span(s2, span_value(attrs.col_span));
    let (s4, end_row) = after_row_span(s3, s1.col, span_value(attrs.row_span));
    if role == ROLE_SYSTEM_COLUMNHEADER || role == ROLE_SYSTEM_ROWHEADER {
        after_header(
            s4,
            s1.col,
            end_row,
            pdf_header_kind(role, crate::table_layout::opt_text(attrs.scope)),
            header_entry(doc_handle, unique_id),
            crate::table_layout::opt_text(attrs.element_id),
            unique_id,
        )
    } else {
        s4
    }
}

/// Places a cell (a cell, column header or row header) of a PDF table:
/// numbers it, gives it the headers collected for its column and row
/// (unless it names explicit headers, which are resolved when the table
/// is finished), follows its column and row spans, and registers it when
/// it is a header (see `pdf_cell_state`).
pub fn handle_cell(
    ti: &mut TableInfo,
    cell: u64,
    doc_handle: i32,
    unique_id: i32,
    role: i32,
    attrs: &PdfCellAttributes,
) -> (out: crate::table_layout::CellTableAttributes)
    requires
        old(ti).wf(),
        old(ti).cur_column_number < i32::MAX,
        spans_fit(
            begin_cell_state(old(ti).state()),
            span_value(attrs.col_span),
            span_value(attrs.row_span),
        ),
    ensures
        final(ti).wf(),
        final(ti).state() == pdf_cell_state(old(ti).state(), cell, doc_handle, unique_id, role, *attrs),
        crate::table_layout::cell_attributes_ok(
            out,
            old(ti).state(),
            begin_cell_state(old(ti).state()),
            attrs.headers is Some,
            crate::table_layout::opt_text(attrs.col_span),
            crate::table_layout::opt_text(attrs.row_span),
        ),
{
    let (cur_row, start_col) = ti.begin_cell();
    let table_id = ti.table_id;
    let (column_header_cells, row_header_cells) = match &attrs.headers {
        Some(h) => {
            let mut copy: Vec<u16> = Vec::new();
            append_units(&mut copy, h.as_slice());
            ti.record_explicit_headers(cell, copy);
            (None, None)
        },
        None => ti.implicit_header_cells(cur_row, start_col),
    };
    let mut end_row = cur_row;
    if let Some(colspan) = &attrs.col_span {
        let value = wtoi(colspan.as_slice());
        ti.apply_col_span(value);
    }
    if let Some(rowspan) = &attrs.row_span {
        let value = wtoi(rowspan.as_slice());
        end_row = ti.apply_row_span(start_col, value);
    }
    if role == ROLE_SYSTEM_COLUMNHEADER || role == ROLE_SYSTEM_ROWHEADER {
        let kind = header_kind(
            role,
            match &attrs.scope {
                Some(s) => Some(s.as_slice()),
                None => None,
            },
        );
        let entry = header_cell_entry(doc_handle, unique_id);
        let element_id = crate::table_layout::copy_opt(&attrs.element_id);
        ti.register_header(start_col, end_row, kind, entry.as_slice(), element_id, unique_id);
    }
    crate::table_layout::CellTableAttributes {
        table_id,
        row_number: cur_row,
        column_number: start_col,
        column_header_cells,
        row_header_cells,
        columns_spanned: crate::table_layout::copy_opt(&attrs.col_span),
        rows_spanned: crate::table_layout::copy_opt(&attrs.row_span),
    }
}

/// The header ids of an explicit `Headers` value of the form
/// `[[id id ... ]]`, read from `start`: each id runs up to the next space,
/// and reading stops at the closing ` ]]` or when no space follows.
pub open spec fn pdf_header_ids(attr: Seq<u16>, start: int) -> Seq<Seq<u16>>
    decreases attr.len() - start,
{
    if attr.len() < 3 || start < 0 || start >= attr.len() - 3 {
        Seq::empty()
    } else {
        match first_index_of(attr.skip(start), SPACE) {
            None => Seq::empty(),
            Some(off) => {
                proof {
                    lemma_first_index_of_range(attr.skip(start), SPACE);
                }
                seq![attr.subrange(start, start + off)] + pdf_header_ids(attr, start + off + 1)
            },
        }
    }
}

/// Resolves the explicit `Headers` of a PDF cell against the header cells
/// of the finished table: `(table-columnheadercells,
/// table-rowheadercells)`, each `None` when empty.
pub fn fill_explicit_table_headers_for_cell(ti: &TableInfo, doc_handle: i32, headers_attr: &[u16]) -> (cells: (
    Option<Vec<u16>>,
    Option<Vec<u16>>,
))
    ensures
        ({
            let ids = pdf_header_ids(headers_attr@, 2);
            let columns = resolved_headers(ids, ti.headers_info@, doc_handle, TABLEHEADER_COLUMN);
            let rows = resolved_headers(ids, ti.headers_info@, doc_handle, TABLEHEADER_ROW);
            &&& cells.0 matches Some(c) ==> c@ == columns && columns.len() > 0
            &&& cells.0 is None ==> columns.len() == 0
            &&& cells.1 matches Some(r) ==> r@ == rows && rows.len() > 0
            &&& cells.1 is None ==> rows.len() == 0
        }),
{
    let mut columns: Vec<u16> = Vec::new();
    let mut rows: Vec<u16> = Vec::new();
    let n = headers_attr.len();
    if n < 3 {
        return (None, None);
    }
    let last_pos = n - 3;
    let mut start: usize = 2;
    let ghost ids = pdf_header_ids(headers_attr@, 2);
    let ghost info = ti.headers_info@;
    while start < last_pos
        invariant
            n == headers_attr@.len(),
            last_pos == n - 3,
            2 <= start <= n,
            ids == pdf_header_ids(headers_attr@, 2),
            info == ti.headers_info@,
            columns@ + resolved_headers(pdf_header_ids(headers_attr@, start as int), info, doc_handle, TABLEHEADER_COLUMN)
                == resolved_headers(ids, info, doc_handle, TABLEHEADER_COLUMN),
            rows@ + resolved_headers(pdf_header_ids(headers_attr@, start as int), info, doc_handle, TABLEHEADER_ROW)
                == resolved_headers(ids, info, doc_handle, TABLEHEADER_ROW),
        ensures
            pdf_header_ids(headers_attr@, start as int) == Seq::<Seq<u16>>::empty(),
            columns@ + resolved_headers(pdf_header_ids(headers_attr@, start as int), info, doc_handle, TABLEHEADER_COLUMN)
                == resolved_headers(ids, info, doc_handle, TABLEHEADER_COLUMN),
            rows@ + resolved_headers(pdf_header_ids(headers_attr@, start as int), info, doc_handle, TABLEHEADER_ROW)
                == resolved_headers(ids, info, doc_handle, TABLEHEADER_ROW),
        decreases n - start,
    {
        let rest = vstd::slice::slice_subrange(headers_attr, start, n);
        assert(rest@ =~= headers_attr@.skip(start as int));
        let off = match crate::url_name::position_of(rest, SPACE) {
            Some(off) => off,
            None => {
                assert(pdf_header_ids(headers_attr@, start as int) == Seq::<Seq<u16>>::empty());
                break;
            },
        };
        let end = start + off;
        let id = vstd::slice::slice_subrange(headers_attr, start, end);
        let ghost here = pdf_header_ids(headers_attr@, start as int);
        let ghost next = pdf_header_ids(headers_attr@, end + 1);
        assert(here == seq![id@] + next);
        assert(here[0] == id@);
        assert(here.drop_first() =~= next);
        let ghost cols_before = columns@;
        let ghost rows_before = rows@;
        ti.resolve_header_id(id, doc_handle, &mut columns, &mut rows);
        assert(columns@ + resolved_headers(next, info, doc_handle, TABLEHEADER_COLUMN) =~= cols_before
            + resolved_headers(here, info, doc_handle, TABLEHEADER_COLUMN));
        assert(rows@ + resolved_headers(next, info, doc_handle, TABLEHEADER_ROW) =~= rows_before
            + resolved_headers(here, info, doc_handle, TABLEHEADER_ROW));
        start = end + 1;
    }
    proof {
        let tail = pdf_header_ids(headers_attr@, start as int);
        assert(columns@ =~= columns@ + resolved_headers(tail, info, doc_handle, TABLEHEADER_COLUMN));
        assert(rows@ =~= rows@ + resolved_headers(tail, info, doc_handle, TABLEHEADER_ROW));
    }
    let c = if columns.len() > 0 {
        Some(columns)
    } else {
        None
    };
    let r = if rows.len() > 0 {
        Some(rows)
    } else {
        None
    };
    (c, r)
}

} // verus!
