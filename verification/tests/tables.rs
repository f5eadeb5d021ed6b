use nvda_rust::acrobat::{
    self, descends_into_children, effective_font_status, page_number_text, process_text,
    resolve_language, std_name_effects, text_decoration_flags, PdfCellAttributes,
    ROLE_SYSTEM_COLUMNHEADER, ROLE_SYSTEM_ROWHEADER,
};
use nvda_rust::mshtml::{self, collect_and_update_table_info, html_key, is_layout_table, Attribs};
use nvda_rust::table_layout::{header_cell_entry, TableInfo, TABLEHEADER_COLUMN, TABLEHEADER_ROW};

fn w(s: &str) -> Vec<u16> {
    s.encode_utf16().collect()
}

fn no_attrs() -> PdfCellAttributes {
    PdfCellAttributes { headers: None, col_span: None, row_span: None, scope: None, element_id: None }
}

#[test]
fn pdf_text_has_no_line_breaks() {
    assert_eq!(process_text(&w("a\r\nb\nc")), w("abc"));
    assert_eq!(process_text(&w("")), w(""));
}

#[test]
fn pdf_small_rules() {
    assert_eq!(acrobat::wtoi(&w("  -12x")), -12);
    assert_eq!(acrobat::wtoi(&w("abc")), 0);
    assert_eq!(resolve_language(Some(&w("de-DE")), &w("en")), w("de-DE"));
    assert_eq!(resolve_language(None, &w("en")), w("en"));
    assert_eq!(page_number_text(3, 3), Some(w("4")));
    assert_eq!(page_number_text(2, 5), None);
    assert_eq!(std_name_effects(&w("Span")), (true, false));
    assert_eq!(std_name_effects(&w("Formula")), (false, true));
    assert_eq!(std_name_effects(&w("H1")), (false, false));
    assert_eq!(text_decoration_flags(&w("Underline")), acrobat::TEXTFLAG_UNDERLINE);
    assert_eq!(text_decoration_flags(&w("LineThrough")), acrobat::TEXTFLAG_STRIKETHROUGH);
    assert_eq!(text_decoration_flags(&w("Overline")), 0);
    assert!(descends_into_children(false, 0));
    assert!(!descends_into_children(true, 0));
    assert!(!descends_into_children(false, acrobat::ROLE_SYSTEM_LIST));
    assert_eq!(effective_font_status(acrobat::FONTINFO_NOINFO, 2, Some(0)), acrobat::FONTINFO_MIXEDINFO);
    assert_eq!(effective_font_status(acrobat::FONTINFO_NOINFO, 2, Some(acrobat::CPDDOMNODE_WORD)), acrobat::FONTINFO_NOINFO);
    assert_eq!(effective_font_status(acrobat::FONTINFO_MIXEDINFO, 0, None), acrobat::FONTINFO_NOINFO);
    assert_eq!(effective_font_status(acrobat::FONTINFO_VALID, 0, None), acrobat::FONTINFO_VALID);
}

#[test]
fn pdf_header_kinds() {
    assert_eq!(acrobat::header_kind(ROLE_SYSTEM_COLUMNHEADER, None), TABLEHEADER_COLUMN);
    assert_eq!(acrobat::header_kind(ROLE_SYSTEM_ROWHEADER, None), TABLEHEADER_ROW);
    assert_eq!(acrobat::header_kind(ROLE_SYSTEM_ROWHEADER, Some(&w("Column"))), TABLEHEADER_COLUMN);
    assert_eq!(
        acrobat::header_kind(ROLE_SYSTEM_COLUMNHEADER, Some(&w("Both"))),
        TABLEHEADER_COLUMN | TABLEHEADER_ROW
    );
}

#[test]
fn pdf_table_column_headers_reach_data_cells() {
    let mut ti = TableInfo::new(7);
    ti.start_row();
    let h1 = acrobat::handle_cell(&mut ti, 1, 100, 11, ROLE_SYSTEM_COLUMNHEADER, &no_attrs());
    assert_eq!((h1.table_id, h1.row_number, h1.column_number), (7, 1, 1));
    let h2 = acrobat::handle_cell(&mut ti, 2, 100, 12, ROLE_SYSTEM_COLUMNHEADER, &no_attrs());
    assert_eq!(h2.column_number, 2);
    ti.start_row();
    let d1 = acrobat::handle_cell(&mut ti, 3, 100, 13, 0, &no_attrs());
    assert_eq!((d1.row_number, d1.column_number), (2, 1));
    assert_eq!(d1.column_header_cells, Some(w("100,11;")));
    assert_eq!(d1.row_header_cells, None);
    let d2 = acrobat::handle_cell(&mut ti, 4, 100, 14, 0, &no_attrs());
    assert_eq!(d2.column_header_cells, Some(w("100,12;")));
    assert_eq!(header_cell_entry(100, 11), w("100,11;"));
}

#[test]
fn pdf_row_span_skips_covered_columns() {
    let mut ti = TableInfo::new(1);
    ti.start_row();
    let mut spanning = no_attrs();
    spanning.row_span = Some(w("2"));
    let a = acrobat::handle_cell(&mut ti, 1, 5, 1, 0, &spanning);
    assert_eq!(a.rows_spanned, Some(w("2")));
    let b = acrobat::handle_cell(&mut ti, 2, 5, 2, 0, &no_attrs());
    assert_eq!(b.column_number, 2);
    ti.start_row();
    let c = acrobat::handle_cell(&mut ti, 3, 5, 3, 0, &no_attrs());
    assert_eq!((c.row_number, c.column_number), (2, 2));
    ti.start_row();
    let d = acrobat::handle_cell(&mut ti, 4, 5, 4, 0, &no_attrs());
    assert_eq!((d.row_number, d.column_number), (3, 1));
}

#[test]
fn pdf_column_span_and_row_headers() {
    let mut ti = TableInfo::new(2);
    ti.start_row();
    let mut wide = no_attrs();
    wide.col_span = Some(w("3"));
    let a = acrobat::handle_cell(&mut ti, 1, 9, 1, ROLE_SYSTEM_ROWHEADER, &wide);
    assert_eq!(a.columns_spanned, Some(w("3")));
    let b = acrobat::handle_cell(&mut ti, 2, 9, 2, 0, &no_attrs());
    assert_eq!(b.column_number, 4);
    assert_eq!(b.row_header_cells, Some(w("9,1;")));
}

#[test]
fn pdf_explicit_headers_resolve_by_id() {
    let mut ti = TableInfo::new(3);
    ti.start_row();
    let mut header = no_attrs();
    header.element_id = Some(w("h1"));
    acrobat::handle_cell(&mut ti, 1, 4, 21, ROLE_SYSTEM_COLUMNHEADER, &header);
    let mut cell = no_attrs();
    cell.headers = Some(w("[[h1 ]]"));
    ti.start_row();
    let out = acrobat::handle_cell(&mut ti, 2, 4, 22, 0, &cell);
    assert_eq!(out.column_header_cells, None);
    let (cols, rows) = acrobat::fill_explicit_table_headers_for_cell(&ti, 4, &w("[[h1 ]]"));
    assert_eq!(cols, Some(w("4,21;")));
    assert_eq!(rows, None);
}

fn attrs_of(pairs: &[(&str, &str)]) -> Attribs {
    let mut a = Attribs::new();
    for (k, v) in pairs {
        a.insert(html_key(k), w(v));
    }
    a
}

fn get(a: &Attribs, key: &str) -> Option<Vec<u16>> {
    a.get(&w(key)).cloned()
}

#[test]
fn html_table_walk() {
    let mut none: Option<TableInfo> = None;
    let mut table_attrs = attrs_of(&[("summary", "Prices")]);
    let mut table = collect_and_update_table_info(&mut none, 0, &w("TABLE"), 1, 50, &mut table_attrs)
        .expect("a TABLE starts a table");
    assert_eq!(get(&table_attrs, "table-id"), Some(w("50")));
    assert!(table.definit_data);
    let mut inner = Some(table);
    let mut tr = Attribs::new();
    assert!(collect_and_update_table_info(&mut inner, 1, &w("TR"), 1, 51, &mut tr).is_none());
    let mut th = Attribs::new();
    collect_and_update_table_info(&mut inner, 2, &w("TH"), 1, 52, &mut th);
    assert_eq!(get(&th, "table-rownumber"), Some(w("1")));
    assert_eq!(get(&th, "table-columnnumber"), Some(w("1")));
    let mut tr2 = Attribs::new();
    collect_and_update_table_info(&mut inner, 3, &w("TR"), 1, 53, &mut tr2);
    let mut td = Attribs::new();
    collect_and_update_table_info(&mut inner, 4, &w("TD"), 1, 54, &mut td);
    assert_eq!(get(&td, "table-rownumber"), Some(w("2")));
    assert_eq!(get(&td, "table-columnheadercells"), Some(w("1,52;")));
    table = inner.unwrap();
    assert!(!is_layout_table(&table));
    assert_eq!(mshtml::wtoi(&w("12")), 12);
}

#[test]
fn html_plain_table_is_layout() {
    let mut none: Option<TableInfo> = None;
    let mut table_attrs = Attribs::new();
    let table = collect_and_update_table_info(&mut none, 0, &w("TABLE"), 1, 60, &mut table_attrs).unwrap();
    assert!(!table.definit_data);
    let mut inner = Some(table);
    let mut tr = Attribs::new();
    collect_and_update_table_info(&mut inner, 1, &w("TR"), 1, 61, &mut tr);
    let mut td = Attribs::new();
    collect_and_update_table_info(&mut inner, 2, &w("TD"), 1, 62, &mut td);
    assert!(is_layout_table(inner.as_ref().unwrap()));
}

#[test]
fn html_header_kinds() {
    assert_eq!(mshtml::header_kind(Some(&w("col")), 1, 1), TABLEHEADER_COLUMN);
    assert_eq!(mshtml::header_kind(Some(&w("row")), 1, 1), TABLEHEADER_ROW);
}

#[test]
fn registered_headers_are_found_again() {
    let mut t = TableInfo::new(7);
    t.start_row();
    assert_eq!(t.begin_cell(), (1, 1));
    let entry = header_cell_entry(3, 40);
    t.register_header(1, 1, TABLEHEADER_COLUMN, &entry, Some(w("h1")), 40);
    t.start_row();
    assert_eq!(t.begin_cell(), (2, 1));
    assert_eq!(t.implicit_header_cells(2, 1), (Some(w("3,40;")), None));
    assert_eq!(t.implicit_header_cells(2, 2), (None, None));
    let (mut columns, mut rows) = (Vec::new(), Vec::new());
    t.resolve_header_id(&w("h1"), 3, &mut columns, &mut rows);
    assert_eq!(columns, w("3,40;"));
    assert!(rows.is_empty());
    t.resolve_header_id(&w("missing"), 3, &mut columns, &mut rows);
    assert_eq!(columns, w("3,40;"));
}
