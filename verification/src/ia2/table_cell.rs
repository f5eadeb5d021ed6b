//! The attributes that a table cell's position, spans and header cells
//! give its virtual-buffer node.

use crate::attribs::AttribMap;
use crate::wide::{append_units, dec, decimal, push_decimal_digits, utf16, utf16_encode};
use vstd::prelude::*;

verus! {

/// A cell's position and spans as the table reports them: zero-based row
/// and column, and how many rows and columns it covers.
pub struct RowColumnExtents {
    pub row: i32,
    pub column: i32,
    pub row_extents: i32,
    pub column_extents: i32,
    pub is_selected: bool,
}

/// The header axis that one pass over a cell's header cells walks.
#[derive(Clone, Copy, PartialEq, Eq, Structural, Debug)]
pub enum HeaderAxis {
    Column,
    Row,
}

/// The attribute name under which the header cells of `axis` are listed.
pub open spec fn header_attribute_name(axis: HeaderAxis) -> Seq<char> {
    match axis {
        HeaderAxis::Column => "table-columnheadercells"@,
        HeaderAxis::Row => "table-rowheadercells"@,
    }
}

impl HeaderAxis {
    /// The attribute name under which the header cells of this axis are
    /// listed.
    pub fn attribute_name(&self) -> (name: &'static str)
        ensures
            name@ == header_attribute_name(*self),
    {
        match self {
            HeaderAxis::Column => "table-columnheadercells",
            HeaderAxis::Row => "table-rowheadercells",
        }
    }
}

/// The attributes of a cell's position: its one-based row and column
/// numbers (the zero-based ones plus one, wrapping), then the columns and
/// rows it spans where it spans more than one.
pub open spec fn position_attributes(e: RowColumnExtents) -> Seq<(Seq<char>, Seq<u16>)> {
    seq![
        ("table-rownumber"@, decimal(e.row.wrapping_add(1) as int)),
        ("table-columnnumber"@, decimal(e.column.wrapping_add(1) as int)),
    ] + (if e.column_extents > 1 {
        seq![("table-columnsspanned"@, decimal(e.column_extents as int))]
    } else {
        Seq::empty()
    }) + (if e.row_extents > 1 {
        seq![("table-rowsspanned"@, decimal(e.row_extents as int))]
    } else {
        Seq::empty()
    })
}

/// The view of a list of attributes.
pub open spec fn attribute_views(attrs: Seq<(&'static str, Vec<u16>)>) -> Seq<(Seq<char>, Seq<u16>)> {
    attrs.map_values(|a: (&'static str, Vec<u16>)| (a.0@, a.1@))
}

/// The attributes, in order, that a cell's position and spans give it.
pub fn cell_position_attributes(extents: &RowColumnExtents) -> (attrs: Vec<(&'static str, Vec<u16>)>)
    ensures
        attribute_views(attrs@) == position_attributes(*extents),
{
    let mut attrs: Vec<(&'static str, Vec<u16>)> = Vec::new();
    attrs.push(("table-rownumber", dec(extents.row.wrapping_add(1))));
    attrs.push(("table-columnnumber", dec(extents.column.wrapping_add(1))));
    if extents.column_extents > 1 {
        attrs.push(("table-columnsspanned", dec(extents.column_extents)));
    }
    if extents.row_extents > 1 {
        attrs.push(("table-rowsspanned", dec(extents.row_extents)));
    }
    assert(attribute_views(attrs@) =~= position_attributes(*extents));
    attrs
}

/// The text that lists header cells, each as its window handle and its
/// id: `"<handle>,<id>;"` for each in turn.
pub open spec fn header_cells_text(cells: Seq<(u32, i32)>) -> Seq<u16>
    decreases cells.len(),
{
    if cells.len() == 0 {
        Seq::empty()
    } else {
        let (handle, id) = cells.last();
        header_cells_text(cells.drop_last()) + decimal(handle as int) + seq![0x2Cu16] + decimal(
            id as int,
        ) + seq![0x3Bu16]
    }
}

/// The text that lists the given header cells.
pub fn header_cells_value(cells: &[(u32, i32)]) -> (value: Vec<u16>)
    ensures
        value@ == header_cells_text(cells@),
{
    let mut value: Vec<u16> = Vec::new();
    let mut k: usize = 0;
    while k < cells.len()
        invariant
            k <= cells@.len(),
            value@ == header_cells_text(cells@.take(k as int)),
        decreases cells@.len() - k,
    {
        let (handle, id) = cells[k];
        push_decimal_digits(&mut value, handle as u64);
        value.push(0x2C);
        let digits = dec(id);
        append_units(&mut value, digits.as_slice());
        value.push(0x3B);
        proof {
            let next = cells@.take(k + 1);
            assert(next.drop_last() =~= cells@.take(k as int));
            assert(next.last() == cells@[k as int]);
            assert(decimal(handle as int) == crate::wide::decimal_digits(handle as nat));
        }
        k += 1;
    }
    assert(cells@.take(cells@.len() as int) =~= cells@);
    value
}

/// The attribute that lists the header cells of one axis, or `None` when
/// there are none to list.
pub fn header_cells_attribute(axis: HeaderAxis, cells: &[(u32, i32)]) -> (attr: Option<
    (&'static str, Vec<u16>),
>)
    ensures
        cells@.len() == 0 ==> attr is None,
        cells@.len() > 0 ==> (attr matches Some(a) && a.0@ == header_attribute_name(axis) && a.1@
            == header_cells_text(cells@)),
{
    let value = header_cells_value(cells);
    if cells.len() == 0 {
        None
    } else {
        Some((axis.attribute_name(), value))
    }
}


/// The presentational table attributes of a node: the row number passed
/// down from its parent, then its own `rowindex` (which it passes on to
/// its children), `colindex`, `rowcount` and `colcount` attributes, each
/// under its presentational name.
pub open spec fn presentational_attributes(
    map: Map<Seq<char>, Seq<char>>,
    parent_row: Option<Seq<u16>>,
) -> Seq<(Seq<char>, Seq<u16>)> {
    let one = |key: Seq<char>, name: Seq<char>|
        if map.contains_key(key) {
            seq![(name, utf16_encode(map[key]))]
        } else {
            Seq::<(Seq<char>, Seq<u16>)>::empty()
        };
    (match parent_row {
        Some(r) => seq![("table-rownumber-presentational"@, r)],
        None => Seq::empty(),
    }) + one("rowindex"@, "table-rownumber-presentational"@) + one(
        "colindex"@,
        "table-columnnumber-presentational"@,
    ) + one("rowcount"@, "table-rowcount-presentational"@) + one(
        "colcount"@,
        "table-columncount-presentational"@,
    )
}

fn push_attribute_if_present(
    attrs: &mut Vec<(&'static str, Vec<u16>)>,
    map: &AttribMap,
    key: &str,
    name: &'static str,
)
    ensures
        attribute_views(final(attrs)@) == attribute_views(old(attrs)@) + (if map@.contains_key(key@) {
            seq![(name@, utf16_encode(map@[key@]))]
        } else {
            Seq::<(Seq<char>, Seq<u16>)>::empty()
        }),
{
    let ghost before = attrs@;
    match map.get(key) {
        Some(v) => {
            attrs.push((name, utf16(v.as_str())));
        },
        None => {},
    }
    assert(attribute_views(attrs@) =~= attribute_views(before) + (if map@.contains_key(key@) {
        seq![(name@, utf16_encode(map@[key@]))]
    } else {
        Seq::<(Seq<char>, Seq<u16>)>::empty()
    }));
}

/// The presentational table attributes of a node, and the row number
/// that its children are given: its own `rowindex`, if any.
pub fn presentational_table_attributes(map: &AttribMap, parent_row: Option<&[u16]>) -> (result: (
    Vec<(&'static str, Vec<u16>)>,
    Option<Vec<u16>>,
))
    ensures
        attribute_views(result.0@) == presentational_attributes(
            map@,
            match parent_row {
                Some(r) => Some(r@),
                None => None,
            },
        ),
        match result.1 {
            Some(r) => map@.contains_key("rowindex"@) && r@ == utf16_encode(map@["rowindex"@]),
            None => !map@.contains_key("rowindex"@),
        },
{
    let mut attrs: Vec<(&'static str, Vec<u16>)> = Vec::new();
    match parent_row {
        Some(r) => {
            let mut value: Vec<u16> = Vec::new();
            append_units(&mut value, r);
            attrs.push(("table-rownumber-presentational", value));
        },
        None => {},
    }
    let ghost first = attrs@;
    let row_for_children = match map.get("rowindex") {
        Some(v) => Some(utf16(v.as_str())),
        None => None,
    };
    push_attribute_if_present(&mut attrs, map, "rowindex", "table-rownumber-presentational");
    push_attribute_if_present(&mut attrs, map, "colindex", "table-columnnumber-presentational");
    push_attribute_if_present(&mut attrs, map, "rowcount", "table-rowcount-presentational");
    push_attribute_if_present(&mut attrs, map, "colcount", "table-columncount-presentational");
    assert(attribute_views(first) =~= (match parent_row {
        Some(r) => seq![("table-rownumber-presentational"@, r@)],
        None => Seq::<(Seq<char>, Seq<u16>)>::empty(),
    }));
    (attrs, row_for_children)
}

} // verus!
