//! Per-element decisions of the MSHTML virtual buffer: text of `#text`
//! nodes, style, formatting state, accessibility fixes, interactivity,
//! and the content generated for special elements.

use crate::mshtml::{attr_html, html_attr, html_key_of, weq, Attribs};
use crate::numbers::{parse_leading_int, leading_int, skip_while, white_space_unit, is_wspace};
use crate::white_space::is_white_space_code;
use crate::wide::{append_units, decimal, dec, eq_ic_spec, utf16, utf16_encode};
use vstd::prelude::*;

verus! {

/// Every white-space unit as a space.
pub open spec fn spaced(s: Seq<u16>) -> Seq<u16> {
    s.map_values(|c: u16| if is_white_space_code(c as int) { 0x20u16 } else { c })
}

/// The text of a `#text` node: kept as it is when preformatted; else
/// `None` when it is only white space, and otherwise with each white-space
/// unit turned into a space and, at the start of a block, leading white
/// space dropped.
pub open spec fn node_text(data: Seq<u16>, preformatted: bool, start_of_block: bool) -> Option<Seq<u16>> {
    let first = skip_while(data, white_space_unit(), 0);
    if preformatted {
        Some(data)
    } else if first >= data.len() {
        None
    } else if start_of_block {
        Some(spaced(data.skip(first)))
    } else {
        Some(spaced(data))
    }
}

proof fn lemma_skip_while_white(data: Seq<u16>, i: int)
    requires
        0 <= i <= data.len(),
        forall|j: int| 0 <= j < i ==> is_white_space_code(#[trigger] data[j] as int),
    ensures
        skip_while(data, white_space_unit(), 0) == skip_while(data, white_space_unit(), i),
    decreases i,
{
    if i > 0 {
        lemma_skip_while_white(data, i - 1);
    }
}

/// Computes `node_text` for the data of a `#text` node.
pub fn collapse_text(data: &[u16], preformatted: bool, start_of_block: bool) -> (text: Option<Vec<u16>>)
    ensures
        match text {
            Some(t) => node_text(data@, preformatted, start_of_block) == Some(t@),
            None => node_text(data@, preformatted, start_of_block) is None,
        },
{
    if preformatted {
        let mut copy: Vec<u16> = Vec::new();
        append_units(&mut copy, data);
        assert(copy@ =~= data@);
        return Some(copy);
    }
    let ghost first = skip_while(data@, white_space_unit(), 0);
    proof {
        crate::numbers::lemma_skip_while_bounds(data@, white_space_unit(), 0);
    }
    let mut s: Vec<u16> = Vec::new();
    let mut not_all_whitespace = false;
    let mut stripping_left = start_of_block;
    let mut i: usize = 0;
    while i < data.len()
        invariant
            i <= data@.len(),
            first == skip_while(data@, white_space_unit(), 0),
            0 <= first <= data@.len(),
            not_all_whitespace <==> exists|j: int| 0 <= j < i && !is_white_space_code(#[trigger] data@[j] as int),
            !not_all_whitespace ==> (forall|j: int| 0 <= j < i ==> is_white_space_code(#[trigger] data@[j] as int)),
            !not_all_whitespace ==> stripping_left == start_of_block,
            not_all_whitespace ==> !stripping_left && first < i,
            !not_all_whitespace && start_of_block ==> s@ == Seq::<u16>::empty(),
            !not_all_whitespace && !start_of_block ==> s@ == spaced(data@.take(i as int)),
            not_all_whitespace && start_of_block ==> s@ == spaced(data@.subrange(first, i as int)),
            not_all_whitespace && !start_of_block ==> s@ == spaced(data@.take(i as int)),
        decreases data@.len() - i,
    {
        let c = data[i];
        proof {
            if !not_all_whitespace {
                lemma_skip_while_white(data@, i as int);
            }
        }
        if !is_wspace(c) {
            s.push(c);
            proof {
                if !not_all_whitespace {
                    assert(first == i);
                }
            }
            not_all_whitespace = true;
            stripping_left = false;
        } else if !stripping_left {
            s.push(0x20);
        }
        proof {
            assert(data@.take(i + 1) =~= data@.take(i as int).push(c));
            if not_all_whitespace && start_of_block {
                assert(data@.subrange(first, i + 1) =~= data@.subrange(first, i as int).push(c));
            }
            assert(spaced(data@.take(i + 1)) =~= spaced(data@.take(i as int)).push(
                if is_white_space_code(c as int) { 0x20u16 } else { c },
            ));
            if not_all_whitespace && start_of_block {
                assert(spaced(data@.subrange(first, i + 1)) =~= spaced(data@.subrange(first, i as int)).push(
                    if is_white_space_code(c as int) { 0x20u16 } else { c },
                ));
            }
        }
        i += 1;
    }
    if !not_all_whitespace {
        proof {
            lemma_skip_while_white(data@, data@.len() as int);
            assert(skip_while(data@, white_space_unit(), data@.len() as int) == data@.len());
        }
        return None;
    }
    proof {
        assert(data@.take(i as int) =~= data@);
        assert(data@.subrange(first, i as int) =~= data@.skip(first));
    }
    Some(s)
}

} // verus!

verus! {

pub const ROLE_SYSTEM_MENUITEM: i32 = 0x0c;
pub const ROLE_SYSTEM_APPLICATION: i32 = 0x0e;
pub const ROLE_SYSTEM_DIALOG: i32 = 0x12;
pub const ROLE_SYSTEM_SEPARATOR: i32 = 0x15;
pub const ROLE_SYSTEM_LINK: i32 = 0x1e;
pub const ROLE_SYSTEM_LIST: i32 = 0x21;
pub const ROLE_SYSTEM_OUTLINE: i32 = 0x23;
pub const ROLE_SYSTEM_PAGETAB: i32 = 0x25;
pub const ROLE_SYSTEM_GRAPHIC: i32 = 0x28;
pub const ROLE_SYSTEM_STATICTEXT: i32 = 0x29;
pub const ROLE_SYSTEM_TEXT: i32 = 0x2a;
pub const ROLE_SYSTEM_PUSHBUTTON: i32 = 0x2b;
pub const ROLE_SYSTEM_CHECKBUTTON: i32 = 0x2c;
pub const ROLE_SYSTEM_RADIOBUTTON: i32 = 0x2d;
pub const ROLE_SYSTEM_PROGRESSBAR: i32 = 0x30;
pub const ROLE_SYSTEM_SLIDER: i32 = 0x33;
pub const STATE_SYSTEM_READONLY: i32 = 0x0000_0040;
pub const STATE_SYSTEM_FOCUSABLE: i32 = 0x0010_0000;
pub const STATE_SYSTEM_LINKED: i32 = 0x0040_0000;
pub const STATE_SYSTEM_PROTECTED: i32 = 0x2000_0000;
pub const FORMATSTATE_INSERTED: u32 = 1;
pub const FORMATSTATE_DELETED: u32 = 2;
pub const FORMATSTATE_MARKED: u32 = 4;
pub const FORMATSTATE_STRONG: u32 = 8;
pub const FORMATSTATE_EMPH: u32 = 16;

/// A code unit with ASCII `a`..`z` raised.
pub open spec fn ascii_upper_unit(c: u16) -> u16 {
    if 0x61 <= c <= 0x7A {
        (c - 32) as u16
    } else {
        c
    }
}

/// An element name in upper case (ASCII letters only).
pub fn uppercase_node_name(raw: &[u16]) -> (name: Vec<u16>)
    ensures
        name@ == raw@.map_values(|c: u16| ascii_upper_unit(c)),
{
    let mut name: Vec<u16> = Vec::new();
    let mut i: usize = 0;
    while i < raw.len()
        invariant
            i <= raw@.len(),
            name@ == raw@.take(i as int).map_values(|c: u16| ascii_upper_unit(c)),
        decreases raw@.len() - i,
    {
        let c = raw[i];
        let up: u16 = if 0x61 <= c && c <= 0x7A {
            c - 32
        } else {
            c
        };
        name.push(up);
        proof {
            assert(raw@.take(i + 1).map_values(|c: u16| ascii_upper_unit(c)) =~= raw@.take(
                i as int,
            ).map_values(|c: u16| ascii_upper_unit(c)).push(up));
        }
        i += 1;
    }
    assert(raw@.take(i as int) =~= raw@);
    name
}

/// Comments and scripts are not rendered.
pub fn is_ignored_node(name: &[u16]) -> (b: bool)
    ensures
        b == (name@ == utf16_encode("#COMMENT"@) || name@ == utf16_encode("SCRIPT"@)),
{
    weq(name, "#COMMENT") || weq(name, "SCRIPT")
}

/// What an element's current style says.
pub struct CurrentStyleInfo {
    pub dont_render: bool,
    pub is_block: bool,
    pub hidden: bool,
    pub list_style: Vec<u16>,
}

/// The style of an element from its `visibility`, `display` and
/// `list-style-type` (each `None` when unavailable or empty): `hidden`
/// visibility hides it, `display: none` removes it (and makes it inline),
/// `inline` and `inline-block` make it inline; it is a block otherwise.
pub fn style_info(visibility: Option<&[u16]>, display: Option<&[u16]>, list_style: Option<&[u16]>) -> (info: CurrentStyleInfo)
    ensures
        info.hidden == (visibility matches Some(v) && v@.len() > 0 && eq_ic_spec(v@, "hidden")),
        info.dont_render == (display matches Some(d) && d@.len() > 0 && eq_ic_spec(d@, "none")),
        info.is_block == !(display matches Some(d) && d@.len() > 0 && (eq_ic_spec(d@, "none")
            || eq_ic_spec(d@, "inline") || eq_ic_spec(d@, "inline-block"))),
        info.list_style@ == (match list_style {
            Some(l) => l@,
            None => Seq::empty(),
        }),
{
    let mut info = CurrentStyleInfo {
        dont_render: false,
        is_block: true,
        hidden: false,
        list_style: Vec::new(),
    };
    if let Some(v) = visibility {
        if v.len() > 0 {
            info.hidden = crate::wide::eq_ic(v, "hidden");
        }
    }
    if let Some(d) = display {
        if d.len() > 0 {
            if crate::wide::eq_ic(d, "none") {
                info.dont_render = true;
                info.is_block = false;
            }
            if crate::wide::eq_ic(d, "inline") || crate::wide::eq_ic(d, "inline-block") {
                info.is_block = false;
            }
        }
    }
    if let Some(l) = list_style {
        append_units(&mut info.list_style, l);
        assert(info.list_style@ =~= l@);
    }
    info
}

/// The formatting state of an element: its parent's, with the bit of an
/// `INS`, `DEL`, `MARK`, `STRONG` or `EM` element added.
pub open spec fn format_state_of(parent: u32, name: Seq<u16>) -> u32 {
    if name == utf16_encode("INS"@) {
        parent | FORMATSTATE_INSERTED
    } else if name == utf16_encode("DEL"@) {
        parent | FORMATSTATE_DELETED
    } else if name == utf16_encode("MARK"@) {
        parent | FORMATSTATE_MARKED
    } else if name == utf16_encode("STRONG"@) {
        parent | FORMATSTATE_STRONG
    } else if name == utf16_encode("EM"@) {
        parent | FORMATSTATE_EMPH
    } else {
        parent
    }
}

/// Computes `format_state_of`.
pub fn node_format_state(parent: u32, name: &[u16]) -> (state: u32)
    ensures
        state == format_state_of(parent, name@),
{
    if weq(name, "INS") {
        parent | FORMATSTATE_INSERTED
    } else if weq(name, "DEL") {
        parent | FORMATSTATE_DELETED
    } else if weq(name, "MARK") {
        parent | FORMATSTATE_MARKED
    } else if weq(name, "STRONG") {
        parent | FORMATSTATE_STRONG
    } else if weq(name, "EM") {
        parent | FORMATSTATE_EMPH
    } else {
        parent
    }
}

/// The first number of an ordered list: its `start` attribute when that
/// begins with an integer, else 1.
pub fn ordered_list_start(attribs: &Attribs) -> (start: i32)
    ensures
        start == (match html_attr(attribs@, "start"@) {
            Some(s) => if s.len() > 0 {
                match leading_int(s, white_space_unit()) {
                    Some(n) => n,
                    None => 1,
                }
            } else {
                1
            },
            None => 1,
        }),
{
    let mut li: i32 = 1;
    if let Some(start) = attr_html(attribs, "start") {
        if start.len() > 0 {
            if let Some(n) = parse_leading_int(start.as_slice()) {
                li = n;
            }
        }
    }
    li
}

} // verus!

verus! {

/// An element's accessibility after the MSHTML fixes.
pub struct NodeAccessibility {
    pub role: i32,
    pub states: i32,
    pub value: Vec<u16>,
    pub name: Vec<u16>,
    pub hidden: bool,
    /// The ARIA `role` attribute (empty when absent).
    pub aria_role: Vec<u16>,
}

/// The role after the text-role fix: IE gives unsupported elements with
/// an explicit ARIA role (other than `textbox`) the editable-text role
/// without read-only; they are static text.
pub open spec fn role_after_text_fix(role: i32, states: i32, m: Map<Seq<u16>, Vec<u16>>) -> i32 {
    if role == ROLE_SYSTEM_TEXT && states & STATE_SYSTEM_READONLY == 0 && (html_attr(m, "role"@) matches Some(r)
        && r != utf16_encode("textbox"@)) {
        ROLE_SYSTEM_STATICTEXT
    } else {
        role
    }
}

/// The states of an editable element lose `readonly`.
pub open spec fn states_after_editable_fix(states: i32, is_editable: bool) -> i32 {
    if is_editable && states & STATE_SYSTEM_READONLY != 0 {
        states & !STATE_SYSTEM_READONLY
    } else {
        states
    }
}

/// The value for a slider or progress bar: the attribute stored under the
/// bare name `aria-valuenow`, when there is one.
pub open spec fn aria_value_now(m: Map<Seq<u16>, Vec<u16>>, value: Seq<u16>) -> Seq<u16> {
    if m.contains_key(utf16_encode("aria-valuenow"@)) {
        m[utf16_encode("aria-valuenow"@)]@
    } else {
        value
    }
}

/// `(role, states, value, hidden)` after the ARIA `role` attribute is
/// applied.
pub open spec fn after_aria_role(
    aria: Option<Seq<u16>>,
    role: i32,
    states: i32,
    value: Seq<u16>,
    hidden: bool,
    m: Map<Seq<u16>, Vec<u16>>,
) -> (i32, i32, Seq<u16>, bool) {
    match aria {
        None => (role, states, value, hidden),
        Some(r) => if r == utf16_encode("description"@) || r == utf16_encode("search"@) {
            (ROLE_SYSTEM_STATICTEXT, states, value, hidden)
        } else if r == utf16_encode("list"@) {
            (ROLE_SYSTEM_LIST, states | STATE_SYSTEM_READONLY, value, hidden)
        } else if r == utf16_encode("slider"@) {
            (ROLE_SYSTEM_SLIDER, states | STATE_SYSTEM_FOCUSABLE, aria_value_now(m, value), hidden)
        } else if r == utf16_encode("progressbar"@) {
            (ROLE_SYSTEM_PROGRESSBAR, states, aria_value_now(m, value), hidden)
        } else if r == utf16_encode("application"@) {
            (ROLE_SYSTEM_APPLICATION, states, value, hidden)
        } else if r == utf16_encode("button"@) {
            (ROLE_SYSTEM_PUSHBUTTON, states, value, hidden)
        } else if r == utf16_encode("dialog"@) {
            (ROLE_SYSTEM_DIALOG, states, value, hidden)
        } else if !hidden && r == utf16_encode("presentation"@) {
            (role, states, value, true)
        } else {
            (role, states, value, hidden)
        },
    }
}

/// An anchor without `href` is neither linked nor focusable.
pub open spec fn states_after_anchor_fix(states: i32, name: Seq<u16>, m: Map<Seq<u16>, Vec<u16>>) -> i32 {
    if name == utf16_encode("A"@) && html_attr(m, "href"@) is None {
        let s1 = if states & STATE_SYSTEM_LINKED != 0 {
            states & !STATE_SYSTEM_LINKED
        } else {
            states
        };
        if s1 & STATE_SYSTEM_FOCUSABLE != 0 {
            s1 & !STATE_SYSTEM_FOCUSABLE
        } else {
            s1
        }
    } else {
        states
    }
}

fn copy_units(v: &[u16]) -> (c: Vec<u16>)
    ensures
        c@ == v@,
{
    let mut c: Vec<u16> = Vec::new();
    append_units(&mut c, v);
    assert(c@ =~= v@);
    c
}

/// Applies the MSHTML accessibility fixes to what `IAccessible` reported:
/// the text-role fix, the editable fix, the ARIA role, `aria-label` as
/// the name, and the anchor fix.
pub fn adjust_accessibility(
    node_name: &[u16],
    attribs: &Attribs,
    role: i32,
    states: i32,
    value: &[u16],
    name: &[u16],
    is_editable: bool,
    hidden: bool,
) -> (acc: NodeAccessibility)
    ensures
        ({
            let role1 = role_after_text_fix(role, states, attribs@);
            let states1 = states_after_editable_fix(states, is_editable);
            let (role2, states2, value2, hidden2) = after_aria_role(
                html_attr(attribs@, "role"@),
                role1,
                states1,
                value@,
                hidden,
                attribs@,
            );
            &&& acc.role == role2
            &&& acc.states == states_after_anchor_fix(states2, node_name@, attribs@)
            &&& acc.value@ == value2
            &&& acc.hidden == hidden2
            &&& acc.name@ == (match html_attr(attribs@, "aria-label"@) {
                Some(l) => l,
                None => name@,
            })
            &&& acc.aria_role@ == (match html_attr(attribs@, "role"@) {
                Some(r) => r,
                None => Seq::empty(),
            })
        }),
{
    let mut ia_role = role;
    let mut ia_states = states;
    let mut ia_value = copy_units(value);
    let mut hidden = hidden;
    if ia_role == ROLE_SYSTEM_TEXT && (ia_states & STATE_SYSTEM_READONLY) == 0 {
        if let Some(r) = attr_html(attribs, "role") {
            if !weq(r.as_slice(), "textbox") {
                ia_role = ROLE_SYSTEM_STATICTEXT;
            }
        }
    }
    if is_editable && (ia_states & STATE_SYSTEM_READONLY) != 0 {
        ia_states = ia_states & !STATE_SYSTEM_READONLY;
    }
    let mut aria_role: Vec<u16> = Vec::new();
    if let Some(r) = attr_html(attribs, "role") {
        aria_role = copy_units(r.as_slice());
        let key = utf16("aria-valuenow");
        if weq(r.as_slice(), "description") || weq(r.as_slice(), "search") {
            ia_role = ROLE_SYSTEM_STATICTEXT;
        } else if weq(r.as_slice(), "list") {
            ia_role = ROLE_SYSTEM_LIST;
            ia_states = ia_states | STATE_SYSTEM_READONLY;
        } else if weq(r.as_slice(), "slider") {
            ia_role = ROLE_SYSTEM_SLIDER;
            ia_states = ia_states | STATE_SYSTEM_FOCUSABLE;
            if let Some(v) = attribs.get(&key) {
                ia_value = copy_units(v.as_slice());
            }
        } else if weq(r.as_slice(), "progressbar") {
            ia_role = ROLE_SYSTEM_PROGRESSBAR;
            if let Some(v) = attribs.get(&key) {
                ia_value = copy_units(v.as_slice());
            }
        } else if weq(r.as_slice(), "application") {
            ia_role = ROLE_SYSTEM_APPLICATION;
        } else if weq(r.as_slice(), "button") {
            ia_role = ROLE_SYSTEM_PUSHBUTTON;
        } else if weq(r.as_slice(), "dialog") {
            ia_role = ROLE_SYSTEM_DIALOG;
        } else if !hidden && weq(r.as_slice(), "presentation") {
            hidden = true;
        }
    }
    let ia_name = match attr_html(attribs, "aria-label") {
        Some(l) => copy_units(l.as_slice()),
        None => copy_units(name),
    };
    if weq(node_name, "A") && attr_html(attribs, "href").is_none() {
        if ia_states & STATE_SYSTEM_LINKED != 0 {
            ia_states = ia_states & !STATE_SYSTEM_LINKED;
        }
        if ia_states & STATE_SYSTEM_FOCUSABLE != 0 {
            ia_states = ia_states & !STATE_SYSTEM_FOCUSABLE;
        }
    }
    NodeAccessibility { role: ia_role, states: ia_states, value: ia_value, name: ia_name, hidden, aria_role }
}

/// Whether an element is interactive: editable, focusable (unless the
/// root, `BODY` or `IFRAME`), linked, or with a click, mouse or
/// long-description handler.
pub fn is_interactive(node_name: &[u16], attribs: &Attribs, states: i32, is_editable: bool, is_root: bool) -> (b: bool)
    ensures
        b == (is_editable || (!is_root && states & STATE_SYSTEM_FOCUSABLE != 0 && node_name@
            != utf16_encode("BODY"@) && node_name@ != utf16_encode("IFRAME"@)) || states
            & STATE_SYSTEM_LINKED != 0 || html_attr(attribs@, "onclick"@) is Some || html_attr(
            attribs@,
            "onmouseup"@,
        ) is Some || html_attr(attribs@, "onmousedown"@) is Some || html_attr(attribs@, "longdesc"@)
            is Some),
{
    is_editable || (!is_root && (states & STATE_SYSTEM_FOCUSABLE) != 0 && !weq(node_name, "BODY")
        && !weq(node_name, "IFRAME")) || (states & STATE_SYSTEM_LINKED) != 0 || attr_html(
        attribs,
        "onclick",
    ).is_some() || attr_html(attribs, "onmouseup").is_some() || attr_html(
        attribs,
        "onmousedown",
    ).is_some() || attr_html(attribs, "longdesc").is_some()
}

/// An element name of the form `H` and a digit (a heading).
pub open spec fn is_heading_name(name: Seq<u16>) -> bool {
    name.len() >= 2 && name[0] == 0x48 && 0x30 <= name[1] <= 0x39
}

/// Whether an element's name is its content: links, buttons, menu items,
/// graphics, page tabs, headings, objects, applets, and embedded
/// applications or dialogs (other than the root).
pub fn name_is_content(node_name: &[u16], aria_role: &[u16], role: i32, is_root: bool) -> (b: bool)
    ensures
        b == (role == ROLE_SYSTEM_LINK || role == ROLE_SYSTEM_PUSHBUTTON || role == ROLE_SYSTEM_MENUITEM
            || role == ROLE_SYSTEM_GRAPHIC || role == ROLE_SYSTEM_PAGETAB || aria_role@ == utf16_encode(
            "heading"@,
        ) || is_heading_name(node_name@) || node_name@ == utf16_encode("OBJECT"@) || node_name@
            == utf16_encode("APPLET"@) || (!is_root && (role == ROLE_SYSTEM_APPLICATION || role
            == ROLE_SYSTEM_DIALOG))),
{
    role == ROLE_SYSTEM_LINK || role == ROLE_SYSTEM_PUSHBUTTON || role == ROLE_SYSTEM_MENUITEM || role
        == ROLE_SYSTEM_GRAPHIC || role == ROLE_SYSTEM_PAGETAB || weq(aria_role, "heading") || (
    node_name.len() >= 2 && node_name[0] == 0x48 && 0x30 <= node_name[1] && node_name[1] <= 0x39)
        || weq(node_name, "OBJECT") || weq(node_name, "APPLET") || (!is_root && (role
        == ROLE_SYSTEM_APPLICATION || role == ROLE_SYSTEM_DIALOG))
}

} // verus!

verus! {

/// The content generated for an element and what it changes.
pub struct GeneratedContent {
    pub content: Vec<u16>,
    pub render_children: bool,
    pub is_block: bool,
    pub role: i32,
    pub is_interactive: bool,
    /// The name came from the author (so it is reported).
    pub name_from_author: bool,
    /// The list counter after this element.
    pub next_li_index: Option<i32>,
}

/// The same, as values.
pub struct ContentView {
    pub content: Seq<u16>,
    pub render_children: bool,
    pub is_block: bool,
    pub role: i32,
    pub is_interactive: bool,
    pub name_from_author: bool,
    pub next_li_index: Option<i32>,
}

impl GeneratedContent {
    /// The generated content with its texts by their units.
    pub open spec fn as_view(&self) -> ContentView {
        ContentView {
            content: self.content@,
            render_children: self.render_children,
            is_block: self.is_block,
            role: self.role,
            is_interactive: self.is_interactive,
            name_from_author: self.name_from_author,
            next_li_index: self.next_li_index,
        }
    }
}

/// `n` asterisks.
pub open spec fn stars(n: nat) -> Seq<u16> {
    Seq::new(n, |i: int| 0x2Au16)
}

/// The text of an optional attribute, empty when absent.
pub open spec fn or_empty(v: Option<Seq<u16>>) -> Seq<u16> {
    match v {
        Some(t) => t,
        None => Seq::empty(),
    }
}

/// A bullet list style.
pub open spec fn is_bullet_style(style: Seq<u16>) -> bool {
    style == utf16_encode("disc"@) || style == utf16_encode("circle"@) || style == utf16_encode(
        "square"@,
    )
}

/// The inputs of content generation that are values.
pub struct ContentInputs {
    pub name_is_content: bool,
    pub role: i32,
    pub states: i32,
    pub is_interactive: bool,
    pub is_root: bool,
    pub is_block: bool,
    pub ignore_graphics: bool,
    pub li_index: Option<i32>,
}

/// The content of an `INPUT`: a file input shows its value and `...` as a
/// button; a text field shows its value (or `value` attribute), masked
/// when protected; a button shows its name; anything left empty is a
/// space. Gives `(content, role, name_from_author)`.
pub open spec fn input_content(m: Map<Seq<u16>, Vec<u16>>, name: Seq<u16>, value: Seq<u16>, role: i32, states: i32) -> (Seq<u16>, i32, bool) {
    let (c, r, nfa) = if html_attr(m, "type"@) == Some(utf16_encode("file"@)) {
        (value + utf16_encode("..."@), ROLE_SYSTEM_PUSHBUTTON, false)
    } else if role == ROLE_SYSTEM_TEXT {
        let shown = if value.len() == 0 {
            or_empty(html_attr(m, "value"@))
        } else {
            value
        };
        (if states & STATE_SYSTEM_PROTECTED != 0 {
            stars(shown.len())
        } else {
            shown
        }, role, true)
    } else if role == ROLE_SYSTEM_PUSHBUTTON {
        (name, role, false)
    } else if role == ROLE_SYSTEM_RADIOBUTTON || role == ROLE_SYSTEM_CHECKBUTTON {
        (Seq::empty(), role, true)
    } else {
        (Seq::empty(), role, false)
    };
    (if c.len() == 0 {
        seq![0x20u16]
    } else {
        c
    }, r, nfa)
}

/// The content generated for an element (the branches of the renderer's
/// content decision, in order).
pub open spec fn generated_content(
    name: Seq<u16>,
    m: Map<Seq<u16>, Vec<u16>>,
    ia_name: Seq<u16>,
    ia_value: Seq<u16>,
    list_style: Seq<u16>,
    inp: ContentInputs,
) -> ContentView {
    let base = ContentView {
        content: Seq::empty(),
        render_children: false,
        is_block: inp.is_block,
        role: inp.role,
        is_interactive: inp.is_interactive,
        name_from_author: false,
        next_li_index: inp.li_index,
    };
    let space = seq![0x20u16];
    if inp.name_is_content && (html_attr(m, "aria-label"@) is Some || html_attr(m, "aria-labelledby"@) is Some) {
        ContentView { content: ia_name, ..base }
    } else if name == utf16_encode("HR"@) {
        ContentView { content: space, is_block: true, role: ROLE_SYSTEM_SEPARATOR, ..base }
    } else if inp.role == ROLE_SYSTEM_SLIDER || inp.role == ROLE_SYSTEM_PROGRESSBAR {
        ContentView { content: ia_value, ..base }
    } else if name == utf16_encode("OBJECT"@) || name == utf16_encode("APPLET"@) {
        ContentView { content: space, is_block: true, ..base }
    } else if name == utf16_encode("LI"@) {
        if is_bullet_style(list_style) {
            ContentView { content: utf16_encode("\u{2022} "@), render_children: true, ..base }
        } else if inp.li_index is Some && list_style.len() > 0 && list_style != utf16_encode("none"@) {
            ContentView {
                content: decimal(inp.li_index->0 as int) + utf16_encode(". "@),
                render_children: true,
                next_li_index: Some((inp.li_index->0 + 1) as i32),
                ..base
            }
        } else {
            ContentView { render_children: true, ..base }
        }
    } else if name == utf16_encode("TABLE"@) {
        ContentView { content: or_empty(html_attr(m, "summary"@)), render_children: true, ..base }
    } else if name == utf16_encode("IMG"@) {
        match html_attr(m, "alt"@) {
            Some(alt) => if alt.len() == 0 {
                ContentView { is_interactive: false, ..base }
            } else {
                ContentView { content: alt, ..base }
            },
            None => match html_attr(m, "title"@) {
                Some(title) => ContentView { content: title, ..base },
                None => if inp.ignore_graphics {
                    ContentView { is_interactive: false, ..base }
                } else if inp.is_interactive && ia_value.len() > 0 {
                    ContentView { content: crate::url_name::name_for_url(ia_value, false), ..base }
                } else {
                    base
                },
            },
        }
    } else if name == utf16_encode("INPUT"@) {
        let (c, r, nfa) = input_content(m, ia_name, ia_value, inp.role, inp.states);
        ContentView { content: c, role: r, name_from_author: nfa, ..base }
    } else if name == utf16_encode("SELECT"@) {
        ContentView {
            content: if ia_value.len() > 0 {
                ia_value
            } else {
                space
            },
            name_from_author: true,
            ..base
        }
    } else if name == utf16_encode("TEXTAREA"@) {
        ContentView {
            content: if ia_value.len() > 0 {
                ia_value
            } else {
                space
            },
            is_block: true,
            name_from_author: true,
            ..base
        }
    } else if name == utf16_encode("BR"@) {
        ContentView { content: seq![0x0Au16], ..base }
    } else if (!inp.is_root && (inp.role == ROLE_SYSTEM_APPLICATION || inp.role == ROLE_SYSTEM_DIALOG))
        || inp.role == ROLE_SYSTEM_OUTLINE || name == utf16_encode("MATH"@) {
        ContentView { content: space, ..base }
    } else {
        ContentView { render_children: true, ..base }
    }
}

/// The units `. ` that follow an item's number.
pub open spec fn number_suffix() -> Seq<u16> {
    seq![0x2Eu16, 0x20u16]
}

proof fn lemma_literal_units()
    ensures
        utf16_encode("LI"@) == seq![0x4Cu16, 0x49u16],
        utf16_encode("HR"@) == seq![0x48u16, 0x52u16],
        utf16_encode("OBJECT"@).len() == 6,
        utf16_encode("APPLET"@).len() == 6,
        utf16_encode(". "@) == number_suffix(),
{
    reveal_strlit("LI");
    reveal_strlit("HR");
    reveal_strlit("OBJECT");
    reveal_strlit("APPLET");
    reveal_strlit(". ");
    crate::wide::lemma_ascii_utf16_encode("LI"@);
    crate::wide::lemma_ascii_utf16_encode("HR"@);
    crate::wide::lemma_ascii_utf16_encode("OBJECT"@);
    crate::wide::lemma_ascii_utf16_encode("APPLET"@);
    crate::wide::lemma_ascii_utf16_encode(". "@);
    assert("LI"@.map_values(|c: char| c as u16) =~= seq![0x4Cu16, 0x49u16]);
    assert("HR"@.map_values(|c: char| c as u16) =~= seq![0x48u16, 0x52u16]);
    assert(". "@.map_values(|c: char| c as u16) =~= number_suffix());
}

/// The items of an ordered list are numbered in turn: an `LI` whose list
/// style is a numbering (not empty, not `none`, not a bullet) and that
/// gets counter `n` reads `n. `, renders its children, and hands `n + 1`
/// to the next item, which then reads `n + 1. `.
pub proof fn lemma_ordered_list_items_count_up(
    m: Map<Seq<u16>, Vec<u16>>,
    ia_name: Seq<u16>,
    ia_value: Seq<u16>,
    list_style: Seq<u16>,
    inp: ContentInputs,
    n: i32,
)
    requires
        inp.li_index == Some(n),
        n < i32::MAX - 1,
        list_style.len() > 0,
        list_style != utf16_encode("none"@),
        !is_bullet_style(list_style),
        !(inp.name_is_content && (html_attr(m, "aria-label"@) is Some || html_attr(
            m,
            "aria-labelledby"@,
        ) is Some)),
        inp.role != ROLE_SYSTEM_SLIDER,
        inp.role != ROLE_SYSTEM_PROGRESSBAR,
    ensures
        ({
            let li = seq![0x4Cu16, 0x49u16];
            let gc = generated_content(li, m, ia_name, ia_value, list_style, inp);
            let next = generated_content(
                li,
                m,
                ia_name,
                ia_value,
                list_style,
                ContentInputs { li_index: gc.next_li_index, ..inp },
            );
            &&& gc.content == decimal(n as int) + number_suffix()
            &&& gc.render_children
            &&& gc.next_li_index == Some((n + 1) as i32)
            &&& next.content == decimal(n + 1) + number_suffix()
            &&& next.next_li_index == Some((n + 2) as i32)
        }),
{
    lemma_literal_units();
    let li = seq![0x4Cu16, 0x49u16];
    assert(li != seq![0x48u16, 0x52u16]);
}

fn opt_units(v: Option<&Vec<u16>>) -> (c: Vec<u16>)
    ensures
        c@ == (match v {
            Some(t) => t@,
            None => Seq::empty(),
        }),
{
    match v {
        Some(t) => copy_units(t.as_slice()),
        None => Vec::new(),
    }
}

/// Computes `input_content`.
fn input_content_exec(attribs: &Attribs, ia_name: &[u16], ia_value: &[u16], role: i32, states: i32) -> (r: (Vec<u16>, i32, bool))
    ensures
        (r.0@, r.1, r.2) == input_content(attribs@, ia_name@, ia_value@, role, states),
{
    let mut content: Vec<u16> = Vec::new();
    let mut out_role = role;
    let mut name_from_author = false;
    let is_file = match attr_html(attribs, "type") {
        Some(t) => weq(t.as_slice(), "file"),
        None => false,
    };
    if is_file {
        content = copy_units(ia_value);
        let dots = utf16("...");
        append_units(&mut content, dots.as_slice());
        out_role = ROLE_SYSTEM_PUSHBUTTON;
    } else if role == ROLE_SYSTEM_TEXT {
        if ia_value.len() == 0 {
            content = opt_units(attr_html(attribs, "value"));
        } else {
            content = copy_units(ia_value);
        }
        if states & STATE_SYSTEM_PROTECTED != 0 {
            let n = content.len();
            let mut masked: Vec<u16> = Vec::new();
            let mut k: usize = 0;
            while k < n
                invariant
                    k <= n,
                    masked@ == stars(k as nat),
                decreases n - k,
            {
                masked.push(0x2A);
                assert(masked@ =~= stars((k + 1) as nat));
                k += 1;
            }
            content = masked;
        }
        name_from_author = true;
    } else if role == ROLE_SYSTEM_PUSHBUTTON {
        content = copy_units(ia_name);
    } else if role == ROLE_SYSTEM_RADIOBUTTON || role == ROLE_SYSTEM_CHECKBUTTON {
        name_from_author = true;
    }
    if content.len() == 0 {
        content = Vec::new();
        content.push(0x20);
        assert(content@ =~= seq![0x20u16]);
    }
    (content, out_role, name_from_author)
}

/// Decides the content generated for an element (see
/// `generated_content`).
pub fn generate_content(
    node_name: &[u16],
    attribs: &Attribs,
    ia_name: &[u16],
    ia_value: &[u16],
    list_style: &[u16],
    inp: ContentInputs,
) -> (gc: GeneratedContent)
    requires
        node_name@ == utf16_encode("LI"@) && inp.li_index is Some ==> inp.li_index->0 < i32::MAX,
    ensures
        gc.as_view() == generated_content(node_name@, attribs@, ia_name@, ia_value@, list_style@, inp),
{
    let mut gc = GeneratedContent {
        content: Vec::new(),
        render_children: false,
        is_block: inp.is_block,
        role: inp.role,
        is_interactive: inp.is_interactive,
        name_from_author: false,
        next_li_index: inp.li_index,
    };
    if inp.name_is_content && (attr_html(attribs, "aria-label").is_some() || attr_html(
        attribs,
        "aria-labelledby",
    ).is_some()) {
        gc.content = copy_units(ia_name);
    } else if weq(node_name, "HR") {
        gc.content = utf16(" ");
        gc.is_block = true;
        gc.role = ROLE_SYSTEM_SEPARATOR;
        proof {
            reveal_strlit(" ");
            assert(utf16_encode(" "@) =~= seq![0x20u16]) by {
                reveal_with_fuel(utf16_encode, 2);
            }
        }
    } else if inp.role == ROLE_SYSTEM_SLIDER || inp.role == ROLE_SYSTEM_PROGRESSBAR {
        gc.content = copy_units(ia_value);
    } else if weq(node_name, "OBJECT") || weq(node_name, "APPLET") {
        gc.is_block = true;
        gc.content = utf16(" ");
        proof {
            reveal_strlit(" ");
            assert(utf16_encode(" "@) =~= seq![0x20u16]) by {
                reveal_with_fuel(utf16_encode, 2);
            }
        }
    } else if weq(node_name, "LI") {
        gc.render_children = true;
        if weq(list_style, "disc") || weq(list_style, "circle") || weq(list_style, "square") {
            gc.content = utf16("\u{2022} ");
        } else if inp.li_index.is_some() && list_style.len() > 0 && !weq(list_style, "none") {
            let li = match inp.li_index {
                Some(n) => n,
                None => 0,
            };
            let mut text = dec(li);
            let dot = utf16(". ");
            append_units(&mut text, dot.as_slice());
            gc.content = text;
            gc.next_li_index = Some(li + 1);
        }
    } else if weq(node_name, "TABLE") {
        gc.render_children = true;
        gc.content = opt_units(attr_html(attribs, "summary"));
    } else if weq(node_name, "IMG") {
        match attr_html(attribs, "alt") {
            Some(alt) => {
                if alt.len() == 0 {
                    gc.is_interactive = false;
                } else {
                    gc.content = copy_units(alt.as_slice());
                }
            },
            None => match attr_html(attribs, "title") {
                Some(title) => {
                    gc.content = copy_units(title.as_slice());
                },
                None => {
                    if inp.ignore_graphics {
                        gc.is_interactive = false;
                    } else if inp.is_interactive && ia_value.len() > 0 {
                        gc.content = crate::mshtml::get_name_for_url(ia_value);
                    }
                },
            },
        }
    } else if weq(node_name, "INPUT") {
        let (c, r, nfa) = input_content_exec(attribs, ia_name, ia_value, inp.role, inp.states);
        gc.content = c;
        gc.role = r;
        gc.name_from_author = nfa;
    } else if weq(node_name, "SELECT") {
        gc.content = if ia_value.len() > 0 {
            copy_units(ia_value)
        } else {
            let mut sp: Vec<u16> = Vec::new();
            sp.push(0x20);
            assert(sp@ =~= seq![0x20u16]);
            sp
        };
        gc.name_from_author = true;
    } else if weq(node_name, "TEXTAREA") {
        gc.is_block = true;
        gc.content = if ia_value.len() > 0 {
            copy_units(ia_value)
        } else {
            let mut sp: Vec<u16> = Vec::new();
            sp.push(0x20);
            assert(sp@ =~= seq![0x20u16]);
            sp
        };
        gc.name_from_author = true;
    } else if weq(node_name, "BR") {
        let mut nl: Vec<u16> = Vec::new();
        nl.push(0x0A);
        assert(nl@ =~= seq![0x0Au16]);
        gc.content = nl;
    } else if (!inp.is_root && (inp.role == ROLE_SYSTEM_APPLICATION || inp.role == ROLE_SYSTEM_DIALOG))
        || inp.role == ROLE_SYSTEM_OUTLINE || weq(node_name, "MATH") {
        let mut sp: Vec<u16> = Vec::new();
        sp.push(0x20);
        assert(sp@ =~= seq![0x20u16]);
        gc.content = sp;
    } else {
        gc.render_children = true;
    }
    gc
}

} // verus!

verus! {

/// A name that is not the content is reported (as `name` with
/// `alwaysReportName`) when it is not empty and came from the author:
/// a form field, `aria-label(ledby)`, `title` or `alt`.
pub fn reports_author_name(name_is_content: bool, ia_name: &[u16], name_from_author: bool, attribs: &Attribs) -> (b: bool)
    ensures
        b == (!name_is_content && ia_name@.len() > 0 && (name_from_author || html_attr(
            attribs@,
            "aria-label"@,
        ) is Some || html_attr(attribs@, "aria-labelledby"@) is Some || html_attr(attribs@, "title"@)
            is Some || html_attr(attribs@, "alt"@) is Some)),
{
    !name_is_content && ia_name.len() > 0 && (name_from_author || attr_html(attribs, "aria-label").is_some()
        || attr_html(attribs, "aria-labelledby").is_some() || attr_html(attribs, "title").is_some()
        || attr_html(attribs, "alt").is_some())
}

/// The text rendered for an element whose children gave nothing useful:
/// its name, else its `title`, else a name made from a non-empty `href`.
pub open spec fn fallback_text(ia_name: Seq<u16>, m: Map<Seq<u16>, Vec<u16>>) -> Seq<u16> {
    let f2 = if ia_name.len() == 0 {
        match html_attr(m, "title"@) {
            Some(t) => t,
            None => ia_name,
        }
    } else {
        ia_name
    };
    if f2.len() == 0 {
        match html_attr(m, "href"@) {
            Some(h) => if h.len() > 0 {
                crate::url_name::name_for_url(h, false)
            } else {
                f2
            },
            None => f2,
        }
    } else {
        f2
    }
}

/// Computes `fallback_text`.
pub fn fallback_content(ia_name: &[u16], attribs: &Attribs) -> (text: Vec<u16>)
    ensures
        text@ == fallback_text(ia_name@, attribs@),
{
    let mut fallback = copy_units(ia_name);
    if fallback.len() == 0 {
        if let Some(title) = attr_html(attribs, "title") {
            fallback = copy_units(title.as_slice());
        }
    }
    if fallback.len() == 0 {
        if let Some(href) = attr_html(attribs, "href") {
            if href.len() > 0 {
                fallback = crate::mshtml::get_name_for_url(href.as_slice());
            }
        }
    }
    fallback
}

} // verus!
