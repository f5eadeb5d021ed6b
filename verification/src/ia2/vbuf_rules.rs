//! The decisions the Gecko/IA2 virtual buffer makes for each rendered
//! object: role normalisation, block/inline, hidden and interactive
//! state, what content to render, and how table state passes to children.

use crate::attribs::AttribMap;
use crate::ia2::live_regions::attrib_is;
use crate::search::{contains_seq, occurs_at};
use crate::strings::{chars_of, str_contains, str_eq};
use crate::white_space::is_white_space_code;
use crate::wide::{append_units, decimal, dec, slice_eq, widened_bytes};
use vstd::prelude::*;
use vstd::string::StringSliceAdditionalSpecFns;

verus! {

pub const ROLE_SYSTEM_MENUITEM: i32 = 0x0c;
pub const ROLE_SYSTEM_APPLICATION: i32 = 0x0e;
pub const ROLE_SYSTEM_DOCUMENT: i32 = 0x0f;
pub const ROLE_SYSTEM_DIALOG: i32 = 0x12;
pub const ROLE_SYSTEM_SEPARATOR: i32 = 0x15;
pub const ROLE_SYSTEM_TABLE: i32 = 0x18;
pub const ROLE_SYSTEM_COLUMNHEADER: i32 = 0x19;
pub const ROLE_SYSTEM_ROWHEADER: i32 = 0x1a;
pub const ROLE_SYSTEM_ROW: i32 = 0x1c;
pub const ROLE_SYSTEM_CELL: i32 = 0x1d;
pub const ROLE_SYSTEM_LINK: i32 = 0x1e;
pub const ROLE_SYSTEM_LIST: i32 = 0x21;
pub const ROLE_SYSTEM_OUTLINE: i32 = 0x23;
pub const ROLE_SYSTEM_PAGETAB: i32 = 0x25;
pub const ROLE_SYSTEM_GRAPHIC: i32 = 0x28;
pub const ROLE_SYSTEM_TEXT: i32 = 0x2a;
pub const ROLE_SYSTEM_PUSHBUTTON: i32 = 0x2b;
pub const ROLE_SYSTEM_CHECKBUTTON: i32 = 0x2c;
pub const ROLE_SYSTEM_RADIOBUTTON: i32 = 0x2d;
pub const ROLE_SYSTEM_COMBOBOX: i32 = 0x2e;
pub const ROLE_SYSTEM_PROGRESSBAR: i32 = 0x30;
pub const ROLE_SYSTEM_EQUATION: i32 = 0x35;
pub const ROLE_SYSTEM_BUTTONMENU: i32 = 0x39;
pub const IA2_ROLE_UNKNOWN: i32 = 0x0;
pub const IA2_ROLE_EMBEDDED_OBJECT: i32 = 0x40a;
pub const IA2_ROLE_HEADING: i32 = 0x414;
pub const IA2_ROLE_INTERNAL_FRAME: i32 = 0x418;
pub const IA2_ROLE_SECTION: i32 = 0x424;
pub const IA2_ROLE_TEXT_FRAME: i32 = 0x429;
pub const IA2_ROLE_TOGGLE_BUTTON: i32 = 0x42a;
pub const STATE_SYSTEM_UNAVAILABLE: i32 = 0x1;
pub const STATE_SYSTEM_INDETERMINATE: i32 = 0x20;
pub const STATE_SYSTEM_READONLY: i32 = 0x40;
pub const STATE_SYSTEM_FOCUSABLE: i32 = 0x10_0000;
pub const STATE_SYSTEM_LINKED: i32 = 0x40_0000;
pub const IA2_STATE_EDITABLE: i32 = 0x8;
pub const IA2_STATE_MULTI_LINE: i32 = 0x200;
/// The embedded-object character that marks a hyperlink in IA2 text.
pub const EMBEDDED_OBJ_CHAR: u16 = 0xfffc;

/// The `xml-roles` attribute holds `value` anywhere in it.
pub open spec fn xml_roles_contain(map: Map<Seq<char>, Seq<char>>, value: Seq<char>) -> bool {
    map.contains_key("xml-roles"@) && contains_seq(map["xml-roles"@], value)
}

/// `true` when the `xml-roles` attribute is present and holds `value` as
/// a substring.
pub fn has_xml_role_attrib_containing_value(map: &AttribMap, value: &str) -> (b: bool)
    ensures
        b == xml_roles_contain(map@, value@),
{
    match map.get("xml-roles") {
        Some(v) => str_contains(v.as_str(), value),
        None => false,
    }
}

/// `true` when `hidden` is exactly `true`.
pub fn has_aria_hidden_attribute(map: &AttribMap) -> (b: bool)
    ensures
        b == attrib_is(map@, "hidden"@, "true"@),
{
    match map.get("hidden") {
        Some(v) => str_eq(v.as_str(), "true"),
        None => false,
    }
}

/// A character that can be part of a word in `xml-roles`: an ASCII letter
/// or digit, or `_`.
pub open spec fn is_word_char(c: char) -> bool {
    ('a' <= c <= 'z') || ('A' <= c <= 'Z') || ('0' <= c <= '9') || c == '_'
}

fn is_word_char_exec(c: char) -> (b: bool)
    ensures
        b == is_word_char(c),
{
    ('a' <= c && c <= 'z') || ('A' <= c && c <= 'Z') || ('0' <= c && c <= '9') || c == '_'
}

/// `word` is one of the tokens of `text` when it is split at every
/// character that is not a word character: it occurs at `p`, has no
/// separator inside, and has a separator or an end of `text` on each side.
pub open spec fn is_token_at(text: Seq<char>, word: Seq<char>, p: int) -> bool {
    &&& occurs_at(text, word, p)
    &&& forall|i: int| 0 <= i < word.len() ==> is_word_char(#[trigger] word[i])
    &&& (p == 0 || !is_word_char(text[p - 1]))
    &&& (p + word.len() == text.len() || !is_word_char(text[p + word.len()]))
}

/// `word` occurs in `text` as a whole word.
pub open spec fn has_token(text: Seq<char>, word: Seq<char>) -> bool {
    exists|p: int| is_token_at(text, word, p)
}

/// The `xml-roles` attribute holds `word` as a whole word (the regular
/// expression `\bword\b`).
pub open spec fn xml_roles_have_word(map: Map<Seq<char>, Seq<char>>, word: Seq<char>) -> bool {
    map.contains_key("xml-roles"@) && has_token(map["xml-roles"@], word)
}

/// `true` when the `xml-roles` attribute holds `word` as a whole word;
/// words are separated by any character other than ASCII letters, digits
/// and `_`.
pub fn xml_roles_contains_word(map: &AttribMap, word: &str) -> (b: bool)
    ensures
        b == xml_roles_have_word(map@, word@),
{
    let value = match map.get("xml-roles") {
        Some(v) => v,
        None => return false,
    };
    let text = chars_of(value.as_str());
    let w = chars_of(word);
    // A word with a separator in it is never a token.
    let ghost roles = map@["xml-roles"@];
    let tlen = text.len();
    let mut k: usize = 0;
    while k < w.len()
        invariant
            k <= w@.len(),
            text@ == roles,
            w@ == word@,
            roles == value@,
            map@.contains_key("xml-roles"@) && map@["xml-roles"@] == roles,
            forall|i: int| 0 <= i < k ==> is_word_char(#[trigger] w@[i]),
        decreases w@.len() - k,
    {
        if !is_word_char_exec(w[k]) {
            assert(forall|p: int| !is_token_at(text@, w@, p)) by {
                assert(!is_word_char(w@[k as int]));
            }
            return false;
        }
        k += 1;
    }
    if w.len() > text.len() {
        assert(forall|p: int| !is_token_at(text@, w@, p));
        return false;
    }
    let last = text.len() - w.len();
    let mut p: usize = 0;
    while p <= last
        invariant
            last + w@.len() == text@.len(),
            tlen == text@.len(),
            text@ == roles,
            w@ == word@,
            map@.contains_key("xml-roles"@) && map@["xml-roles"@] == roles,
            forall|i: int| 0 <= i < w@.len() ==> is_word_char(#[trigger] w@[i]),
            forall|q: int| 0 <= q < p ==> !is_token_at(text@, w@, q),
        decreases last + 1 - p,
    {
        let left_ok = p == 0 || !is_word_char_exec(text[p - 1]);
        let right_ok = p + w.len() == text.len() || !is_word_char_exec(text[p + w.len()]);
        if left_ok && right_ok && crate::search::matches_at_char(&text, &w, p) {
            assert(is_token_at(text@, w@, p as int));
            return true;
        }
        if p == last {
            assert(forall|q: int| 0 <= q <= p ==> !is_token_at(text@, w@, q));
            assert(forall|q: int| !is_token_at(text@, w@, q));
            return false;
        }
        p += 1;
    }
    assert(forall|q: int| !is_token_at(text@, w@, q));
    false
}

/// The block/inline decision: multi-line objects are blocks; otherwise a
/// `display` attribute decides (anything but `inline`, `inline-block`
/// and `inline-flex` is a block); otherwise `formatting: block` makes a
/// block; otherwise the role does.
pub open spec fn is_block_element(ia2_states: i32, map: Map<Seq<char>, Seq<char>>, role: i32) -> bool {
    if ia2_states & IA2_STATE_MULTI_LINE != 0 {
        true
    } else if map.contains_key("display"@) {
        let d = map["display"@];
        d != "inline"@ && d != "inline-block"@ && d != "inline-flex"@
    } else if attrib_is(map, "formatting"@, "block"@) {
        true
    } else {
        role == ROLE_SYSTEM_TABLE || role == ROLE_SYSTEM_CELL || role == IA2_ROLE_SECTION || role
            == ROLE_SYSTEM_DOCUMENT || role == IA2_ROLE_INTERNAL_FRAME || role == IA2_ROLE_UNKNOWN
            || role == ROLE_SYSTEM_SEPARATOR
    }
}

/// Whether an object renders as a block (see `is_block_element`).
pub fn compute_is_block_element(ia2_states: i32, map: &AttribMap, role: i32) -> (b: bool)
    ensures
        b == is_block_element(ia2_states, map@, role),
{
    if (ia2_states & IA2_STATE_MULTI_LINE) != 0 {
        return true;
    }
    if let Some(display) = map.get("display") {
        return !str_eq(display.as_str(), "inline") && !str_eq(display.as_str(), "inline-block")
            && !str_eq(display.as_str(), "inline-flex");
    }
    let formatting_block = match map.get("formatting") {
        Some(v) => str_eq(v.as_str(), "block"),
        None => false,
    };
    if formatting_block {
        return true;
    }
    role == ROLE_SYSTEM_TABLE || role == ROLE_SYSTEM_CELL || role == IA2_ROLE_SECTION || role
        == ROLE_SYSTEM_DOCUMENT || role == IA2_ROLE_INTERNAL_FRAME || role == IA2_ROLE_UNKNOWN
        || role == ROLE_SYSTEM_SEPARATOR
}

/// `true` when the code unit is a character with the Unicode
/// `White_Space` property (lone surrogates are not).
pub fn is_whitespace_w(c: u16) -> (b: bool)
    ensures
        b == is_white_space_code(c as int),
{
    (0x09 <= c && c <= 0x0D) || c == 0x20 || c == 0x85 || c == 0xA0 || c == 0x1680 || (0x2000
        <= c && c <= 0x200A) || c == 0x2028 || c == 0x2029 || c == 0x202F || c == 0x205F || c
        == 0x3000
}

/// The role after normalisation: an outline whose `xml-roles` holds
/// `treegrid` is a table, and an equation with `tag: img` is a graphic.
pub open spec fn normalized_role(role: i32, map: Map<Seq<char>, Seq<char>>) -> i32 {
    let r = if role == ROLE_SYSTEM_OUTLINE && xml_roles_contain(map, "treegrid"@) {
        ROLE_SYSTEM_TABLE
    } else {
        role
    };
    if r == ROLE_SYSTEM_EQUATION && attrib_is(map, "tag"@, "img"@) {
        ROLE_SYSTEM_GRAPHIC
    } else {
        r
    }
}

/// Normalises a role (see `normalized_role`).
pub fn normalize_role(role: i32, map: &AttribMap) -> (r: i32)
    ensures
        r == normalized_role(role, map@),
{
    let mut r = role;
    if r == ROLE_SYSTEM_OUTLINE && has_xml_role_attrib_containing_value(map, "treegrid") {
        r = ROLE_SYSTEM_TABLE;
    }
    if r == ROLE_SYSTEM_EQUATION {
        let is_img = match map.get("tag") {
            Some(v) => str_eq(v.as_str(), "img"),
            None => false,
        };
        if is_img {
            r = ROLE_SYSTEM_GRAPHIC;
        }
    }
    r
}

/// The value of the role attribute: the role string when the object has
/// one, else the role number in decimal.
pub fn role_attribute(role: i32, role_string: Option<Vec<u16>>) -> (attr: Vec<u16>)
    ensures
        attr@ == (match role_string {
            Some(s) => s@,
            None => decimal(role as int),
        }),
{
    match role_string {
        Some(s) => s,
        None => dec(role),
    }
}

/// The set bit `i` (0 to 31) of a state mask, as a signed state value
/// (bit 31 is negative).
pub open spec fn state_bit(i: int) -> i32 {
    (1u32 << (i as u32)) as i32
}

/// `states` has bit `i` set.
pub open spec fn has_state_bit(states: i32, i: int) -> bool {
    (states as u32) & (1u32 << (i as u32)) != 0
}

/// The attribute names `prefix` + decimal value of each set bit among
/// bits `0..n` of `states`, lowest bit first.
pub open spec fn state_attribute_names_upto(prefix: Seq<u16>, states: i32, n: int) -> Seq<Seq<u16>>
    decreases n,
{
    if n <= 0 {
        Seq::empty()
    } else {
        state_attribute_names_upto(prefix, states, n - 1) + if has_state_bit(states, n - 1) {
            seq![prefix + decimal(state_bit(n - 1) as int)]
        } else {
            Seq::empty()
        }
    }
}

/// The names of the state attributes (`prefix` followed by the decimal
/// value of the bit) written for every set bit of `states`, lowest first.
pub fn state_attribute_names(prefix: &[u16], states: i32) -> (names: Vec<Vec<u16>>)
    ensures
        names@.len() == state_attribute_names_upto(prefix@, states, 32).len(),
        forall|i: int|
            0 <= i < names@.len() ==> (#[trigger] names@[i])@ == state_attribute_names_upto(
                prefix@,
                states,
                32,
            )[i],
{
    let mut names: Vec<Vec<u16>> = Vec::new();
    if states == 0 {
        assert forall|n: int| 0 <= n <= 32 implies state_attribute_names_upto(prefix@, states, n)
            =~= Seq::<Seq<u16>>::empty() by {
            lemma_no_state_bits(prefix@, n);
        }
        return names;
    }
    let mut i: u32 = 0;
    while i < 32
        invariant
            i <= 32,
            names@.len() == state_attribute_names_upto(prefix@, states, i as int).len(),
            forall|j: int|
                0 <= j < names@.len() ==> (#[trigger] names@[j])@ == state_attribute_names_upto(
                    prefix@,
                    states,
                    i as int,
                )[j],
        decreases 32 - i,
    {
        let bit: u32 = 1u32 << i;
        if (states as u32) & bit != 0 {
            let mut name: Vec<u16> = Vec::new();
            append_units(&mut name, prefix);
            let digits = dec(bit as i32);
            append_units(&mut name, digits.as_slice());
            assert(name@ =~= prefix@ + decimal(state_bit(i as int) as int));
            names.push(name);
        }
        proof {
            let next = state_attribute_names_upto(prefix@, states, i + 1);
            let before = state_attribute_names_upto(prefix@, states, i as int);
            assert forall|j: int| 0 <= j < names@.len() implies (#[trigger] names@[j])@ == next[j] by {
                if j < before.len() {
                    assert(next[j] == before[j]);
                }
            }
        }
        i += 1;
    }
    names
}

proof fn lemma_no_state_bits(prefix: Seq<u16>, n: int)
    requires
        n <= 32,
    ensures
        state_attribute_names_upto(prefix, 0, n) =~= Seq::<Seq<u16>>::empty(),
    decreases n,
{
    if n > 0 {
        lemma_no_state_bits(prefix, n - 1);
        let m = (n - 1) as u32;
        assert((0u32) & (1u32 << m) == 0) by (bit_vector);
    }
}

/// The IA2 states after removing `editable` from tables (Gecko reports it
/// for ARIA grids).
pub open spec fn adjusted_ia2_states(role: i32, raw_ia2_states: i32) -> i32 {
    if raw_ia2_states & IA2_STATE_EDITABLE != 0 && role == ROLE_SYSTEM_TABLE {
        (raw_ia2_states - IA2_STATE_EDITABLE) as i32
    } else {
        raw_ia2_states
    }
}

/// A focusable object whose `xml-roles` has the word `presentation` is
/// hidden.
pub open spec fn presentation_hidden(states: i32, map: Map<Seq<char>, Seq<char>>) -> bool {
    states & STATE_SYSTEM_FOCUSABLE != 0 && xml_roles_have_word(map, "presentation"@)
}

/// Whether a focusable presentational object is hidden (see
/// `presentation_hidden`).
pub fn is_hidden_presentation(states: i32, map: &AttribMap) -> (b: bool)
    ensures
        b == presentation_hidden(states, map@),
{
    (states & STATE_SYSTEM_FOCUSABLE) != 0 && xml_roles_contains_word(map, "presentation")
}

/// The language tag of an object: `language`, then `-country` when both
/// are present and the language is not empty.
pub open spec fn locale_of(language: Option<Seq<u16>>, country: Option<Seq<u16>>) -> Seq<u16> {
    let lang = match language {
        Some(l) => l,
        None => Seq::empty(),
    };
    match country {
        Some(c) => if lang.len() > 0 {
            lang + seq![0x2Du16] + c
        } else {
            lang
        },
        None => lang,
    }
}

/// A locale starts with its language, when one is given; a country is
/// added after a `-` only to a non-empty language; without a language the
/// locale is empty.
pub proof fn lemma_locale_keeps_language(language: Option<Seq<u16>>, country: Option<Seq<u16>>)
    ensures
        language is None ==> locale_of(language, country).len() == 0,
        language matches Some(l) ==> locale_of(language, country).len() >= l.len()
            && locale_of(language, country).take(l.len() as int) == l,
        (language is Some && language->0.len() > 0 && country is Some) ==> ({
            let l = language->0;
            let c = country->0;
            let loc = locale_of(language, country);
            &&& loc.len() == l.len() + 1 + c.len()
            &&& loc[l.len() as int] == 0x2Du16
            &&& loc.skip(l.len() as int + 1) == c
        }),
        (language is Some && (language->0.len() == 0 || country is None)) ==> locale_of(
            language,
            country,
        ) == language->0,
{
    if let Some(l) = language {
        if let Some(c) = country {
            if l.len() > 0 {
                let loc = l + seq![0x2Du16] + c;
                assert(loc.take(l.len() as int) =~= l);
                assert(loc.skip(l.len() as int + 1) =~= c);
            } else {
                assert(l.take(0) =~= l);
            }
        } else {
            assert(l.take(l.len() as int) =~= l);
        }
    }
}

/// Assembles the locale string (see `locale_of`).
pub fn assemble_locale(language: Option<&[u16]>, country: Option<&[u16]>) -> (locale: Vec<u16>)
    ensures
        locale@ == locale_of(
            match language {
                Some(l) => Some(l@),
                None => None,
            },
            match country {
                Some(c) => Some(c@),
                None => None,
            },
        ),
{
    let mut locale: Vec<u16> = Vec::new();
    if let Some(l) = language {
        append_units(&mut locale, l);
    }
    if let Some(c) = country {
        if locale.len() > 0 {
            locale.push(0x2D);
            append_units(&mut locale, c);
        }
    }
    locale
}

/// What the renderer knows of an object after reading its states, name,
/// description and locale.
pub struct Block2State {
    /// The accessible name; `None` when there is none (an empty name is
    /// `Some` of an empty vector).
    pub name: Option<Vec<u16>>,
    pub description: Option<Vec<u16>>,
    pub locale: Vec<u16>,
    pub states: i32,
    /// The IA2 states, without `editable` on tables.
    pub ia2_states: i32,
    pub is_editable: bool,
    pub in_link: bool,
    pub is_root: bool,
    pub is_embedded_app: bool,
    pub is_never_interactive: bool,
    pub is_interactive: bool,
}

/// The derived flags of `Block2State` for an object.
pub open spec fn block2_flags_hold(
    b: Block2State,
    role: i32,
    map: Map<Seq<char>, Seq<char>>,
    id: i32,
    root_id: i32,
    states: i32,
    raw_ia2_states: i32,
) -> bool {
    let focusable = states & STATE_SYSTEM_FOCUSABLE != 0;
    let unavailable = states & STATE_SYSTEM_UNAVAILABLE != 0;
    &&& b.states == states
    &&& b.ia2_states == adjusted_ia2_states(role, raw_ia2_states)
    &&& b.is_editable == ((role == ROLE_SYSTEM_TEXT && (focusable || unavailable)) || b.ia2_states
        & IA2_STATE_EDITABLE != 0)
    &&& b.in_link == (states & STATE_SYSTEM_LINKED != 0)
    &&& b.is_root == (id == root_id)
    &&& b.is_embedded_app == (role == IA2_ROLE_EMBEDDED_OBJECT || (!b.is_root && (role
        == ROLE_SYSTEM_APPLICATION || role == ROLE_SYSTEM_DIALOG)))
    &&& b.is_never_interactive == (presentation_hidden(states, map) || (!b.is_editable && (b.is_root
        || role == ROLE_SYSTEM_DOCUMENT || role == IA2_ROLE_INTERNAL_FRAME)))
    &&& b.is_interactive == (!b.is_never_interactive && (b.is_editable || b.in_link || focusable
        || unavailable || b.is_embedded_app || role == ROLE_SYSTEM_EQUATION))
}

/// Builds the `Block2State` of an object from its (normalised) role,
/// attributes, unique id, the document root's id, its MSAA and IA2
/// states, name, description and locale.
pub fn block2_state(
    role: i32,
    map: &AttribMap,
    id: i32,
    root_id: i32,
    states: i32,
    raw_ia2_states: i32,
    name: Option<Vec<u16>>,
    description: Option<Vec<u16>>,
    locale: Vec<u16>,
) -> (b: Block2State)
    ensures
        block2_flags_hold(b, role, map@, id, root_id, states, raw_ia2_states),
        b.name == name,
        b.description == description,
        b.locale == locale,
{
    let mut ia2_states = raw_ia2_states;
    if (ia2_states & IA2_STATE_EDITABLE) != 0 && role == ROLE_SYSTEM_TABLE {
        assert(ia2_states & 8 != 0 ==> ia2_states - 8 >= i32::MIN) by (bit_vector);
        ia2_states -= IA2_STATE_EDITABLE;
    }
    let is_hidden_initial = is_hidden_presentation(states, map);
    let focusable = (states & STATE_SYSTEM_FOCUSABLE) != 0;
    let unavailable = (states & STATE_SYSTEM_UNAVAILABLE) != 0;
    let is_editable = (role == ROLE_SYSTEM_TEXT && (focusable || unavailable)) || (ia2_states
        & IA2_STATE_EDITABLE) != 0;
    let in_link = (states & STATE_SYSTEM_LINKED) != 0;
    let is_root = id == root_id;
    let is_embedded_app = role == IA2_ROLE_EMBEDDED_OBJECT || (!is_root && (role
        == ROLE_SYSTEM_APPLICATION || role == ROLE_SYSTEM_DIALOG));
    let is_never_interactive = is_hidden_initial || (!is_editable && (is_root || role
        == ROLE_SYSTEM_DOCUMENT || role == IA2_ROLE_INTERNAL_FRAME));
    let is_interactive = !is_never_interactive && (is_editable || in_link || focusable
        || unavailable || is_embedded_app || role == ROLE_SYSTEM_EQUATION);
    Block2State {
        name,
        description,
        locale,
        states,
        ia2_states,
        is_editable,
        in_link,
        is_root,
        is_embedded_app,
        is_never_interactive,
        is_interactive,
    }
}

/// A label found through the `labelledBy` relation: whether it is
/// visible and has text, and its IA2 unique id.
pub struct LabelInfo {
    pub is_visible: bool,
    pub id: Option<i32>,
}

/// The explicit-name attribute is `true`.
pub open spec fn name_explicit(map: Map<Seq<char>, Seq<char>>) -> bool {
    attrib_is(map, "explicit-name"@, "true"@)
}

/// Whether the label has to be looked up: only check boxes, radio
/// buttons and explicitly named objects consult it.
pub fn needs_label_info(role: i32, map: &AttribMap) -> (b: bool)
    ensures
        b == (role == ROLE_SYSTEM_CHECKBUTTON || role == ROLE_SYSTEM_RADIOBUTTON || name_explicit(
            map@,
        )),
{
    let explicit = match map.get("explicit-name") {
        Some(v) => str_eq(v.as_str(), "true"),
        None => false,
    };
    role == ROLE_SYSTEM_CHECKBUTTON || role == ROLE_SYSTEM_RADIOBUTTON || explicit
}

/// Text that is nothing but white space, with no line feed or embedded
/// object, in an object that is not editable, need not be rendered.
pub open spec fn unneeded_space(text: Seq<u16>, is_editable: bool) -> bool {
    text.len() > 0 && !is_editable && forall|i: int|
        0 <= i < text.len() ==> #[trigger] text[i] != 0x0A && text[i] != EMBEDDED_OBJ_CHAR
            && is_white_space_code(text[i] as int)
}

/// Whether an object's text is only unneeded white space (see
/// `unneeded_space`).
pub fn text_is_unneeded_space(text: &[u16], is_editable: bool) -> (b: bool)
    ensures
        b == unneeded_space(text@, is_editable),
{
    if text.len() == 0 || is_editable {
        return false;
    }
    let mut i: usize = 0;
    while i < text.len()
        invariant
            i <= text@.len(),
            forall|j: int|
                0 <= j < i ==> #[trigger] text@[j] != 0x0A && text@[j] != EMBEDDED_OBJ_CHAR
                    && is_white_space_code(text@[j] as int),
        decreases text@.len() - i,
    {
        let c = text[i];
        if c == 0x0A || c == EMBEDDED_OBJ_CHAR || !is_whitespace_w(c) {
            return false;
        }
        i += 1;
    }
    true
}

/// What the renderer knows of an object after its name flags, text and
/// render flags are settled.
pub struct Block3State {
    pub is_aria_hidden: bool,
    pub child_count: i32,
    pub is_img_map: bool,
    pub name_is_explicit: bool,
    pub name_is_content: bool,
    /// The explicit name comes from a label that is visible elsewhere.
    pub label_visible: bool,
    pub label_id: Option<i32>,
    /// The object's full IA2 text, when it has one.
    pub ia2_text: Option<Vec<u16>>,
    pub ia2_text_is_unneeded_space: bool,
    pub is_visible: bool,
    pub render_children: bool,
    pub render_selected_item_only: bool,
}

/// The name is present and not empty.
pub open spec fn has_nonempty(text: Option<Vec<u16>>) -> bool {
    match text {
        Some(t) => t@.len() > 0,
        None => false,
    }
}

/// The flags of `Block3State` for an object.
pub open spec fn block3_flags_hold(
    b: Block3State,
    role: i32,
    map: Map<Seq<char>, Seq<char>>,
    b2: Block2State,
    child_count: i32,
    label: Option<LabelInfo>,
) -> bool {
    let label_shown = match label {
        Some(l) => l.is_visible,
        None => false,
    };
    &&& b.is_aria_hidden == attrib_is(map, "hidden"@, "true"@)
    &&& b.child_count == child_count
    &&& b.is_img_map == (role == ROLE_SYSTEM_GRAPHIC && child_count > 0)
    &&& b.name_is_explicit == name_explicit(map)
    &&& b.label_id == (match label {
        Some(l) => l.id,
        None => None,
    })
    &&& b.name_is_content == (b2.is_embedded_app || role == ROLE_SYSTEM_LINK || role
        == ROLE_SYSTEM_PUSHBUTTON || role == IA2_ROLE_TOGGLE_BUTTON || role == ROLE_SYSTEM_MENUITEM
        || (role == ROLE_SYSTEM_GRAPHIC && !b.is_img_map) || (role == ROLE_SYSTEM_TEXT
        && !b2.is_editable) || role == IA2_ROLE_HEADING || role == ROLE_SYSTEM_PAGETAB || role
        == ROLE_SYSTEM_BUTTONMENU || ((role == ROLE_SYSTEM_CHECKBUTTON || role
        == ROLE_SYSTEM_RADIOBUTTON) && !label_shown))
    &&& b.label_visible == (b.name_is_explicit && has_nonempty(b2.name) && (!b.name_is_content
        || role == ROLE_SYSTEM_TABLE) && label_shown)
    &&& b.ia2_text_is_unneeded_space == (match b.ia2_text {
        Some(t) => unneeded_space(t@, b2.is_editable),
        None => false,
    })
    &&& b.is_visible == !b.is_aria_hidden
    &&& b.render_selected_item_only == (!b.is_aria_hidden && ((role == ROLE_SYSTEM_LIST && b2.states
        & STATE_SYSTEM_READONLY == 0) || role == ROLE_SYSTEM_OUTLINE))
    &&& b.render_children == (b.is_aria_hidden || !(b.ia2_text_is_unneeded_space || role
        == ROLE_SYSTEM_COMBOBOX || b.render_selected_item_only || b2.is_embedded_app || role
        == ROLE_SYSTEM_EQUATION || (b.name_is_content && b.name_is_explicit)))
}

/// Builds the `Block3State` of an object from its role, attributes, its
/// `Block2State`, child count, label (when looked up) and IA2 text.
pub fn block3_state(
    role: i32,
    map: &AttribMap,
    b2: &Block2State,
    child_count: i32,
    label: Option<LabelInfo>,
    ia2_text: Option<Vec<u16>>,
) -> (b: Block3State)
    ensures
        block3_flags_hold(b, role, map@, *b2, child_count, label),
        b.ia2_text == ia2_text,
{
    let is_aria_hidden = has_aria_hidden_attribute(map);
    let is_img_map = role == ROLE_SYSTEM_GRAPHIC && child_count > 0;
    let name_is_explicit = match map.get("explicit-name") {
        Some(v) => str_eq(v.as_str(), "true"),
        None => false,
    };
    let is_label_visible = match &label {
        Some(l) => l.is_visible,
        None => false,
    };
    let label_id = match &label {
        Some(l) => l.id,
        None => None,
    };
    let name_is_content = b2.is_embedded_app || role == ROLE_SYSTEM_LINK || role
        == ROLE_SYSTEM_PUSHBUTTON || role == IA2_ROLE_TOGGLE_BUTTON || role == ROLE_SYSTEM_MENUITEM
        || (role == ROLE_SYSTEM_GRAPHIC && !is_img_map) || (role == ROLE_SYSTEM_TEXT
        && !b2.is_editable) || role == IA2_ROLE_HEADING || role == ROLE_SYSTEM_PAGETAB || role
        == ROLE_SYSTEM_BUTTONMENU || ((role == ROLE_SYSTEM_CHECKBUTTON || role
        == ROLE_SYSTEM_RADIOBUTTON) && !is_label_visible);
    let name_present_nonempty = match &b2.name {
        Some(n) => n.len() > 0,
        None => false,
    };
    let label_visible = name_is_explicit && name_present_nonempty && (!name_is_content || role
        == ROLE_SYSTEM_TABLE) && is_label_visible;
    let ia2_text_is_unneeded_space = match &ia2_text {
        Some(t) => text_is_unneeded_space(t.as_slice(), b2.is_editable),
        None => false,
    };
    let mut is_visible = true;
    let mut render_children = true;
    let mut render_selected_item_only = false;
    if is_aria_hidden {
        is_visible = false;
    } else {
        let is_interactive_list = role == ROLE_SYSTEM_LIST && (b2.states & STATE_SYSTEM_READONLY)
            == 0;
        if is_interactive_list || role == ROLE_SYSTEM_OUTLINE {
            render_selected_item_only = true;
        }
        if ia2_text_is_unneeded_space || role == ROLE_SYSTEM_COMBOBOX || render_selected_item_only
            || b2.is_embedded_app || role == ROLE_SYSTEM_EQUATION || (name_is_content
            && name_is_explicit) {
            render_children = false;
        }
    }
    Block3State {
        is_aria_hidden,
        child_count,
        is_img_map,
        name_is_explicit,
        name_is_content,
        label_visible,
        label_id,
        ia2_text,
        ia2_text_is_unneeded_space,
        is_visible,
        render_children,
        render_selected_item_only,
    }
}

/// An explicit name that is not rendered as content and not visible
/// elsewhere (outside tables) is always reported.
pub fn needs_always_report_name(role: i32, b3: &Block3State) -> (b: bool)
    ensures
        b == (b3.name_is_explicit && !b3.name_is_content && role != ROLE_SYSTEM_TABLE
            && !b3.label_visible),
{
    b3.name_is_explicit && !b3.name_is_content && role != ROLE_SYSTEM_TABLE && !b3.label_visible
}

/// An action named `click` or `showlongdesc` makes an object interactive,
/// unless it can never be.
pub open spec fn interactive_action(never_interactive: bool, action_name: Seq<u16>) -> bool {
    !never_interactive && (action_name == widened_bytes("click".spec_bytes()) || action_name
        == widened_bytes("showlongdesc".spec_bytes()))
}

/// Whether the action `action_name` makes the object interactive (see
/// `interactive_action`).
pub fn action_makes_interactive(b2: &Block2State, action_name: &[u16]) -> (b: bool)
    ensures
        b == interactive_action(b2.is_never_interactive, action_name@),
{
    !b2.is_never_interactive && (slice_eq(action_name, "click") || slice_eq(
        action_name,
        "showlongdesc",
    ))
}

/// The name of the attribute that records an action's index:
/// `IAccessibleAction_` and the action's name.
pub open spec fn action_attribute_name(action_name: Seq<u16>) -> Seq<u16> {
    widened_bytes("IAccessibleAction_".spec_bytes()) + action_name
}

/// The attributes that an object's actions give it, in order: for each
/// action whose name could be read (`Some`), its attribute name and its
/// index in decimal.
pub open spec fn action_attributes_of(names: Seq<Option<Seq<u16>>>) -> Seq<(Seq<u16>, Seq<u16>)>
    decreases names.len(),
{
    if names.len() == 0 {
        Seq::empty()
    } else {
        let before = action_attributes_of(names.drop_last());
        match names.last() {
            Some(n) => before.push((action_attribute_name(n), decimal(names.len() - 1))),
            None => before,
        }
    }
}

/// An action whose name could be read and makes the object interactive.
pub open spec fn interactive_entry(never_interactive: bool, name: Option<Seq<u16>>) -> bool {
    match name {
        Some(n) => interactive_action(never_interactive, n),
        None => false,
    }
}

/// Some action whose name could be read makes the object interactive.
pub open spec fn some_action_interactive(never_interactive: bool, names: Seq<Option<Seq<u16>>>) -> bool {
    exists|i: int| 0 <= i < names.len() && #[trigger] interactive_entry(never_interactive, names[i])
}

/// The names of a list of actions, by their units.
pub open spec fn action_name_views(names: Seq<Option<Vec<u16>>>) -> Seq<Option<Seq<u16>>> {
    names.map_values(
        |n: Option<Vec<u16>>|
            match n {
                Some(v) => Some(v@),
                None => None,
            },
    )
}

/// Walks an object's actions, given by their names in index order (`None`
/// where a name could not be read): the `IAccessibleAction_<name>`
/// attributes with each action's index, and whether the object is
/// interactive afterwards (it was, or one of the actions makes it so).
pub fn action_attributes(b2: &Block2State, names: &[Option<Vec<u16>>]) -> (result: (
    Vec<(Vec<u16>, Vec<u16>)>,
    bool,
))
    requires
        names@.len() <= i32::MAX,
    ensures
        result.0@.len() == action_attributes_of(action_name_views(names@)).len(),
        forall|i: int|
            0 <= i < result.0@.len() ==> ((#[trigger] result.0@[i]).0@, result.0@[i].1@)
                == action_attributes_of(action_name_views(names@))[i],
        result.1 == (b2.is_interactive || some_action_interactive(
            b2.is_never_interactive,
            action_name_views(names@),
        )),
{
    let ghost views = action_name_views(names@);
    let prefix_text = "IAccessibleAction_";
    proof {
        reveal_strlit("IAccessibleAction_");
    }
    assert(vstd::string::is_ascii(prefix_text));
    let prefix = crate::wide::ascii_utf16(prefix_text);
    let mut attrs: Vec<(Vec<u16>, Vec<u16>)> = Vec::new();
    let mut interactive = b2.is_interactive;
    let mut k: usize = 0;
    while k < names.len()
        invariant
            k <= names@.len() <= i32::MAX,
            views == action_name_views(names@),
            prefix@ == widened_bytes("IAccessibleAction_".spec_bytes()),
            attrs@.len() == action_attributes_of(views.take(k as int)).len(),
            forall|i: int|
                0 <= i < attrs@.len() ==> ((#[trigger] attrs@[i]).0@, attrs@[i].1@)
                    == action_attributes_of(views.take(k as int))[i],
            interactive == (b2.is_interactive || some_action_interactive(
                b2.is_never_interactive,
                views.take(k as int),
            )),
        decreases names@.len() - k,
    {
        let ghost next = views.take(k + 1);
        proof {
            assert(next.drop_last() =~= views.take(k as int));
            assert(next.last() == views[k as int]);
        }
        match &names[k] {
            Some(name) => {
                let mut attr_name: Vec<u16> = Vec::new();
                append_units(&mut attr_name, prefix.as_slice());
                append_units(&mut attr_name, name.as_slice());
                let index = dec(k as i32);
                attrs.push((attr_name, index));
                if action_makes_interactive(b2, name.as_slice()) {
                    interactive = true;
                }
                proof {
                    assert(views[k as int] == Some(name@));
                    assert(next[k as int] == Some(name@));
                    assert(interactive_entry(b2.is_never_interactive, next[k as int]) == interactive_action(
                        b2.is_never_interactive,
                        name@,
                    ));
                }
            },
            None => {},
        }
        proof {
            if some_action_interactive(b2.is_never_interactive, next) {
                let i = choose|i: int|
                    0 <= i < next.len() && #[trigger] interactive_entry(b2.is_never_interactive, next[i]);
                if i < k {
                    assert(views.take(k as int)[i] == next[i]);
                }
            }
            if some_action_interactive(b2.is_never_interactive, views.take(k as int)) {
                let i = choose|i: int|
                    0 <= i < k && #[trigger] interactive_entry(
                        b2.is_never_interactive,
                        views.take(k as int)[i],
                    );
                assert(next[i] == views.take(k as int)[i]);
            }
        }
        k += 1;
    }
    assert(views.take(k as int) =~= views);
    (attrs, interactive)
}

/// How a table found while rendering an object passes to its children.
#[derive(Debug, Clone, Copy, PartialEq, Eq, Structural)]
pub enum TablePropagation {
    /// The children see the table the object is in.
    Inherit,
    /// The object is a cell: its descendants are in no table.
    Clear,
    /// The object is a table with rows or columns: its children are in it.
    Promoted,
}

/// The propagation for an object: a promoted table wins over a cell.
pub fn table_propagation(promoted: bool, cell_cleared: bool) -> (p: TablePropagation)
    ensures
        promoted ==> p == TablePropagation::Promoted,
        !promoted && cell_cleared ==> p == TablePropagation::Clear,
        !promoted && !cell_cleared ==> p == TablePropagation::Inherit,
{
    if promoted {
        TablePropagation::Promoted
    } else if cell_cleared {
        TablePropagation::Clear
    } else {
        TablePropagation::Inherit
    }
}

/// A new table is promoted to its children when it reports rows or
/// columns (a failed count counts as none).
pub fn table_is_promoted(row_count: Option<i32>, column_count: Option<i32>) -> (b: bool)
    ensures
        b == ((row_count matches Some(r) && r > 0) || (column_count matches Some(c) && c > 0)),
{
    let rows = match row_count {
        Some(r) => r,
        None => 0,
    };
    let columns = match column_count {
        Some(c) => c,
        None => 0,
    };
    rows > 0 || columns > 0
}

/// The text rendered as a table's summary: its description when the
/// table is visible and the description is not empty, else its name when
/// that is not empty and no visible label shows it.
pub fn table_summary<'a>(b2: &'a Block2State, b3: &Block3State) -> (summary: Option<&'a Vec<u16>>)
    ensures
        (b3.is_visible && has_nonempty(b2.description)) ==> (summary matches Some(s)
            && b2.description == Some(*s)),
        !(b3.is_visible && has_nonempty(b2.description)) && has_nonempty(b2.name)
            && !b3.label_visible ==> (summary matches Some(s) && b2.name == Some(*s)),
        !(b3.is_visible && has_nonempty(b2.description)) && !(has_nonempty(b2.name)
            && !b3.label_visible) ==> summary is None,
{
    let description_nonempty = match &b2.description {
        Some(d) => d.len() > 0,
        None => false,
    };
    let name_nonempty = match &b2.name {
        Some(n) => n.len() > 0,
        None => false,
    };
    if b3.is_visible && description_nonempty {
        b2.description.as_ref()
    } else if name_nonempty && !b3.label_visible {
        b2.name.as_ref()
    } else {
        None
    }
}

/// Flags set on an object inside a table that is tracked:
/// `(deny_reuse_if_previous_siblings_changed, requires_parent_update,
/// always_rerender_children)`. Rows and row groups (not cells) make their
/// parent update and rerender their children; anything but a row
/// requires a parent update.
pub fn parent_table_flags(in_parent_table: bool, is_cell: bool, role: i32) -> (flags: (
    bool,
    bool,
    bool,
))
    ensures
        flags.0 == in_parent_table,
        flags.1 == (in_parent_table && !is_cell && role != ROLE_SYSTEM_ROW),
        flags.2 == (in_parent_table && !is_cell),
{
    (in_parent_table, in_parent_table && !is_cell && role != ROLE_SYSTEM_ROW, in_parent_table
        && !is_cell)
}

/// The roles that get a single space and become inline when empty.
pub fn is_table_cell_role(role: i32) -> (b: bool)
    ensures
        b == (role == ROLE_SYSTEM_CELL || role == ROLE_SYSTEM_ROWHEADER || role
            == ROLE_SYSTEM_COLUMNHEADER || role == IA2_ROLE_UNKNOWN),
{
    role == ROLE_SYSTEM_CELL || role == ROLE_SYSTEM_ROWHEADER || role == ROLE_SYSTEM_COLUMNHEADER
        || role == IA2_ROLE_UNKNOWN
}

/// An object that is not editable, whose name serves as content (or that
/// is a section or text frame), and that rendered nothing useful, gets
/// its name (or a link's URL name) as content.
pub fn needs_content_rescue(b2: &Block2State, b3: &Block3State, role: i32, has_useful_content: bool) -> (b:
    bool)
    ensures
        b == (!b2.is_editable && (b3.name_is_content || role == IA2_ROLE_SECTION || role
            == IA2_ROLE_TEXT_FRAME) && !has_useful_content),
{
    !b2.is_editable && (b3.name_is_content || role == IA2_ROLE_SECTION || role
        == IA2_ROLE_TEXT_FRAME) && !has_useful_content
}

/// An empty object that is interactive, a separator, or has a non-empty
/// name or description gets a single space so that it can be reached.
pub fn needs_empty_filler(b2: &Block2State, role: i32, rendered_length: i32) -> (b: bool)
    ensures
        b == ((b2.is_interactive || role == ROLE_SYSTEM_SEPARATOR || has_nonempty(b2.name)
            || has_nonempty(b2.description)) && rendered_length == 0),
{
    let has_name = match &b2.name {
        Some(n) => n.len() > 0,
        None => false,
    };
    let has_description = match &b2.description {
        Some(d) => d.len() > 0,
        None => false,
    };
    (b2.is_interactive || role == ROLE_SYSTEM_SEPARATOR || has_name || has_description)
        && rendered_length == 0
}

} // verus!
