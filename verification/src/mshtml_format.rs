//! The HTML attributes the MSHTML buffer reads from an element, and the
//! formatting attributes that a text node takes from its element's
//! current style.

use crate::mshtml::{html_key, html_key_of, Attribs};
use crate::search::{find_subslice, first_occurrence, lemma_first_occurrence, starts_with_seq, units_start_with};
use crate::wide::{append_units, dec, decimal, eq_ic, eq_ic_spec, push_decimal_digits, utf16, utf16_encode};
use vstd::prelude::*;

verus! {

/// The attributes common to every element that are read before the
/// element-specific ones.
pub open spec fn leading_reads() -> Seq<(Seq<char>, bool)> {
    seq![("id"@, false)]
}

/// The element-specific attributes read for an element by its name.
pub open spec fn specific_reads(node_name: Seq<u16>) -> Seq<(Seq<char>, bool)> {
    if node_name == utf16_encode("TABLE"@) {
        seq![("summary"@, false)]
    } else if node_name == utf16_encode("A"@) {
        seq![("href"@, true)]
    } else if node_name == utf16_encode("INPUT"@) {
        seq![("type"@, false), ("value"@, false)]
    } else if node_name == utf16_encode("TD"@) || node_name == utf16_encode("TH"@) {
        seq![("headers"@, false), ("colspan"@, false), ("rowspan"@, false), ("scope"@, false)]
    } else if node_name == utf16_encode("OL"@) {
        seq![("start"@, false)]
    } else {
        Seq::empty()
    }
}

/// The attributes read for every element after the specific ones.
pub open spec fn trailing_reads() -> Seq<(Seq<char>, bool)> {
    seq![
        ("longdesc"@, false),
        ("alt"@, true),
        ("title"@, false),
        ("src"@, false),
        ("onclick"@, false),
        ("onmousedown"@, false),
        ("onmouseup"@, false),
        ("required"@, false),
        ("class"@, true),
        ("role"@, false),
        ("aria-roledescription"@, false),
        ("aria-valuenow"@, false),
        ("aria-sort"@, false),
        ("aria-labelledby"@, false),
        ("aria-describedby"@, false),
        ("aria-expanded"@, false),
        ("aria-selected"@, false),
        ("aria-level"@, false),
        ("aria-required"@, false),
        ("aria-dropeffect"@, false),
        ("aria-grabbed"@, false),
        ("aria-invalid"@, false),
        ("aria-multiline"@, false),
        ("aria-label"@, false),
        ("aria-hidden"@, false),
        ("aria-live"@, false),
        ("aria-relevant"@, false),
        ("aria-busy"@, false),
        ("aria-atomic"@, false),
        ("aria-current"@, false),
        ("aria-placeholder"@, false),
    ]
}

/// The views of a list of attribute reads.
pub open spec fn read_views(reads: Seq<(&'static str, bool)>) -> Seq<(Seq<char>, bool)> {
    reads.map_values(|r: (&'static str, bool)| (r.0@, r.1))
}

fn push_read(reads: &mut Vec<(&'static str, bool)>, name: &'static str, allow_empty: bool)
    ensures
        read_views(final(reads)@) == read_views(old(reads)@).push((name@, allow_empty)),
{
    reads.push((name, allow_empty));
    assert(read_views(final(reads)@) =~= read_views(old(reads)@).push((name@, allow_empty)));
}

/// The attributes read from every element after the specific ones.
fn trailing_read_list() -> (reads: Vec<(&'static str, bool)>)
    ensures
        read_views(reads@) == trailing_reads(),
{
    let reads = vec![
        ("longdesc", false),
        ("alt", true),
        ("title", false),
        ("src", false),
        ("onclick", false),
        ("onmousedown", false),
        ("onmouseup", false),
        ("required", false),
        ("class", true),
        ("role", false),
        ("aria-roledescription", false),
        ("aria-valuenow", false),
        ("aria-sort", false),
        ("aria-labelledby", false),
        ("aria-describedby", false),
        ("aria-expanded", false),
        ("aria-selected", false),
        ("aria-level", false),
        ("aria-required", false),
        ("aria-dropeffect", false),
        ("aria-grabbed", false),
        ("aria-invalid", false),
        ("aria-multiline", false),
        ("aria-label", false),
        ("aria-hidden", false),
        ("aria-live", false),
        ("aria-relevant", false),
        ("aria-busy", false),
        ("aria-atomic", false),
        ("aria-current", false),
        ("aria-placeholder", false),
    ];
    assert(read_views(reads@) =~= trailing_reads());
    reads
}

/// The attributes to read from an element with this (upper-case) name,
/// in order, each with whether an empty value is kept.
pub fn attributes_to_read(node_name: &[u16]) -> (reads: Vec<(&'static str, bool)>)
    ensures
        read_views(reads@) == leading_reads() + specific_reads(node_name@) + trailing_reads(),
{
    let mut reads: Vec<(&'static str, bool)> = Vec::new();
    push_read(&mut reads, "id", false);
    let ghost lead = read_views(reads@);
    if crate::wide::weq(node_name, "TABLE") {
        push_read(&mut reads, "summary", false);
    } else if crate::wide::weq(node_name, "A") {
        push_read(&mut reads, "href", true);
    } else if crate::wide::weq(node_name, "INPUT") {
        push_read(&mut reads, "type", false);
        push_read(&mut reads, "value", false);
    } else if crate::wide::weq(node_name, "TD") || crate::wide::weq(node_name, "TH") {
        push_read(&mut reads, "headers", false);
        push_read(&mut reads, "colspan", false);
        push_read(&mut reads, "rowspan", false);
        push_read(&mut reads, "scope", false);
    } else if crate::wide::weq(node_name, "OL") {
        push_read(&mut reads, "start", false);
    }
    let ghost mid = read_views(reads@);
    assert(mid =~= leading_reads() + specific_reads(node_name@));
    let trailing = trailing_read_list();
    let mut k: usize = 0;
    while k < trailing.len()
        invariant
            k <= trailing@.len(),
            read_views(trailing@) == trailing_reads(),
            read_views(reads@) == mid + read_views(trailing@).take(k as int),
        decreases trailing@.len() - k,
    {
        let (name, allow_empty) = trailing[k];
        push_read(&mut reads, name, allow_empty);
        assert(read_views(trailing@).take(k + 1) =~= read_views(trailing@).take(k as int).push(
            (name@, allow_empty),
        ));
        k += 1;
    }
    assert(read_views(trailing@).take(k as int) =~= trailing_reads());
    reads
}

/// What reading one attribute gave back.
pub enum AttributeValue {
    /// A string.
    Text(Vec<u16>),
    /// A short or long integer.
    Number(i32),
    /// No value, a null string, or a value of another kind.
    Absent,
}

/// The text that an attribute value is kept as, if it is kept: a string
/// when it is not empty or empty values are kept, a number in decimal.
pub open spec fn kept_value(value: AttributeValue, allow_empty: bool) -> Option<Seq<u16>> {
    match value {
        AttributeValue::Text(t) => if allow_empty || t@.len() > 0 {
            Some(t@)
        } else {
            None
        },
        AttributeValue::Number(n) => Some(decimal(n as int)),
        AttributeValue::Absent => None,
    }
}

/// Stores the value read for the attribute `name` under
/// `HTMLAttrib::<name>`, as `kept_value` says.
pub fn add_html_attribute(attribs: &mut Attribs, name: &str, value: AttributeValue, allow_empty: bool)
    ensures
        final(attribs)@.dom() == (match kept_value(value, allow_empty) {
            Some(_) => old(attribs)@.dom().insert(html_key_of(name@)),
            None => old(attribs)@.dom(),
        }),
        forall|k: Seq<u16>| #[trigger]
            final(attribs)@.contains_key(k) ==> (if k == html_key_of(name@) && kept_value(
                value,
                allow_empty,
            ) is Some {
                final(attribs)@[k]@ == kept_value(value, allow_empty).unwrap()
            } else {
                final(attribs)@[k] == old(attribs)@[k]
            }),
{
    match value {
        AttributeValue::Text(t) => {
            if allow_empty || t.len() > 0 {
                attribs.insert(html_key(name), t);
            }
        },
        AttributeValue::Number(n) => {
            attribs.insert(html_key(name), dec(n));
        },
        AttributeValue::Absent => {},
    }
}

/// A `src` value with the payload of an inline base64 `data:` URL cut
/// out: one that starts with `data:` and holds `base64,` keeps what comes
/// up to and including the first `base64,`, then `<truncated>`.
pub open spec fn src_truncated(src: Seq<u16>) -> Seq<u16> {
    if starts_with_seq(src, utf16_encode("data:"@)) {
        match first_occurrence(src, utf16_encode("base64,"@)) {
            Some(p) => src.take(p + utf16_encode("base64,"@).len()) + utf16_encode(
                "<truncated>"@,
            ),
            None => src,
        }
    } else {
        src
    }
}

/// Cuts the payload of an inline base64 `data:` URL out of the `src`
/// attribute; other attributes stay as they are.
pub fn truncate_src_data(attribs: &mut Attribs)
    ensures
        final(attribs)@.dom() == old(attribs)@.dom(),
        forall|k: Seq<u16>| #[trigger]
            final(attribs)@.contains_key(k) ==> (if k == html_key_of("src"@) {
                final(attribs)@[k]@ == src_truncated(old(attribs)@[k]@)
            } else {
                final(attribs)@[k] == old(attribs)@[k]
            }),
{
    let key = html_key("src");
    let src: Vec<u16> = match attribs.get(&key) {
        Some(v) => {
            let mut copy: Vec<u16> = Vec::new();
            append_units(&mut copy, v.as_slice());
            copy
        },
        None => {
            assert(old(attribs)@.dom() =~= final(attribs)@.dom());
            return;
        },
    };
    let prefix = utf16("data:");
    if !units_start_with(src.as_slice(), prefix.as_slice()) {
        assert(old(attribs)@.dom() =~= final(attribs)@.dom());
        return;
    }
    let marker = utf16("base64,");
    proof {
        lemma_first_occurrence(src@, marker@);
    }
    match find_subslice(src.as_slice(), marker.as_slice()) {
        Some(pos) => {
            assert(crate::search::occurs_at(src@, marker@, pos as int));
            let src_len = src.len();
            assert(pos + marker@.len() <= src_len);
            let end = pos + marker.len();
            let mut value: Vec<u16> = Vec::new();
            let mut i: usize = 0;
            while i < end
                invariant
                    i <= end <= src@.len(),
                    value@ == src@.take(i as int),
                decreases end - i,
            {
                value.push(src[i]);
                assert(src@.take(i + 1) =~= src@.take(i as int).push(src@[i as int]));
                i += 1;
            }
            let tail = utf16("<truncated>");
            append_units(&mut value, tail.as_slice());
            let ghost before = attribs@;
            attribs.insert(key, value);
            assert(before.dom().insert(html_key_of("src"@)) =~= before.dom());
        },
        None => {
            assert(old(attribs)@.dom() =~= final(attribs)@.dom());
        },
    }
}

/// The space-separated words of a text, as the scan that collects them
/// sees it: the words finished so far and the one being read.
pub open spec fn word_scan(s: Seq<u16>) -> (Seq<Seq<u16>>, Seq<u16>)
    decreases s.len(),
{
    if s.len() == 0 {
        (Seq::empty(), Seq::empty())
    } else {
        let (done, cur) = word_scan(s.drop_last());
        if s.last() == 0x20 {
            if cur.len() > 0 {
                (done.push(cur), Seq::empty())
            } else {
                (done, Seq::empty())
            }
        } else {
            (done, cur.push(s.last()))
        }
    }
}

/// The non-empty space-separated words of a text, in order.
pub open spec fn space_words(s: Seq<u16>) -> Seq<Seq<u16>> {
    let (done, cur) = word_scan(s);
    if cur.len() > 0 {
        done.push(cur)
    } else {
        done
    }
}

/// An element's current style, each value `None` where it could not be
/// read (or was not a string, or for the weight not an integer).
pub struct StyleValues {
    pub text_align: Option<Vec<u16>>,
    pub font_size: Option<Vec<u16>>,
    pub vertical_align: Option<Vec<u16>>,
    pub font_family: Option<Vec<u16>>,
    pub font_style: Option<Vec<u16>>,
    pub font_weight: Option<i32>,
    pub text_decoration: Option<Vec<u16>>,
}

/// An attribute with this name and value.
pub open spec fn pair(name: Seq<char>, value: Seq<u16>) -> Seq<(Seq<u16>, Seq<u16>)> {
    seq![(utf16_encode(name), value)]
}

/// An attribute from a string value that is present and not empty.
pub open spec fn nonempty_attr(name: Seq<char>, value: Option<Vec<u16>>) -> Seq<(Seq<u16>, Seq<u16>)> {
    match value {
        Some(v) => if v@.len() > 0 {
            pair(name, v@)
        } else {
            Seq::empty()
        },
        None => Seq::empty(),
    }
}

/// An attribute from a value that is present.
pub open spec fn present_attr(name: Seq<char>, value: Option<Vec<u16>>) -> Seq<(Seq<u16>, Seq<u16>)> {
    match value {
        Some(v) => pair(name, v@),
        None => Seq::empty(),
    }
}

/// The flag that a font style sets: none for `normal`, `italic` for
/// `oblique`, else the style itself (matched ignoring ASCII case).
pub open spec fn font_style_attr(value: Option<Vec<u16>>) -> Seq<(Seq<u16>, Seq<u16>)> {
    match value {
        Some(v) => if v@.len() == 0 || eq_ic_spec(v@, "normal") {
            Seq::empty()
        } else if eq_ic_spec(v@, "oblique") {
            pair("italic"@, utf16_encode("1"@))
        } else {
            seq![(v@, utf16_encode("1"@))]
        },
        None => Seq::empty(),
    }
}

/// The flag that one word of a text decoration sets: `strikethrough` for
/// `line-through`, else the word itself.
pub open spec fn decoration_flag(word: Seq<u16>) -> (Seq<u16>, Seq<u16>) {
    if eq_ic_spec(word, "line-through") {
        (utf16_encode("strikethrough"@), utf16_encode("1"@))
    } else {
        (word, utf16_encode("1"@))
    }
}

/// The flags that a text decoration sets: one per word, none for `none`.
pub open spec fn decoration_attrs(value: Option<Vec<u16>>) -> Seq<(Seq<u16>, Seq<u16>)> {
    match value {
        Some(v) => if v@.len() == 0 || eq_ic_spec(v@, "none") {
            Seq::empty()
        } else {
            space_words(v@).map_values(|w: Seq<u16>| decoration_flag(w))
        },
        None => Seq::empty(),
    }
}

/// The formatting attributes of a text node, in order: its language when
/// not empty, its format state, then from its element's style (when that
/// could be read) the alignment, size, position, family, style, bold for
/// a weight of at least 700, and decorations.
pub open spec fn formatting_attributes(language: Seq<u16>, format_state: u32, style: Option<StyleValues>) -> Seq<(Seq<u16>, Seq<u16>)> {
    (if language.len() > 0 {
        pair("language"@, language)
    } else {
        Seq::empty()
    }) + pair("formatState"@, decimal(format_state as int)) + match style {
        None => Seq::empty(),
        Some(st) => style_part(st),
    }
}

/// The view of a list of attributes.
pub open spec fn pair_views(attrs: Seq<(Vec<u16>, Vec<u16>)>) -> Seq<(Seq<u16>, Seq<u16>)> {
    attrs.map_values(|a: (Vec<u16>, Vec<u16>)| (a.0@, a.1@))
}

fn copy_units(units: &[u16]) -> (copy: Vec<u16>)
    ensures
        copy@ == units@,
{
    let mut copy: Vec<u16> = Vec::new();
    append_units(&mut copy, units);
    copy
}

fn push_attr(attrs: &mut Vec<(Vec<u16>, Vec<u16>)>, name: Vec<u16>, value: Vec<u16>)
    ensures
        pair_views(final(attrs)@) == pair_views(old(attrs)@).push((name@, value@)),
{
    attrs.push((name, value));
    assert(pair_views(final(attrs)@) =~= pair_views(old(attrs)@).push((name@, value@)));
}

/// The decoration flags for the words of `text`.
fn decoration_flags(attrs: &mut Vec<(Vec<u16>, Vec<u16>)>, text: &[u16])
    ensures
        pair_views(final(attrs)@) == pair_views(old(attrs)@) + space_words(text@).map_values(
            |w: Seq<u16>| decoration_flag(w),
        ),
{
    let ghost before = pair_views(attrs@);
    let mut words: Vec<Vec<u16>> = Vec::new();
    let mut cur: Vec<u16> = Vec::new();
    let mut k: usize = 0;
    while k < text.len()
        invariant
            k <= text@.len(),
            word_scan(text@.take(k as int)) == (words@.map_values(|w: Vec<u16>| w@), cur@),
        decreases text@.len() - k,
    {
        proof {
            assert(text@.take(k + 1).drop_last() =~= text@.take(k as int));
            assert(text@.take(k + 1).last() == text@[k as int]);
        }
        if text[k] == 0x20 {
            if cur.len() > 0 {
                let ghost old_words = words@;
                let finished = cur;
                words.push(finished);
                cur = Vec::new();
                assert(words@.map_values(|w: Vec<u16>| w@) =~= old_words.map_values(
                    |w: Vec<u16>| w@,
                ).push(finished@));
            } else {
                cur = Vec::new();
            }
        } else {
            cur.push(text[k]);
        }
        k += 1;
    }
    assert(text@.take(k as int) =~= text@);
    if cur.len() > 0 {
        let ghost old_words = words@;
        let last = cur;
        words.push(last);
        assert(words@.map_values(|w: Vec<u16>| w@) =~= old_words.map_values(|w: Vec<u16>| w@).push(
            last@,
        ));
    }
    let ghost all = words@.map_values(|w: Vec<u16>| w@);
    assert(all == space_words(text@));
    let mut j: usize = 0;
    while j < words.len()
        invariant
            j <= words@.len(),
            all == words@.map_values(|w: Vec<u16>| w@),
            pair_views(attrs@) == before + all.take(j as int).map_values(
                |w: Seq<u16>| decoration_flag(w),
            ),
        decreases words@.len() - j,
    {
        let word = &words[j];
        if eq_ic(word.as_slice(), "line-through") {
            push_attr(attrs, utf16("strikethrough"), utf16("1"));
        } else {
            push_attr(attrs, copy_units(word.as_slice()), utf16("1"));
        }
        assert(all.take(j + 1).map_values(|w: Seq<u16>| decoration_flag(w)) =~= all.take(
            j as int,
        ).map_values(|w: Seq<u16>| decoration_flag(w)).push(decoration_flag(all[j as int])));
        j += 1;
    }
    assert(all.take(j as int) =~= all);
}

/// The attributes after the format state: those from the element's style.
pub open spec fn style_part(st: StyleValues) -> Seq<(Seq<u16>, Seq<u16>)> {
    nonempty_attr("text-align"@, st.text_align) + present_attr("font-size"@, st.font_size)
        + present_attr("text-position"@, st.vertical_align) + nonempty_attr(
        "font-family"@,
        st.font_family,
    ) + font_style_attr(st.font_style) + (if st.font_weight matches Some(w) && w >= 700 {
        pair("bold"@, utf16_encode("1"@))
    } else {
        Seq::empty()
    }) + decoration_attrs(st.text_decoration)
}

fn append_nonempty(attrs: &mut Vec<(Vec<u16>, Vec<u16>)>, name: &str, value: &Option<Vec<u16>>)
    ensures
        pair_views(final(attrs)@) == pair_views(old(attrs)@) + nonempty_attr(name@, *value),
{
    let ghost head = pair_views(attrs@);
    if let Some(v) = value {
        if v.len() > 0 {
            push_attr(attrs, utf16(name), copy_units(v.as_slice()));
        }
    }
    assert(pair_views(attrs@) =~= head + nonempty_attr(name@, *value));
}

fn append_present(attrs: &mut Vec<(Vec<u16>, Vec<u16>)>, name: &str, value: &Option<Vec<u16>>)
    ensures
        pair_views(final(attrs)@) == pair_views(old(attrs)@) + present_attr(name@, *value),
{
    let ghost head = pair_views(attrs@);
    if let Some(v) = value {
        push_attr(attrs, utf16(name), copy_units(v.as_slice()));
    }
    assert(pair_views(attrs@) =~= head + present_attr(name@, *value));
}

fn append_font_style(attrs: &mut Vec<(Vec<u16>, Vec<u16>)>, value: &Option<Vec<u16>>)
    ensures
        pair_views(final(attrs)@) == pair_views(old(attrs)@) + font_style_attr(*value),
{
    let ghost head = pair_views(attrs@);
    if let Some(v) = value {
        if v.len() > 0 && !eq_ic(v.as_slice(), "normal") {
            if eq_ic(v.as_slice(), "oblique") {
                push_attr(attrs, utf16("italic"), utf16("1"));
            } else {
                push_attr(attrs, copy_units(v.as_slice()), utf16("1"));
            }
        }
    }
    assert(pair_views(attrs@) =~= head + font_style_attr(*value));
}

fn append_bold(attrs: &mut Vec<(Vec<u16>, Vec<u16>)>, weight: Option<i32>)
    ensures
        pair_views(final(attrs)@) == pair_views(old(attrs)@) + (if weight matches Some(w) && w
            >= 700 {
            pair("bold"@, utf16_encode("1"@))
        } else {
            Seq::empty()
        }),
{
    let ghost head = pair_views(attrs@);
    if let Some(w) = weight {
        if w >= 700 {
            push_attr(attrs, utf16("bold"), utf16("1"));
        }
    }
    assert(pair_views(attrs@) =~= head + (if weight matches Some(w) && w >= 700 {
        pair("bold"@, utf16_encode("1"@))
    } else {
        Seq::empty()
    }));
}

fn append_decorations(attrs: &mut Vec<(Vec<u16>, Vec<u16>)>, value: &Option<Vec<u16>>)
    ensures
        pair_views(final(attrs)@) == pair_views(old(attrs)@) + decoration_attrs(*value),
{
    let ghost head = pair_views(attrs@);
    if let Some(v) = value {
        if v.len() > 0 && !eq_ic(v.as_slice(), "none") {
            decoration_flags(attrs, v.as_slice());
        }
    }
    assert(pair_views(attrs@) =~= head + decoration_attrs(*value));
}

fn style_attributes(attrs: &mut Vec<(Vec<u16>, Vec<u16>)>, st: &StyleValues)
    ensures
        pair_views(final(attrs)@) == pair_views(old(attrs)@) + style_part(*st),
{
    let ghost head = pair_views(attrs@);
    append_nonempty(attrs, "text-align", &st.text_align);
    append_present(attrs, "font-size", &st.font_size);
    append_present(attrs, "text-position", &st.vertical_align);
    append_nonempty(attrs, "font-family", &st.font_family);
    append_font_style(attrs, &st.font_style);
    append_bold(attrs, st.font_weight);
    append_decorations(attrs, &st.text_decoration);
    assert(pair_views(attrs@) =~= head + style_part(*st));
}

/// The formatting attributes of a text node from its language, its
/// format state and its element's current style (`None` when the style
/// could not be read).
pub fn text_formatting_attributes(language: &[u16], format_state: u32, style: Option<&StyleValues>) -> (attrs: Vec<(Vec<u16>, Vec<u16>)>)
    ensures
        pair_views(attrs@) == formatting_attributes(
            language@,
            format_state,
            match style {
                Some(s) => Some(*s),
                None => None,
            },
        ),
{
    let mut attrs: Vec<(Vec<u16>, Vec<u16>)> = Vec::new();
    if language.len() > 0 {
        push_attr(&mut attrs, utf16("language"), copy_units(language));
    }
    let mut state_text: Vec<u16> = Vec::new();
    push_decimal_digits(&mut state_text, format_state as u64);
    push_attr(&mut attrs, utf16("formatState"), state_text);
    let ghost head = pair_views(attrs@);
    assert(head =~= (if language@.len() > 0 {
        pair("language"@, language@)
    } else {
        Seq::empty()
    }) + pair("formatState"@, decimal(format_state as int)));
    match style {
        Some(st) => {
            style_attributes(&mut attrs, st);
        },
        None => {
            assert(pair_views(attrs@) =~= head + Seq::<(Seq<u16>, Seq<u16>)>::empty());
        },
    }
    attrs
}

} // verus!
