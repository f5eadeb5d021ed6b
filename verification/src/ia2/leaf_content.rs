//! The content that an object which rendered no children gets: a
//! graphic's label, a space for an indeterminate progress bar, or the
//! object's value.

use crate::ia2::name_for_url::get_name_for_url;
use crate::ia2::vbuf_rules::{
    Block2State, Block3State, ROLE_SYSTEM_GRAPHIC, ROLE_SYSTEM_PROGRESSBAR,
    STATE_SYSTEM_INDETERMINATE,
};
use crate::url_name::name_for_url;
use crate::wide::{utf16, utf16_encode};
use vstd::prelude::*;

verus! {

/// What an object without rendered children shows.
pub enum LeafContent {
    /// A text node with this text.
    Text(Vec<u16>),
    /// A text node holding one space.
    Space,
    /// No text, and the object stops counting as interactive (an
    /// unlabelled graphic that is to be ignored).
    NotInteractive,
    /// Nothing.
    Nothing,
}

/// The URL-derived name of an unlabelled interactive graphic: from the
/// link's value when the graphic is inside a link, else from its `src`,
/// when that name is not empty.
pub open spec fn graphic_url_name(in_link: bool, value: Option<Seq<u16>>, src: Option<Seq<char>>) -> Option<Seq<u16>> {
    let url = if in_link {
        value
    } else {
        match src {
            Some(s) => Some(utf16_encode(s)),
            None => None,
        }
    };
    match url {
        Some(u) => {
            let name = name_for_url(u, true);
            if name.len() > 0 {
                Some(name)
            } else {
                None
            }
        },
        None => None,
    }
}

/// The view of a leaf content: the text of a text node, a space, or
/// nothing, with whether the object stops being interactive.
pub open spec fn leaf_view(c: LeafContent) -> (Option<Seq<u16>>, bool) {
    match c {
        LeafContent::Text(t) => (Some(t@), false),
        LeafContent::Space => (Some(seq![0x20u16]), false),
        LeafContent::NotInteractive => (None, true),
        LeafContent::Nothing => (None, false),
    }
}

/// The content of an object whose children did not render, by its role,
/// its name, value and `src`, and whether unlabelled graphics are to be
/// ignored here. A graphic shows its non-empty name; with an empty name,
/// or where unlabelled graphics are ignored, it stops being interactive;
/// an interactive unlabelled graphic shows the name of its URL. An
/// indeterminate progress bar shows a space. Any other object whose name
/// is not its content shows its value.
pub open spec fn leaf_outcome(
    role: i32,
    b2: Block2State,
    name_is_content: bool,
    value: Option<Seq<u16>>,
    src: Option<Seq<char>>,
    ignore_unlabelled_graphics: bool,
) -> (Option<Seq<u16>>, bool) {
    let name = match b2.name {
        Some(n) => Some(n@),
        None => None,
    };
    if role == ROLE_SYSTEM_GRAPHIC {
        if name matches Some(n) && n.len() > 0 {
            (name, false)
        } else if name matches Some(n) && n.len() == 0 || ignore_unlabelled_graphics {
            (None, true)
        } else if b2.is_interactive {
            (graphic_url_name(b2.in_link, value, src), false)
        } else {
            (None, false)
        }
    } else if role == ROLE_SYSTEM_PROGRESSBAR && b2.states & STATE_SYSTEM_INDETERMINATE != 0 {
        (Some(seq![0x20u16]), false)
    } else if !name_is_content {
        (value, false)
    } else {
        (None, false)
    }
}

fn copy_units(units: &[u16]) -> (copy: Vec<u16>)
    ensures
        copy@ == units@,
{
    let mut copy: Vec<u16> = Vec::new();
    crate::wide::append_units(&mut copy, units);
    copy
}

fn url_name_content(url: &[u16]) -> (content: LeafContent)
    ensures
        leaf_view(content) == (if name_for_url(url@, true).len() > 0 {
            Some(name_for_url(url@, true))
        } else {
            None
        }, false),
{
    let derived = get_name_for_url(url);
    if derived.len() > 0 {
        LeafContent::Text(derived)
    } else {
        LeafContent::Nothing
    }
}

/// What an object whose children did not render shows: its role, its
/// state from the second rendering stage, whether its name is its
/// content, its value, its `src` attribute, and whether unlabelled
/// graphics are ignored here.
pub fn leaf_content(
    role: i32,
    b2: &Block2State,
    b3: &Block3State,
    value: Option<&[u16]>,
    src: Option<&str>,
    ignore_unlabelled_graphics: bool,
) -> (content: LeafContent)
    ensures
        leaf_view(content) == leaf_outcome(
            role,
            *b2,
            b3.name_is_content,
            match value {
                Some(v) => Some(v@),
                None => None,
            },
            match src {
                Some(s) => Some(s@),
                None => None,
            },
            ignore_unlabelled_graphics,
        ),
{
    if role == ROLE_SYSTEM_GRAPHIC {
        match &b2.name {
            Some(n) => {
                if n.len() > 0 {
                    return LeafContent::Text(copy_units(n.as_slice()));
                }
                return LeafContent::NotInteractive;
            },
            None => {},
        }
        if ignore_unlabelled_graphics {
            return LeafContent::NotInteractive;
        }
        if !b2.is_interactive {
            return LeafContent::Nothing;
        }
        if b2.in_link {
            match value {
                Some(v) => url_name_content(v),
                None => LeafContent::Nothing,
            }
        } else {
            match src {
                Some(s) => {
                    let units = utf16(s);
                    url_name_content(units.as_slice())
                },
                None => LeafContent::Nothing,
            }
        }
    } else if role == ROLE_SYSTEM_PROGRESSBAR && (b2.states & STATE_SYSTEM_INDETERMINATE) != 0 {
        LeafContent::Space
    } else if !b3.name_is_content {
        match value {
            Some(v) => LeafContent::Text(copy_units(v)),
            None => LeafContent::Nothing,
        }
    } else {
        LeafContent::Nothing
    }
}

} // verus!
