//! Text, attribute and URL logic of NVDA's native helpers, with its
//! behaviour stated as Verus contracts.

pub mod white_space;
pub mod acrobat;
pub mod attribs;
pub mod html_node;
pub mod hwports;
pub mod ia2;
pub mod keyed_map;
pub mod lotus_notes;
pub mod mshtml;
pub mod mshtml_changes;
pub mod mshtml_format;
pub mod mshtml_live;
pub mod numbers;
pub mod onecore;
pub mod screen_curtain;
pub mod search;
pub mod segmentation;
pub mod strings;
pub mod table_layout;
pub mod tones;
pub mod url_name;
pub mod wide;
