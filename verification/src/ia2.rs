//! IAccessible2 virtual-buffer logic: attribute predicates, live regions,
//! rendering decisions and URL names.

pub mod details_roles;
pub mod gecko_backend_state;
pub mod hyperlink_getter;
pub mod leaf_content;
pub mod live_regions;
pub mod name_for_url;
pub mod navigation;
pub mod relations;
pub mod roles;
pub mod table_cell;
pub mod text_chunks;
pub mod text;
pub mod vbuf_rules;
pub mod webkit_render;
