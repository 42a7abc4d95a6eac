//! Verified state and layout logic of a family of terminal widgets: data
//! tables, footers, headers, key/help panels, links, list items and digit
//! displays, together with the small event/message model they react to.

pub mod cells;
pub mod style;
pub mod text;
pub mod widget_core;
pub mod event;
pub mod scroll;
pub mod data_table;
pub mod footer;
pub mod header;
pub mod key_panel;
pub mod help_panel;
pub mod link;
pub mod list_item;
pub mod digits;
pub mod validation;
pub mod text_edit;
pub mod input;
pub mod input_render;
pub mod layout;
pub mod helpers;
pub mod content_box;
pub mod directory_tree;
pub mod border;
