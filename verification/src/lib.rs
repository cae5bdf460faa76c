pub mod highlight;
pub mod keyboard_handler;
pub mod keys;
pub mod strings;
pub mod utf8_text;
pub mod text_tool;
pub mod number;
pub mod range;
pub mod position;
pub mod action;
pub mod buffer;
pub mod search;
pub mod selection;
pub mod shortcut;
pub mod text_area;
pub mod search_toolbar;
pub mod options;
pub mod syntax;
pub mod progress;
pub mod model;
pub mod event;
pub mod input;
pub mod render;
pub mod misc;
pub mod paths;
pub mod editor;
