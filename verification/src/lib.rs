//! Verified core logic of the mew desktop shell.
pub mod text;
pub mod cursor;
pub mod file_tree;
pub mod markdown;
pub mod markdown_parse;
pub mod markdown_blocks;
pub mod events;
pub mod model;
pub mod labels;
pub mod commands;
pub mod browser;
pub mod order;
pub mod mention;
pub mod sessions;
pub mod history;
pub mod layout;
pub mod sidebar;
pub mod tools;
pub mod transcript;
pub mod paths;
pub mod icons;
pub mod choices;
pub mod composer;
pub mod text_field;
pub mod workspace;
pub mod attachments;
pub mod highlights;
pub mod markdown_cache;
pub mod connection;
pub mod rename;
pub mod center;
pub mod updates;
pub mod view_states;
pub mod workbench;
pub mod popovers;
