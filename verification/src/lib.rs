pub mod sql_type;
pub mod text;
pub mod property_map;
pub mod mapping;
pub mod layout;
pub mod group_toolbar;
pub mod plot_error;
pub mod connection;
pub mod search;
pub mod command;
pub mod function;
pub mod signature;
pub mod catalog;
pub mod manifest;
pub mod toolbar;
pub mod font;
pub mod mapping_tree;
pub mod file_list;
pub mod columns;
pub mod source;
pub mod panes;
pub mod popover;
