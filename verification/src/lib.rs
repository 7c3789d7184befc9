//! The document and interaction logic of a spreadsheet application.

pub mod blob;
pub mod collections;
pub mod color;
pub mod document;
pub mod interchange;
pub mod layout;
pub mod structural;
pub mod text;
pub mod workbook_doc;
pub mod timestamps;
pub mod startup;
pub mod urls;
pub mod hub;
pub mod state;
pub mod hub_publish;
pub mod hub_link;
pub mod cloud;
pub mod files;
pub mod pixels;
pub mod sizes;
pub mod fitting;
pub mod sheet_layouts;
pub mod saving;
pub mod file_type;
pub mod default_prompt;
pub mod dropdown;
pub mod failures;
pub mod validation_dialog;
pub mod focus;
pub mod naming;
pub mod ai_settings;
pub mod ask_ai;
pub mod diff_report;
pub mod dialogs;
pub mod edit_buffer;
pub mod chrome;
pub mod terminal;
pub mod commands;
pub mod grid;
pub mod lua;
pub mod fonts;
pub mod caches;
pub mod window;
