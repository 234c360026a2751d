//! Model catalog view: browsing state enums and list layout helpers.

pub mod app;
pub mod render;
pub mod grouping;
pub mod glossary;
pub mod detail;
pub mod detail_panel;
pub mod identity;
pub mod list_view;
