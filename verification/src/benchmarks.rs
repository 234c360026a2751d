//! Benchmark leaderboard view: data model, browsing state and layout helpers.

pub mod schema;
pub mod compare;
pub mod radar;
pub mod render;
pub mod app;
pub mod glossary;
pub mod list_view;
pub mod creators_view;
pub mod h2h;
pub mod detail;
pub mod detail_lines;
pub mod bars;
pub mod pickers;
pub mod scatter;
