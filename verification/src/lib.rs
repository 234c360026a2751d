//! Terminal browser state for AI model catalogs and benchmark leaderboards:
//! list navigation, filtering, sorting, key dispatch and text layout helpers.

pub mod text;
pub mod palette;
pub mod scroll;
pub mod mouse;
pub mod event;
pub mod sorting;
pub mod formatting;
pub mod benchmarks;
pub mod models;
pub mod markdown;
pub mod session;
