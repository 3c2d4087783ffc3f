//! Core logic of a music manager: Soulseek search-query construction, result
//! ranking and filename inference, a search rate limiter, the terminal UI's
//! state machine, wishlist and matching decisions, and strongly typed domain
//! values (durations, ISRC codes, formats, paths, timestamps).

pub mod config;
pub mod inference;
pub mod matching;
pub mod mm_types;
pub mod paths;
pub mod ranking;
pub mod rate_limit;
pub mod regex_ops;
pub mod search;
pub mod services;
pub mod soulseek;
pub mod spotify;
pub mod text;
pub mod timestamp;
pub mod tui;
pub mod wishlist;
pub mod youtube;
