//! A personal bookmark manager: an in-memory relational store of bookmarks
//! and tags, the tag filter and fuzzy search over loaded bookmarks, and the
//! mode-driven interaction state machine that mediates between them.
pub mod error;
pub mod tags;
pub mod bookmarks;
pub mod laws;
pub mod model;
pub mod store;
pub mod search;
pub mod input;
pub mod app;
pub mod settings;
pub mod tagpacker;
