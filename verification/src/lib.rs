//! A multi-tenant record store for a small idea-tracking application.
//!
//! Four entity kinds (ideas, collections, role assignments, users) are kept
//! in two-level keyed tables. Every read and write goes through one set of
//! typed operations, gated by per-collection role assignments.

pub mod auth;
pub mod error;
pub mod errors;
pub mod health;
pub mod ideas;
pub mod ident;
pub mod memory;
pub mod models;
pub mod rules;
pub mod service;
pub mod strutil;
pub mod table;
pub mod tablestorage;
pub mod wrappers;

pub use error::APIError;
