//! A verified core for a small beer-log service: session-based
//! authentication over phone-number identities, an idempotent
//! find-or-create resolver for reference data, and a sanitizer that turns
//! free-text search input into a safe full-text-search expression.

pub mod auth;
pub mod chars;
pub mod error;
pub mod laws;
pub mod models;
pub mod phone;
pub mod resolver;
pub mod response;
pub mod search;
pub mod store;
