//! A request routing and dispatch engine.
//!
//! The engine matches an incoming request against a table of declarative
//! route templates (literal and parameter path segments, a method set, and
//! header guards), binds captured path segments, query pairs and request
//! bodies into typed values, invokes a handler from a tagged handler table,
//! and renders the outcome - fixed, JSON or streamed bodies, or a structured
//! error response.

pub mod config;
pub mod dispatch;
pub mod errors;
pub mod extract;
pub mod pattern;
pub mod response;
pub mod state;
pub mod text;
pub mod urls;
