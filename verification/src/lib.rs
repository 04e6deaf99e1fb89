//! plasma: license-family parsing and a deterministic, typed policy engine.
pub mod text;
pub mod family;
pub mod registry;
pub mod fallback;
pub mod lexer;
pub mod catalog;
pub mod spdx;
pub mod compat;
pub mod ast;
pub mod finding;
pub mod order;
pub mod header;
pub mod facts;
pub mod eval;
pub mod action;
pub mod diff;
pub mod diff_laws;
pub mod schema;
pub mod report;
pub mod content;
pub mod zone;
pub mod audit;
pub mod a2ml;
pub mod union;
pub mod apply;
pub mod cli;
pub mod migrate;
pub mod audit_report;
pub mod debug_text;
