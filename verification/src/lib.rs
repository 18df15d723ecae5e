//! A declarative test-case expansion engine.
//!
//! The library reads annotation-style metadata attached to a function and its
//! parameters — value lists, case rows, fixture bindings, default overrides —
//! and expands them into a concrete family of named test invocations.  A
//! named annotation bundle (a "template") can be captured once and applied to
//! many functions under controlled merge semantics.
//!
//! The pieces, in the order data flows through them:
//! - [`text`] and [`parse`]: the annotation mini-language, from characters to
//!   items and modifiers;
//! - [`exprs`]: expressions stay opaque fragments, validated but never
//!   evaluated;
//! - [`resolve`]: per-parameter bindings and overrides, with aggregated,
//!   never fail-fast error reporting;
//! - [`reuse`]: the template registry and the merge of a template's
//!   annotation surface into an applying function;
//! - [`expand`] and [`names`]: the cross product of case rows and value
//!   lists, as uniquely named test instances.

pub mod errors;
pub mod expand;
pub mod exprs;
pub mod fixture;
pub mod names;
pub mod parse;
pub mod resolve;
pub mod reuse;
pub mod strutil;
pub mod text;
