//! Translates Objective-C interface declarations into Haxe extern bindings.
//!
//! The declaration tree is modelled by plain values (`decl`), native types by
//! `TypeExpr` (`types`); `emit` selects and translates declarations, and
//! `render` turns method bindings into text.

pub mod types;
pub mod decl;
pub mod emit;
pub mod render;
pub mod laws;
