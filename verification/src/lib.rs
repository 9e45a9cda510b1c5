//! Core of a hardware-description-language toolchain that transpiles to
//! SystemVerilog: semantic-analysis handlers driven by a grammar walk, a type
//! dependency graph with insertion-time cycle detection, and the
//! column-alignment engine shared by the emitter and the formatter.
//!
//! The shared substrate lives in `token`, `intern`, `symbol`, `tables` and
//! `tree`; the walk order is defined in `events`; the analyses are
//! `check_msb_lsb` and `create_type_dag` over `dag`; the alignment engine is
//! `align`, `engine` and `walker`, surfaced by `emitter` and `formatter`.

pub mod align;
pub mod check_msb_lsb;
pub mod create_type_dag;
pub mod dag;
pub mod emitter;
pub mod engine;
pub mod error;
pub mod formatter;
pub mod events;
pub mod intern;
pub mod symbol;
pub mod tables;
pub mod token;
pub mod walker;
pub mod tree;

use vstd::prelude::*;

verus! {

} // verus!
