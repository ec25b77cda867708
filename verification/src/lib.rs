//! A verified compiler pipeline for a tiny integer-arithmetic language with
//! immutable `let` bindings and a `read` primitive, lowered to x86-64 assembly
//! text.
//!
//! The pipeline runs through four representations:
//! - `rir`: the source expression tree (`Read`, integer literals, negation,
//!   addition, variables, `let` bindings);
//! - `cir`: a linear sequence of simple assignments ending in a return;
//! - `pxir`: pseudo-x86 instructions whose operands may still be symbolic
//!   variables;
//! - assembly text, produced by the emitter in `pxir::write` and framed by
//!   `driver::drive`.

pub mod cir;
pub mod driver;
pub mod pxir;
pub mod rir;
pub mod table;
pub mod text;
