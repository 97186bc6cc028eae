//! A front end that compiles OpenQASM 2.0 source text into a flat circuit:
//! an ordered list of operations over linearly indexed qubits and classical
//! bits.
//!
//! Gate parameters are kept exact. Where the source text writes `pi/2 + x`,
//! the circuit holds that term over binary64 constants (see [`ir::Value`]);
//! the library resolves every name and leaves only the arithmetic to the
//! consumer.

pub mod ir;
pub mod parser;
pub mod backend;
pub mod transpiler;
