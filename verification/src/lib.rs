//! A minimal execution engine for a JavaScript-like dynamic language.
//!
//! Source text is turned into tokens by the lexer and those tokens are then
//! evaluated directly — a single forward scan, with no parse tree — against
//! a chain of lexical frames and a heap for reference-semantic values.
//! The meaning of both passes is written down once, as spec functions
//! ([`engine::lexer::lex_from`] and [`engine::interpretter::eval_from`]),
//! and the executable engine is proved to compute exactly that; the
//! properties the design rests on — live scope lookup, aliasing through
//! heap handles, immutability of `const` bindings, and the numeric-literal
//! round trip — are stated and proved in [`laws`].

pub mod engine;
pub mod errors;
pub mod laws;
pub mod utils;
pub mod values;
