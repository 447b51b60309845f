//! Front end for a small declarative scene-description language: a lexical
//! scanner, a lookahead token-stream protocol, and a recursive-descent
//! builder that assembles a hierarchical transform graph.
//!
//! Scalars of the language are modelled as exact rational numbers, so the
//! affine-transform algebra (composition, inversion, normal matrices) is
//! exact and its algebraic laws are machine-checked.

pub mod builder;
pub mod config;
pub mod error;
pub mod grammar;
pub mod laws;
pub mod lexer;
pub mod matrix;
pub mod rat;
pub mod rotation;
pub mod scene;
pub mod stream;
pub mod token;
