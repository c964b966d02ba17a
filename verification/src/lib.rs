//! Type-checking front end for a small smart-contract language.
//!
//! A parsed module (functions, validators, tests, benchmarks, data types,
//! type aliases, constants and imports) goes in; a fully typed module with
//! its computed public interface comes out, or the first hard error met
//! along the way. Warnings about unused entities are accumulated on the
//! side.

pub mod ast;
pub mod environment;
pub mod error;
pub mod expr;
pub mod hydrator;
pub mod infer;
pub mod span;
pub mod subst;
pub mod tipo;
