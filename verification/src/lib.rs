//! A small regular-expression engine built on a flat transition table.
//!
//! A pattern made of literal characters, the wildcard `.`, the quantifiers
//! `*` and `+` and the end anchor `$` is compiled into a table with one
//! column per state; a candidate string is then matched by walking the
//! table. Compilation and matching are executable and proved against the
//! mathematical models defined in the modules below.
//!
//! - `table`: the alphabet, actions and columns, and their models.
//! - `pattern`: well-formed patterns and the table that a pattern denotes.
//! - `matcher`: the walk by which a table accepts or rejects an input.
//! - `regex`: the compiled automaton, with `compile` and `match_str`.
//! - `semantics`: what a pattern means without the table, and the proof
//!   that the compiled table means the same.
//! - `laws`: what patterns of particular shapes accept.

pub mod laws;
pub mod matcher;
pub mod pattern;
pub mod regex;
pub mod semantics;
pub mod table;
