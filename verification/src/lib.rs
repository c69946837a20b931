//! Synthesis of binary parsing routines from annotated type declarations.
//!
//! A declaration of a record or of a tagged union, with the annotations of
//! the type, of its variants and of its fields, is turned into a routine: a
//! description of which decoder reads which field, in which order, and which
//! variant a selector chooses. The routine can be printed as code by a host,
//! and, where it holds nothing but what this crate can evaluate, run on bytes.

pub mod attr;
pub mod config;
pub mod decl;
pub mod driver;
pub mod enums;
pub mod error;
pub mod expr;
pub mod laws;
pub mod number;
pub mod parsertree;
pub mod run;
pub mod structs;
pub mod text;
pub mod tokens;
