//! Front end of the Bluemetal systems-definition language, and what the build
//! of the kernel knows of its target machines.
//!
//! Source text of a module is turned into a tree of span-annotated
//! declarations; a whole program is the set of modules reachable from an
//! entry module. Every parser is stated against a grammar written over
//! `Seq<char>`, and all positions count Unicode scalar values.

pub mod binding;
pub mod block;
pub mod configure;
pub mod cut;
pub mod datatype;
pub mod error;
pub mod function;
pub mod identifier;
pub mod module;
pub mod options;
pub mod qualifier;
pub mod span;
pub mod structure;
pub mod text;
pub mod unit;
