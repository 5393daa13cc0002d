//! A universal data format for knowledge bases: objects, statements over
//! them, their validation, and the value and row encodings of the store.

pub mod depth;
pub mod object;
pub mod objects;
pub mod time;
pub mod validate;
pub mod abstracts;
pub mod statements;
pub mod nodes;
pub mod parse;
pub mod ids;
pub mod ff;
pub mod values;
pub mod content;
pub mod eval;
pub mod base;
pub mod istr;
pub mod inline;
pub mod rows;
pub mod knowledge;
pub mod query;
