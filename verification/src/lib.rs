//! Renders names from a small template language: literal text mixed with
//! escapes that expand to random words, random characters and date fields.

pub mod args;
pub mod corpus;
pub mod cursor;
pub mod date;
pub mod dice;
pub mod error;
pub mod expand;
pub mod family;
pub mod params;
pub mod render;
pub mod text;
