//! A small scanner that pulls bytes, words, lines and integers out of a
//! fixed input, one after another.

mod sealed;

pub mod numbers;
pub mod scanner;
pub mod text;
