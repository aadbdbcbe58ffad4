//! Counts the tokens of each line of a text under a delimiter policy.
//!
//! A line is split either on every occurrence of one fixed character (empty
//! segments count) or on maximal runs of whitespace (empty segments are
//! dropped). The tokenizer is bound once, either statically through a generic
//! parameter or dynamically behind a trait object; both give the same counts.
pub mod policy;
pub mod tokenize;
pub mod dispatch;
pub mod output;
