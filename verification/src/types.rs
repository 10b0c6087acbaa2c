//! Data types shared across the parsers.

pub mod nested;
