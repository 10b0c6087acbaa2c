//! Generic scanning utilities shared by several parsers.

pub mod take_until_unbalanced;
