//! Parser for "binary template" scripts: a C-like declarative language that
//! describes the layout of binary files.  The library parses template source
//! text into a structural tree; it never executes a template against data.
//!
//! The parsing core is a hand-rolled recursive-descent engine:
//! - a generic depth-counting scanner for balanced delimiter regions,
//! - a maximal-munch token lexer for a vocabulary of multi-character operators,
//! - ordered, backtracking trial of the four `typedef struct` shapes,
//! - a line classifier and a driver that accumulates comments and typedefs.
//!
//! Every parser is specified by a spec-level interpreter over `Seq<char>` and
//! the executable code is proved to agree with it exactly.

pub mod ast;
pub mod errors;
pub mod parse_nested;
pub mod parsing;
pub mod shared;
pub mod types;
pub mod util;
