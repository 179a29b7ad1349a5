//! Interactive core of a line-oriented command shell: quote-aware context
//! extraction from a partially typed command line, a pluggable registry of
//! per-command completion generators, candidate ranking against the word
//! under the cursor, a stateful candidate browser for the terminal UI, an
//! alias store, and the `shift` builtin's positional-parameter logic.

pub mod alias;
pub mod browser;
pub mod compgen;
pub mod dispatch;
pub mod context;
pub mod fuzzy;
pub mod shift;
pub mod status;
pub mod strutil;
