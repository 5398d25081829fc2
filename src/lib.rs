//! Rewrites a function so that its parameters are read from standard input
//! and its result is written to standard output, optionally once per case.
//!
//! The library works on a flat token model ([`token::Tok`]):
//! - [`attr`] parses the attribute's options;
//! - [`template`] splits a per-case header template;
//! - [`subst`] renames the case index inside the header expression;
//! - [`rewrite`] plans the header and assembles the rewritten function.
//!
//! Turning compiler token streams into that model and back is left to the
//! attribute's entry point.
pub mod token;
pub mod template;
pub mod subst;
pub mod attr;
pub mod rewrite;
