//! Rewrites the link command line that a compiler prints into the argument
//! files of a linker and of an archiver.
//!
//! The line is split into tokens (`tokenizer`), its first token is held
//! against the known linker front ends (`front_end`), and every other token is
//! sent to the linker file, to the archiver file, to both or to neither
//! (`classifier`). `rewrite` does all of this for the output of one build,
//! `output` gives the files their text, and `invocation` puts together the
//! arguments of the build itself.

pub mod capture;
pub mod classifier;
pub mod front_end;
pub mod header;
pub mod invocation;
pub mod output;
pub mod paths;
pub mod rewrite;
pub mod text;
pub mod tokenizer;

pub use crate::tokenizer::parse_quotes;
