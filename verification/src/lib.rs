//! The core of an interactive command interpreter, free of input and
//! output: what a line means, what running it comes to, and which names
//! complete what was typed. A host reads the lines, starts the programs
//! and touches the files.
//!
//! - [`tokenizer`] splits a line into words; [`pipeline`] builds the
//!   stages of a pipeline from them, each a [`command::Command`] bound to
//!   its streams ([`shell_io`]).
//! - [`builtins`] says what a stage does when it runs, given what the host
//!   answered; [`search`] looks programs up on the search path;
//!   [`supervisor`] gives the order in which stages are started and
//!   waited for.
//! - [`shell`] holds the session and its history.
//! - [`trie`] and [`autocomplete`] complete command names.
//! - [`text`], [`number`] and [`order`] are helpers on text.

pub mod autocomplete;
pub mod builtins;
pub mod command;
pub mod number;
pub mod order;
pub mod pipeline;
pub mod search;
pub mod shell;
pub mod shell_io;
pub mod supervisor;
pub mod text;
pub mod tokenizer;
pub mod trie;
