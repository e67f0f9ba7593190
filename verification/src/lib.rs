//! A makefile evaluator: the variable store, the expansion engine with its
//! functions, the reader of makefiles, the rule graph, and the scheduler
//! that decides what is made.
//!
//! The library does no input or output. An evaluation is a function of its
//! input and of the answers that its host has given: where it needs one
//! more, it stops with a request (`fault::Stop::Need`); the host performs
//! it, adds the answer, and starts the evaluation again from the same
//! state. What the evaluation writes is gathered as lines for the host to
//! print (`host::Host`).
//!
//! For each part a module says what it means, over sequences of characters
//! (`meaning` for expansion, `reader` for makefiles, `graph`, `plan` for
//! the scheduler), and a module computes it (`expand`, `reader`, `graph`,
//! `sched`); `laws`, `revisit`, `depth`, `making`, `sort` and `pattern` hold
//! what is proved of every input.

pub mod text;
pub mod words;
pub mod number;
pub mod vars;
pub mod store;
pub mod funcs;
pub mod pattern;
pub mod paths;
pub mod sort;
pub mod host;
pub mod fault;
pub mod args;
pub mod meaning;
pub mod expand;
pub mod wildcard;
pub mod laws;
pub mod lines;
pub mod rules;
pub mod directive;
pub mod parse;
pub mod reader;
pub mod graph;
pub mod plan;
pub mod sched;
pub mod revisit;
pub mod depth;
pub mod making;
pub mod run;

pub use crate::store::SymbolTable;
pub use crate::vars::{Flavor, Location, Origin, Var};
