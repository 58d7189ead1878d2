//! A payment-routing rule evaluation engine.
//!
//! The engine decides, for a given transaction context, which payment
//! connectors are eligible: a declarative rule — a disjunctive normal
//! form condition over typed directive values — is lowered into an
//! internal representation and evaluated against a constraint graph of
//! merchant-configured connector capabilities.
//!
//! The crate is organised leaf first:
//! - [`values`]: the typed directive key/value domain;
//! - [`order`]: a total order on directive values, for canonical
//!   memoization keys;
//! - [`context`]: the stack of assertions under analysis;
//! - [`graph`]: the constraint graph and its combination operation;
//! - [`analysis`]: satisfiability analysis of a context against a
//!   graph, memoized per call;
//! - [`domain`]: the directive domain by name — key resolution and
//!   variant enumeration;
//! - [`ast`]: the surface rule representation and its lowering;
//! - [`state_machine`]: the cursor advancing through a rule's
//!   conjunctive branches;
//! - [`evaluator`]: the entry point filtering a candidate connector
//!   list by a rule, and whole-rule analysis;
//! - [`seeder`]: building a knowledge graph from connector accounts
//!   and the static global analysis graph;
//! - [`interpreter`]: direct execution of a rule against one
//!   transaction;
//! - [`explain`]: human-readable explanations of analysis errors;
//! - [`laws`]: proved statements relating the pieces above.
//!
//! Graphs, rules and contexts are plain values: evaluation takes them
//! by shared reference and never mutates a graph, so one seeded graph
//! can serve any number of independent evaluations.

pub mod values;
pub mod context;
pub mod order;
pub mod graph;
pub mod analysis;
pub mod domain;
pub mod ast;
pub mod state_machine;
pub mod evaluator;
pub mod seeder;
pub mod interpreter;
pub mod explain;
pub mod laws;
