//! Inference over tensor dataflow graphs.
//!
//! A graph is a list of nodes, each holding an operator and references to the
//! nodes that produce its inputs. The crate plans the evaluation of a target
//! node, runs the plan over a per-execution state, and reasons about the
//! shapes and types that flow through each operator with a small constraint
//! solver over partially known facts.

pub mod errors;
pub mod arith;
pub mod tensor;
pub mod arrays;
pub mod proto;
pub mod dump;
pub mod compare;

pub mod facts;
pub mod fact_laws;
pub mod context;
pub mod path;
pub mod path_laws;
pub mod path_text;
pub mod expressions;
pub mod rules;
pub mod solver;
pub mod solver_laws;
pub mod proxies;

pub mod ops;
pub mod pack;
pub mod pad;
pub mod inference;
pub mod standard;

pub mod model;
pub mod bits;
pub mod plan;
pub mod state;
pub mod run_laws;

pub use errors::Error;
pub use tensor::{DataType, Tensor};
