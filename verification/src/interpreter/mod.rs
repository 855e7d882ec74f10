//! Evaluation at compile time: the object model and the graph of values
//! that it leaves behind.

pub mod dict;
pub mod materialize;
pub mod object_graph;
pub mod runtime;
pub mod scope;
pub mod value_store;
