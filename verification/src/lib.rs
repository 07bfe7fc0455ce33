//! Causal graphical models in dagitty notation: a graph model over petgraph,
//! a parser for the notation and a serializer back to it.

pub mod types;
pub mod text;
pub mod coordinate;
pub mod dagitty;
pub mod store;
pub mod graph;
pub mod serializer;
pub mod ancestors;
pub mod grammar;
pub mod syntax;
pub mod builder;
pub mod parser;
pub mod section_header;
pub mod round_trip;
