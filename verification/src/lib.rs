//! A concurrent intermediate representation for guarded-dataflow hardware
//! control programs, the identity-preserving translator that builds it, and
//! the structural queries a simulation engine needs.
//!
//! Nodes live in an index arena ([`graph::Graph`]): a handle is the index
//! of a node, two handles are the same node exactly when they are equal, and a
//! port's back-reference to its parent is the parent's index, never an owning
//! edge.

pub mod attributes;
pub mod component;
pub mod control;
pub mod control_mirror;
pub mod control_translate;
pub mod graph;
pub mod id_list;
pub mod identity;
pub mod mirror;
pub mod port_assignment;
pub mod port_list;
pub mod reference_holder;
pub mod source;
pub mod structure;
pub mod table;
pub mod translator;
pub mod utils;
pub mod values;
