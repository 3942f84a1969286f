//! Typed entity graphs: URL references of types, selection of entities by
//! declarative clauses, and the naming rules of generated modules.

pub mod url;
pub mod entity;
pub mod graph;
pub mod view;
pub mod dynamic;
pub mod select;
pub mod types;
pub mod skeletor;
pub mod name;
pub mod codegen;
