pub mod graph_ids;
pub mod input;
pub mod nodes;
pub mod text;
pub mod graph;
pub mod relations;
pub mod types;
pub mod visitor;
