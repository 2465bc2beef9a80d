pub mod parser;

pub use parser::graph::CodeGraph;
pub use parser::visitor::analyze_items;
