pub mod diag;
pub mod export;
pub mod project;
pub mod tree_node;
