pub mod edit;
pub mod node;
pub mod parser;
pub mod plain;
pub mod tree;
