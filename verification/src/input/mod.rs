pub mod backend;
pub mod keys;
pub mod commands;
