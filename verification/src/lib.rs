pub mod assoc;
pub mod config;
pub mod document;
pub mod editor;
pub mod file;
pub mod input;
pub mod paths;
pub mod text;
pub mod theme;
pub mod ui;
