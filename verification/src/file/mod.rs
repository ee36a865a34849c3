pub mod loader;
pub mod saver;
pub mod validate;
