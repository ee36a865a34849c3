pub mod preview;
pub mod tree_view;
pub mod rows;
pub mod status;
