pub mod cursor;
pub mod history;
pub mod jumplist;
pub mod keys;
pub mod marks;
pub mod mode;
pub mod registers;
pub mod repeat;
pub mod scalar;
pub mod state;
pub mod undo;
