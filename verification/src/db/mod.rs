pub mod path;
pub mod decl;
pub mod input;
pub mod err;
