pub mod generic_args;
pub mod pattern;
