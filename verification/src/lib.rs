use vstd::prelude::*;

pub mod util;
pub mod ty;
pub mod db;
pub mod fs;
pub mod check;
pub mod parser;
pub mod ir;
pub mod build;
pub mod dap;
pub mod go;

verus! {
}
