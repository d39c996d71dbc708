pub mod base;
pub mod text;
pub mod types;
pub mod hir;
pub mod mir;
pub mod frontend;
