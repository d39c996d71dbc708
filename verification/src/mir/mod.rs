pub mod body;
pub mod runtime;
