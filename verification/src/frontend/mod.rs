pub mod scope;
pub mod semantic;
pub mod ast;
pub mod ops;
pub mod resolve;
pub mod inject;
pub mod lower;
pub mod typing;
pub mod growth;
pub mod skeleton;
pub mod aliases;
pub mod module;
pub mod pass;
