pub mod ast;
pub mod config;
pub mod laws;
pub mod lists;
pub mod model;
pub mod query;
pub mod shape;
pub mod span;
pub mod stability;
pub mod text;
pub mod types;
