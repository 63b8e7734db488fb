pub mod handlers;
pub mod types;
