pub mod cognitive_loop;
pub mod types;
