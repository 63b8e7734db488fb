//! DANEEL cognitive architecture: verified core library.
pub mod cognition;
pub mod actors;
pub mod config;
pub mod embeddings;
pub mod memory_db;
pub mod api;
pub mod timestamp;
pub mod graph;
pub mod noise;
