pub mod bridge;
pub mod config;
pub mod coordinator;
