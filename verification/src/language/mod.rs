pub mod discovery;
pub mod manager;
pub mod types;
