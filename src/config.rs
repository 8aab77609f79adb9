pub mod agents;
pub mod manage_config;
