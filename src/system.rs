pub mod configuration;
