pub mod configuration;
pub mod dependency;
pub mod location;
pub mod position;
