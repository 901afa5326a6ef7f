pub mod constants;
pub mod context;
pub mod guarantees;
pub mod import;
pub mod maven_file;
pub mod maven_producer;
pub mod model;
pub mod parse;
pub mod placeholder;
pub mod properties;
pub mod query;
pub mod resolve;
