pub mod maven;
pub mod producer;
