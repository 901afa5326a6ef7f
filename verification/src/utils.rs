pub mod file_utils;
pub mod path;
pub mod text;
