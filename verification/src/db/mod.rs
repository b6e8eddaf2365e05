pub mod models;
pub mod reviewed_file;
