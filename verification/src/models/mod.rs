pub mod auth;
pub mod change_id;
pub mod git;
pub mod hunk;
pub mod jj;
pub mod pr;
pub mod repo;
pub mod settings;
pub mod user;
