pub mod auth;
pub mod diff;
pub mod git;
pub mod highlight;
pub mod jj;
pub mod repository;
pub mod review;
pub mod word_diff;
