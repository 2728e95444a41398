pub mod config;
pub mod lb;
pub mod policy;
