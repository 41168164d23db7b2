pub mod approvals;
pub mod audit;
pub mod builder;
pub mod config;
pub mod errors;
pub mod handlers;
pub mod middleware;
pub mod paths;
pub mod glob;
