//! Deployment requests, endpoint configuration and the request rules of the
//! live grid client.

pub mod challenge;
pub mod config;
pub mod deployment;
pub mod types;
pub mod validate;
pub mod nodes;
pub mod payload;
pub mod client;
pub mod crypto;
pub mod rmb;
