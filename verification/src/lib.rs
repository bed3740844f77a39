//! Verified core of the HostBraid hosting-environment command-line tool.
pub mod error;
pub mod machine;
pub mod model;
pub mod order;
pub mod provider;
pub mod text;
pub mod ssh;
pub mod kinsta;
pub mod remote;
pub mod cli;
pub mod catalog;
pub mod inventory;
pub mod profiles;
pub mod credential;
pub mod doctor;
pub mod store;
pub mod render;
pub mod search;
pub mod guide;
pub mod context;
pub mod welcome;
