//! Verified core of a cAdvisor-compatible container monitor.

pub mod api;
pub mod cli;
pub mod derive;
pub mod encode;
pub mod events;
pub mod families;
pub mod fs;
pub mod host;
pub mod machine;
pub mod manager;
pub mod metrics;
pub mod model;
pub mod order;
pub mod parse;
pub mod runtime;
pub mod store;
pub mod text;
pub mod v2;
