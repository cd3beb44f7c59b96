//! Run host commands inside the network namespace of a Docker network.
pub mod text;
pub mod http;
pub mod cli;
pub mod docker;
pub mod identity;
pub mod capabilities;
pub mod namespace;
