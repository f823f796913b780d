//! Flovenet: verified core logic of a peer-to-peer social and compute network.
pub mod auth;
pub mod cli;
pub mod crypto;
pub mod daemon;
pub mod gateway;
pub mod gossip;
pub mod gpu;
pub mod gpu_info;
pub mod keyed;
pub mod moderation;
pub mod node;
pub mod random;
pub mod resources;
pub mod scenarios;
pub mod runtime;
pub mod scheduler;
pub mod social;
pub mod storage;
pub mod text;
pub mod time;
