//! Signing and verification relay for the Xingyi payment gateway.
pub mod config;
pub mod crypto;
pub mod database;
pub mod error;
pub mod handler;
pub mod models;
pub mod monitor;
pub mod octets;
pub mod order;
pub mod padding;
pub mod params;
pub mod signer;
pub mod pem;
pub mod text;
pub mod verification;
