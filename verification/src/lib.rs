//! Pulse: signed stubs, a trust/watch/silence social graph, and the
//! feed and profile logic built on top of them.

pub mod bytes;
pub mod compression;
pub mod decimal;
pub mod ext_argon2;
pub mod ext_blake3;
pub mod ext_ed25519;
pub mod ext_hex;
pub mod ext_lz4;
pub mod ext_std;
pub mod format;
pub mod keypair;
pub mod keystore;
pub mod signing;
pub mod validation;
pub mod graph_store;
pub mod sorting;
pub mod branch_store;
pub mod signer_store;
pub mod profile_store;
pub mod stub_store;
pub mod edges;
pub mod feed;
pub mod messages;
pub mod protocol;
pub mod node;
pub mod profile;
pub mod views;
