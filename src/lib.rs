//! Client-side core of an end-to-end encrypted password manager: key derivation and
//! authenticated encryption, the vault/record key hierarchy, a local encrypted store
//! with an outbox of pending mutations, the session façade, the sync engine's decisions
//! and the server rules that the sync engine relies on.
pub mod client;
pub mod codec;
pub mod crypto;
pub mod error;
pub mod model;
pub mod outbox;
pub mod server;
pub mod stamp;
pub mod store;
pub mod sync;
pub mod wire;
