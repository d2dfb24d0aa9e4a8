//! A handoff primitive: a pair of unguessable secrets where presenting the
//! first reveals the second, once or repeatedly, until the pair expires.
//!
//! - `secret`: fresh random secrets, URL-safe.
//! - `keys`: the store keys; a record's key is a digest of its credential.
//! - `record`: the stored record and the request and response shapes.
//! - `store`: the atomic operations needed from a key-value store.
//! - `memory`: a store held in memory, with a clock of its own.
//! - `engine`: issuance, redemption, lookup and revocation.
//! - `ratelimit`: fixed-window admission per client.
//! - `laws`: what holds across operations.

pub mod engine;
pub mod keys;
pub mod laws;
pub mod memory;
pub mod ratelimit;
pub mod record;
pub mod secret;
pub mod store;

pub use engine::{
    create_token, decrypt_token, delete_token, get_token, issue_at, lookup_at, redeem_at,
    expiry_after, IssueError, RequestError, TokenLookup,
};
pub use keys::{counter_key, index_key, record_key};
pub use memory::MemoryStore;
pub use ratelimit::{client_identity, first_hop, rate_limit};
pub use record::{
    DecryptRequest, DeleteTokenRequest, GetTokenRequest, StoredToken, TokenPair, TokenRequest,
};
pub use secret::{generate_secret, SecretError};
pub use store::{StoreError, TokenStore};
