//! Storage-management layer for a token-vesting ledger contract.
//!
//! The layer owns a two-tier flat keyed store (a cheap instance tier for
//! singleton configuration and a larger persistent tier for per-entity
//! records), a tagged key space over that store, denormalized per-user and
//! active-schedule indexes, and a version-gated migration engine that lifts
//! the pre-structured key layout into the current one.

pub mod keys;
pub mod laws;
pub mod storage;
pub mod tier;

pub use keys::encode_key;
pub use keys::AcademyDataKey;
pub use keys::Identity;
pub use keys::StoreKey;
pub use storage::retained;
pub use storage::AcademyStorage;
pub use storage::CURRENT_VERSION;
pub use tier::Tier;
pub use tier::Value;
