//! Verified local persistence core for a student report-writing tool.
//!
//! The store is modelled as explicit in-memory state: tables of rows plus a
//! schema description. Every operation first ensures the schema (idempotent
//! creation and additive column migration), then performs one read or write,
//! exactly as the on-disk layer does. The host shell mirrors each verified
//! transition onto the embedded database.

pub mod json;
pub mod keys;
pub mod laws;
pub mod model;
pub mod store;
pub mod strs;

pub use keys::derive_draft_id;
pub use model::{DraftColumn, StoreError};
pub use store::{draft_with_defaults, pronouns_or_default, Draft, Pronouns, Store, Student};
