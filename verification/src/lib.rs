//! A hierarchy-aware key/value recorder for nested execution scopes.
//!
//! A [`storage::Storage`] accumulates named field values over the lifetime
//! of one scope; the [`lifecycle::StorageSubscription`] adapter implements
//! the scope lifecycle: parent-to-child inheritance at creation, idempotent
//! timer start on entry, and duration injection at close.

pub mod lifecycle;
pub mod storage;
pub mod text;
pub mod value;
