pub mod aggregate;
pub mod api;
pub mod event;
pub mod query;
pub mod schedule;
pub mod signer;
pub mod store;
