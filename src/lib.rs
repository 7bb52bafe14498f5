//! Relay and client-side synchronisation logic of an end-to-end encrypted
//! store-and-forward messenger.
pub mod interface;
pub mod irpcerror;
pub mod outside;
pub mod auth;
pub mod bytes;
pub mod ledger;
pub mod session;
pub mod blobs;
pub mod relay;
pub mod sync;
pub mod envelope;
pub mod client;
