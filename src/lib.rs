//! Receiving side of cloud sync: the per-device watermark store, the choice of
//! decryption strategy for a downloaded payload, the all-or-nothing merge of a
//! batch of message results, and the receiver's retry state machine.
pub mod error;
pub mod watermark;
pub mod download;
pub mod batch;
pub mod receiver;
pub mod peer_metadata;
