//! Relaying and attestation core of a two-way token bridge between an EVM
//! chain and a Cosmos-style hub: confirmation gating of observed events,
//! nonce-ordered claim submission, voting-power attestation, and
//! deterministic fee-ordered outgoing batches.
pub mod types;
pub mod events;
pub mod keyed;
pub mod confirmation;
pub mod watcher;
pub mod attestation;
pub mod hub;
pub mod batch;
pub mod relay;
pub mod orchestrator;
