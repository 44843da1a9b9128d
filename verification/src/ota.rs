//! The block-transfer protocol: wire schema, transactional send, producer
//! and consumer.

pub mod common;
pub mod consumer;
pub mod producer;
pub mod session;
