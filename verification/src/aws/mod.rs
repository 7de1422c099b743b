//! The Secrets Manager tail: reading and shaping one Set, the non-stomping write,
//! and the guided walk to a secret.

pub mod aws_impl;
pub mod discovery;
pub mod harness;
pub mod loopback;
pub mod method;
pub mod presenter;
pub mod secret_write;
pub mod secrets;
pub mod session;
pub mod source;
pub mod terminal_laws;
pub mod wire;
pub mod write_laws;
pub mod writer;
