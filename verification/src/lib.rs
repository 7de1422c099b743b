//! Janitor's verified core: every decision Janitor makes between a person, AWS Identity
//! Center and Secrets Manager.
//!
//! Janitor compares the secrets of an Application across its Environments. It signs in
//! through a browser, mints role Credentials, reads each Environment's Set, and writes
//! edits back without ever overwriting somebody else's change.
//!
//! Nothing here waits for a network, a socket or a terminal. What takes several calls is
//! a sequence of turns: a turn says which call it waits for, and `resume` takes that
//! call's outcome and gives the next turn. The contract of each `resume` is an open
//! specification function of the turn and the reply, so what holds of every run is
//! stated over those functions and proved in the modules that end in `laws`, or next to
//! the turns they speak of.
//!
//! - [`auth`]: the Sign-in, the Credentials, the walk to a role, and the ladder that
//!   carries a read or a write past a stale Credential and a dead token.
//! - [`aws`]: Secrets Manager: reading, writing and walking to a secret.
//! - [`store`]: the Config of a running app and its edits, with what holds of them in
//!   [`store_laws`].
//! - [`model`]: the types that all of them speak.
//! - [`outside`]: the calls into other crates, each with what is relied upon.
//! - [`text`]: strings as sequences of characters, with what holds of them in
//!   [`text_laws`].

pub mod auth;
pub mod aws;
pub mod model;
pub mod outside;
pub mod store;
pub mod store_laws;
pub mod text;
pub mod text_laws;
pub mod view_laws;
