//! The Identity Center front half every AWS-family Method shares: the browser
//! Sign-in, the account and role walk, role Credentials, and the resilience
//! ladder around a read or a write.

pub mod authenticator;
pub mod authwalk;
pub mod aws_impl;
pub mod broker;
pub mod browser;
pub mod browser_laws;
pub mod climb;
pub mod credential_laws;
pub mod error;
pub mod error_laws;
pub mod family;
pub mod ladder;
pub mod ladder_laws;
pub mod load;
pub mod load_laws;
pub mod load_outcome_laws;
pub mod loopback;
pub mod method;
pub mod pkce;
pub mod provider_laws;
pub mod redirect_laws;
pub mod sdk_laws;
pub mod sign_in_laws;
pub mod state;
pub mod types;
pub mod wire;
