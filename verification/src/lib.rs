//! Interactive account-provisioning core for a mail client.
//!
//! The crate negotiates an OAuth2 Authorization Code Grant (with optional
//! PKCE) against an identity provider and persists the resulting credentials
//! through a pluggable secret-storage abstraction.  All protocol logic —
//! PKCE material, CSRF state validation, authorization-URL construction,
//! redirect parsing, token-response parsing and the wizard's configuration
//! decisions — is verified; network and console I/O stay outside.

pub mod flow;
pub mod pkce;
pub mod redirect;
pub mod store;
pub mod text;
pub mod token;
pub mod urls;
pub mod wizard;
