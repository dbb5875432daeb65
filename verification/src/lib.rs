//! Verified core of a Rust SDK for Base identity integration: configuration, the
//! decisions of the client, authorization URLs, token forms, and access-token checks.

pub mod authorize;
pub mod claims;
pub mod client;
pub mod error;
pub mod pae;
pub mod paseto;
pub mod scopes;
pub mod spans;
pub mod text;
pub mod types;
pub mod urlenc;
pub mod verify;

pub use authorize::authorize_url;
pub use claims::{principal_from_claims, validate_claims, UtcTime};
pub use client::{ClientConfigRequest, ClientState};
pub use error::Error;
pub use paseto::{bearer_token, check_footer, decode_token, select_key, verify_signature};
pub use scopes::{join_scopes, split_scopes};
pub use verify::{verify_decoded, FooterFields};
pub use types::{
    matches_env, resolve_issuer, AccessClaims, AccountContext, AuthorizeOptions,
    ClientConfigResponse, Config, Metadata, Principal, PublicKey, PublicKeySet, RefreshOptions,
    TokenOptions, TokenPair, VerifyOptions, DEFAULT_AUDIENCE, DEFAULT_IMPLICIT_ASSERTION,
    DEFAULT_ISSUER, DEFAULT_LOCAL_ISSUER,
};
