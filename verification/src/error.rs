use vstd::prelude::*;

verus! {

/// Every failure the library reports.
#[derive(Clone, Debug)]
pub enum Error {
    /// The configuration cannot be used as it stands.
    InvalidConfig(String),
    /// The client-config endpoint could not be reached or understood.
    ConfigDiscovery(String),
    /// The discovery document could not be fetched or decoded.
    Discovery(String),
    /// The public key set could not be fetched or was unusable.
    KeyFetch(String),
    /// A token request was refused before or after it was sent.
    TokenExchange(String),
    /// No bearer token could be read from an `Authorization` header.
    MissingBearer,
    /// An access token failed verification.
    InvalidToken(String),
    /// An access token lacks the scope that was asked for.
    InsufficientScope(String),
}

} // verus!
