use vstd::prelude::*;

use crate::error::Error;
use crate::text::{
    concat, opt_view, owned, same_text, strip_trailing, trim_end_slashes,
    trim_white_space, trim_ws,
};

verus! {

/// Audience that access tokens carry unless configured otherwise.
pub const DEFAULT_AUDIENCE: &'static str = "square-experience";

/// Issuer used when nothing else names one.
pub const DEFAULT_ISSUER: &'static str = "https://authlayer.square.com";

/// Issuer used in local development environments.
pub const DEFAULT_LOCAL_ISSUER: &'static str = "http://localhost:8080";

/// Implicit assertion bound into access-token signatures by default.
pub const DEFAULT_IMPLICIT_ASSERTION: &'static str = "square-experience:idp:access:v1";

/// How a service identifies itself to the identity provider.
#[derive(Clone, Debug)]
pub struct Config {
    pub key: String,
    pub secret: Option<String>,
    pub issuer: String,
    pub client_id: String,
    pub redirect_uri: String,
    pub scopes: Vec<String>,
    pub audience: String,
    pub required_scope: Option<String>,
    pub confidential: bool,
    pub allowed_scopes: Vec<String>,
    pub resolved: bool,
}

/// The client registration that the client-config endpoint returns.
#[derive(Clone, Debug)]
pub struct ClientConfigResponse {
    pub client_id: String,
    pub anon_key: String,
    pub product: String,
    pub display_name: String,
    pub app_domain: String,
    pub logo_url: Option<String>,
    pub issuer: String,
    pub authorization_endpoint: String,
    pub token_endpoint: String,
    pub paseto_public_key_endpoint: String,
    pub allowed_redirect_uris: Vec<String>,
    pub allowed_scopes: Vec<String>,
    pub allowed_auth_methods: Vec<String>,
    pub requested_claims: Vec<String>,
    pub confidential: bool,
    pub status: String,
}

/// Optional parts of an authorization request.
#[derive(Clone, Debug, Default)]
pub struct AuthorizeOptions {
    pub response_type: Option<String>,
    pub state: Option<String>,
    pub nonce: Option<String>,
    pub scopes: Option<Vec<String>>,
    pub redirect_uri: Option<String>,
    pub auth_session_id: Option<String>,
    pub code_challenge: Option<String>,
    pub code_challenge_method: Option<String>,
    pub additional_parameters: Vec<(String, String)>,
}

/// An authorization-code exchange request.
#[derive(Clone, Debug, Default)]
pub struct TokenOptions {
    pub code: String,
    pub code_verifier: Option<String>,
    pub redirect_uri: Option<String>,
}

/// A refresh-token request.
#[derive(Clone, Debug, Default)]
pub struct RefreshOptions {
    pub refresh_token: String,
    pub scopes: Option<Vec<String>>,
}

/// Overrides applied when an access token is verified.
#[derive(Clone, Debug, Default)]
pub struct VerifyOptions {
    pub issuer: Option<String>,
    pub audience: Option<String>,
    pub required_scope: Option<String>,
    pub max_clock_skew_seconds: i64,
    pub implicit_assertion: Option<String>,
}

/// The identity provider's discovery document.
#[derive(Clone, Debug)]
pub struct Metadata {
    pub issuer: String,
    pub authorization_endpoint: String,
    pub token_endpoint: String,
    pub paseto_public_key_endpoint: String,
    pub token_format: String,
    pub paseto_purpose: String,
    pub grant_types_supported: Vec<String>,
    pub code_challenge_methods_supported: Vec<String>,
    pub token_endpoint_auth_methods_supported: Vec<String>,
}

/// One published token-signing key.
#[derive(Clone, Debug)]
pub struct PublicKey {
    pub kid: String,
    pub alg: String,
    pub kty: String,
    pub crv: String,
    pub public_key_base64: String,
    pub implicit_assertion: Option<String>,
}

/// The published token-signing keys.
#[derive(Clone, Debug)]
pub struct PublicKeySet {
    pub keys: Vec<PublicKey>,
}

/// Tokens issued by the token endpoint.
#[derive(Clone, Debug)]
pub struct TokenPair {
    pub access_token: String,
    pub refresh_token: String,
    pub token_type: String,
    pub expires_in: i64,
    pub refresh_token_expires_at: String,
}

/// The account an access token acts for.
#[derive(Clone, Debug, Default)]
pub struct AccountContext {
    pub kind: String,
    pub tenant_id: Option<String>,
    pub actor_id: Option<String>,
    pub owner_id: Option<String>,
}

/// The claims of an access token.
#[derive(Clone, Debug)]
pub struct AccessClaims {
    pub iss: String,
    pub sub: String,
    pub aud: String,
    pub exp: String,
    pub nbf: String,
    pub iat: String,
    pub jti: String,
    pub gid: String,
    pub email: Option<String>,
    pub name: Option<String>,
    pub token_use: String,
    pub sid: String,
    pub ctx: AccountContext,
    pub role: String,
    pub ent: Vec<String>,
    pub ev: Option<String>,
    pub aal: i64,
    pub amr: Vec<String>,
    pub azp: Option<String>,
    pub scp: Vec<String>,
}

/// Who a verified access token speaks for.
#[derive(Clone, Debug)]
pub struct Principal {
    pub id: String,
    pub subject: String,
    pub email: Option<String>,
    pub name: Option<String>,
    pub role: String,
    pub scopes: Vec<String>,
    pub account_context: AccountContext,
    pub claims: AccessClaims,
}

/// A configuration with nothing resolved yet: only the key and the issuer are set.
pub open spec fn is_fresh_config(c: Config, key: Seq<char>, issuer: Seq<char>) -> bool {
    &&& c.key@ == key
    &&& c.issuer@ == issuer
    &&& c.secret is None
    &&& c.client_id@.len() == 0
    &&& c.redirect_uri@.len() == 0
    &&& c.scopes@.len() == 0
    &&& c.audience@.len() == 0
    &&& c.required_scope is None
    &&& !c.confidential
    &&& c.allowed_scopes@.len() == 0
    &&& !c.resolved
}

impl Config {
    /// A configuration for `key` at `issuer`, with the issuer's trailing slashes removed.
    pub fn new(key: &str, issuer: &str) -> (r: Config)
        ensures
            is_fresh_config(r, key@, strip_trailing(issuer@, '/')),
    {
        Config {
            key: owned(key),
            issuer: trim_end_slashes(issuer),
            secret: None,
            client_id: String::new(),
            redirect_uri: String::new(),
            scopes: Vec::new(),
            audience: String::new(),
            required_scope: None,
            confidential: false,
            allowed_scopes: Vec::new(),
            resolved: false,
        }
    }

    /// The configuration that the environment describes, given the values read from it:
    /// the client id (required, non-empty), the issuer already resolved, and the two
    /// secret variables, of which the first non-empty one is used.
    pub fn from_env_values(
        client_id: Option<String>,
        issuer: String,
        client_secret: Option<String>,
        legacy_secret: Option<String>,
    ) -> (r: Result<Config, Error>)
        ensures
            match r {
                Ok(c) => {
                    &&& client_id matches Some(id) && id@.len() > 0
                    &&& c.key@ == client_id->0@
                    &&& c.client_id@ == client_id->0@
                    &&& c.issuer@ == issuer@
                    &&& opt_view(c.secret) == first_non_empty(
                        opt_view(client_secret),
                        opt_view(legacy_secret),
                    )
                    &&& c.redirect_uri@.len() == 0
                    &&& c.scopes@.len() == 0
                    &&& c.audience@.len() == 0
                    &&& c.required_scope is None
                    &&& !c.confidential
                    &&& c.allowed_scopes@.len() == 0
                    &&& !c.resolved
                },
                Err(e) => {
                    &&& !(client_id matches Some(id) && id@.len() > 0)
                    &&& e matches Error::InvalidConfig(m) && m@ == "BASE_IDP_CLIENT_ID"@ + " is required"@
                },
            },
    {
        let client_id = match required_value("BASE_IDP_CLIENT_ID", client_id) {
            Ok(v) => v,
            Err(e) => return Err(e),
        };
        let secret = match client_secret {
            Some(s) if !s.as_str().is_empty() => Some(s),
            _ => match legacy_secret {
                Some(s) if !s.as_str().is_empty() => Some(s),
                _ => None,
            },
        };
        Ok(Config {
            key: client_id.clone(),
            issuer,
            secret,
            client_id,
            redirect_uri: String::new(),
            scopes: Vec::new(),
            audience: String::new(),
            required_scope: None,
            confidential: false,
            allowed_scopes: Vec::new(),
            resolved: false,
        })
    }
}

/// The first of two optional values that is present and not empty.
pub open spec fn first_non_empty(a: Option<Seq<char>>, b: Option<Seq<char>>) -> Option<Seq<char>> {
    if a matches Some(x) && x.len() > 0 {
        a
    } else if b matches Some(y) && y.len() > 0 {
        b
    } else {
        None
    }
}

/// A required setting: present and not empty, or an error naming it.
pub fn required_value(name: &str, value: Option<String>) -> (r: Result<String, Error>)
    ensures
        match r {
            Ok(v) => value matches Some(x) && x@.len() > 0 && v@ == x@,
            Err(e) => {
                &&& !(value matches Some(x) && x@.len() > 0)
                &&& e matches Error::InvalidConfig(m) && m@ == name@ + " is required"@
            },
        },
{
    match value {
        Some(v) if !v.as_str().is_empty() => Ok(v),
        _ => Err(Error::InvalidConfig(concat(name, " is required"))),
    }
}

/// What `str::to_lowercase` gives for a string: Unicode lower-case mapping.
pub uninterp spec fn lowercase_of(s: Seq<char>) -> Seq<char>;

/// Calls `str::to_lowercase`.
#[verifier::external_body]
fn to_lowercase(s: &str) -> (r: String)
    ensures
        r@ == lowercase_of(s@),
{
    s.to_lowercase()
}

/// Whether a lower-cased environment name denotes local development.
pub open spec fn is_local_env_name(s: Seq<char>) -> bool {
    s == "dev"@ || s == "development"@ || s == "local"@
}

/// Whether a lower-cased environment name is `dev`, `development` or `local`.
pub fn is_local_env_word(lowered: &str) -> (r: bool)
    ensures
        r == is_local_env_name(lowered@),
{
    same_text(lowered, "dev") || same_text(lowered, "development") || same_text(lowered, "local")
}

/// Whether an environment variable's value names local development, ignoring
/// surrounding white space and case.
pub fn matches_env(value: Option<&str>) -> (r: bool)
    ensures
        r == (value matches Some(v) && is_local_env_name(lowercase_of(trim_ws(v@)))),
{
    match value {
        Some(v) => {
            let trimmed = trim_white_space(v);
            let lowered = to_lowercase(trimmed.as_str());
            is_local_env_word(lowered.as_str())
        },
        None => false,
    }
}

/// The issuer chosen from the environment's values: a configured issuer that is not
/// blank (its trailing slashes removed), else the local issuer when either
/// environment name denotes local development, else the default issuer.
pub open spec fn issuer_choice(
    configured: Option<Seq<char>>,
    node_env_local: bool,
    app_env_local: bool,
) -> Seq<char> {
    if configured is Some && trim_ws(configured->0).len() > 0 {
        strip_trailing(configured->0, '/')
    } else if node_env_local || app_env_local {
        DEFAULT_LOCAL_ISSUER@
    } else {
        DEFAULT_ISSUER@
    }
}

/// Whether an optional environment value names local development.
pub open spec fn env_is_local(value: Option<String>) -> bool {
    value matches Some(v) && is_local_env_name(lowercase_of(trim_ws(v@)))
}

/// Chooses the issuer from the values of `BASE_IDP_ISSUER`, `NODE_ENV` and `APP_ENV`.
pub fn resolve_issuer(
    configured: Option<String>,
    node_env: Option<String>,
    app_env: Option<String>,
) -> (r: String)
    ensures
        r@ == issuer_choice(opt_view(configured), env_is_local(node_env), env_is_local(app_env)),
{
    if let Some(value) = &configured {
        let trimmed = trim_white_space(value.as_str());
        if !trimmed.as_str().is_empty() {
            return trim_end_slashes(value.as_str());
        }
    }
    let node_local = match &node_env {
        Some(v) => matches_env(Some(v.as_str())),
        None => false,
    };
    let app_local = match &app_env {
        Some(v) => matches_env(Some(v.as_str())),
        None => false,
    };
    if node_local || app_local {
        owned(DEFAULT_LOCAL_ISSUER)
    } else {
        owned(DEFAULT_ISSUER)
    }
}

/// The secret is the first of the two values that is present and not empty: a first
/// value that is absent falls through to the second exactly as an empty one does, and
/// the result is never an empty string.
pub proof fn lemma_secret_fallback(a: Option<Seq<char>>, b: Option<Seq<char>>)
    ensures
        a is Some && a->0.len() > 0 ==> first_non_empty(a, b) == a,
        !(a is Some && a->0.len() > 0) && b is Some && b->0.len() > 0 ==> first_non_empty(a, b)
            == b,
        !(a is Some && a->0.len() > 0) && !(b is Some && b->0.len() > 0) ==> first_non_empty(
            a,
            b,
        ) is None,
        first_non_empty(None, b) == first_non_empty(Some(Seq::<char>::empty()), b),
        first_non_empty(a, b) is Some ==> first_non_empty(a, b)->0.len() > 0,
{
}

} // verus!
