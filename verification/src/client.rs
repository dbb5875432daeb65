use vstd::prelude::*;

use crate::authorize::{
    authorize_endpoint_of, authorize_pairs, authorize_url as build_authorize_url,
    lemma_contains_concat, name_value, opt_pair, or_default,
};
use crate::error::Error;
use crate::scopes::{join_scopes, join_with};
use crate::text::{
    clone_opt, clone_strings, concat, opt_view, owned, strip_trailing, strs_view,
    trim_end_slashes,
};
use crate::types::{
    AuthorizeOptions, ClientConfigResponse, Config, Metadata, PublicKeySet, RefreshOptions,
    TokenOptions, DEFAULT_AUDIENCE,
};
use crate::urlenc::{form_encode, pairs_view, url_with_query, urlencoding};

verus! {

/// How long fetched public keys stay cached unless configured otherwise: 300 seconds,
/// in nanoseconds.
pub const DEFAULT_KEY_CACHE_TTL_NANOS: u128 = 300_000_000_000;

/// What the client remembers between requests: its configuration, the discovery
/// document, and the public keys with the instant (in nanoseconds on the client's
/// monotonic clock) at which they stop being used.
#[derive(Debug)]
pub struct ClientState {
    pub config: Config,
    pub metadata_cache: Option<Metadata>,
    pub key_cache: Option<KeyCacheEntry>,
    pub key_cache_ttl: u128,
}

/// Cached public keys and the instant at which they stop being used.
#[derive(Debug)]
pub struct KeyCacheEntry {
    pub keys: PublicKeySet,
    pub expires_at: u128,
}

/// The request that fetches the client registration.
#[derive(Debug)]
pub enum ClientConfigRequest {
    /// A JSON `POST` carrying the client id and the secret, when a client id is known.
    Post { url: String, client_id: String, secret: Option<String> },
    /// A `GET` with the anonymous key in the query, otherwise.
    Get { url: String },
}

/// The cached key set is never empty.
pub open spec fn state_wf(s: ClientState) -> bool {
    s.key_cache matches Some(entry) ==> entry.keys.keys@.len() > 0
}

/// The configuration, where it has been resolved already.
pub open spec fn resolved_lookup(s: ClientState) -> Option<Config> {
    if s.config.resolved {
        Some(s.config)
    } else {
        None
    }
}

/// The discovery document that may be answered from the cache.
pub open spec fn metadata_lookup(s: ClientState, force: bool) -> Option<Metadata> {
    if force {
        None
    } else {
        s.metadata_cache
    }
}

/// The key set that may be answered from the cache at instant `now`.
pub open spec fn key_lookup(s: ClientState, force: bool, now: u128) -> Option<PublicKeySet> {
    if !force && s.key_cache is Some && now < s.key_cache->0.expires_at {
        Some(s.key_cache->0.keys)
    } else {
        None
    }
}

/// The contents of a configuration.
pub struct ConfigView {
    pub key: Seq<char>,
    pub secret: Option<Seq<char>>,
    pub issuer: Seq<char>,
    pub client_id: Seq<char>,
    pub redirect_uri: Seq<char>,
    pub scopes: Seq<Seq<char>>,
    pub audience: Seq<char>,
    pub required_scope: Option<Seq<char>>,
    pub confidential: bool,
    pub allowed_scopes: Seq<Seq<char>>,
    pub resolved: bool,
}

impl View for Config {
    type V = ConfigView;

    open spec fn view(&self) -> ConfigView {
        ConfigView {
            key: self.key@,
            secret: opt_view(self.secret),
            issuer: self.issuer@,
            client_id: self.client_id@,
            redirect_uri: self.redirect_uri@,
            scopes: strs_view(self.scopes@),
            audience: self.audience@,
            required_scope: opt_view(self.required_scope),
            confidential: self.confidential,
            allowed_scopes: strs_view(self.allowed_scopes@),
            resolved: self.resolved,
        }
    }
}

/// The first element of a list, or the empty string.
pub open spec fn first_or_empty(v: Seq<Seq<char>>) -> Seq<char> {
    if v.len() > 0 {
        v[0]
    } else {
        seq![]
    }
}

/// A configuration completed by the client registration: the issuer, client id,
/// confidentiality and allowed scopes come from the registration; the key, redirect URI
/// and scopes are taken from it only where the configuration left them empty; an empty
/// audience becomes the default one; the secret and required scope stay; it is resolved.
pub open spec fn registered(c: ConfigView, r: ClientConfigResponse) -> ConfigView {
    ConfigView {
        key: if c.key.len() == 0 { r.client_id@ } else { c.key },
        secret: c.secret,
        issuer: strip_trailing(r.issuer@, '/'),
        client_id: r.client_id@,
        redirect_uri: if c.redirect_uri.len() == 0 {
            first_or_empty(strs_view(r.allowed_redirect_uris@))
        } else {
            c.redirect_uri
        },
        scopes: if c.scopes.len() == 0 {
            strs_view(r.allowed_scopes@)
        } else {
            c.scopes
        },
        audience: if c.audience.len() == 0 {
            DEFAULT_AUDIENCE@
        } else {
            c.audience
        },
        required_scope: c.required_scope,
        confidential: r.confidential,
        allowed_scopes: strs_view(r.allowed_scopes@),
        resolved: true,
    }
}

/// The issuer at which the registration is fetched: the configured issuer without
/// trailing slashes, or the issuer resolved from the environment where none is configured.
pub open spec fn registration_issuer(c: Config, env_issuer: Seq<char>) -> Seq<char> {
    if c.issuer@.len() == 0 {
        env_issuer
    } else {
        strip_trailing(c.issuer@, '/')
    }
}

/// The pairs of an authorization-code exchange.
pub open spec fn exchange_pairs(c: Config, o: TokenOptions) -> Seq<(Seq<char>, Seq<char>)> {
    seq![
        ("grant_type"@, "authorization_code"@),
        ("code"@, o.code@),
        ("client_id"@, c.client_id@),
        ("redirect_uri"@, or_default(opt_view(o.redirect_uri), c.redirect_uri@)),
    ] + opt_pair("client_secret"@, c.secret) + opt_pair("code_verifier"@, o.code_verifier)
}

/// The pairs of a refresh.
pub open spec fn refresh_pairs(c: Config, o: RefreshOptions) -> Seq<(Seq<char>, Seq<char>)> {
    seq![
        ("grant_type"@, "refresh_token"@),
        ("refresh_token"@, o.refresh_token@),
        ("client_id"@, c.client_id@),
    ] + opt_pair("client_secret"@, c.secret) + match o.scopes {
        Some(v) => seq![("scope"@, join_with(strs_view(v@), seq![' ']))],
        None => seq![],
    }
}

impl ClientState {
    /// A client for `config`, refused when it has neither a client id nor a key.
    pub fn new(config: Config) -> (r: Result<ClientState, Error>)
        ensures
            match r {
                Ok(s) => {
                    &&& config.client_id@.len() > 0 || config.key@.len() > 0
                    &&& s.config == config
                    &&& s.metadata_cache is None
                    &&& s.key_cache is None
                    &&& s.key_cache_ttl == DEFAULT_KEY_CACHE_TTL_NANOS
                    &&& state_wf(s)
                },
                Err(e) => {
                    &&& config.client_id@.len() == 0 && config.key@.len() == 0
                    &&& e matches Error::InvalidConfig(m) && m@ == "BASE_IDP_CLIENT_ID is required"@
                },
            },
    {
        if config.client_id.as_str().is_empty() && config.key.as_str().is_empty() {
            return Err(Error::InvalidConfig(owned("BASE_IDP_CLIENT_ID is required")));
        }
        Ok(ClientState {
            config,
            metadata_cache: None,
            key_cache: None,
            key_cache_ttl: DEFAULT_KEY_CACHE_TTL_NANOS,
        })
    }

    /// Caches keys for `ttl_nanos` nanoseconds from now on.
    pub fn set_key_cache_ttl(&mut self, ttl_nanos: u128)
        requires
            state_wf(*old(self)),
        ensures
            *final(self) == (ClientState { key_cache_ttl: ttl_nanos, ..*old(self) }),
            state_wf(*final(self)),
    {
        self.key_cache_ttl = ttl_nanos;
    }

    /// The configuration, where it has been resolved already.
    pub fn resolved_config(&self) -> (r: Option<&Config>)
        ensures
            match resolved_lookup(*self) {
                Some(c) => r matches Some(x) && *x == c,
                None => r is None,
            },
    {
        if self.config.resolved {
            Some(&self.config)
        } else {
            None
        }
    }

    /// The issuer at which the registration is fetched, given the one the environment names.
    pub fn registration_issuer(&self, env_issuer: String) -> (r: String)
        ensures
            r@ == registration_issuer(self.config, env_issuer@),
    {
        if self.config.issuer.as_str().is_empty() {
            env_issuer
        } else {
            trim_end_slashes(self.config.issuer.as_str())
        }
    }

    /// The request that fetches the registration from `issuer`: a `POST` to
    /// `{issuer}/v1/client-config` with the client id and secret when a client id is
    /// configured, else a `GET` of `{issuer}/v1/client-config?key=` and the form-encoded key.
    pub fn client_config_request(&self, issuer: &str) -> (r: ClientConfigRequest)
        ensures
            self.config.client_id@.len() > 0 ==> (r matches ClientConfigRequest::Post {
                url,
                client_id,
                secret,
            } && url@ == issuer@ + "/v1/client-config"@ && client_id@ == self.config.client_id@
                && opt_view(secret) == opt_view(self.config.secret)),
            self.config.client_id@.len() == 0 ==> (r matches ClientConfigRequest::Get { url }
                && url@ == issuer@ + "/v1/client-config?key="@ + form_encode(self.config.key@)),
    {
        if !self.config.client_id.as_str().is_empty() {
            ClientConfigRequest::Post {
                url: concat(issuer, "/v1/client-config"),
                client_id: self.config.client_id.clone(),
                secret: clone_opt(&self.config.secret),
            }
        } else {
            let prefix = concat(issuer, "/v1/client-config?key=");
            let key = urlencoding(self.config.key.as_str());
            ClientConfigRequest::Get { url: concat(prefix.as_str(), key.as_str()) }
        }
    }

    /// Completes the configuration with the client registration.
    pub fn apply_client_config(&mut self, response: ClientConfigResponse)
        requires
            state_wf(*old(self)),
        ensures
            final(self).config@ == registered(old(self).config@, response),
            final(self).metadata_cache == old(self).metadata_cache,
            final(self).key_cache == old(self).key_cache,
            final(self).key_cache_ttl == old(self).key_cache_ttl,
            state_wf(*final(self)),
    {
        let ghost before = self.config@;
        let ClientConfigResponse {
            client_id,
            issuer,
            allowed_redirect_uris,
            allowed_scopes,
            confidential,
            ..
        } = response;
        self.config.issuer = trim_end_slashes(issuer.as_str());
        if self.config.key.as_str().is_empty() {
            self.config.key = client_id.clone();
        }
        self.config.client_id = client_id;
        self.config.confidential = confidential;
        self.config.allowed_scopes = clone_strings(&allowed_scopes);
        if self.config.redirect_uri.as_str().is_empty() {
            self.config.redirect_uri = if allowed_redirect_uris.len() > 0 {
                allowed_redirect_uris[0].clone()
            } else {
                String::new()
            };
        }
        if self.config.scopes.len() == 0 {
            self.config.scopes = allowed_scopes;
        }
        if self.config.audience.as_str().is_empty() {
            self.config.audience = owned(DEFAULT_AUDIENCE);
        }
        self.config.resolved = true;
        assert(self.config@.scopes =~= registered(before, response).scopes);
        assert(self.config@ =~= registered(before, response));
    }

    /// The authorization URL, once the configuration is resolved.
    pub fn authorize_url(&self, options: AuthorizeOptions) -> (r: Result<String, Error>)
        ensures
            !self.config.resolved ==> (r matches Err(Error::InvalidConfig(m)) && m@
                == "client not resolved; call resolve_config() first or use an async method"@),
            self.config.resolved ==> match url_with_query(
                authorize_endpoint_of(self.config),
                authorize_pairs(self.config, options),
            ) {
                Ok(u) => r matches Ok(s) && s@ == u,
                Err(m) => r matches Err(Error::InvalidConfig(e)) && e@ == m,
            },
    {
        if !self.config.resolved {
            return Err(
                Error::InvalidConfig(
                    owned("client not resolved; call resolve_config() first or use an async method"),
                ),
            );
        }
        build_authorize_url(&self.config, options)
    }

    /// The discovery document's address: the issuer without trailing slashes, then
    /// `/.well-known/square-identity`.
    pub fn discovery_endpoint(&self) -> (r: String)
        ensures
            r@ == strip_trailing(self.config.issuer@, '/') + "/.well-known/square-identity"@,
    {
        let issuer = trim_end_slashes(self.config.issuer.as_str());
        concat(issuer.as_str(), "/.well-known/square-identity")
    }

    /// The cached discovery document, unless a fresh one is forced.
    pub fn cached_metadata(&self, force: bool) -> (r: Option<&Metadata>)
        ensures
            match metadata_lookup(*self, force) {
                Some(m) => r matches Some(x) && *x == m,
                None => r is None,
            },
    {
        if force {
            None
        } else {
            match &self.metadata_cache {
                Some(m) => Some(m),
                None => None,
            }
        }
    }

    /// Remembers a fetched discovery document.
    pub fn store_metadata(&mut self, metadata: Metadata)
        requires
            state_wf(*old(self)),
        ensures
            *final(self) == (ClientState { metadata_cache: Some(metadata), ..*old(self) }),
            state_wf(*final(self)),
    {
        self.metadata_cache = Some(metadata);
    }

    /// The cached key set, unless a fresh one is forced or it has expired at `now`.
    pub fn cached_keys(&self, force: bool, now: u128) -> (r: Option<&PublicKeySet>)
        ensures
            match key_lookup(*self, force, now) {
                Some(k) => r matches Some(x) && *x == k,
                None => r is None,
            },
    {
        if force {
            return None;
        }
        match &self.key_cache {
            Some(entry) => {
                if now < entry.expires_at {
                    Some(&entry.keys)
                } else {
                    None
                }
            },
            None => None,
        }
    }

    /// Accepts a fetched key set: an empty one is refused, any other is cached until
    /// `now` plus the cache lifetime.
    pub fn accept_keys(&mut self, keys: PublicKeySet, now: u128) -> (r: Result<(), Error>)
        requires
            state_wf(*old(self)),
            now + old(self).key_cache_ttl <= u128::MAX,
        ensures
            keys.keys@.len() == 0 ==> (r matches Err(Error::KeyFetch(m)) && m@
                == "Base returned an empty public key set"@ && *final(self) == *old(self)),
            keys.keys@.len() > 0 ==> r is Ok && *final(self) == (ClientState {
                key_cache: Some(
                    KeyCacheEntry { keys, expires_at: (now + old(self).key_cache_ttl) as u128 },
                ),
                ..*old(self)
            }),
            state_wf(*final(self)),
    {
        if keys.keys.len() == 0 {
            return Err(Error::KeyFetch(owned("Base returned an empty public key set")));
        }
        let expires = now + self.key_cache_ttl;
        self.key_cache = Some(KeyCacheEntry { keys, expires_at: expires });
        Ok(())
    }

    /// The form of an authorization-code exchange; refused when the code is empty.
    pub fn exchange_code_form(&self, options: TokenOptions) -> (r: Result<
        Vec<(String, String)>,
        Error,
    >)
        ensures
            options.code@.len() == 0 ==> (r matches Err(Error::TokenExchange(m)) && m@
                == "authorization code is required"@),
            options.code@.len() > 0 ==> (r matches Ok(v) && pairs_view(v@) == exchange_pairs(
                self.config,
                options,
            )),
    {
        let ghost o = options;
        if options.code.as_str().is_empty() {
            return Err(Error::TokenExchange(owned("authorization code is required")));
        }
        let TokenOptions { code, code_verifier, redirect_uri } = options;
        let mut form: Vec<(String, String)> = Vec::new();
        form.push(name_value("grant_type", owned("authorization_code")));
        form.push(name_value("code", code));
        form.push(name_value("client_id", self.config.client_id.clone()));
        let redirect = match redirect_uri {
            Some(v) => v,
            None => self.config.redirect_uri.clone(),
        };
        form.push(name_value("redirect_uri", redirect));
        let ghost fixed = pairs_view(form@);
        if let Some(secret) = &self.config.secret {
            form.push(name_value("client_secret", secret.clone()));
        }
        let ghost with_secret = pairs_view(form@);
        assert(with_secret =~= fixed + opt_pair("client_secret"@, self.config.secret));
        if let Some(verifier) = code_verifier {
            form.push(name_value("code_verifier", verifier));
        }
        assert(pairs_view(form@) =~= with_secret + opt_pair("code_verifier"@, o.code_verifier));
        assert(pairs_view(form@) =~= exchange_pairs(self.config, o));
        Ok(form)
    }

    /// The form of a refresh; refused when the refresh token is empty.
    pub fn refresh_form(&self, options: RefreshOptions) -> (r: Result<Vec<(String, String)>, Error>)
        ensures
            options.refresh_token@.len() == 0 ==> (r matches Err(Error::TokenExchange(m)) && m@
                == "refresh token is required"@),
            options.refresh_token@.len() > 0 ==> (r matches Ok(v) && pairs_view(v@)
                == refresh_pairs(self.config, options)),
    {
        let ghost o = options;
        if options.refresh_token.as_str().is_empty() {
            return Err(Error::TokenExchange(owned("refresh token is required")));
        }
        let RefreshOptions { refresh_token, scopes } = options;
        let mut form: Vec<(String, String)> = Vec::new();
        form.push(name_value("grant_type", owned("refresh_token")));
        form.push(name_value("refresh_token", refresh_token));
        form.push(name_value("client_id", self.config.client_id.clone()));
        let ghost fixed = pairs_view(form@);
        if let Some(secret) = &self.config.secret {
            form.push(name_value("client_secret", secret.clone()));
        }
        let ghost with_secret = pairs_view(form@);
        assert(with_secret =~= fixed + opt_pair("client_secret"@, self.config.secret));
        if let Some(scopes) = scopes {
            form.push(name_value("scope", join_scopes(scopes.as_slice())));
        }
        assert(pairs_view(form@) =~= with_secret + match o.scopes {
            Some(v) => seq![("scope"@, join_with(strs_view(v@), seq![' ']))],
            None => seq![],
        });
        assert(pairs_view(form@) =~= refresh_pairs(self.config, o));
        Ok(form)
    }
}

/// A discovery document that was just stored is what the next unforced lookup answers,
/// and a forced lookup never answers from the cache.
pub proof fn lemma_metadata_read_after_write(s: ClientState, m: Metadata)
    ensures
        metadata_lookup(ClientState { metadata_cache: Some(m), ..s }, false) == Some(m),
        metadata_lookup(ClientState { metadata_cache: Some(m), ..s }, true) is None,
{
}

/// A key set accepted at `now` is what unforced lookups answer until the cache lifetime
/// has passed, and nothing afterwards; a forced lookup never answers from the cache.
pub proof fn lemma_keys_read_after_write(s: ClientState, keys: PublicKeySet, now: u128, later: u128)
    requires
        now + s.key_cache_ttl <= u128::MAX,
    ensures
        ({
            let after = ClientState {
                key_cache: Some(
                    KeyCacheEntry { keys, expires_at: (now + s.key_cache_ttl) as u128 },
                ),
                ..s
            };
            &&& key_lookup(after, false, later) == if later < now + s.key_cache_ttl {
                Some(keys)
            } else {
                None
            }
            &&& key_lookup(after, true, later) is None
        }),
{
}

/// A configuration completed by a registration is resolved and has an audience, and
/// every value set explicitly in the configuration is kept.
pub proof fn lemma_registration_keeps_explicit_settings(c: ConfigView, r: ClientConfigResponse)
    ensures
        registered(c, r).resolved,
        registered(c, r).audience.len() > 0,
        c.key.len() > 0 ==> registered(c, r).key == c.key,
        c.redirect_uri.len() > 0 ==> registered(c, r).redirect_uri == c.redirect_uri,
        c.scopes.len() > 0 ==> registered(c, r).scopes == c.scopes,
        c.audience.len() > 0 ==> registered(c, r).audience == c.audience,
        registered(c, r).secret == c.secret,
        registered(c, r).required_scope == c.required_scope,
{
    reveal_strlit("square-experience");
}

/// Once resolved, a configuration is answered as it stands, with no further request.
pub proof fn lemma_resolution_is_final(s: ClientState)
    requires
        s.config.resolved,
    ensures
        resolved_lookup(s) == Some(s.config),
{
}

/// Whether some pair of a form carries the name `name`.
pub open spec fn has_field(form: Seq<(Seq<char>, Seq<char>)>, name: Seq<char>) -> bool {
    exists|i: int| 0 <= i < form.len() && (#[trigger] form[i]).0 == name
}

proof fn lemma_field_names_distinct()
    ensures
        "code_verifier"@ != "grant_type"@,
        "code_verifier"@ != "code"@,
        "code_verifier"@ != "client_id"@,
        "code_verifier"@ != "redirect_uri"@,
        "code_verifier"@ != "client_secret"@,
        "client_secret"@ != "grant_type"@,
        "client_secret"@ != "code"@,
        "client_secret"@ != "client_id"@,
        "client_secret"@ != "redirect_uri"@,
        "client_secret"@ != "refresh_token"@,
        "client_secret"@ != "scope"@,
{
    reveal_strlit("code_verifier");
    reveal_strlit("grant_type");
    reveal_strlit("code");
    reveal_strlit("client_id");
    reveal_strlit("redirect_uri");
    reveal_strlit("client_secret");
    reveal_strlit("refresh_token");
    reveal_strlit("scope");
    assert("code_verifier"@.len() != "grant_type"@.len());
    assert("code_verifier"@.len() != "code"@.len());
    assert("code_verifier"@.len() != "client_id"@.len());
    assert("code_verifier"@.len() != "redirect_uri"@.len());
    assert("code_verifier"@[1] != "client_secret"@[1]);
    assert("client_secret"@.len() != "grant_type"@.len());
    assert("client_secret"@.len() != "code"@.len());
    assert("client_secret"@.len() != "client_id"@.len());
    assert("client_secret"@.len() != "redirect_uri"@.len());
    assert("client_secret"@[0] != "refresh_token"@[0]);
    assert("client_secret"@.len() != "scope"@.len());
}

/// The exchange form sends the code and client id, the client secret exactly when one is
/// configured, and the PKCE verifier exactly when one is given, each independently of
/// the other.
pub proof fn lemma_exchange_form_fields(c: Config, o: TokenOptions)
    ensures
        exchange_pairs(c, o).contains(("grant_type"@, "authorization_code"@)),
        exchange_pairs(c, o).contains(("code"@, o.code@)),
        exchange_pairs(c, o).contains(("client_id"@, c.client_id@)),
        exchange_pairs(c, o).contains(
            ("redirect_uri"@, or_default(opt_view(o.redirect_uri), c.redirect_uri@)),
        ),
        o.code_verifier is Some ==> exchange_pairs(c, o).contains(
            ("code_verifier"@, o.code_verifier->0@),
        ),
        o.code_verifier is None ==> !has_field(exchange_pairs(c, o), "code_verifier"@),
        c.secret is Some ==> exchange_pairs(c, o).contains(("client_secret"@, c.secret->0@)),
        c.secret is None ==> !has_field(exchange_pairs(c, o), "client_secret"@),
{
    lemma_field_names_distinct();
    let fixed = seq![
        ("grant_type"@, "authorization_code"@),
        ("code"@, o.code@),
        ("client_id"@, c.client_id@),
        ("redirect_uri"@, or_default(opt_view(o.redirect_uri), c.redirect_uri@)),
    ];
    let sec = opt_pair("client_secret"@, c.secret);
    let ver = opt_pair("code_verifier"@, o.code_verifier);
    let all = exchange_pairs(c, o);
    assert(all == fixed + sec + ver);
    assert(fixed[0] == ("grant_type"@, "authorization_code"@));
    assert(fixed[1] == ("code"@, o.code@));
    assert(fixed[2] == ("client_id"@, c.client_id@));
    lemma_contains_concat(fixed, sec, fixed[0]);
    lemma_contains_concat(fixed + sec, ver, fixed[0]);
    lemma_contains_concat(fixed, sec, fixed[1]);
    lemma_contains_concat(fixed + sec, ver, fixed[1]);
    lemma_contains_concat(fixed, sec, fixed[2]);
    lemma_contains_concat(fixed + sec, ver, fixed[2]);
    lemma_contains_concat(fixed, sec, fixed[3]);
    lemma_contains_concat(fixed + sec, ver, fixed[3]);
    if c.secret is Some {
        assert(sec[0] == ("client_secret"@, c.secret->0@));
        lemma_contains_concat(fixed, sec, sec[0]);
        lemma_contains_concat(fixed + sec, ver, sec[0]);
    }
    if o.code_verifier is Some {
        assert(ver[0] == ("code_verifier"@, o.code_verifier->0@));
        lemma_contains_concat(fixed + sec, ver, ver[0]);
    } else {
        assert forall|i: int| 0 <= i < all.len() implies (#[trigger] all[i]).0 != "code_verifier"@ by {
            if i >= 4 {
                assert(all[i] == sec[i - 4]);
            }
        }
    }
    if c.secret is None {
        assert forall|i: int| 0 <= i < all.len() implies (#[trigger] all[i]).0 != "client_secret"@ by {
            if i >= 4 {
                assert(all[i] == ver[i - 4]);
            }
        }
    }
}

/// The refresh form sends the refresh token and client id, the client secret exactly
/// when one is configured (as the exchange form does), and the joined scopes when given.
pub proof fn lemma_refresh_form_fields(c: Config, o: RefreshOptions)
    ensures
        refresh_pairs(c, o).contains(("grant_type"@, "refresh_token"@)),
        refresh_pairs(c, o).contains(("refresh_token"@, o.refresh_token@)),
        refresh_pairs(c, o).contains(("client_id"@, c.client_id@)),
        c.secret is Some ==> refresh_pairs(c, o).contains(("client_secret"@, c.secret->0@)),
        c.secret is None ==> !has_field(refresh_pairs(c, o), "client_secret"@),
        o.scopes is Some ==> refresh_pairs(c, o).contains(
            ("scope"@, join_with(strs_view(o.scopes->0@), seq![' '])),
        ),
{
    lemma_field_names_distinct();
    let fixed = seq![
        ("grant_type"@, "refresh_token"@),
        ("refresh_token"@, o.refresh_token@),
        ("client_id"@, c.client_id@),
    ];
    let sec = opt_pair("client_secret"@, c.secret);
    let sc: Seq<(Seq<char>, Seq<char>)> = match o.scopes {
        Some(v) => seq![("scope"@, join_with(strs_view(v@), seq![' ']))],
        None => seq![],
    };
    let all = refresh_pairs(c, o);
    assert(all == fixed + sec + sc);
    assert(fixed[0] == ("grant_type"@, "refresh_token"@));
    assert(fixed[1] == ("refresh_token"@, o.refresh_token@));
    assert(fixed[2] == ("client_id"@, c.client_id@));
    lemma_contains_concat(fixed, sec, fixed[0]);
    lemma_contains_concat(fixed + sec, sc, fixed[0]);
    lemma_contains_concat(fixed, sec, fixed[1]);
    lemma_contains_concat(fixed + sec, sc, fixed[1]);
    lemma_contains_concat(fixed, sec, fixed[2]);
    lemma_contains_concat(fixed + sec, sc, fixed[2]);
    if c.secret is Some {
        assert(sec[0] == ("client_secret"@, c.secret->0@));
        lemma_contains_concat(fixed, sec, sec[0]);
        lemma_contains_concat(fixed + sec, sc, sec[0]);
    } else {
        assert forall|i: int| 0 <= i < all.len() implies (#[trigger] all[i]).0 != "client_secret"@ by {
            if i >= 3 {
                assert(all[i] == sc[i - 3]);
            }
        }
    }
    if o.scopes is Some {
        assert(sc[0] == ("scope"@, join_with(strs_view(o.scopes->0@), seq![' '])));
        lemma_contains_concat(fixed + sec, sc, sc[0]);
    }
}

} // verus!
