use base_idp::authorize::{authorize_endpoint, authorize_query_pairs, invalid_config_on_error};
use base_idp::client::DEFAULT_KEY_CACHE_TTL_NANOS;
use base_idp::{
    authorize_url, AuthorizeOptions, ClientConfigRequest, ClientConfigResponse, ClientState,
    Config, Error, Metadata, PublicKey, PublicKeySet, RefreshOptions, TokenOptions,
    DEFAULT_AUDIENCE,
};

fn strings(v: &[&str]) -> Vec<String> {
    v.iter().map(|s| s.to_string()).collect()
}

fn pairs(v: &[(&str, &str)]) -> Vec<(String, String)> {
    v.iter().map(|(k, v)| (k.to_string(), v.to_string())).collect()
}

fn resolved_config() -> Config {
    let mut c = Config::new("anon", "https://id.example.com/");
    c.client_id = "console".to_string();
    c.redirect_uri = "http://localhost:3010/api/auth/callback".to_string();
    c.scopes = strings(&["openid", "profile"]);
    c.resolved = true;
    c
}

fn response() -> ClientConfigResponse {
    ClientConfigResponse {
        client_id: "console-gateway".to_string(),
        anon_key: "anon".to_string(),
        product: "console".to_string(),
        display_name: "Base Console".to_string(),
        app_domain: "console.example.com".to_string(),
        logo_url: None,
        issuer: "https://auth.example.com//".to_string(),
        authorization_endpoint: "https://auth.example.com/oauth2/authorize".to_string(),
        token_endpoint: "https://auth.example.com/oauth2/token".to_string(),
        paseto_public_key_endpoint: "https://auth.example.com/keys".to_string(),
        allowed_redirect_uris: strings(&["https://console.example.com/cb", "https://other/cb"]),
        allowed_scopes: strings(&["openid", "console:manage"]),
        allowed_auth_methods: strings(&["password"]),
        requested_claims: strings(&["email"]),
        confidential: true,
        status: "active".to_string(),
    }
}

fn metadata() -> Metadata {
    Metadata {
        issuer: "https://auth.example.com".to_string(),
        authorization_endpoint: "https://auth.example.com/oauth2/authorize".to_string(),
        token_endpoint: "https://auth.example.com/oauth2/token".to_string(),
        paseto_public_key_endpoint: "https://auth.example.com/keys".to_string(),
        token_format: "paseto".to_string(),
        paseto_purpose: "public".to_string(),
        grant_types_supported: strings(&["authorization_code"]),
        code_challenge_methods_supported: strings(&["S256"]),
        token_endpoint_auth_methods_supported: vec![],
    }
}

fn key_set(n: usize) -> PublicKeySet {
    PublicKeySet {
        keys: (0..n)
            .map(|i| PublicKey {
                kid: format!("k{i}"),
                alg: "v4.public".to_string(),
                kty: "OKP".to_string(),
                crv: "Ed25519".to_string(),
                public_key_base64: "AAAA".to_string(),
                implicit_assertion: None,
            })
            .collect(),
    }
}

#[test]
fn new_client_needs_a_client_id_or_a_key() {
    let mut c = Config::new("", "https://i");
    match ClientState::new(c.clone()) {
        Err(Error::InvalidConfig(m)) => assert_eq!(m, "BASE_IDP_CLIENT_ID is required"),
        _ => panic!("expected an invalid configuration"),
    }
    c.client_id = "console".to_string();
    let s = ClientState::new(c).ok().unwrap();
    assert_eq!(s.key_cache_ttl, 300_000_000_000);
    assert_eq!(s.key_cache_ttl, DEFAULT_KEY_CACHE_TTL_NANOS);
    assert!(s.metadata_cache.is_none());
    assert!(s.key_cache.is_none());
    let mut s = ClientState::new(Config::new("anon", "https://i")).ok().unwrap();
    s.set_key_cache_ttl(5);
    assert_eq!(s.key_cache_ttl, 5);
}

#[test]
fn registration_request_posts_when_a_client_id_is_known() {
    let mut c = Config::new("anon", "https://i/");
    c.client_id = "console".to_string();
    c.secret = Some("s3cret".to_string());
    let s = ClientState::new(c).ok().unwrap();
    let issuer = s.registration_issuer("https://env".to_string());
    assert_eq!(issuer, "https://i");
    match s.client_config_request(&issuer) {
        ClientConfigRequest::Post { url, client_id, secret } => {
            assert_eq!(url, "https://i/v1/client-config");
            assert_eq!(client_id, "console");
            assert_eq!(secret.as_deref(), Some("s3cret"));
        }
        ClientConfigRequest::Get { .. } => panic!("expected a POST"),
    }
}

#[test]
fn registration_request_gets_with_the_encoded_key_otherwise() {
    let s = ClientState::new(Config::new("a b&c/é*", "")).ok().unwrap();
    let issuer = s.registration_issuer("https://env".to_string());
    assert_eq!(issuer, "https://env");
    match s.client_config_request(&issuer) {
        ClientConfigRequest::Get { url } => {
            assert_eq!(url, "https://env/v1/client-config?key=a+b%26c%2F%C3%A9*")
        }
        ClientConfigRequest::Post { .. } => panic!("expected a GET"),
    }
}

#[test]
fn registration_completes_an_empty_configuration() {
    let mut c = Config::new("", "https://old");
    c.client_id = "x".to_string();
    let mut s = ClientState::new(c).ok().unwrap();
    s.apply_client_config(response());
    let c = s.resolved_config().unwrap();
    assert_eq!(c.issuer, "https://auth.example.com");
    assert_eq!(c.key, "console-gateway");
    assert_eq!(c.client_id, "console-gateway");
    assert!(c.confidential);
    assert_eq!(c.allowed_scopes, strings(&["openid", "console:manage"]));
    assert_eq!(c.redirect_uri, "https://console.example.com/cb");
    assert_eq!(c.scopes, strings(&["openid", "console:manage"]));
    assert_eq!(c.audience, DEFAULT_AUDIENCE);
    assert_eq!(c.audience, "square-experience");
    assert!(c.resolved);
}

#[test]
fn registration_keeps_explicit_settings() {
    let mut c = Config::new("anon", "https://old");
    c.redirect_uri = "https://mine/cb".to_string();
    c.scopes = strings(&["projects:read"]);
    c.audience = "aud".to_string();
    c.secret = Some("s".to_string());
    c.required_scope = Some("projects:read".to_string());
    let mut s = ClientState::new(c).ok().unwrap();
    assert!(s.resolved_config().is_none());
    let mut r = response();
    r.allowed_redirect_uris = vec![];
    s.apply_client_config(r);
    let c = s.resolved_config().unwrap();
    assert_eq!(c.key, "anon");
    assert_eq!(c.redirect_uri, "https://mine/cb");
    assert_eq!(c.scopes, strings(&["projects:read"]));
    assert_eq!(c.audience, "aud");
    assert_eq!(c.secret.as_deref(), Some("s"));
    assert_eq!(c.required_scope.as_deref(), Some("projects:read"));
}

#[test]
fn registration_without_redirect_uris_leaves_redirect_empty() {
    let mut s = ClientState::new(Config::new("anon", "https://old")).ok().unwrap();
    let mut r = response();
    r.allowed_redirect_uris = vec![];
    s.apply_client_config(r);
    assert_eq!(s.config.redirect_uri, "");
}

#[test]
fn authorize_url_needs_a_resolved_configuration() {
    let s = ClientState::new(Config::new("anon", "https://i")).ok().unwrap();
    match s.authorize_url(AuthorizeOptions::default()) {
        Err(Error::InvalidConfig(m)) => assert_eq!(
            m,
            "client not resolved; call resolve_config() first or use an async method"
        ),
        _ => panic!("expected an invalid configuration"),
    }
}

#[test]
fn authorize_url_with_defaults() {
    let s = ClientState::new(resolved_config()).ok().unwrap();
    let url = s.authorize_url(AuthorizeOptions::default()).ok().unwrap();
    assert_eq!(
        url,
        "https://id.example.com/oauth2/authorize?response_type=code&client_id=console&redirect_uri=http%3A%2F%2Flocalhost%3A3010%2Fapi%2Fauth%2Fcallback&scope=openid+profile"
    );
}

#[test]
fn authorize_url_with_every_option() {
    let options = AuthorizeOptions {
        response_type: Some("token".to_string()),
        state: Some("st ate".to_string()),
        nonce: Some("n1".to_string()),
        scopes: Some(strings(&["email"])),
        redirect_uri: Some("https://r/cb".to_string()),
        auth_session_id: Some("ignored".to_string()),
        code_challenge: Some("abc".to_string()),
        code_challenge_method: None,
        additional_parameters: pairs(&[("prompt", "login"), ("", "x"), ("y", ""), ("a=b", "c&d")]),
    };
    let url = authorize_url(&resolved_config(), options).ok().unwrap();
    assert_eq!(
        url,
        "https://id.example.com/oauth2/authorize?response_type=token&client_id=console&redirect_uri=https%3A%2F%2Fr%2Fcb&scope=email&state=st+ate&nonce=n1&code_challenge=abc&code_challenge_method=S256&prompt=login&a%3Db=c%26d"
    );
}

#[test]
fn authorize_query_pairs_lists_the_parameters_in_order() {
    let options = AuthorizeOptions {
        code_challenge: Some("c".to_string()),
        code_challenge_method: Some("plain".to_string()),
        ..Default::default()
    };
    assert_eq!(
        authorize_query_pairs(&resolved_config(), options),
        pairs(&[
            ("response_type", "code"),
            ("client_id", "console"),
            ("redirect_uri", "http://localhost:3010/api/auth/callback"),
            ("scope", "openid profile"),
            ("code_challenge", "c"),
            ("code_challenge_method", "plain"),
        ])
    );
    assert_eq!(authorize_endpoint(&resolved_config()), "https://id.example.com/oauth2/authorize");
}

#[test]
fn authorize_url_reports_an_unparsable_issuer() {
    let mut c = resolved_config();
    c.issuer = "not a url".to_string();
    match authorize_url(&c, AuthorizeOptions::default()) {
        Err(Error::InvalidConfig(m)) => assert_eq!(m, "relative URL without a base"),
        _ => panic!("expected an invalid configuration"),
    }
    match invalid_config_on_error(Err("boom".to_string())) {
        Err(Error::InvalidConfig(m)) => assert_eq!(m, "boom"),
        _ => panic!("expected an invalid configuration"),
    }
    assert_eq!(invalid_config_on_error(Ok("u".to_string())).ok().unwrap(), "u");
}

#[test]
fn discovery_endpoint_follows_the_issuer() {
    let s = ClientState::new(Config::new("anon", "https://auth.example.com/")).ok().unwrap();
    assert_eq!(s.discovery_endpoint(), "https://auth.example.com/.well-known/square-identity");
}

#[test]
fn metadata_is_read_back_after_it_is_stored() {
    let mut s = ClientState::new(Config::new("anon", "https://i")).ok().unwrap();
    assert!(s.cached_metadata(false).is_none());
    s.store_metadata(metadata());
    assert_eq!(s.cached_metadata(false).unwrap().token_endpoint, "https://auth.example.com/oauth2/token");
    assert!(s.cached_metadata(true).is_none());
}

#[test]
fn keys_are_cached_until_their_lifetime_ends() {
    let mut s = ClientState::new(Config::new("anon", "https://i")).ok().unwrap();
    s.set_key_cache_ttl(100);
    assert!(s.cached_keys(false, 0).is_none());
    assert!(s.accept_keys(key_set(2), 1_000).is_ok());
    assert_eq!(s.cached_keys(false, 1_000).unwrap().keys.len(), 2);
    assert_eq!(s.cached_keys(false, 1_099).unwrap().keys[1].kid, "k1");
    assert!(s.cached_keys(false, 1_100).is_none());
    assert!(s.cached_keys(true, 1_000).is_none());
}

#[test]
fn an_empty_key_set_is_refused_and_not_cached() {
    let mut s = ClientState::new(Config::new("anon", "https://i")).ok().unwrap();
    assert!(s.accept_keys(key_set(1), 0).is_ok());
    match s.accept_keys(key_set(0), 10) {
        Err(Error::KeyFetch(m)) => assert_eq!(m, "Base returned an empty public key set"),
        _ => panic!("expected a key fetch error"),
    }
    assert_eq!(s.cached_keys(false, 10).unwrap().keys.len(), 1);
}

#[test]
fn exchange_code_form_lists_the_grant() {
    let mut c = resolved_config();
    c.secret = Some("sec".to_string());
    let s = ClientState::new(c).ok().unwrap();
    let form = s
        .exchange_code_form(TokenOptions {
            code: "abc".to_string(),
            code_verifier: Some("ver".to_string()),
            redirect_uri: None,
        })
        .ok()
        .unwrap();
    assert_eq!(
        form,
        pairs(&[
            ("grant_type", "authorization_code"),
            ("code", "abc"),
            ("client_id", "console"),
            ("redirect_uri", "http://localhost:3010/api/auth/callback"),
            ("client_secret", "sec"),
            ("code_verifier", "ver"),
        ])
    );
    let form = s
        .exchange_code_form(TokenOptions {
            code: "abc".to_string(),
            code_verifier: None,
            redirect_uri: Some("https://r".to_string()),
        })
        .ok()
        .unwrap();
    assert_eq!(form[3], ("redirect_uri".to_string(), "https://r".to_string()));
    assert_eq!(form.len(), 5);
}

#[test]
fn exchange_code_form_refuses_an_empty_code() {
    let s = ClientState::new(resolved_config()).ok().unwrap();
    match s.exchange_code_form(TokenOptions::default()) {
        Err(Error::TokenExchange(m)) => assert_eq!(m, "authorization code is required"),
        _ => panic!("expected a token exchange error"),
    }
}

#[test]
fn refresh_form_lists_the_grant() {
    let s = ClientState::new(resolved_config()).ok().unwrap();
    let form = s
        .refresh_form(RefreshOptions {
            refresh_token: "rt".to_string(),
            scopes: Some(strings(&["openid", "email"])),
        })
        .ok()
        .unwrap();
    assert_eq!(
        form,
        pairs(&[
            ("grant_type", "refresh_token"),
            ("refresh_token", "rt"),
            ("client_id", "console"),
            ("scope", "openid email"),
        ])
    );
    match s.refresh_form(RefreshOptions::default()) {
        Err(Error::TokenExchange(m)) => assert_eq!(m, "refresh token is required"),
        _ => panic!("expected a token exchange error"),
    }
}

#[test]
fn an_encoded_key_holds_only_safe_characters() {
    let s = ClientState::new(Config::new("k=1&x=#y ?z/é", "")).ok().unwrap();
    match s.client_config_request("https://i") {
        ClientConfigRequest::Get { url } => {
            let key = url.strip_prefix("https://i/v1/client-config?key=").unwrap();
            assert_eq!(key, "k%3D1%26x%3D%23y+%3Fz%2F%C3%A9");
            assert!(key.chars().all(|c| c.is_ascii_alphanumeric() || "*-._+%".contains(c)));
        }
        ClientConfigRequest::Post { .. } => panic!("expected a GET"),
    }
}

#[test]
fn a_resolved_configuration_is_answered_as_it_stands() {
    let mut s = ClientState::new(Config::new("anon", "https://i")).ok().unwrap();
    s.apply_client_config(response());
    let first = s.resolved_config().unwrap().clone();
    let second = s.resolved_config().unwrap();
    assert_eq!(first.client_id, second.client_id);
    assert_eq!(first.issuer, second.issuer);
}
