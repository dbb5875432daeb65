use base64::engine::general_purpose::{STANDARD, URL_SAFE_NO_PAD};
use base64::Engine;
use base_idp::claims::{
    validate_claims_with_times, MAX_DELTA_SECS, MAX_UTC_SECS, MIN_UTC_SECS,
};
use base_idp::pae::{le64_bytes, pre_auth_encode};
use base_idp::paseto::{
    decode_base64_flexible, decoded_sections, first_decoded, signature_verdict, token_sections,
};
use base_idp::{
    bearer_token, check_footer, decode_token, principal_from_claims, select_key, validate_claims,
    verify_signature, AccessClaims, AccountContext, Config, Error, PublicKey, PublicKeySet,
    UtcTime, VerifyOptions, DEFAULT_IMPLICIT_ASSERTION,
};
use ed25519_dalek::{Signer, SigningKey};

fn invalid(r: Result<impl std::fmt::Debug, Error>) -> String {
    match r {
        Err(Error::InvalidToken(m)) => m,
        other => panic!("expected an invalid token, got {other:?}"),
    }
}

fn le64(n: u64) -> Vec<u8> {
    n.to_le_bytes().to_vec()
}

fn signing_key() -> SigningKey {
    SigningKey::from_bytes(&[7u8; 32])
}

fn public_key(kid: &str) -> PublicKey {
    PublicKey {
        kid: kid.to_string(),
        alg: "v4.public".to_string(),
        kty: "OKP".to_string(),
        crv: "Ed25519".to_string(),
        public_key_base64: STANDARD.encode(signing_key().verifying_key().to_bytes()),
        implicit_assertion: None,
    }
}

fn pae(pieces: &[&[u8]]) -> Vec<u8> {
    let mut out = le64(pieces.len() as u64);
    for p in pieces {
        out.extend_from_slice(&le64(p.len() as u64));
        out.extend_from_slice(p);
    }
    out
}

fn signed_token(message: &[u8], footer: &[u8], implicit: &str) -> String {
    let signed = pae(&[b"v4.public.", message, footer, implicit.as_bytes()]);
    let sig = signing_key().sign(&signed).to_bytes();
    let mut payload = message.to_vec();
    payload.extend_from_slice(&sig);
    format!("v4.public.{}.{}", URL_SAFE_NO_PAD.encode(payload), URL_SAFE_NO_PAD.encode(footer))
}

fn claims() -> AccessClaims {
    AccessClaims {
        iss: "https://auth.example.com".to_string(),
        sub: "user-1".to_string(),
        aud: "square-experience".to_string(),
        exp: "2030-01-01T00:00:00Z".to_string(),
        nbf: "2020-01-01T00:00:00Z".to_string(),
        iat: "2020-01-01T00:00:00Z".to_string(),
        jti: "j".to_string(),
        gid: "g-1".to_string(),
        email: Some("u@example.com".to_string()),
        name: None,
        token_use: "access".to_string(),
        sid: "s-1".to_string(),
        ctx: AccountContext { kind: "personal".to_string(), ..Default::default() },
        role: "member".to_string(),
        ent: vec![],
        ev: None,
        aal: 1,
        amr: vec![],
        azp: None,
        scp: vec!["projects:read".to_string(), "openid".to_string()],
    }
}

fn config() -> Config {
    Config::new("anon", "https://auth.example.com/")
}

fn at(secs: i64) -> UtcTime {
    UtcTime { secs, nanos: 0 }
}

#[test]
fn bearer_token_reads_the_token() {
    assert_eq!(bearer_token(Some("Bearer abc.def")).unwrap(), "abc.def");
    assert_eq!(bearer_token(Some("  bEaReR\ttok  ")).unwrap(), "tok");
}

#[test]
fn bearer_token_refuses_other_headers() {
    for h in [None, Some(""), Some("Bearer"), Some("Basic abc"), Some("Bearer a b"), Some("Bearerx a")] {
        assert!(matches!(bearer_token(h), Err(Error::MissingBearer)), "{h:?}");
    }
}

#[test]
fn token_sections_need_v4_public_and_four_parts() {
    let (p, f) = token_sections("v4.public.pay.foot").unwrap();
    assert_eq!((p.as_str(), f.as_str()), ("pay", "foot"));
    let (p, f) = token_sections("v4.public..").unwrap();
    assert_eq!((p.as_str(), f.as_str()), ("", ""));
    for t in ["v3.public.a.b", "v4.local.a.b", "v4.public.a", "v4.public.a.b.c", ""] {
        assert_eq!(invalid(token_sections(t)), "token is not PASETO v4.public");
    }
}

#[test]
fn decode_token_reports_each_failure() {
    assert_eq!(invalid(decode_token("v4.public.a")), "token is not PASETO v4.public");
    assert!(invalid(decode_token("v4.public.@@.e30")).starts_with("decode payload: "));
    let long = URL_SAFE_NO_PAD.encode([1u8; 65]);
    assert!(invalid(decode_token(&format!("v4.public.{long}.@@"))).starts_with("decode footer: "));
    let short = URL_SAFE_NO_PAD.encode([1u8; 64]);
    assert_eq!(invalid(decode_token(&format!("v4.public.{short}.e30"))), "payload is too short");
    let d = decode_token(&format!("v4.public.{long}.e30")).unwrap();
    assert_eq!(d.payload, vec![1u8; 65]);
    assert_eq!(d.footer, b"{}".to_vec());
}

#[test]
fn decoded_sections_orders_its_checks() {
    assert_eq!(invalid(decoded_sections(Err("p".into()), Err("f".into()))), "decode payload: p");
    assert_eq!(invalid(decoded_sections(Ok(vec![0; 65]), Err("f".into()))), "decode footer: f");
    assert_eq!(invalid(decoded_sections(Ok(vec![0; 3]), Ok(vec![]))), "payload is too short");
    assert!(decoded_sections(Ok(vec![0; 65]), Ok(vec![])).is_ok());
}

#[test]
fn check_footer_needs_kid_algorithm_and_type() {
    let s = |v: &str| Some(v.to_string());
    assert_eq!(check_footer(s("k1"), s("v4.public"), s("paseto")).unwrap(), "k1");
    assert_eq!(invalid(check_footer(None, s("v4.public"), s("paseto"))), "footer is missing kid");
    assert_eq!(
        invalid(check_footer(s("k1"), s("v4.local"), s("paseto"))),
        "footer is not a Square v4.public footer"
    );
    assert_eq!(
        invalid(check_footer(s("k1"), s("v4.public"), None)),
        "footer is not a Square v4.public footer"
    );
}

#[test]
fn select_key_takes_the_first_fitting_key() {
    let mut wrong_alg = public_key("k1");
    wrong_alg.alg = "v4.local".to_string();
    let mut second = public_key("k1");
    second.kty = "second".to_string();
    let set = PublicKeySet { keys: vec![public_key("k0"), wrong_alg, second, public_key("k1")] };
    assert_eq!(select_key(&set, "k1").unwrap().kty, "second");
    assert_eq!(
        invalid(select_key(&set, "k9")),
        "key id k9 is not present in the Base key set"
    );
}

#[test]
fn flexible_base64_accepts_the_four_forms() {
    assert_eq!(decode_base64_flexible("-_8").unwrap(), vec![0xfb, 0xff]);
    assert_eq!(decode_base64_flexible("-_8=").unwrap(), vec![0xfb, 0xff]);
    assert_eq!(decode_base64_flexible("+/8").unwrap(), vec![0xfb, 0xff]);
    assert_eq!(decode_base64_flexible("+/8=").unwrap(), vec![0xfb, 0xff]);
    assert_eq!(invalid(decode_base64_flexible("!!")), "decode public key failed");
    assert_eq!(
        first_decoded(Err("a".into()), Err("b".into()), Ok(vec![3]), Ok(vec![4])).unwrap(),
        vec![3]
    );
}

#[test]
fn pre_auth_encoding_matches_the_paseto_vectors() {
    assert_eq!(pre_auth_encode(&vec![]), vec![0; 8]);
    assert_eq!(pre_auth_encode(&vec![vec![]]), [le64(1), le64(0)].concat());
    assert_eq!(
        pre_auth_encode(&vec![b"test".to_vec()]),
        [le64(1), le64(4), b"test".to_vec()].concat()
    );
    assert_eq!(le64_bytes(0x0102030405060708), vec![8, 7, 6, 5, 4, 3, 2, 1]);
    let pieces = vec![b"ab".to_vec(), vec![], b"xyz".to_vec()];
    assert_eq!(pre_auth_encode(&pieces).len(), 8 + (8 + 2) + 8 + (8 + 3));
}

#[test]
fn a_signed_token_verifies_and_a_tampered_one_does_not() {
    let footer = br#"{"kid":"k1","alg":"v4.public","typ":"paseto"}"#;
    let token = signed_token(br#"{"sub":"user-1"}"#, footer, DEFAULT_IMPLICIT_ASSERTION);
    let decoded = decode_token(&token).unwrap();
    assert_eq!(decoded.footer, footer.to_vec());
    let key = public_key("k1");
    assert!(verify_signature(&key, &decoded, None).is_ok());
    assert_eq!(
        invalid(verify_signature(&key, &decoded, Some("other"))),
        "signature verification failed"
    );
    let mut tampered = decode_token(&token).unwrap();
    tampered.payload[0] ^= 1;
    assert_eq!(invalid(verify_signature(&key, &tampered, None)), "signature verification failed");
    let custom = signed_token(b"message", footer, "custom");
    assert!(verify_signature(&key, &decode_token(&custom).unwrap(), Some("custom")).is_ok());
}

#[test]
fn unusable_keys_are_reported() {
    let decoded = decode_token(&signed_token(b"m", b"{}", DEFAULT_IMPLICIT_ASSERTION)).unwrap();
    let mut key = public_key("k1");
    key.public_key_base64 = STANDARD.encode([1u8; 31]);
    assert_eq!(invalid(verify_signature(&key, &decoded, None)), "Ed25519 public key has invalid size");
    key.public_key_base64 = "***".to_string();
    assert_eq!(invalid(verify_signature(&key, &decoded, None)), "decode public key failed");
    let not_a_point = [
        0x02u8, 0, 0, 0, 0, 0, 0, 0, 0, 0, 0, 0, 0, 0, 0, 0, 0, 0, 0, 0, 0, 0, 0, 0, 0, 0, 0, 0, 0,
        0, 0, 0,
    ];
    key.public_key_base64 = STANDARD.encode(not_a_point);
    assert!(invalid(verify_signature(&key, &decoded, None)).starts_with("invalid Ed25519 public key: "));
    assert_eq!(invalid(signature_verdict(Err("bad".into()))), "invalid Ed25519 public key: bad");
    assert!(signature_verdict(Ok(true)).is_ok());
}

#[test]
fn claims_pass_when_everything_matches() {
    let options = VerifyOptions { required_scope: Some("projects:read".to_string()), ..Default::default() };
    assert!(validate_claims(&claims(), &config(), &options, at(1_700_000_000)).is_ok());
}

#[test]
fn claims_are_checked_in_order() {
    let now = at(1_700_000_000);
    let o = VerifyOptions::default();
    let mut c = claims();
    c.token_use = "refresh".to_string();
    assert_eq!(invalid(validate_claims(&c, &config(), &o, now)), "token_use must be access");
    let mut c = claims();
    c.aud = "other".to_string();
    assert_eq!(invalid(validate_claims(&c, &config(), &o, now)), "issuer or audience mismatch");
    let mut c = claims();
    c.iss = "https://auth.example.com/".to_string();
    assert_eq!(invalid(validate_claims(&c, &config(), &o, now)), "issuer or audience mismatch");
    let mut c = claims();
    c.ctx.kind = String::new();
    assert_eq!(invalid(validate_claims(&c, &config(), &o, now)), "required identity claims are missing");
    let mut c = claims();
    c.exp = "tomorrow".to_string();
    assert!(invalid(validate_claims(&c, &config(), &o, now)).starts_with("invalid exp: "));
    let mut c = claims();
    c.nbf = "yesterday".to_string();
    assert!(invalid(validate_claims(&c, &config(), &o, now)).starts_with("invalid nbf: "));
    let scoped = VerifyOptions { required_scope: Some("admin".to_string()), ..Default::default() };
    match validate_claims(&claims(), &config(), &scoped, now) {
        Err(Error::InsufficientScope(s)) => assert_eq!(s, "admin"),
        other => panic!("unexpected {other:?}"),
    }
}

#[test]
fn options_override_the_configuration() {
    let now = at(1_700_000_000);
    let mut c = claims();
    c.iss = "https://other".to_string();
    c.aud = "custom".to_string();
    let o = VerifyOptions {
        issuer: Some("https://other//".to_string()),
        audience: Some("custom".to_string()),
        ..Default::default()
    };
    assert!(validate_claims(&c, &config(), &o, now).is_ok());
    let mut cfg = config();
    cfg.audience = "custom".to_string();
    cfg.issuer = "https://other".to_string();
    cfg.required_scope = Some("openid".to_string());
    assert!(validate_claims(&c, &cfg, &VerifyOptions::default(), now).is_ok());
    cfg.required_scope = Some("missing".to_string());
    assert!(matches!(
        validate_claims(&c, &cfg, &VerifyOptions::default(), now),
        Err(Error::InsufficientScope(_))
    ));
}

#[test]
fn expiry_and_start_are_checked_with_the_skew() {
    let ok = |t: i64| Ok::<UtcTime, String>(at(t));
    let o = VerifyOptions::default();
    let now = at(1_000);
    let v = |exp: i64, nbf: i64, o: &VerifyOptions| {
        validate_claims_with_times(&claims(), &config(), o, ok(exp), ok(nbf), now)
    };
    assert_eq!(invalid(v(970, 0, &o)), "access token expired");
    assert!(v(971, 0, &o).is_ok());
    assert!(v(2_000, 1_030, &o).is_ok());
    assert_eq!(invalid(v(2_000, 1_031, &o)), "access token is not valid yet");
    let wide = VerifyOptions { max_clock_skew_seconds: 100, ..Default::default() };
    assert!(v(901, 1_100, &wide).is_ok());
    assert_eq!(invalid(v(900, 0, &wide)), "access token expired");
    let negative = VerifyOptions { max_clock_skew_seconds: -5, ..Default::default() };
    assert_eq!(invalid(v(970, 0, &negative)), "access token expired");
    let exact = validate_claims_with_times(
        &claims(),
        &config(),
        &o,
        Ok(UtcTime { secs: 970, nanos: 5 }),
        ok(0),
        UtcTime { secs: 1_000, nanos: 4 },
    );
    assert!(exact.is_ok());
}

#[test]
fn chrono_range_constants_match_chrono() {
    assert_eq!(chrono::DateTime::<chrono::Utc>::MIN_UTC.timestamp(), MIN_UTC_SECS);
    assert_eq!(chrono::DateTime::<chrono::Utc>::MAX_UTC.timestamp(), MAX_UTC_SECS);
    assert_eq!(MAX_DELTA_SECS, i64::MAX / 1000);
}

#[test]
fn principal_copies_the_identity_claims() {
    let p = principal_from_claims(claims());
    assert_eq!(p.id, "g-1");
    assert_eq!(p.subject, "user-1");
    assert_eq!(p.email.as_deref(), Some("u@example.com"));
    assert_eq!(p.name, None);
    assert_eq!(p.role, "member");
    assert_eq!(p.scopes, vec!["projects:read".to_string(), "openid".to_string()]);
    assert_eq!(p.account_context.kind, "personal");
    assert_eq!(p.claims.jti, "j");
}

fn footer_fields(kid: &str) -> base_idp::FooterFields {
    base_idp::FooterFields {
        kid: Some(kid.to_string()),
        alg: Some("v4.public".to_string()),
        typ: Some("paseto".to_string()),
    }
}

#[test]
fn a_decoded_token_is_verified_end_to_end() {
    let footer = br#"{"kid":"k1","alg":"v4.public","typ":"paseto"}"#;
    let token = signed_token(b"{}", footer, DEFAULT_IMPLICIT_ASSERTION);
    let decoded = decode_token(&token).unwrap();
    let keys = PublicKeySet { keys: vec![public_key("k0"), public_key("k1")] };
    let now = at(1_700_000_000);
    let o = VerifyOptions::default();
    let p = base_idp::verify_decoded(
        &decoded,
        Ok(footer_fields("k1")),
        Ok(claims()),
        &keys,
        &config(),
        &o,
        now,
    )
    .unwrap();
    assert_eq!(p.id, "g-1");
    assert_eq!(decoded.message(), b"{}");
}

#[test]
fn a_decoded_token_is_refused_at_the_first_failing_check() {
    let footer = br#"{"kid":"k1","alg":"v4.public","typ":"paseto"}"#;
    let decoded = decode_token(&signed_token(b"{}", footer, DEFAULT_IMPLICIT_ASSERTION)).unwrap();
    let keys = PublicKeySet { keys: vec![public_key("k1")] };
    let now = at(1_700_000_000);
    let o = VerifyOptions::default();
    let run = |f: Result<base_idp::FooterFields, String>, c: Result<AccessClaims, String>| {
        base_idp::verify_decoded(&decoded, f, c, &keys, &config(), &o, now)
    };
    assert_eq!(invalid(run(Err("eof".into()), Ok(claims()))), "decode footer json: eof");
    let mut no_kid = footer_fields("k1");
    no_kid.kid = None;
    assert_eq!(invalid(run(Ok(no_kid), Ok(claims()))), "footer is missing kid");
    let mut wrong_typ = footer_fields("k1");
    wrong_typ.typ = Some("jwt".to_string());
    assert_eq!(invalid(run(Ok(wrong_typ), Ok(claims()))), "footer is not a Square v4.public footer");
    assert_eq!(
        invalid(run(Ok(footer_fields("k2")), Ok(claims()))),
        "key id k2 is not present in the Base key set"
    );
    assert_eq!(invalid(run(Ok(footer_fields("k1")), Err("bad".into()))), "decode claims: bad");
    let mut expired = claims();
    expired.exp = "2001-01-01T00:00:00Z".to_string();
    assert_eq!(invalid(run(Ok(footer_fields("k1")), Ok(expired))), "access token expired");
    let other_key = PublicKeySet {
        keys: vec![PublicKey {
            public_key_base64: STANDARD.encode(SigningKey::from_bytes(&[9u8; 32]).verifying_key().to_bytes()),
            ..public_key("k1")
        }],
    };
    let r = base_idp::verify_decoded(&decoded, Ok(footer_fields("k1")), Ok(claims()), &other_key, &config(), &o, now);
    assert_eq!(invalid(r), "signature verification failed");
}

#[test]
fn different_pieces_give_different_encodings() {
    let a = pre_auth_encode(&vec![b"ab".to_vec(), b"c".to_vec()]);
    let b = pre_auth_encode(&vec![b"a".to_vec(), b"bc".to_vec()]);
    let c = pre_auth_encode(&vec![b"abc".to_vec()]);
    assert_ne!(a, b);
    assert_ne!(a, c);
    assert_ne!(b, c);
}

#[test]
fn a_bearer_header_gives_back_its_token() {
    for t in ["abc", "v4.public.x.y", "ÄÖ"] {
        let header = format!("Bearer {t}");
        assert_eq!(bearer_token(Some(&header)).unwrap(), t);
    }
}

#[test]
fn an_assembled_token_gives_back_its_sections() {
    for (p, f) in [("payload", "footer"), ("", "x"), ("a-b_c", "")] {
        let (tp, tf) = token_sections(&format!("v4.public.{p}.{f}")).unwrap();
        assert_eq!((tp.as_str(), tf.as_str()), (p, f));
    }
}

#[test]
fn an_expired_token_stays_expired() {
    let o = VerifyOptions::default();
    for now in [1_000, 1_001, 5_000, 1_000_000] {
        let r = validate_claims_with_times(&claims(), &config(), &o, Ok(at(900)), Ok(at(0)), at(now));
        assert_eq!(invalid(r), "access token expired");
    }
}
