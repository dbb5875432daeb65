use vstd::prelude::*;

use crate::claims::{
    claims_check, clock_in_range, effective_skew, principal_from_claims, reports, same_context,
    validate_claims, ClaimsRejection, UtcTime,
};
use crate::error::Error;
use crate::paseto::{
    check_footer, fitting_key, footer_fields_ok, implicit_of, select_key, signature_check,
    verify_signature, DecodedToken,
};
use crate::text::{concat, opt_view, strs_view};
use crate::types::{AccessClaims, Config, Principal, PublicKeySet, VerifyOptions};

verus! {

/// The fields of a token footer.
pub struct FooterFields {
    pub kid: Option<String>,
    pub alg: Option<String>,
    pub typ: Option<String>,
}

/// A principal that describes the given claims.
pub open spec fn principal_of(p: Principal, c: AccessClaims) -> bool {
    &&& p.id@ == c.gid@
    &&& p.subject@ == c.sub@
    &&& opt_view(p.email) == opt_view(c.email)
    &&& opt_view(p.name) == opt_view(c.name)
    &&& p.role@ == c.role@
    &&& strs_view(p.scopes@) == strs_view(c.scp@)
    &&& same_context(p.account_context, c.ctx)
    &&& p.claims == c
}

/// The verdict on a decoded token, in the order of the checks: the footer (decoded as
/// JSON, naming a key id, the `v4.public` algorithm and the `paseto` type), the key
/// that fits the key id, the signature, the claims (decoded as JSON), and what the
/// claims say. An accepted token yields its claims.
pub open spec fn token_verdict(
    payload: Seq<u8>,
    footer_bytes: Seq<u8>,
    footer: Result<FooterFields, String>,
    claims: Result<AccessClaims, String>,
    keys: Seq<crate::types::PublicKey>,
    cfg: Config,
    o: VerifyOptions,
    now: UtcTime,
) -> Result<AccessClaims, ClaimsRejection> {
    match footer {
        Err(m) => Err(ClaimsRejection::Invalid("decode footer json: "@ + m@)),
        Ok(f) => if f.kid is None {
            Err(ClaimsRejection::Invalid("footer is missing kid"@))
        } else if !footer_fields_ok(opt_view(f.alg), opt_view(f.typ)) {
            Err(ClaimsRejection::Invalid("footer is not a Square v4.public footer"@))
        } else {
            match fitting_key(keys, f.kid->0@) {
                None => Err(
                    ClaimsRejection::Invalid(
                        "key id "@ + f.kid->0@ + " is not present in the Base key set"@,
                    ),
                ),
                Some(k) => match signature_check(
                    k,
                    payload,
                    footer_bytes,
                    implicit_of(opt_view(o.implicit_assertion)),
                ) {
                    Err(m) => Err(ClaimsRejection::Invalid(m)),
                    Ok(()) => match claims {
                        Err(m) => Err(ClaimsRejection::Invalid("decode claims: "@ + m@)),
                        Ok(c) => match claims_check(c, cfg, o, now) {
                            Err(r) => Err(r),
                            Ok(()) => Ok(c),
                        },
                    },
                },
            }
        },
    }
}

/// Verifies a decoded token, given its footer and claims as decoded from JSON (or the
/// decoder's message), against a key set, the configuration and the options, at `now`.
pub fn verify_decoded(
    token: &DecodedToken,
    footer: Result<FooterFields, String>,
    claims: Result<AccessClaims, String>,
    key_set: &PublicKeySet,
    config: &Config,
    options: &VerifyOptions,
    now: UtcTime,
) -> (r: Result<Principal, Error>)
    requires
        token.payload@.len() > 64,
        clock_in_range(now, effective_skew(*options)),
    ensures
        match token_verdict(
            token.payload@,
            token.footer@,
            footer,
            claims,
            key_set.keys@,
            *config,
            *options,
            now,
        ) {
            Ok(c) => r matches Ok(p) && principal_of(p, c),
            Err(rej) => r matches Err(e) && reports(e, rej),
        },
{
    let fields = match footer {
        Ok(f) => f,
        Err(m) => return Err(Error::InvalidToken(concat("decode footer json: ", m.as_str()))),
    };
    let FooterFields { kid, alg, typ } = fields;
    let kid = match check_footer(kid, alg, typ) {
        Ok(k) => k,
        Err(e) => return Err(e),
    };
    let key = match select_key(key_set, kid.as_str()) {
        Ok(k) => k,
        Err(e) => return Err(e),
    };
    let implicit: Option<&str> = match &options.implicit_assertion {
        Some(a) => Some(a.as_str()),
        None => None,
    };
    match verify_signature(key, token, implicit) {
        Ok(()) => {},
        Err(e) => return Err(e),
    }
    let claims = match claims {
        Ok(c) => c,
        Err(m) => return Err(Error::InvalidToken(concat("decode claims: ", m.as_str()))),
    };
    match validate_claims(&claims, config, options, now) {
        Ok(()) => {},
        Err(e) => return Err(e),
    }
    Ok(principal_from_claims(claims))
}

/// An accepted token was signed, under the first published key that fits its key id,
/// over the pre-authentication encoding of the header, its message, its footer and the
/// implicit assertion; and its claims pass every check.
pub proof fn lemma_accepted_token(
    payload: Seq<u8>,
    footer_bytes: Seq<u8>,
    footer: Result<FooterFields, String>,
    claims: Result<AccessClaims, String>,
    keys: Seq<crate::types::PublicKey>,
    cfg: Config,
    o: VerifyOptions,
    now: UtcTime,
)
    requires
        token_verdict(payload, footer_bytes, footer, claims, keys, cfg, o, now) is Ok,
    ensures
        footer is Ok,
        footer->Ok_0.kid is Some,
        footer_fields_ok(opt_view(footer->Ok_0.alg), opt_view(footer->Ok_0.typ)),
        fitting_key(keys, footer->Ok_0.kid->0@) is Some,
        signature_check(
            fitting_key(keys, footer->Ok_0.kid->0@)->0,
            payload,
            footer_bytes,
            implicit_of(opt_view(o.implicit_assertion)),
        ) is Ok,
        claims is Ok,
        claims_check(claims->Ok_0, cfg, o, now) is Ok,
        token_verdict(payload, footer_bytes, footer, claims, keys, cfg, o, now) == Ok::<
            AccessClaims,
            ClaimsRejection,
        >(claims->Ok_0),
{
}

} // verus!
