use vstd::prelude::*;

use crate::error::Error;
use crate::text::{clone_opt, clone_strings, concat, opt_view, owned, same_text, strip_trailing, strs_view, trim_end_slashes};
use crate::types::{AccessClaims, AccountContext, Config, Principal, VerifyOptions, DEFAULT_AUDIENCE};

verus! {

/// An instant in UTC: seconds since the Unix epoch and nanoseconds within the second
/// (from one billion up during a leap second). Instants are ordered by seconds, then
/// nanoseconds.
#[derive(Clone, Copy, Debug, PartialEq, Eq)]
pub struct UtcTime {
    pub secs: i64,
    pub nanos: u32,
}

/// The earliest second that `chrono` represents (in year -262143), since the epoch.
pub const MIN_UTC_SECS: i64 = -8334601228800;

/// The last second that `chrono` represents (in year 262142), since the epoch.
pub const MAX_UTC_SECS: i64 = 8210266876799;

/// The largest number of seconds a `chrono::TimeDelta` holds: `i64::MAX / 1000`.
pub const MAX_DELTA_SECS: i64 = 9223372036854775;

/// Clock skew allowed when none is configured, in seconds.
pub const DEFAULT_CLOCK_SKEW_SECS: i64 = 30;

/// What `chrono::DateTime::parse_from_rfc3339` gives for `text`, taken to UTC: the
/// instant, or the text of the parse error.
pub uninterp spec fn rfc3339_parsed(text: Seq<char>) -> Result<UtcTime, Seq<char>>;

/// Calls `chrono::DateTime::parse_from_rfc3339`, converts the result to UTC and reads
/// its timestamp and sub-second nanoseconds; an error is returned as its text. The
/// contract names the result and says nothing more of it.
#[verifier::external_body]
fn parse_rfc3339(text: &str) -> (r: Result<UtcTime, String>)
    ensures
        match rfc3339_parsed(text@) {
            Ok(t) => r == Ok::<UtcTime, String>(t),
            Err(m) => r matches Err(e) && e@ == m,
        },
{
    match chrono::DateTime::parse_from_rfc3339(text) {
        Ok(dt) => {
            let utc = dt.with_timezone(&chrono::Utc);
            Ok(UtcTime { secs: utc.timestamp(), nanos: utc.timestamp_subsec_nanos() })
        },
        Err(err) => Err(err.to_string()),
    }
}

/// Why claims were refused: an invalid token with a message, or a missing scope.
pub enum ClaimsRejection {
    Invalid(Seq<char>),
    MissingScope(Seq<char>),
}

/// Whether an error reports a given rejection.
pub open spec fn reports(e: Error, r: ClaimsRejection) -> bool {
    match r {
        ClaimsRejection::Invalid(m) => e matches Error::InvalidToken(x) && x@ == m,
        ClaimsRejection::MissingScope(s) => e matches Error::InsufficientScope(x) && x@ == s,
    }
}

/// The clock skew allowed: the configured one when positive, else 30 seconds.
pub open spec fn effective_skew(o: VerifyOptions) -> int {
    if o.max_clock_skew_seconds > 0 {
        o.max_clock_skew_seconds as int
    } else {
        DEFAULT_CLOCK_SKEW_SECS as int
    }
}

/// The issuer a token must name: the one given, else the configured one, without
/// trailing slashes.
pub open spec fn expected_issuer(c: Config, o: VerifyOptions) -> Seq<char> {
    match o.issuer {
        Some(i) => strip_trailing(i@, '/'),
        None => strip_trailing(c.issuer@, '/'),
    }
}

/// The audience a token must name: the one given, else the configured one, else the
/// default audience.
pub open spec fn expected_audience(c: Config, o: VerifyOptions) -> Seq<char> {
    match o.audience {
        Some(a) => a@,
        None => if c.audience@.len() == 0 {
            DEFAULT_AUDIENCE@
        } else {
            c.audience@
        },
    }
}

/// The scope a token must carry, if any: the one given, else the configured one.
pub open spec fn required_scope_of(c: Config, o: VerifyOptions) -> Option<Seq<char>> {
    match o.required_scope {
        Some(s) => Some(s@),
        None => opt_view(c.required_scope),
    }
}

/// Whether instant `t` is at or before the instant of `secs` seconds and `nanos` nanoseconds.
pub open spec fn at_or_before(t: UtcTime, secs: int, nanos: int) -> bool {
    t.secs < secs || (t.secs == secs && t.nanos <= nanos)
}

/// Whether the clock can be moved by the skew both ways without leaving the range
/// that `chrono` represents.
pub open spec fn clock_in_range(now: UtcTime, skew: int) -> bool {
    &&& skew <= MAX_DELTA_SECS
    &&& MIN_UTC_SECS <= now.secs - skew
    &&& now.secs + skew <= MAX_UTC_SECS
    &&& now.nanos < 1_000_000_000
}

/// The verdict on the times of a token, given its parsed expiry and start, the
/// current instant and the skew: expired when the expiry is at or before now minus the
/// skew, not yet valid when the start is after now plus the skew.
pub open spec fn times_check(
    exp: Result<UtcTime, Seq<char>>,
    nbf: Result<UtcTime, Seq<char>>,
    now: UtcTime,
    skew: int,
) -> Result<(), ClaimsRejection> {
    match exp {
        Err(m) => Err(ClaimsRejection::Invalid("invalid exp: "@ + m)),
        Ok(e) => match nbf {
            Err(m) => Err(ClaimsRejection::Invalid("invalid nbf: "@ + m)),
            Ok(n) => if at_or_before(e, now.secs - skew, now.nanos as int) {
                Err(ClaimsRejection::Invalid("access token expired"@))
            } else if !at_or_before(n, now.secs + skew, now.nanos as int) {
                Err(ClaimsRejection::Invalid("access token is not valid yet"@))
            } else {
                Ok(())
            },
        },
    }
}

/// The verdict on a token's claims, checked in order: its use, issuer and audience,
/// identity claims, times, then the required scope.
pub open spec fn claims_check_with(
    c: AccessClaims,
    cfg: Config,
    o: VerifyOptions,
    exp: Result<UtcTime, Seq<char>>,
    nbf: Result<UtcTime, Seq<char>>,
    now: UtcTime,
) -> Result<(), ClaimsRejection> {
    if c.token_use@ != "access"@ {
        Err(ClaimsRejection::Invalid("token_use must be access"@))
    } else if c.iss@ != expected_issuer(cfg, o) || c.aud@ != expected_audience(cfg, o) {
        Err(ClaimsRejection::Invalid("issuer or audience mismatch"@))
    } else if c.gid@.len() == 0 || c.sub@.len() == 0 || c.sid@.len() == 0 || c.role@.len() == 0
        || c.ctx.kind@.len() == 0 {
        Err(ClaimsRejection::Invalid("required identity claims are missing"@))
    } else {
        match times_check(exp, nbf, now, effective_skew(o)) {
            Err(r) => Err(r),
            Ok(()) => match required_scope_of(cfg, o) {
                Some(s) => if strs_view(c.scp@).contains(s) {
                    Ok(())
                } else {
                    Err(ClaimsRejection::MissingScope(s))
                },
                None => Ok(()),
            },
        }
    }
}

/// The verdict on a token's claims, with its times parsed as RFC 3339.
pub open spec fn claims_check(c: AccessClaims, cfg: Config, o: VerifyOptions, now: UtcTime) -> Result<
    (),
    ClaimsRejection,
> {
    claims_check_with(c, cfg, o, rfc3339_parsed(c.exp@), rfc3339_parsed(c.nbf@), now)
}

/// The contents of a time parse.
pub open spec fn time_result(r: Result<UtcTime, String>) -> Result<UtcTime, Seq<char>> {
    match r {
        Ok(t) => Ok(t),
        Err(m) => Err(m@),
    }
}

/// The clock skew allowed, in seconds: the configured one when positive, else 30.
pub fn skew_of(options: &VerifyOptions) -> (r: i64)
    ensures
        r == effective_skew(*options),
        r > 0,
{
    if options.max_clock_skew_seconds > 0 {
        options.max_clock_skew_seconds
    } else {
        DEFAULT_CLOCK_SKEW_SECS
    }
}

/// Whether the clock can be moved by `skew` seconds both ways within `chrono`'s range.
pub fn clock_fits(now: UtcTime, skew: i64) -> (r: bool)
    ensures
        r == clock_in_range(now, skew as int),
{
    skew <= MAX_DELTA_SECS && (now.secs as i128) - (skew as i128) >= MIN_UTC_SECS as i128
        && (now.secs as i128) + (skew as i128) <= MAX_UTC_SECS as i128 && now.nanos < 1_000_000_000
}

/// Whether `scopes` holds `scope`.
pub fn has_scope(scopes: &Vec<String>, scope: &str) -> (r: bool)
    ensures
        r == strs_view(scopes@).contains(scope@),
{
    let mut i: usize = 0;
    while i < scopes.len()
        invariant
            i <= scopes@.len(),
            forall|j: int| 0 <= j < i ==> scopes@[j]@ != scope@,
        decreases scopes@.len() - i,
    {
        if same_text(scopes[i].as_str(), scope) {
            assert(strs_view(scopes@)[i as int] == scope@);
            return true;
        }
        i = i + 1;
    }
    assert forall|j: int| 0 <= j < strs_view(scopes@).len() implies strs_view(scopes@)[j]
        != scope@ by {
        assert(strs_view(scopes@)[j] == scopes@[j]@);
    }
    false
}

/// Checks a token's claims against the configuration and the options at instant `now`,
/// given the parsed expiry and start.
pub fn validate_claims_with_times(
    claims: &AccessClaims,
    config: &Config,
    options: &VerifyOptions,
    exp: Result<UtcTime, String>,
    nbf: Result<UtcTime, String>,
    now: UtcTime,
) -> (r: Result<(), Error>)
    requires
        clock_in_range(now, effective_skew(*options)),
    ensures
        match claims_check_with(
            *claims,
            *config,
            *options,
            time_result(exp),
            time_result(nbf),
            now,
        ) {
            Ok(()) => r is Ok,
            Err(rej) => r matches Err(e) && reports(e, rej),
        },
{
    let issuer = match &options.issuer {
        Some(i) => trim_end_slashes(i.as_str()),
        None => trim_end_slashes(config.issuer.as_str()),
    };
    let audience = match &options.audience {
        Some(a) => a.clone(),
        None => if config.audience.as_str().is_empty() {
            owned(DEFAULT_AUDIENCE)
        } else {
            config.audience.clone()
        },
    };
    let required_scope = match &options.required_scope {
        Some(s) => Some(s.clone()),
        None => clone_opt(&config.required_scope),
    };
    let skew = skew_of(options);
    if !same_text(claims.token_use.as_str(), "access") {
        return Err(Error::InvalidToken(owned("token_use must be access")));
    }
    if !same_text(claims.iss.as_str(), issuer.as_str()) || !same_text(
        claims.aud.as_str(),
        audience.as_str(),
    ) {
        return Err(Error::InvalidToken(owned("issuer or audience mismatch")));
    }
    if claims.gid.as_str().is_empty() || claims.sub.as_str().is_empty()
        || claims.sid.as_str().is_empty() || claims.role.as_str().is_empty()
        || claims.ctx.kind.as_str().is_empty() {
        return Err(Error::InvalidToken(owned("required identity claims are missing")));
    }
    let exp = match exp {
        Ok(t) => t,
        Err(m) => return Err(Error::InvalidToken(concat("invalid exp: ", m.as_str()))),
    };
    let nbf = match nbf {
        Ok(t) => t,
        Err(m) => return Err(Error::InvalidToken(concat("invalid nbf: ", m.as_str()))),
    };
    let earliest = now.secs - skew;
    if exp.secs < earliest || (exp.secs == earliest && exp.nanos <= now.nanos) {
        return Err(Error::InvalidToken(owned("access token expired")));
    }
    let latest = now.secs + skew;
    if !(nbf.secs < latest || (nbf.secs == latest && nbf.nanos <= now.nanos)) {
        return Err(Error::InvalidToken(owned("access token is not valid yet")));
    }
    if let Some(scope) = required_scope {
        if !has_scope(&claims.scp, scope.as_str()) {
            return Err(Error::InsufficientScope(scope));
        }
    }
    Ok(())
}

/// Checks a token's claims against the configuration and the options at instant `now`.
pub fn validate_claims(
    claims: &AccessClaims,
    config: &Config,
    options: &VerifyOptions,
    now: UtcTime,
) -> (r: Result<(), Error>)
    requires
        clock_in_range(now, effective_skew(*options)),
    ensures
        match claims_check(*claims, *config, *options, now) {
            Ok(()) => r is Ok,
            Err(rej) => r matches Err(e) && reports(e, rej),
        },
{
    let exp = parse_rfc3339(claims.exp.as_str());
    let nbf = parse_rfc3339(claims.nbf.as_str());
    validate_claims_with_times(claims, config, options, exp, nbf, now)
}

/// Whether two account contexts hold the same values.
pub open spec fn same_context(a: AccountContext, b: AccountContext) -> bool {
    &&& a.kind@ == b.kind@
    &&& opt_view(a.tenant_id) == opt_view(b.tenant_id)
    &&& opt_view(a.actor_id) == opt_view(b.actor_id)
    &&& opt_view(a.owner_id) == opt_view(b.owner_id)
}

/// A copy of an account context.
pub fn clone_context(c: &AccountContext) -> (r: AccountContext)
    ensures
        same_context(r, *c),
{
    AccountContext {
        kind: c.kind.clone(),
        tenant_id: clone_opt(&c.tenant_id),
        actor_id: clone_opt(&c.actor_id),
        owner_id: clone_opt(&c.owner_id),
    }
}

/// The principal that verified claims describe.
pub fn principal_from_claims(claims: AccessClaims) -> (r: Principal)
    ensures
        r.id@ == claims.gid@,
        r.subject@ == claims.sub@,
        opt_view(r.email) == opt_view(claims.email),
        opt_view(r.name) == opt_view(claims.name),
        r.role@ == claims.role@,
        strs_view(r.scopes@) == strs_view(claims.scp@),
        same_context(r.account_context, claims.ctx),
        r.claims == claims,
{
    Principal {
        id: claims.gid.clone(),
        subject: claims.sub.clone(),
        email: clone_opt(&claims.email),
        name: clone_opt(&claims.name),
        role: claims.role.clone(),
        scopes: clone_strings(&claims.scp),
        account_context: clone_context(&claims.ctx),
        claims,
    }
}

/// Accepted claims are of an access token for the expected issuer and audience, name
/// an identity, are valid at `now` within the skew, and carry the required scope.
pub proof fn lemma_accepted_claims(
    c: AccessClaims,
    cfg: Config,
    o: VerifyOptions,
    exp: Result<UtcTime, Seq<char>>,
    nbf: Result<UtcTime, Seq<char>>,
    now: UtcTime,
)
    requires
        claims_check_with(c, cfg, o, exp, nbf, now) is Ok,
    ensures
        c.token_use@ == "access"@,
        c.iss@ == expected_issuer(cfg, o),
        c.aud@ == expected_audience(cfg, o),
        c.gid@.len() > 0 && c.sub@.len() > 0 && c.sid@.len() > 0 && c.role@.len() > 0
            && c.ctx.kind@.len() > 0,
        exp is Ok && !at_or_before(exp->Ok_0, now.secs - effective_skew(o), now.nanos as int),
        nbf is Ok && at_or_before(nbf->Ok_0, now.secs + effective_skew(o), now.nanos as int),
        required_scope_of(cfg, o) is Some ==> strs_view(c.scp@).contains(
            required_scope_of(cfg, o)->0,
        ),
{
}

/// A token lacking the required scope, and otherwise acceptable, is refused for that
/// scope alone.
pub proof fn lemma_missing_scope_reported(
    c: AccessClaims,
    cfg: Config,
    o: VerifyOptions,
    exp: Result<UtcTime, Seq<char>>,
    nbf: Result<UtcTime, Seq<char>>,
    now: UtcTime,
)
    requires
        c.token_use@ == "access"@,
        c.iss@ == expected_issuer(cfg, o),
        c.aud@ == expected_audience(cfg, o),
        c.gid@.len() > 0 && c.sub@.len() > 0 && c.sid@.len() > 0 && c.role@.len() > 0
            && c.ctx.kind@.len() > 0,
        times_check(exp, nbf, now, effective_skew(o)) is Ok,
        required_scope_of(cfg, o) is Some,
        !strs_view(c.scp@).contains(required_scope_of(cfg, o)->0),
    ensures
        claims_check_with(c, cfg, o, exp, nbf, now) == Err::<(), ClaimsRejection>(
            ClaimsRejection::MissingScope(required_scope_of(cfg, o)->0),
        ),
{
}

/// Allowing more clock skew never refuses times that a smaller skew accepts.
pub proof fn lemma_wider_skew_accepts_more(
    exp: Result<UtcTime, Seq<char>>,
    nbf: Result<UtcTime, Seq<char>>,
    now: UtcTime,
    skew: int,
    wider: int,
)
    requires
        skew <= wider,
        times_check(exp, nbf, now, skew) is Ok,
    ensures
        times_check(exp, nbf, now, wider) is Ok,
{
}

/// A token that has expired at one instant is expired at every later instant.
pub proof fn lemma_expiry_is_permanent(
    exp: Result<UtcTime, Seq<char>>,
    nbf: Result<UtcTime, Seq<char>>,
    now: UtcTime,
    later: UtcTime,
    skew: int,
)
    requires
        exp is Ok,
        nbf is Ok,
        times_check(exp, nbf, now, skew) == Err::<(), ClaimsRejection>(
            ClaimsRejection::Invalid("access token expired"@),
        ),
        at_or_before(now, later.secs as int, later.nanos as int),
    ensures
        times_check(exp, nbf, later, skew) == Err::<(), ClaimsRejection>(
            ClaimsRejection::Invalid("access token expired"@),
        ),
{
    reveal_strlit("access token expired");
    reveal_strlit("access token is not valid yet");
    let e = exp->Ok_0;
    assert("access token expired"@.len() != "access token is not valid yet"@.len());
    assert(at_or_before(e, now.secs - skew, now.nanos as int));
    assert(at_or_before(e, later.secs - skew, later.nanos as int));
}

/// Completeness of the claims check: claims of an access token for the expected issuer
/// and audience, with every identity claim set, valid now within the skew, and carrying
/// the required scope (if any), are accepted, whatever the optional claims hold.
pub proof fn lemma_claims_check_complete(
    c: AccessClaims,
    cfg: Config,
    o: VerifyOptions,
    exp: Result<UtcTime, Seq<char>>,
    nbf: Result<UtcTime, Seq<char>>,
    now: UtcTime,
)
    requires
        c.token_use@ == "access"@,
        c.iss@ == expected_issuer(cfg, o),
        c.aud@ == expected_audience(cfg, o),
        c.gid@.len() > 0,
        c.sub@.len() > 0,
        c.sid@.len() > 0,
        c.role@.len() > 0,
        c.ctx.kind@.len() > 0,
        exp is Ok,
        !at_or_before(exp->Ok_0, now.secs - effective_skew(o), now.nanos as int),
        nbf is Ok,
        at_or_before(nbf->Ok_0, now.secs + effective_skew(o), now.nanos as int),
        required_scope_of(cfg, o) is Some ==> strs_view(c.scp@).contains(
            required_scope_of(cfg, o)->0,
        ),
    ensures
        claims_check_with(c, cfg, o, exp, nbf, now) == Ok::<(), ClaimsRejection>(()),
{
}

/// The verdict on claims depends only on their use, issuer, audience, identity claims,
/// times and scopes: two sets of claims that agree on these get the same verdict, so the
/// optional claims (email, name, entitlements, methods, party) never decide it.
pub proof fn lemma_claims_check_ignores_optional_claims(
    c1: AccessClaims,
    c2: AccessClaims,
    cfg: Config,
    o: VerifyOptions,
    now: UtcTime,
)
    requires
        c1.token_use@ == c2.token_use@,
        c1.iss@ == c2.iss@,
        c1.aud@ == c2.aud@,
        c1.gid@ == c2.gid@,
        c1.sub@ == c2.sub@,
        c1.sid@ == c2.sid@,
        c1.role@ == c2.role@,
        c1.ctx.kind@ == c2.ctx.kind@,
        c1.exp@ == c2.exp@,
        c1.nbf@ == c2.nbf@,
        strs_view(c1.scp@) == strs_view(c2.scp@),
    ensures
        claims_check(c1, cfg, o, now) == claims_check(c2, cfg, o, now),
{
}

} // verus!
