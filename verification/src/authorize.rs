use vstd::prelude::*;

use crate::error::Error;
use crate::scopes::{join_scopes, join_with};
use crate::text::{clone_strings, concat, opt_view, owned, strip_trailing, strs_view, trim_end_slashes};
use crate::types::{AuthorizeOptions, Config};
use crate::urlenc::{pairs_view, serialize_url_with_query, url_with_query};

verus! {

/// The value of an option, or `default` where it is absent.
pub open spec fn or_default(o: Option<Seq<char>>, default: Seq<char>) -> Seq<char> {
    match o {
        Some(v) => v,
        None => default,
    }
}

/// A pair for an optional value: one pair where it is present, none where it is absent.
pub open spec fn opt_pair(name: Seq<char>, o: Option<String>) -> Seq<(Seq<char>, Seq<char>)> {
    match o {
        Some(v) => seq![(name, v@)],
        None => seq![],
    }
}

/// The additional parameters whose name and value are both non-empty, in order.
pub open spec fn extra_pairs(v: Seq<(String, String)>) -> Seq<(Seq<char>, Seq<char>)>
    decreases v.len(),
{
    if v.len() == 0 {
        seq![]
    } else {
        let p = v.last();
        extra_pairs(v.drop_last()) + if p.0@.len() > 0 && p.1@.len() > 0 {
            seq![(p.0@, p.1@)]
        } else {
            seq![]
        }
    }
}

/// The scopes that an authorization request asks for.
pub open spec fn requested_scopes(c: Config, o: AuthorizeOptions) -> Seq<Seq<char>> {
    match o.scopes {
        Some(v) => strs_view(v@),
        None => strs_view(c.scopes@),
    }
}

/// The query of an authorization request, in order: `response_type` (default `code`),
/// `client_id`, `redirect_uri` (default the configured one), `scope` (the requested
/// scopes joined by spaces), then `state` and `nonce` where given, then
/// `code_challenge` with `code_challenge_method` (default `S256`) where a challenge is
/// given, then the additional parameters whose name and value are not empty.
pub open spec fn authorize_pairs(c: Config, o: AuthorizeOptions) -> Seq<(Seq<char>, Seq<char>)> {
    seq![
        ("response_type"@, or_default(opt_view(o.response_type), "code"@)),
        ("client_id"@, c.client_id@),
        ("redirect_uri"@, or_default(opt_view(o.redirect_uri), c.redirect_uri@)),
        ("scope"@, join_with(requested_scopes(c, o), seq![' '])),
    ] + opt_pair("state"@, o.state) + opt_pair("nonce"@, o.nonce) + match o.code_challenge {
        Some(ch) => seq![
            ("code_challenge"@, ch@),
            ("code_challenge_method"@, or_default(opt_view(o.code_challenge_method), "S256"@)),
        ],
        None => seq![],
    } + extra_pairs(o.additional_parameters@)
}

/// The authorization endpoint: the issuer without trailing slashes, then `/oauth2/authorize`.
pub open spec fn authorize_endpoint_of(c: Config) -> Seq<char> {
    strip_trailing(c.issuer@, '/') + "/oauth2/authorize"@
}

/// A name/value pair.
pub(crate) fn name_value(name: &str, value: String) -> (r: (String, String))
    ensures
        r.0@ == name@,
        r.1@ == value@,
{
    (owned(name), value)
}

fn value_or(o: Option<String>, default: &str) -> (r: String)
    ensures
        r@ == or_default(opt_view(o), default@),
{
    match o {
        Some(v) => v,
        None => owned(default),
    }
}

/// The authorization endpoint of a configuration.
pub fn authorize_endpoint(config: &Config) -> (r: String)
    ensures
        r@ == authorize_endpoint_of(*config),
{
    let issuer = trim_end_slashes(config.issuer.as_str());
    concat(issuer.as_str(), "/oauth2/authorize")
}

/// The query pairs of an authorization request, as `authorize_pairs` lists them.
pub fn authorize_query_pairs(config: &Config, options: AuthorizeOptions) -> (r: Vec<(String, String)>)
    ensures
        pairs_view(r@) == authorize_pairs(*config, options),
{
    let ghost o = options;
    let AuthorizeOptions {
        response_type,
        state,
        nonce,
        scopes,
        redirect_uri,
        auth_session_id: _,
        code_challenge,
        code_challenge_method,
        additional_parameters,
    } = options;
    let scopes = match scopes {
        Some(v) => v,
        None => clone_strings(&config.scopes),
    };
    assert(strs_view(scopes@) == requested_scopes(*config, o));
    let mut r: Vec<(String, String)> = Vec::new();
    r.push(name_value("response_type", value_or(response_type, "code")));
    r.push(name_value("client_id", config.client_id.clone()));
    r.push(name_value("redirect_uri", value_or(redirect_uri, config.redirect_uri.as_str())));
    r.push(name_value("scope", join_scopes(scopes.as_slice())));
    let ghost fixed = pairs_view(r@);
    assert(fixed =~= seq![
        ("response_type"@, or_default(opt_view(o.response_type), "code"@)),
        ("client_id"@, config.client_id@),
        ("redirect_uri"@, or_default(opt_view(o.redirect_uri), config.redirect_uri@)),
        ("scope"@, join_with(requested_scopes(*config, o), seq![' '])),
    ]);
    if let Some(v) = state {
        r.push(name_value("state", v));
    }
    assert(pairs_view(r@) =~= fixed + opt_pair("state"@, o.state));
    let ghost with_state = pairs_view(r@);
    if let Some(v) = nonce {
        r.push(name_value("nonce", v));
    }
    assert(pairs_view(r@) =~= with_state + opt_pair("nonce"@, o.nonce));
    let ghost with_nonce = pairs_view(r@);
    if let Some(challenge) = code_challenge {
        r.push(name_value("code_challenge", challenge));
        r.push(name_value("code_challenge_method", value_or(code_challenge_method, "S256")));
    }
    let ghost with_challenge = pairs_view(r@);
    assert(with_challenge =~= with_nonce + match o.code_challenge {
        Some(ch) => seq![
            ("code_challenge"@, ch@),
            ("code_challenge_method"@, or_default(opt_view(o.code_challenge_method), "S256"@)),
        ],
        None => seq![],
    });
    let n = additional_parameters.len();
    let mut i: usize = 0;
    while i < n
        invariant
            i <= n == additional_parameters.len(),
            additional_parameters@ == o.additional_parameters@,
            pairs_view(r@) == with_challenge + extra_pairs(additional_parameters@.take(i as int)),
        decreases n - i,
    {
        let (key, value) = &additional_parameters[i];
        assert(additional_parameters@.take(i + 1).drop_last() =~= additional_parameters@.take(
            i as int,
        ));
        let ghost before = pairs_view(r@);
        if !key.as_str().is_empty() && !value.as_str().is_empty() {
            r.push((key.clone(), value.clone()));
            assert(pairs_view(r@) =~= before + seq![(key@, value@)]);
        } else {
            assert(pairs_view(r@) =~= before + Seq::<(Seq<char>, Seq<char>)>::empty());
        }
        i = i + 1;
    }
    assert(additional_parameters@.take(n as int) =~= additional_parameters@);
    r
}

/// The result of building a URL, with a parse failure reported as an invalid configuration.
pub fn invalid_config_on_error(built: Result<String, String>) -> (r: Result<String, Error>)
    ensures
        match built {
            Ok(u) => r matches Ok(s) && s@ == u@,
            Err(m) => r matches Err(Error::InvalidConfig(e)) && e@ == m@,
        },
{
    match built {
        Ok(u) => Ok(u),
        Err(m) => Err(Error::InvalidConfig(m)),
    }
}

/// The URL to which a user is sent to authorize the client: the authorization
/// endpoint with the query that `authorize_pairs` lists, or an invalid-configuration
/// error carrying the URL parser's message when the endpoint does not parse.
pub fn authorize_url(config: &Config, options: AuthorizeOptions) -> (r: Result<String, Error>)
    ensures
        match url_with_query(authorize_endpoint_of(*config), authorize_pairs(*config, options)) {
            Ok(u) => r matches Ok(s) && s@ == u,
            Err(m) => r matches Err(Error::InvalidConfig(e)) && e@ == m,
        },
{
    let endpoint = authorize_endpoint(config);
    let pairs = authorize_query_pairs(config, options);
    invalid_config_on_error(serialize_url_with_query(endpoint.as_str(), &pairs))
}

/// A pair in either part of a concatenation is in the whole.
pub proof fn lemma_contains_concat<A>(a: Seq<A>, b: Seq<A>, x: A)
    ensures
        a.contains(x) ==> (a + b).contains(x),
        b.contains(x) ==> (a + b).contains(x),
{
    if a.contains(x) {
        let i = choose|i: int| 0 <= i < a.len() && a[i] == x;
        assert((a + b)[i] == x);
    }
    if b.contains(x) {
        let i = choose|i: int| 0 <= i < b.len() && b[i] == x;
        assert((a + b)[a.len() + i] == x);
    }
}

/// Every additional parameter whose name and value are both non-empty is sent.
proof fn lemma_extra_pairs_keep(v: Seq<(String, String)>, j: int)
    requires
        0 <= j < v.len(),
        v[j].0@.len() > 0,
        v[j].1@.len() > 0,
    ensures
        extra_pairs(v).contains((v[j].0@, v[j].1@)),
    decreases v.len(),
{
    let p = v.last();
    let tail = if p.0@.len() > 0 && p.1@.len() > 0 {
        seq![(p.0@, p.1@)]
    } else {
        seq![]
    };
    if j == v.len() - 1 {
        assert(tail[0] == (v[j].0@, v[j].1@));
        lemma_contains_concat(extra_pairs(v.drop_last()), tail, (v[j].0@, v[j].1@));
    } else {
        assert(v.drop_last()[j] == v[j]);
        lemma_extra_pairs_keep(v.drop_last(), j);
        lemma_contains_concat(extra_pairs(v.drop_last()), tail, (v[j].0@, v[j].1@));
    }
}

/// Every option given reaches the query, each on its own: the state is sent whenever one
/// is given (whatever the other options hold), so is the nonce, the code challenge with
/// its method, and every additional parameter whose name and value are not empty; the
/// client id and the requested scopes are always sent.
pub proof fn lemma_authorize_pairs_carry_options(c: Config, o: AuthorizeOptions)
    ensures
        o.state is Some ==> authorize_pairs(c, o).contains(("state"@, o.state->0@)),
        o.nonce is Some ==> authorize_pairs(c, o).contains(("nonce"@, o.nonce->0@)),
        o.code_challenge is Some ==> authorize_pairs(c, o).contains(
            ("code_challenge"@, o.code_challenge->0@),
        ),
        o.code_challenge is Some ==> authorize_pairs(c, o).contains(
            ("code_challenge_method"@, or_default(opt_view(o.code_challenge_method), "S256"@)),
        ),
        forall|j: int|
            0 <= j < o.additional_parameters@.len() && (#[trigger] o.additional_parameters@[j]).0@.len()
                > 0 && o.additional_parameters@[j].1@.len() > 0 ==> authorize_pairs(c, o).contains(
                (o.additional_parameters@[j].0@, o.additional_parameters@[j].1@),
            ),
        authorize_pairs(c, o).contains(("client_id"@, c.client_id@)),
        authorize_pairs(c, o).contains(("scope"@, join_with(requested_scopes(c, o), seq![' ']))),
        authorize_pairs(c, o).contains(
            ("response_type"@, or_default(opt_view(o.response_type), "code"@)),
        ),
        authorize_pairs(c, o).contains(
            ("redirect_uri"@, or_default(opt_view(o.redirect_uri), c.redirect_uri@)),
        ),
{
    let fixed = seq![
        ("response_type"@, or_default(opt_view(o.response_type), "code"@)),
        ("client_id"@, c.client_id@),
        ("redirect_uri"@, or_default(opt_view(o.redirect_uri), c.redirect_uri@)),
        ("scope"@, join_with(requested_scopes(c, o), seq![' '])),
    ];
    let st = opt_pair("state"@, o.state);
    let no = opt_pair("nonce"@, o.nonce);
    let ch = match o.code_challenge {
        Some(x) => seq![
            ("code_challenge"@, x@),
            ("code_challenge_method"@, or_default(opt_view(o.code_challenge_method), "S256"@)),
        ],
        None => seq![],
    };
    let ex = extra_pairs(o.additional_parameters@);
    let all = authorize_pairs(c, o);
    assert(all == fixed + st + no + ch + ex);
    let x1 = ("client_id"@, c.client_id@);
    assert(fixed[1] == x1);
    lemma_contains_concat(fixed, st, x1);
    lemma_contains_concat(fixed + st, no, x1);
    lemma_contains_concat(fixed + st + no, ch, x1);
    lemma_contains_concat(fixed + st + no + ch, ex, x1);
    let x0 = fixed[0];
    lemma_contains_concat(fixed, st, x0);
    lemma_contains_concat(fixed + st, no, x0);
    lemma_contains_concat(fixed + st + no, ch, x0);
    lemma_contains_concat(fixed + st + no + ch, ex, x0);
    let x2 = fixed[2];
    lemma_contains_concat(fixed, st, x2);
    lemma_contains_concat(fixed + st, no, x2);
    lemma_contains_concat(fixed + st + no, ch, x2);
    lemma_contains_concat(fixed + st + no + ch, ex, x2);
    let x3 = ("scope"@, join_with(requested_scopes(c, o), seq![' ']));
    assert(fixed[3] == x3);
    lemma_contains_concat(fixed, st, x3);
    lemma_contains_concat(fixed + st, no, x3);
    lemma_contains_concat(fixed + st + no, ch, x3);
    lemma_contains_concat(fixed + st + no + ch, ex, x3);
    if o.state is Some {
        let x = ("state"@, o.state->0@);
        assert(st[0] == x);
        lemma_contains_concat(fixed, st, x);
        lemma_contains_concat(fixed + st, no, x);
        lemma_contains_concat(fixed + st + no, ch, x);
        lemma_contains_concat(fixed + st + no + ch, ex, x);
    }
    if o.nonce is Some {
        let x = ("nonce"@, o.nonce->0@);
        assert(no[0] == x);
        lemma_contains_concat(fixed + st, no, x);
        lemma_contains_concat(fixed + st + no, ch, x);
        lemma_contains_concat(fixed + st + no + ch, ex, x);
    }
    if o.code_challenge is Some {
        let x = ("code_challenge"@, o.code_challenge->0@);
        let y = ("code_challenge_method"@, or_default(opt_view(o.code_challenge_method), "S256"@));
        assert(ch[0] == x);
        assert(ch[1] == y);
        lemma_contains_concat(fixed + st + no, ch, x);
        lemma_contains_concat(fixed + st + no + ch, ex, x);
        lemma_contains_concat(fixed + st + no, ch, y);
        lemma_contains_concat(fixed + st + no + ch, ex, y);
    }
    assert forall|j: int|
        0 <= j < o.additional_parameters@.len() && (#[trigger] o.additional_parameters@[j]).0@.len()
            > 0 && o.additional_parameters@[j].1@.len() > 0 implies all.contains(
        (o.additional_parameters@[j].0@, o.additional_parameters@[j].1@),
    ) by {
        lemma_extra_pairs_keep(o.additional_parameters@, j);
        lemma_contains_concat(
            fixed + st + no + ch,
            ex,
            (o.additional_parameters@[j].0@, o.additional_parameters@[j].1@),
        );
    }
}

} // verus!
