use vstd::prelude::*;
use vstd::slice::slice_to_vec;
use vstd::string::StrSliceExecFns;
use vstd::utf8::encode_utf8;

use crate::error::Error;
use crate::pae::{bytes_view, pae, pre_auth_encode};
use crate::scopes::{all_words, is_word, join_with, lemma_split_join, split_ws};
use crate::spans::{
    lemma_pieces_from_piece, lemma_pieces_from_sep, piece_spans, span_ok, spans_view, split_on,
    word_spans,
};
use crate::text::{
    chars_of, concat, is_white_space, opt_view, owned, same_text, string_of,
};
use crate::types::{PublicKey, PublicKeySet, DEFAULT_IMPLICIT_ASSERTION};

verus! {

// ---------------------------------------------------------------------------------------
// Bearer tokens
// ---------------------------------------------------------------------------------------

/// `c` with ASCII upper-case letters made lower case.
pub open spec fn ascii_lower(c: char) -> char {
    if 'A' <= c <= 'Z' {
        (((c as u8) + 32) as u8) as char
    } else {
        c
    }
}

/// Whether `w` is `bearer` in any mix of ASCII case.
pub open spec fn is_bearer_scheme(w: Seq<char>) -> bool {
    let target = seq!['b', 'e', 'a', 'r', 'e', 'r'];
    &&& w.len() == 6
    &&& forall|i: int| 0 <= i < 6 ==> ascii_lower(#[trigger] w[i]) == target[i]
}

/// The token that an `Authorization` header carries, where there is one.
pub open spec fn bearer_of(header: Option<Seq<char>>) -> Option<Seq<char>> {
    match header {
        Some(h) => {
            let words = split_ws(h);
            if words.len() == 2 && is_bearer_scheme(words[0]) {
                Some(words[1])
            } else {
                None
            }
        },
        None => None,
    }
}

fn is_bearer_word(cs: &Vec<char>, from: usize, to: usize) -> (r: bool)
    requires
        from <= to <= cs.len(),
    ensures
        r == is_bearer_scheme(cs@.subrange(from as int, to as int)),
{
    let ghost w = cs@.subrange(from as int, to as int);
    if to - from != 6 {
        return false;
    }
    let target: [char; 6] = ['b', 'e', 'a', 'r', 'e', 'r'];
    assert(target@ =~= seq!['b', 'e', 'a', 'r', 'e', 'r']);
    let mut i: usize = 0;
    while i < 6
        invariant
            i <= 6,
            to - from == 6,
            from <= to <= cs.len(),
            w == cs@.subrange(from as int, to as int),
            target@ == seq!['b', 'e', 'a', 'r', 'e', 'r'],
            forall|j: int| 0 <= j < i ==> ascii_lower(#[trigger] w[j]) == target@[j],
        decreases 6 - i,
    {
        let c = cs[from + i];
        assert(w[i as int] == c);
        let lowered = if 'A' <= c && c <= 'Z' {
            ((c as u8) + 32) as char
        } else {
            c
        };
        assert(lowered == ascii_lower(c));
        if lowered != target[i] {
            return false;
        }
        i = i + 1;
    }
    true
}

/// Reads the bearer token from an `Authorization` header: the header must hold exactly
/// two white-space separated words, the first being `bearer` in any ASCII case.
pub fn bearer_token<'a>(header: Option<&'a str>) -> (r: Result<&'a str, Error>)
    ensures
        match bearer_of(
            match header {
                Some(h) => Some(h@),
                None => None,
            },
        ) {
            Some(t) => r matches Ok(x) && x@ == t,
            None => r matches Err(Error::MissingBearer),
        },
{
    let h = match header {
        Some(h) => h,
        None => return Err(Error::MissingBearer),
    };
    let cs = chars_of(h);
    let spans = word_spans(&cs);
    if spans.len() != 2 {
        return Err(Error::MissingBearer);
    }
    let (s0, e0) = spans[0];
    let (s1, e1) = spans[1];
    assert(spans_view(cs@, spans@)[0] == cs@.subrange(s0 as int, e0 as int));
    assert(spans_view(cs@, spans@)[1] == cs@.subrange(s1 as int, e1 as int));
    assert(span_ok(spans@[0], cs.len() as int));
    assert(span_ok(spans@[1], cs.len() as int));
    if !is_bearer_word(&cs, s0, e0) {
        return Err(Error::MissingBearer);
    }
    Ok(h.substring_char(s1, e1))
}

// ---------------------------------------------------------------------------------------
// PASETO v4.public framing
// ---------------------------------------------------------------------------------------

/// The payload and footer sections of a `v4.public.<payload>.<footer>` token.
pub open spec fn paseto_sections(t: Seq<char>) -> Option<(Seq<char>, Seq<char>)> {
    let p = split_on(t, '.');
    if p.len() == 4 && p[0] == "v4"@ && p[1] == "public"@ {
        Some((p[2], p[3]))
    } else {
        None
    }
}

/// The Base64 alphabets and padding rules that tokens and keys may use.
#[derive(Clone, Copy, Debug, PartialEq, Eq)]
pub enum Base64Alphabet {
    UrlSafeNoPad,
    UrlSafe,
    StandardNoPad,
    Standard,
}

/// What the `base64` crate's `Engine::decode` gives for `text` under the general-purpose
/// engine for `alphabet`: the bytes, or the text of the decoding error.
pub uninterp spec fn base64_decoded(alphabet: Base64Alphabet, text: Seq<char>) -> Result<
    Seq<u8>,
    Seq<char>,
>;

/// Calls `base64::Engine::decode` with the general-purpose engine for `alphabet`
/// (`URL_SAFE_NO_PAD`, `URL_SAFE`, `STANDARD_NO_PAD` or `STANDARD`); an error is
/// returned as its text. The contract names the result and says nothing more of it.
#[verifier::external_body]
fn base64_decode(alphabet: Base64Alphabet, text: &str) -> (r: Result<Vec<u8>, String>)
    ensures
        match base64_decoded(alphabet, text@) {
            Ok(b) => r matches Ok(v) && v@ == b,
            Err(m) => r matches Err(e) && e@ == m,
        },
{
    let engine = match alphabet {
        Base64Alphabet::UrlSafeNoPad => base64::engine::general_purpose::URL_SAFE_NO_PAD,
        Base64Alphabet::UrlSafe => base64::engine::general_purpose::URL_SAFE,
        Base64Alphabet::StandardNoPad => base64::engine::general_purpose::STANDARD_NO_PAD,
        Base64Alphabet::Standard => base64::engine::general_purpose::STANDARD,
    };
    base64::Engine::decode(&engine, text).map_err(|err| err.to_string())
}

/// The decoded sections of a token. The payload is longer than a signature.
#[derive(Debug)]
pub struct DecodedToken {
    pub payload: Vec<u8>,
    pub footer: Vec<u8>,
}

impl DecodedToken {
    /// The signed message: the payload without its last 64 bytes, the signature.
    pub fn message(&self) -> (r: &[u8])
        requires
            self.payload@.len() >= 64,
        ensures
            r@ == self.payload@.take(self.payload@.len() - 64),
    {
        let split = self.payload.len() - 64;
        let (message, _) = self.payload.as_slice().split_at(split);
        message
    }
}

/// What decoding the two sections gives: the bytes, or the message of the failure.
pub open spec fn sections_outcome(
    payload: Result<Seq<u8>, Seq<char>>,
    footer: Result<Seq<u8>, Seq<char>>,
) -> Result<(Seq<u8>, Seq<u8>), Seq<char>> {
    match payload {
        Err(m) => Err("decode payload: "@ + m),
        Ok(p) => match footer {
            Err(m) => Err("decode footer: "@ + m),
            Ok(f) => if p.len() <= 64 {
                Err("payload is too short"@)
            } else {
                Ok((p, f))
            },
        },
    }
}

/// What decoding a token gives: its payload and footer bytes, or the message of the failure.
pub open spec fn token_decoding(t: Seq<char>) -> Result<(Seq<u8>, Seq<u8>), Seq<char>> {
    match paseto_sections(t) {
        None => Err("token is not PASETO v4.public"@),
        Some(secs) => sections_outcome(
            base64_decoded(Base64Alphabet::UrlSafeNoPad, secs.0),
            base64_decoded(Base64Alphabet::UrlSafeNoPad, secs.1),
        ),
    }
}

/// The token sections from the results of decoding them: a failure of either becomes an
/// invalid-token error naming the section, and a payload no longer than a signature is refused.
pub fn decoded_sections(payload: Result<Vec<u8>, String>, footer: Result<Vec<u8>, String>) -> (r:
    Result<DecodedToken, Error>)
    ensures
        match sections_outcome(
            match payload {
                Ok(b) => Ok(b@),
                Err(m) => Err(m@),
            },
            match footer {
                Ok(b) => Ok(b@),
                Err(m) => Err(m@),
            },
        ) {
            Ok(pf) => r matches Ok(d) && d.payload@ == pf.0 && d.footer@ == pf.1,
            Err(m) => r matches Err(Error::InvalidToken(e)) && e@ == m,
        },
{
    let payload = match payload {
        Ok(b) => b,
        Err(m) => return Err(Error::InvalidToken(concat("decode payload: ", m.as_str()))),
    };
    let footer = match footer {
        Ok(b) => b,
        Err(m) => return Err(Error::InvalidToken(concat("decode footer: ", m.as_str()))),
    };
    if payload.len() <= 64 {
        return Err(Error::InvalidToken(owned("payload is too short")));
    }
    Ok(DecodedToken { payload, footer })
}

/// The payload and footer text of a `v4.public` token.
pub fn token_sections(token: &str) -> (r: Result<(String, String), Error>)
    ensures
        match paseto_sections(token@) {
            Some(secs) => r matches Ok(x) && x.0@ == secs.0 && x.1@ == secs.1,
            None => r matches Err(Error::InvalidToken(m)) && m@ == "token is not PASETO v4.public"@,
        },
{
    let cs = chars_of(token);
    let spans = piece_spans(&cs, '.');
    if spans.len() != 4 {
        return Err(Error::InvalidToken(owned("token is not PASETO v4.public")));
    }
    let ghost pieces = spans_view(cs@, spans@);
    assert(span_ok(spans@[0], cs.len() as int));
    assert(span_ok(spans@[1], cs.len() as int));
    assert(span_ok(spans@[2], cs.len() as int));
    assert(span_ok(spans@[3], cs.len() as int));
    let version = string_of(&cs, spans[0].0, spans[0].1);
    let purpose = string_of(&cs, spans[1].0, spans[1].1);
    assert(pieces[0] == version@);
    assert(pieces[1] == purpose@);
    if !same_text(version.as_str(), "v4") || !same_text(purpose.as_str(), "public") {
        return Err(Error::InvalidToken(owned("token is not PASETO v4.public")));
    }
    let payload = string_of(&cs, spans[2].0, spans[2].1);
    let footer = string_of(&cs, spans[3].0, spans[3].1);
    assert(pieces[2] == payload@);
    assert(pieces[3] == footer@);
    Ok((payload, footer))
}

/// Splits a `v4.public` token and decodes its payload and footer (URL-safe Base64
/// without padding); the payload must be longer than a signature.
pub fn decode_token(token: &str) -> (r: Result<DecodedToken, Error>)
    ensures
        match token_decoding(token@) {
            Ok(pf) => r matches Ok(d) && d.payload@ == pf.0 && d.footer@ == pf.1,
            Err(m) => r matches Err(Error::InvalidToken(e)) && e@ == m,
        },
{
    let (payload, footer) = match token_sections(token) {
        Ok(secs) => secs,
        Err(e) => return Err(e),
    };
    let p = base64_decode(Base64Alphabet::UrlSafeNoPad, payload.as_str());
    let f = base64_decode(Base64Alphabet::UrlSafeNoPad, footer.as_str());
    decoded_sections(p, f)
}

/// What decoding only the footer of a token gives: its bytes, or the message of the failure.
pub open spec fn footer_decoding(t: Seq<char>) -> Result<Seq<u8>, Seq<char>> {
    match paseto_sections(t) {
        None => Err("token is not PASETO v4.public"@),
        Some(secs) => match base64_decoded(Base64Alphabet::UrlSafeNoPad, secs.1) {
            Ok(f) => Ok(f),
            Err(m) => Err("decode footer: "@ + m),
        },
    }
}

/// Splits a `v4.public` token and decodes its footer alone, without looking at the payload.
pub fn decode_footer(token: &str) -> (r: Result<Vec<u8>, Error>)
    ensures
        match footer_decoding(token@) {
            Ok(f) => r matches Ok(b) && b@ == f,
            Err(m) => r matches Err(Error::InvalidToken(e)) && e@ == m,
        },
{
    let (_, footer) = match token_sections(token) {
        Ok(secs) => secs,
        Err(e) => return Err(e),
    };
    match base64_decode(Base64Alphabet::UrlSafeNoPad, footer.as_str()) {
        Ok(b) => Ok(b),
        Err(m) => Err(Error::InvalidToken(concat("decode footer: ", m.as_str()))),
    }
}

// ---------------------------------------------------------------------------------------
// Footer and key selection
// ---------------------------------------------------------------------------------------

/// Whether a footer names the `v4.public` algorithm and the `paseto` type.
pub open spec fn footer_fields_ok(alg: Option<Seq<char>>, typ: Option<Seq<char>>) -> bool {
    alg == Some("v4.public"@) && typ == Some("paseto"@)
}

/// The key id that a footer names.
pub fn footer_kid(kid: Option<String>) -> (r: Result<String, Error>)
    ensures
        match kid {
            Some(k) => r matches Ok(x) && x@ == k@,
            None => r matches Err(Error::InvalidToken(m)) && m@ == "footer is missing kid"@,
        },
{
    match kid {
        Some(k) => Ok(k),
        None => Err(Error::InvalidToken(owned("footer is missing kid"))),
    }
}

/// The key id of a footer whose algorithm is `v4.public` and whose type is `paseto`.
pub fn check_footer(kid: Option<String>, alg: Option<String>, typ: Option<String>) -> (r: Result<
    String,
    Error,
>)
    ensures
        kid is None ==> (r matches Err(Error::InvalidToken(m)) && m@ == "footer is missing kid"@),
        kid is Some && !footer_fields_ok(opt_view(alg), opt_view(typ)) ==> (r matches Err(
            Error::InvalidToken(m),
        ) && m@ == "footer is not a Square v4.public footer"@),
        kid is Some && footer_fields_ok(opt_view(alg), opt_view(typ)) ==> (r matches Ok(k) && k@
            == kid->0@),
{
    let kid = match footer_kid(kid) {
        Ok(k) => k,
        Err(e) => return Err(e),
    };
    let alg_ok = match &alg {
        Some(a) => same_text(a.as_str(), "v4.public"),
        None => false,
    };
    let typ_ok = match &typ {
        Some(t) => same_text(t.as_str(), "paseto"),
        None => false,
    };
    if !alg_ok || !typ_ok {
        return Err(Error::InvalidToken(owned("footer is not a Square v4.public footer")));
    }
    Ok(kid)
}

/// Whether a published key is the Ed25519 `v4.public` key with id `kid`.
pub open spec fn key_fits(k: PublicKey, kid: Seq<char>) -> bool {
    &&& k.kid@ == kid
    &&& k.alg@ == "v4.public"@
    &&& k.crv@ == "Ed25519"@
}

/// The first key of a list that fits `kid`.
pub open spec fn fitting_key(keys: Seq<PublicKey>, kid: Seq<char>) -> Option<PublicKey>
    decreases keys.len(),
{
    if keys.len() == 0 {
        None
    } else if key_fits(keys[0], kid) {
        Some(keys[0])
    } else {
        fitting_key(keys.drop_first(), kid)
    }
}

/// The first key of the set that fits `kid`.
pub fn select_key<'a>(key_set: &'a PublicKeySet, kid: &str) -> (r: Result<&'a PublicKey, Error>)
    ensures
        match fitting_key(key_set.keys@, kid@) {
            Some(k) => r matches Ok(x) && *x == k,
            None => r matches Err(Error::InvalidToken(m)) && m@ == "key id "@ + kid@
                + " is not present in the Base key set"@,
        },
{
    let ghost keys = key_set.keys@;
    let mut i: usize = 0;
    assert(keys.skip(0) =~= keys);
    while i < key_set.keys.len()
        invariant
            i <= keys.len(),
            keys == key_set.keys@,
            fitting_key(keys, kid@) == fitting_key(keys.skip(i as int), kid@),
        decreases keys.len() - i,
    {
        let k = &key_set.keys[i];
        assert(keys.skip(i as int)[0] == keys[i as int]);
        if same_text(k.kid.as_str(), kid) && same_text(k.alg.as_str(), "v4.public") && same_text(
            k.crv.as_str(),
            "Ed25519",
        ) {
            return Ok(k);
        }
        assert(keys.skip(i as int).drop_first() =~= keys.skip(i + 1));
        i = i + 1;
    }
    let prefix = concat("key id ", kid);
    Err(Error::InvalidToken(concat(prefix.as_str(), " is not present in the Base key set")))
}

/// The contents of a decoding result.
pub open spec fn bytes_result(r: Result<Vec<u8>, String>) -> Result<Seq<u8>, Seq<char>> {
    match r {
        Ok(b) => Ok(b@),
        Err(m) => Err(m@),
    }
}

/// The first of four decodings that succeeded.
pub open spec fn first_ok(
    a: Result<Seq<u8>, Seq<char>>,
    b: Result<Seq<u8>, Seq<char>>,
    c: Result<Seq<u8>, Seq<char>>,
    d: Result<Seq<u8>, Seq<char>>,
) -> Option<Seq<u8>> {
    match a {
        Ok(x) => Some(x),
        Err(_) => match b {
            Ok(x) => Some(x),
            Err(_) => match c {
                Ok(x) => Some(x),
                Err(_) => match d {
                    Ok(x) => Some(x),
                    Err(_) => None,
                },
            },
        },
    }
}

/// The first decoding of `v` that succeeds, trying URL-safe without padding, URL-safe,
/// standard without padding, then standard Base64.
pub open spec fn flexible_decoding(v: Seq<char>) -> Option<Seq<u8>> {
    first_ok(
        base64_decoded(Base64Alphabet::UrlSafeNoPad, v),
        base64_decoded(Base64Alphabet::UrlSafe, v),
        base64_decoded(Base64Alphabet::StandardNoPad, v),
        base64_decoded(Base64Alphabet::Standard, v),
    )
}

/// The first successful decoding among four attempts, in order, or an invalid-token
/// error when none succeeded.
pub fn first_decoded(
    a: Result<Vec<u8>, String>,
    b: Result<Vec<u8>, String>,
    c: Result<Vec<u8>, String>,
    d: Result<Vec<u8>, String>,
) -> (r: Result<Vec<u8>, Error>)
    ensures
        match first_ok(bytes_result(a), bytes_result(b), bytes_result(c), bytes_result(d)) {
            Some(x) => r matches Ok(v) && v@ == x,
            None => r matches Err(Error::InvalidToken(m)) && m@ == "decode public key failed"@,
        },
{
    if let Ok(x) = a {
        return Ok(x);
    }
    if let Ok(x) = b {
        return Ok(x);
    }
    if let Ok(x) = c {
        return Ok(x);
    }
    if let Ok(x) = d {
        return Ok(x);
    }
    Err(Error::InvalidToken(owned("decode public key failed")))
}

/// Decodes a Base64 public key written in any of the four usual forms.
pub fn decode_base64_flexible(value: &str) -> (r: Result<Vec<u8>, Error>)
    ensures
        match flexible_decoding(value@) {
            Some(b) => r matches Ok(v) && v@ == b,
            None => r matches Err(Error::InvalidToken(m)) && m@ == "decode public key failed"@,
        },
{
    first_decoded(
        base64_decode(Base64Alphabet::UrlSafeNoPad, value),
        base64_decode(Base64Alphabet::UrlSafe, value),
        base64_decode(Base64Alphabet::StandardNoPad, value),
        base64_decode(Base64Alphabet::Standard, value),
    )
}

// ---------------------------------------------------------------------------------------
// The signature
// ---------------------------------------------------------------------------------------

/// The header that PASETO `v4.public` signatures cover: `v4.public.`.
pub open spec fn paseto_header() -> Seq<u8> {
    seq![0x76u8, 0x34, 0x2e, 0x70, 0x75, 0x62, 0x6c, 0x69, 0x63, 0x2e]
}

fn header_bytes() -> (r: Vec<u8>)
    ensures
        r@ == paseto_header(),
{
    let mut r: Vec<u8> = Vec::new();
    r.push(0x76u8);
    r.push(0x34u8);
    r.push(0x2eu8);
    r.push(0x70u8);
    r.push(0x75u8);
    r.push(0x62u8);
    r.push(0x6cu8);
    r.push(0x69u8);
    r.push(0x63u8);
    r.push(0x2eu8);
    assert(r@ =~= paseto_header());
    r
}

/// What checking an Ed25519 signature gives with the `ed25519-dalek` crate: an error
/// text when the 32-byte key is not a valid point, else whether `sig` (64 bytes) is a
/// valid signature of `msg` under the key.
pub uninterp spec fn ed25519_outcome(key: Seq<u8>, msg: Seq<u8>, sig: Seq<u8>) -> Result<
    bool,
    Seq<char>,
>;

/// Calls `ed25519_dalek::VerifyingKey::try_from` on `key`, `Signature::from_slice` on
/// `sig` and `Verifier::verify`; a key or signature error is returned as its text (with a
/// 64-byte `sig` only the key can be refused). The contract names the result.
#[verifier::external_body]
fn ed25519_check(key: &[u8], msg: &[u8], sig: &[u8]) -> (r: Result<bool, String>)
    requires
        key@.len() == 32,
        sig@.len() == 64,
    ensures
        match ed25519_outcome(key@, msg@, sig@) {
            Ok(b) => r == Ok::<bool, String>(b),
            Err(m) => r matches Err(e) && e@ == m,
        },
{
    let key = match ed25519_dalek::VerifyingKey::try_from(key) {
        Ok(k) => k,
        Err(err) => return Err(err.to_string()),
    };
    let sig = match ed25519_dalek::Signature::from_slice(sig) {
        Ok(s) => s,
        Err(err) => return Err(err.to_string()),
    };
    Ok(ed25519_dalek::Verifier::verify(&key, msg, &sig).is_ok())
}

/// The verdict on a signature check: a key error becomes an invalid-token error, a
/// signature that does not verify is refused.
pub fn signature_verdict(outcome: Result<bool, String>) -> (r: Result<(), Error>)
    ensures
        match outcome {
            Ok(true) => r is Ok,
            Ok(false) => r matches Err(Error::InvalidToken(m)) && m@
                == "signature verification failed"@,
            Err(t) => r matches Err(Error::InvalidToken(m)) && m@ == "invalid Ed25519 public key: "@
                + t@,
        },
{
    match outcome {
        Ok(true) => Ok(()),
        Ok(false) => Err(Error::InvalidToken(owned("signature verification failed"))),
        Err(t) => Err(Error::InvalidToken(concat("invalid Ed25519 public key: ", t.as_str()))),
    }
}

/// The implicit assertion a signature covers: the one given, or the default.
pub open spec fn implicit_of(implicit: Option<Seq<char>>) -> Seq<char> {
    match implicit {
        Some(a) => a,
        None => DEFAULT_IMPLICIT_ASSERTION@,
    }
}

/// What checking a token's signature against a published key gives: nothing, or the
/// message of the failure. The message is the payload without its last 64 bytes, which
/// are the signature; the signed bytes are the pre-authentication encoding of the
/// header, the message, the footer and the implicit assertion.
pub open spec fn signature_check(
    key: PublicKey,
    payload: Seq<u8>,
    footer: Seq<u8>,
    implicit: Seq<char>,
) -> Result<(), Seq<char>> {
    match flexible_decoding(key.public_key_base64@) {
        None => Err("decode public key failed"@),
        Some(kb) => if kb.len() != 32 {
            Err("Ed25519 public key has invalid size"@)
        } else {
            let msg = payload.take(payload.len() - 64);
            let sig = payload.skip(payload.len() - 64);
            match ed25519_outcome(
                kb,
                pae(seq![paseto_header(), msg, footer, encode_utf8(implicit)]),
                sig,
            ) {
                Err(t) => Err("invalid Ed25519 public key: "@ + t),
                Ok(false) => Err("signature verification failed"@),
                Ok(true) => Ok(()),
            }
        },
    }
}

/// Checks the signature of a decoded token against a published key.
pub fn verify_signature(key: &PublicKey, token: &DecodedToken, implicit: Option<&str>) -> (r:
    Result<(), Error>)
    requires
        token.payload@.len() > 64,
    ensures
        match signature_check(
            *key,
            token.payload@,
            token.footer@,
            implicit_of(
                match implicit {
                    Some(a) => Some(a@),
                    None => None,
                },
            ),
        ) {
            Ok(()) => r is Ok,
            Err(m) => r matches Err(Error::InvalidToken(e)) && e@ == m,
        },
{
    let key_bytes = match decode_base64_flexible(key.public_key_base64.as_str()) {
        Ok(b) => b,
        Err(e) => return Err(e),
    };
    if key_bytes.len() != 32 {
        return Err(Error::InvalidToken(owned("Ed25519 public key has invalid size")));
    }
    let split = token.payload.len() - 64;
    let (message, signature) = token.payload.as_slice().split_at(split);
    let assertion: &str = match implicit {
        Some(a) => a,
        None => DEFAULT_IMPLICIT_ASSERTION,
    };
    let mut pieces: Vec<Vec<u8>> = Vec::new();
    pieces.push(header_bytes());
    pieces.push(slice_to_vec(message));
    pieces.push(token.footer.clone());
    pieces.push(slice_to_vec(assertion.as_bytes()));
    let ghost implicit_text = implicit_of(
        match implicit {
            Some(a) => Some(a@),
            None => None,
        },
    );
    assert(assertion@ == implicit_text);
    assert(bytes_view(pieces@) =~= seq![
        paseto_header(),
        token.payload@.take(token.payload@.len() - 64),
        token.footer@,
        encode_utf8(implicit_text),
    ]);
    let pae_bytes = pre_auth_encode(&pieces);
    signature_verdict(ed25519_check(key_bytes.as_slice(), pae_bytes.as_slice(), signature))
}

// ---------------------------------------------------------------------------------------
// Laws
// ---------------------------------------------------------------------------------------

/// A header made of `Bearer`, one space and a token without white space yields that token.
pub proof fn lemma_bearer_round_trip(t: Seq<char>)
    requires
        is_word(t),
    ensures
        bearer_of(Some(seq!['B', 'e', 'a', 'r', 'e', 'r'] + seq![' '] + t)) == Some(t),
{
    let b = seq!['B', 'e', 'a', 'r', 'e', 'r'];
    let v = seq![b, t];
    assert(is_word(b)) by {
        assert forall|j: int| 0 <= j < b.len() implies !is_white_space(#[trigger] b[j]) by {
            assert(b[j] == 'B' || b[j] == 'e' || b[j] == 'a' || b[j] == 'r');
        }
    }
    assert(all_words(v)) by {
        assert forall|i: int| 0 <= i < v.len() implies is_word(#[trigger] v[i]) by {
            if i == 0 {
                assert(v[i] == b);
            } else {
                assert(v[i] == t);
            }
        }
    }
    lemma_split_join(v);
    assert(v.drop_last() =~= seq![b]);
    assert(join_with(v, seq![' ']) == join_with(v.drop_last(), seq![' ']) + seq![' '] + v.last());
    assert(join_with(v, seq![' ']) == b + seq![' '] + t);
    let w = split_ws(b + seq![' '] + t);
    assert(w == v);
    assert(ascii_lower('B') == 'b');
    assert(is_bearer_scheme(w[0]));
}

/// A token assembled as `v4.public.<payload>.<footer>`, with no `.` in either section,
/// has exactly those sections.
pub proof fn lemma_token_sections_round_trip(payload: Seq<char>, footer: Seq<char>)
    requires
        !payload.contains('.'),
        !footer.contains('.'),
    ensures
        paseto_sections("v4"@ + seq!['.'] + "public"@ + seq!['.'] + payload + seq!['.'] + footer)
            == Some((payload, footer)),
{
    reveal_strlit("v4");
    reveal_strlit("public");
    let v4 = "v4"@;
    let public = "public"@;
    assert(!v4.contains('.')) by {
        if v4.contains('.') {
            let k = choose|k: int| 0 <= k < v4.len() && v4[k] == '.';
            assert(v4[k] == '.');
        }
    }
    assert(!public.contains('.')) by {
        if public.contains('.') {
            let k = choose|k: int| 0 <= k < public.len() && public[k] == '.';
            assert(public[k] == '.');
        }
    }
    let dot = seq!['.'];
    let t = v4 + dot + public + dot + payload + dot + footer;
    let r3 = footer;
    let r2 = payload + dot + r3;
    let r1 = public + dot + r2;
    assert(t =~= v4 + dot + r1);
    lemma_pieces_from_sep(v4, r1, '.');
    lemma_pieces_from_sep(public, r2, '.');
    lemma_pieces_from_sep(payload, r3, '.');
    lemma_pieces_from_piece(footer, seq![], '.', seq![]);
    assert(footer + Seq::<char>::empty() =~= footer);
    assert(Seq::<char>::empty() + footer =~= footer);
    let p = split_on(t, '.');
    assert(p =~= seq![v4, public, payload, footer]);
}

} // verus!
