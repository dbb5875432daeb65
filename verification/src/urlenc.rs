use vstd::prelude::*;
use vstd::utf8::encode_utf8;

verus! {

/// Bytes that `application/x-www-form-urlencoded` serialisation leaves as they are:
/// ASCII letters and digits, `*`, `-`, `.` and `_`.
pub open spec fn form_byte_unchanged(b: u8) -> bool {
    ||| b == 0x2a
    ||| b == 0x2d
    ||| b == 0x2e
    ||| 0x30 <= b <= 0x39
    ||| 0x41 <= b <= 0x5a
    ||| b == 0x5f
    ||| 0x61 <= b <= 0x7a
}

/// The upper-case hexadecimal digit for `n` (below 16).
pub open spec fn hex_digit(n: u8) -> char {
    seq!['0', '1', '2', '3', '4', '5', '6', '7', '8', '9', 'A', 'B', 'C', 'D', 'E', 'F'][n as int]
}

/// How one byte is serialised: itself, `+` for a space, else `%` and two hex digits.
pub open spec fn form_encode_byte(b: u8) -> Seq<char> {
    if form_byte_unchanged(b) {
        seq![b as char]
    } else if b == 0x20 {
        seq!['+']
    } else {
        seq!['%', hex_digit(b / 16), hex_digit(b % 16)]
    }
}

/// The form-urlencoded serialisation of a byte sequence.
pub open spec fn form_encode_bytes(bs: Seq<u8>) -> Seq<char>
    decreases bs.len(),
{
    if bs.len() == 0 {
        seq![]
    } else {
        form_encode_bytes(bs.drop_last()) + form_encode_byte(bs.last())
    }
}

/// The form-urlencoded serialisation of a string's UTF-8 bytes.
pub open spec fn form_encode(s: Seq<char>) -> Seq<char> {
    form_encode_bytes(encode_utf8(s))
}

/// Calls `url::form_urlencoded::byte_serialize` on the UTF-8 bytes of `value` and
/// collects the pieces: the serialisation that `form_encode` describes.
#[verifier::external_body]
pub(crate) fn urlencoding(value: &str) -> (r: String)
    ensures
        r@ == form_encode(value@),
{
    url::form_urlencoded::byte_serialize(value.as_bytes()).collect()
}

/// The contents of a list of name/value pairs.
pub open spec fn pairs_view(v: Seq<(String, String)>) -> Seq<(Seq<char>, Seq<char>)> {
    v.map_values(|p: (String, String)| (p.0@, p.1@))
}

/// What `url::Url::parse(base)` followed by appending `pairs` to its query and
/// serialising gives: the URL text, or the text of the parse error.
pub uninterp spec fn url_with_query(
    base: Seq<char>,
    pairs: Seq<(Seq<char>, Seq<char>)>,
) -> Result<Seq<char>, Seq<char>>;

/// Calls `url::Url::parse(base)`; on success appends `pairs` to the query with
/// `query_pairs_mut().extend_pairs` and returns `to_string()` of the URL, on failure the
/// error's text. The contract names this result and says nothing more of it.
#[verifier::external_body]
pub(crate) fn serialize_url_with_query(base: &str, pairs: &Vec<(String, String)>) -> (r: Result<
    String,
    String,
>)
    ensures
        match url_with_query(base@, pairs_view(pairs@)) {
            Ok(u) => r matches Ok(s) && s@ == u,
            Err(m) => r matches Err(s) && s@ == m,
        },
{
    match url::Url::parse(base) {
        Ok(mut url) => {
            url.query_pairs_mut().extend_pairs(pairs.iter());
            Ok(url.to_string())
        },
        Err(err) => Err(err.to_string()),
    }
}

/// The characters a form-urlencoded value can hold: ASCII letters and digits and
/// `*`, `-`, `.`, `_`, `+`, `%`.
pub open spec fn form_safe_char(c: char) -> bool {
    let n = c as u32;
    ||| 0x30 <= n <= 0x39
    ||| 0x41 <= n <= 0x5a
    ||| 0x61 <= n <= 0x7a
    ||| n == 0x2a
    ||| n == 0x2d
    ||| n == 0x2e
    ||| n == 0x5f
    ||| n == 0x2b
    ||| n == 0x25
}

proof fn lemma_form_encode_byte_safe(b: u8)
    ensures
        forall|i: int| 0 <= i < form_encode_byte(b).len() ==> form_safe_char(
            #[trigger] form_encode_byte(b)[i],
        ),
{
    let hex = seq!['0', '1', '2', '3', '4', '5', '6', '7', '8', '9', 'A', 'B', 'C', 'D', 'E', 'F'];
    assert forall|k: int| 0 <= k < 16 implies form_safe_char(#[trigger] hex[k]) by {}
    assert(hex_digit(b / 16) == hex[(b / 16) as int]);
    assert(hex_digit(b % 16) == hex[(b % 16) as int]);
}

/// A form-urlencoded value holds only letters, digits and `*-._+%`: it cannot end a
/// query parameter or begin a fragment.
pub proof fn lemma_form_encode_safe(bs: Seq<u8>)
    ensures
        forall|i: int| 0 <= i < form_encode_bytes(bs).len() ==> form_safe_char(
            #[trigger] form_encode_bytes(bs)[i],
        ),
    decreases bs.len(),
{
    if bs.len() > 0 {
        lemma_form_encode_safe(bs.drop_last());
        lemma_form_encode_byte_safe(bs.last());
        let a = form_encode_bytes(bs.drop_last());
        let e = form_encode_byte(bs.last());
        assert forall|i: int| 0 <= i < (a + e).len() implies form_safe_char(#[trigger] (a + e)[i]) by {
            if i < a.len() {
                assert((a + e)[i] == a[i]);
            } else {
                assert((a + e)[i] == e[i - a.len()]);
            }
        }
    }
}

} // verus!
