//! Parsing of an HTTP `Authorization: Basic ...` header into credentials.
use base64::Engine;
use vstd::prelude::*;
use vstd::string::*;
use vstd::utf8::*;

verus! {

/// The bytes that the standard padded base64 alphabet decodes `text` to, or
/// `None` where `text` is not valid base64.
pub uninterp spec fn base64_decoding(text: Seq<char>) -> Option<Seq<u8>>;

/// Relies on `base64::engine::general_purpose::STANDARD.decode`.
#[verifier::external_body]
fn decode_base64(text: &str) -> (r: Option<Vec<u8>>)
    ensures
        r is Some <==> base64_decoding(text@) is Some,
        r matches Some(b) ==> base64_decoding(text@) == Some(b@),
{
    base64::engine::general_purpose::STANDARD.decode(text).ok()
}

/// Relies on `std::str::from_utf8`, which fails exactly on bytes that are not UTF-8.
#[verifier::external_body]
fn utf8_text(bytes: &[u8]) -> (r: Option<String>)
    ensures
        r is Some <==> valid_utf8(bytes@),
        r matches Some(s) ==> s@ == decode_utf8(bytes@),
{
    std::str::from_utf8(bytes).ok().map(|s| s.to_string())
}

/// Raised for an absent header, a scheme other than `Basic`, or a payload that
/// does not decode to `identifier:secret`.
#[derive(Clone, Copy, Debug, PartialEq, Eq, Structural)]
pub struct MalformedRequest;

/// The identifier and plaintext secret carried by a Basic header.
#[derive(Clone, Debug, PartialEq, Eq)]
pub struct BasicCredentials {
    pub identifier: String,
    pub secret: String,
}

/// The scheme prefix, matched case-sensitively.
pub open spec fn basic_scheme() -> Seq<char> {
    seq!['B', 'a', 's', 'i', 'c', ' ']
}

/// The encoded payload after the `Basic ` prefix, if the header has that prefix.
pub open spec fn basic_payload(header: Seq<char>) -> Option<Seq<char>> {
    if header.len() >= 6 && header.subrange(0, 6) == basic_scheme() {
        Some(header.subrange(6, header.len() as int))
    } else {
        None
    }
}

/// The decoded text of a Basic header's payload, if it is base64 of UTF-8.
pub open spec fn credential_text(header: Seq<char>) -> Option<Seq<char>> {
    match basic_payload(header) {
        Some(payload) => match base64_decoding(payload) {
            Some(bytes) => if valid_utf8(bytes) {
                Some(decode_utf8(bytes))
            } else {
                None
            },
            None => None,
        },
        None => None,
    }
}

/// `text` is `identifier`, a colon, then `secret`, with the colon being the
/// first one in `text`.
pub open spec fn splits_at_first_colon(
    text: Seq<char>,
    identifier: Seq<char>,
    secret: Seq<char>,
) -> bool {
    text == identifier + seq![':'] + secret && !identifier.contains(':')
}

/// Whether a header (possibly absent) carries well-formed Basic credentials.
pub open spec fn well_formed_basic(header: Option<&str>) -> bool {
    match header {
        Some(h) => match credential_text(h@) {
            Some(text) => text.contains(':'),
            None => false,
        },
        None => false,
    }
}

/// The payload of `header` if it starts with the `Basic ` scheme.
fn strip_basic_scheme(header: &str) -> (r: Option<&str>)
    ensures
        r is Some <==> basic_payload(header@) is Some,
        r matches Some(p) ==> basic_payload(header@) == Some(p@),
{
    let n = header.unicode_len();
    if n < 6 {
        return None;
    }
    let matches_scheme = header.get_char(0) == 'B' && header.get_char(1) == 'a'
        && header.get_char(2) == 's' && header.get_char(3) == 'i'
        && header.get_char(4) == 'c' && header.get_char(5) == ' ';
    if matches_scheme {
        assert(header@.subrange(0, 6) =~= basic_scheme());
        Some(header.substring_char(6, n))
    } else {
        assert(header@.subrange(0, 6)[0] == header@[0]);
        assert(header@.subrange(0, 6) != basic_scheme()) by {
            if header@.subrange(0, 6) == basic_scheme() {
                assert(header@.subrange(0, 6)[1] == header@[1]);
                assert(header@.subrange(0, 6)[2] == header@[2]);
                assert(header@.subrange(0, 6)[3] == header@[3]);
                assert(header@.subrange(0, 6)[4] == header@[4]);
                assert(header@.subrange(0, 6)[5] == header@[5]);
            }
        }
        None
    }
}

/// Splits `text` at its first colon.
pub fn split_first_colon(text: &str) -> (r: Option<BasicCredentials>)
    ensures
        r is Some <==> text@.contains(':'),
        r matches Some(c) ==> splits_at_first_colon(text@, c.identifier@, c.secret@),
{
    let n = text.unicode_len();
    let mut i: usize = 0;
    while i < n
        invariant
            n == text@.len(),
            i <= n,
            forall|j: int| 0 <= j < i ==> text@[j] != ':',
        decreases n - i,
    {
        if text.get_char(i) == ':' {
            let identifier = text.substring_char(0, i).to_owned();
            let secret = text.substring_char(i + 1, n).to_owned();
            assert(text@ =~= identifier@ + seq![':'] + secret@);
            return Some(BasicCredentials { identifier, secret });
        }
        i = i + 1;
    }
    None
}

/// Extracts `identifier:secret` from an `Authorization` header of the form
/// `Basic <base64>`. No trimming or case folding is applied.
pub fn extract_basic_credentials(header: Option<&str>) -> (r: Result<BasicCredentials, MalformedRequest>)
    ensures
        r is Ok <==> well_formed_basic(header),
        r matches Ok(c) ==> splits_at_first_colon(
            credential_text(header.unwrap()@).unwrap(),
            c.identifier@,
            c.secret@,
        ),
{
    let h = match header {
        Some(h) => h,
        None => return Err(MalformedRequest),
    };
    let payload = match strip_basic_scheme(h) {
        Some(p) => p,
        None => return Err(MalformedRequest),
    };
    let bytes = match decode_base64(payload) {
        Some(b) => b,
        None => return Err(MalformedRequest),
    };
    let text = match utf8_text(bytes.as_slice()) {
        Some(t) => t,
        None => return Err(MalformedRequest),
    };
    match split_first_colon(text.as_str()) {
        Some(c) => Ok(c),
        None => Err(MalformedRequest),
    }
}

} // verus!
