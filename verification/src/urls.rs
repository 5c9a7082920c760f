//! URL parsing and query encoding, done by the `url` crate.
use vstd::prelude::*;
use vstd::string::StringSliceAdditionalSpecFns;

verus! {

/// The characters of an optional string.
pub open spec fn opt_chars(o: Option<String>) -> Option<Seq<char>> {
    match o {
        Some(s) => Some(s@),
        None => None,
    }
}

/// The parts of a parsed absolute URL that this crate reads.
#[derive(Clone, Debug)]
pub struct UrlParts {
    pub scheme: String,
    pub username: String,
    pub password: Option<String>,
    pub host: Option<String>,
    /// The explicit port, or the scheme's well-known one (80, 443, ...).
    pub port: Option<u16>,
    /// Query pairs, percent- and `+`-decoded, in order.
    pub query: Vec<(String, String)>,
    /// The serialized URL.
    pub text: String,
}

pub struct UrlView {
    pub scheme: Seq<char>,
    pub username: Seq<char>,
    pub password: Option<Seq<char>>,
    pub host: Option<Seq<char>>,
    pub port: Option<u16>,
    pub query: Seq<(Seq<char>, Seq<char>)>,
    pub text: Seq<char>,
}

impl View for UrlParts {
    type V = UrlView;

    open spec fn view(&self) -> UrlView {
        UrlView {
            scheme: self.scheme@,
            username: self.username@,
            password: opt_chars(self.password),
            host: opt_chars(self.host),
            port: self.port,
            query: self.query@.map_values(|p: (String, String)| (p.0@, p.1@)),
            text: self.text@,
        }
    }
}

/// What `url::Url::parse` makes of a text, read through `UrlParts`.
pub uninterp spec fn parsed_url(text: Seq<char>) -> Option<UrlView>;

/// `url::Url::parse` (WHATWG URL parsing of an absolute URL), with the parsed
/// URL read out through `scheme`, `username`, `password`, `host_str`,
/// `port_or_known_default`, `query_pairs` and its serialization. The contract
/// names the outcome and claims nothing more: which texts parse, and to what,
/// is left to the `url` crate.
#[verifier::external_body]
pub(crate) fn parse_url(text: &str) -> (r: Option<UrlParts>)
    ensures
        match r {
            Some(p) => parsed_url(text@) == Some(p@),
            None => parsed_url(text@) is None,
        },
{
    url::Url::parse(text).ok().map(|u| UrlParts {
        scheme: u.scheme().to_string(),
        username: u.username().to_string(),
        password: u.password().map(|p| p.to_string()),
        host: u.host_str().map(|h| h.to_string()),
        port: u.port_or_known_default(),
        query: u.query_pairs().map(|(k, v)| (k.into_owned(), v.into_owned())).collect(),
        text: u.to_string(),
    })
}

/// What `url::Url::join` gives for a reference resolved against a base URL
/// (both as text), serialized.
pub uninterp spec fn joined_url(base: Seq<char>, reference: Seq<char>) -> Option<Seq<char>>;

/// `url::Url::parse` of `base` followed by `url::Url::join` of `reference`,
/// serialized; `None` when either step fails. Only named, not described.
#[verifier::external_body]
pub(crate) fn join_url(base: &str, reference: &str) -> (r: Option<String>)
    ensures
        opt_chars(r) == joined_url(base@, reference@),
{
    url::Url::parse(base).ok()?.join(reference).ok().map(|u| u.to_string())
}

/// Bytes that `application/x-www-form-urlencoded` leaves as they are.
pub open spec fn form_unchanged(b: u8) -> bool {
    b == 0x2a || b == 0x2d || b == 0x2e || (0x30 <= b && b <= 0x39) || (0x41 <= b && b <= 0x5a)
        || b == 0x5f || (0x61 <= b && b <= 0x7a)
}

pub open spec fn hex_upper(n: u8) -> char {
    if n < 10 {
        ((n + 0x30) as u8) as char
    } else {
        ((n - 10 + 0x41) as u8) as char
    }
}

/// The form encoding of one byte: kept, `+` for a space, `%XX` otherwise.
pub open spec fn form_encode_byte(b: u8) -> Seq<char> {
    if form_unchanged(b) {
        seq![b as char]
    } else if b == 0x20 {
        seq!['+']
    } else {
        seq!['%', hex_upper(b / 16), hex_upper(b % 16)]
    }
}

pub open spec fn form_encode(bytes: Seq<u8>) -> Seq<char>
    decreases bytes.len(),
{
    if bytes.len() == 0 {
        Seq::empty()
    } else {
        form_encode_byte(bytes[0]) + form_encode(bytes.drop_first())
    }
}

/// `url::form_urlencoded::byte_serialize` of the UTF-8 bytes of `text`, collected:
/// the crate documents the WHATWG byte serializer, which keeps `*-._`, digits
/// and ASCII letters, writes a space as `+` and every other byte as `%XX` in
/// upper-case hexadecimal.
#[verifier::external_body]
pub(crate) fn encode_query(text: &str) -> (r: String)
    ensures
        r@ == form_encode(text.spec_bytes()),
{
    url::form_urlencoded::byte_serialize(text.as_bytes()).collect()
}

} // verus!
