//! URL handling, percent-encoding and Base64, provided by outside crates.
//!
//! The items marked `external_body` here are trusted: their contracts are
//! believed, not proved. Each doc comment says what is claimed.
use vstd::prelude::*;
use vstd::string::StringSliceAdditionalSpecFns;
use crate::text::opt_str_view;

verus! {

/// The parts of a parsed URL that the library reads: its serialization, its
/// scheme, its host (if any) and its port or the scheme's default port.
pub struct UrlParts {
    pub serialized: String,
    pub scheme: String,
    pub host: Option<String>,
    pub port: Option<u16>,
}


/// Spec-level shape of [`UrlParts`]: (serialization, scheme, host, port).
pub type UrlPartsView = (Seq<char>, Seq<char>, Option<Seq<char>>, Option<u16>);

impl View for UrlParts {
    type V = UrlPartsView;

    open spec fn view(&self) -> UrlPartsView {
        (self.serialized@, self.scheme@, opt_str_view(self.host), self.port)
    }
}

pub open spec fn opt_parts_view(o: Option<UrlParts>) -> Option<UrlPartsView> {
    match o {
        Some(p) => Some(p@),
        None => None,
    }
}

/// What `url::Url::parse` makes of a text, read through `as_str`, `scheme`,
/// `host_str` and `port_or_known_default`; `None` where it refuses the text.
pub uninterp spec fn parsed_url(text: Seq<char>) -> Option<(Seq<char>, Seq<char>, Option<Seq<char>>, Option<u16>)>;

/// What `Url::join` gives for `href` against the URL that `Url::parse` makes
/// of `base`, as serialized text; `None` where either step fails.
pub uninterp spec fn joined_url(base: Seq<char>, href: Seq<char>) -> Option<Seq<char>>;


/// Calls `url::Url::parse` (as re-exported by `reqwest`) and reads the
/// serialization, scheme, host and port of the result. The contract claims
/// only that the outcome is a function of the text.
#[verifier::external_body]
pub(crate) fn parse_url(text: &str) -> (r: Option<UrlParts>)
    ensures
        opt_parts_view(r) == parsed_url(text@),
{
    match reqwest::Url::parse(text) {
        Ok(u) => Some(
            UrlParts {
                serialized: u.as_str().to_string(),
                scheme: u.scheme().to_string(),
                host: u.host_str().map(|h| h.to_string()),
                port: u.port_or_known_default(),
            },
        ),
        Err(_) => None,
    }
}

/// Calls `Url::parse` on `base` and then `Url::join` with `href`, and
/// serializes the result. The contract claims only that the outcome is a
/// function of the two texts.
#[verifier::external_body]
pub(crate) fn join_url(base: &str, href: &str) -> (r: Option<String>)
    ensures
        opt_str_view(r) == joined_url(base@, href@),
{
    match reqwest::Url::parse(base) {
        Ok(u) => match u.join(href) {
            Ok(j) => Some(j.to_string()),
            Err(_) => None,
        },
        Err(_) => None,
    }
}

/// Bytes that `urlencoding::encode` leaves as they are.
pub open spec fn is_unreserved(b: u8) -> bool {
    ||| 0x30 <= b <= 0x39
    ||| 0x41 <= b <= 0x5A
    ||| 0x61 <= b <= 0x7A
    ||| b == 0x2D
    ||| b == 0x2E
    ||| b == 0x5F
    ||| b == 0x7E
}

/// Upper-case hexadecimal digit for a value below 16.
pub open spec fn hex_upper(d: u8) -> char {
    if d < 10 {
        ((d + 0x30) as u32) as char
    } else {
        ((d + 0x37) as u32) as char
    }
}

/// Percent-encoding of a byte sequence as `urlencoding::encode` does it:
/// unreserved bytes stay, every other byte becomes `%` and two upper-case
/// hexadecimal digits.
pub open spec fn percent_encode(bytes: Seq<u8>) -> Seq<char>
    decreases bytes.len(),
{
    if bytes.len() == 0 {
        Seq::empty()
    } else {
        let b = bytes[0];
        let head = if is_unreserved(b) {
            seq![(b as u32) as char]
        } else {
            seq!['%', hex_upper(b / 16), hex_upper(b % 16)]
        };
        head + percent_encode(bytes.drop_first())
    }
}

/// Calls `urlencoding::encode`, which percent-encodes the UTF-8 bytes of the
/// text. The contract restates the crate's documented rule (every byte but
/// ASCII alphanumerics and `-`, `.`, `_`, `~`, with upper-case digits, as its
/// source writes them).
#[verifier::external_body]
pub(crate) fn url_encode(text: &str) -> (r: String)
    ensures
        r@ == percent_encode(text.spec_bytes()),
{
    urlencoding::encode(text).into_owned()
}

/// The character of a 6-bit value in the standard Base64 alphabet
/// (`A`–`Z`, `a`–`z`, `0`–`9`, `+`, `/`).
pub open spec fn base64_digit(v: nat) -> char {
    if v < 26 {
        ((65 + v) as u32) as char
    } else if v < 52 {
        ((97 + v - 26) as u32) as char
    } else if v < 62 {
        ((48 + v - 52) as u32) as char
    } else if v == 62 {
        '+'
    } else {
        '/'
    }
}

/// Standard Base64 with padding (RFC 4648): each group of three bytes
/// becomes four characters; a last group of one or two bytes becomes two or
/// three characters followed by `=` up to four.
pub open spec fn base64_standard(b: Seq<u8>) -> Seq<char>
    decreases b.len(),
{
    if b.len() == 0 {
        Seq::empty()
    } else if b.len() == 1 {
        seq![base64_digit(b[0] as nat / 4), base64_digit((b[0] as nat % 4) * 16), '=', '=']
    } else if b.len() == 2 {
        seq![
            base64_digit(b[0] as nat / 4),
            base64_digit((b[0] as nat % 4) * 16 + b[1] as nat / 16),
            base64_digit((b[1] as nat % 16) * 4),
            '=',
        ]
    } else {
        seq![
            base64_digit(b[0] as nat / 4),
            base64_digit((b[0] as nat % 4) * 16 + b[1] as nat / 16),
            base64_digit((b[1] as nat % 16) * 4 + b[2] as nat / 64),
            base64_digit(b[2] as nat % 64),
        ] + base64_standard(b.skip(3))
    }
}

/// Calls `base64::Engine::encode` with the `STANDARD` engine (standard
/// alphabet, padding) on the UTF-8 bytes of the text. The contract restates
/// that encoding as [`base64_standard`].
#[verifier::external_body]
pub(crate) fn base64_encode(text: &str) -> (r: String)
    ensures
        r@ == base64_standard(text.spec_bytes()),
{
    base64::Engine::encode(&base64::engine::general_purpose::STANDARD, text.as_bytes())
}

} // verus!
