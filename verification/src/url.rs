//! The URL of a request: from what the user typed to what goes on the wire.

use crate::error::ActorError;
use crate::text::{chars_of, decimal, decimal_of, starts_with};
use vstd::prelude::*;
use vstd::string::{StrSliceExecFns, StringExecFns, StringSliceAdditionalSpecFns};
use vstd::utf8::encode_utf8;

verus! {

/// The port of Gemini, where a URL names none.
pub const DEFAULT_PORT: u16 = 1965;

/// What this library reads of a URL that the `url` crate has parsed.
#[derive(Debug, Clone, PartialEq, Eq)]
pub struct UrlParts {
    /// The host, where the URL has one and it is a domain name rather than
    /// an IP address.
    pub domain: Option<String>,
    /// The port, where the URL names one.
    pub port: Option<u16>,
    /// The path, which may be empty.
    pub path: String,
}

/// What a `UrlParts` holds, as sequences of characters.
pub struct UrlPartsView {
    pub domain: Option<Seq<char>>,
    pub port: Option<u16>,
    pub path: Seq<char>,
}

impl View for UrlParts {
    type V = UrlPartsView;

    open spec fn view(&self) -> UrlPartsView {
        UrlPartsView {
            domain: match self.domain {
                Some(d) => Some(d@),
                None => None,
            },
            port: self.port,
            path: self.path@,
        }
    }
}

/// The URL of a request. Its scheme is `gemini`, and its path is never
/// empty.
#[derive(Debug, PartialEq, Eq)]
pub struct GeminiUrl {
    domain: String,
    port: Option<u16>,
    path: String,
    query: Option<String>,
}

/// What a `GeminiUrl` holds, as sequences of characters.
pub struct GeminiUrlView {
    pub domain: Seq<char>,
    pub port: Option<u16>,
    pub path: Seq<char>,
    pub query: Option<Seq<char>>,
}

impl GeminiUrlView {
    /// The URL as it is written: the scheme, `://`, the domain, the port
    /// after a colon if there is one, the path, and the query after a
    /// question mark if there is one.
    pub open spec fn text(self) -> Seq<char> {
        "gemini://"@ + self.domain + (match self.port {
            Some(port) => seq![':'] + decimal_of(port as nat),
            None => Seq::empty(),
        }) + self.path + (match self.query {
            Some(query) => seq!['?'] + query,
            None => Seq::empty(),
        })
    }

    /// The parts that a parser has to read from `text` to read this URL
    /// again.
    pub open spec fn parts(self) -> UrlPartsView {
        UrlPartsView { domain: Some(self.domain), port: self.port, path: self.path }
    }
}

impl View for GeminiUrl {
    type V = GeminiUrlView;

    closed spec fn view(&self) -> GeminiUrlView {
        GeminiUrlView {
            domain: self.domain@,
            port: self.port,
            path: self.path@,
            query: match self.query {
                Some(q) => Some(q@),
                None => None,
            },
        }
    }
}

impl Clone for GeminiUrl {
    fn clone(&self) -> (r: Self)
        ensures
            r@ == self@,
    {
        proof {
            use_type_invariant(self);
        }
        GeminiUrl {
            domain: self.domain.clone(),
            port: self.port,
            path: self.path.clone(),
            query: self.query.clone(),
        }
    }
}

/// `raw` with the scheme of Gemini in front, unless it begins with it.
pub open spec fn schemed(raw: Seq<char>) -> Seq<char> {
    if "gemini://"@.is_prefix_of(raw) {
        raw
    } else {
        "gemini://"@ + raw
    }
}

/// Whether a byte stands for itself in a percent-encoded string: a letter
/// or digit of ASCII, or one of `-`, `.`, `_`, `~`.
pub open spec fn is_unreserved(b: u8) -> bool {
    ||| 0x30 <= b <= 0x39
    ||| 0x41 <= b <= 0x5A
    ||| 0x61 <= b <= 0x7A
    ||| b == 0x2D
    ||| b == 0x2E
    ||| b == 0x5F
    ||| b == 0x7E
}

/// The upper-case hexadecimal digit for a number below 16.
pub open spec fn hex_digit(n: u8) -> char
    recommends
        n < 16,
{
    if n < 10 {
        (0x30 + n) as u8 as char
    } else {
        (0x41 + n - 10) as u8 as char
    }
}

/// A byte, percent-encoded: itself if it is unreserved, otherwise `%` and
/// its two hexadecimal digits.
pub open spec fn percent_encoded_byte(b: u8) -> Seq<char> {
    if is_unreserved(b) {
        seq![b as char]
    } else {
        seq!['%', hex_digit(b / 16), hex_digit(b % 16)]
    }
}

/// The bytes, each percent-encoded.
pub open spec fn percent_encoded(bytes: Seq<u8>) -> Seq<char>
    decreases bytes.len(),
{
    if bytes.len() == 0 {
        Seq::empty()
    } else {
        percent_encoded(bytes.drop_last()) + percent_encoded_byte(bytes.last())
    }
}

/// What the `url` crate reads from `text`: `None` where it refuses it.
pub uninterp spec fn url_parts(text: Seq<char>) -> Option<UrlPartsView>;

/// The URL that the parts make: its path is `/` where theirs is empty, and
/// its query is the one given. `None` where the parts hold no domain.
pub open spec fn fixed(parts: UrlPartsView, query: Option<Seq<char>>) -> Option<GeminiUrlView> {
    match parts.domain {
        Some(domain) => Some(
            GeminiUrlView {
                domain: domain,
                port: parts.port,
                path: if parts.path.len() == 0 {
                    seq!['/']
                } else {
                    parts.path
                },
                query: query,
            },
        ),
        None => None,
    }
}

/// The query that a payload makes: its UTF-8 bytes, percent-encoded.
pub open spec fn query_of(input: Option<Seq<char>>) -> Option<Seq<char>> {
    match input {
        Some(text) => Some(percent_encoded(encode_utf8(text))),
        None => None,
    }
}

/// The URL that `raw` stands for, with `input` as its payload: `None`
/// where `raw`, with the scheme in front, cannot be parsed or names no
/// domain. A query that `raw` holds is dropped.
pub open spec fn normalized(raw: Seq<char>, input: Option<Seq<char>>) -> Option<GeminiUrlView> {
    match url_parts(schemed(raw)) {
        Some(parts) => fixed(parts, query_of(input)),
        None => None,
    }
}

/// `url::Url::parse` of the `url` crate, and of the URL that it gives what
/// `Url::domain`, `Url::port` and `Url::path` return. The contract names
/// the outcome, which depends on the text alone, and says nothing more of
/// it.
#[verifier::external_body]
fn parse_url(text: &str) -> (r: Result<UrlParts, url::ParseError>)
    ensures
        match r {
            Ok(parts) => url_parts(text@) == Some(parts@),
            Err(_) => url_parts(text@) is None,
        },
{
    let url = url::Url::parse(text)?;
    Ok(
        UrlParts {
            domain: url.domain().map(|domain| domain.to_string()),
            port: url.port(),
            path: url.path().to_string(),
        },
    )
}

/// `urlencoding::encode` of the `urlencoding` crate: every byte of the
/// UTF-8 encoding of `data` percent-encoded, except letters and digits of
/// ASCII and `-`, `_`, `.`, `~`, with upper-case hexadecimal digits.
#[verifier::external_body]
fn percent_encode(data: &str) -> (r: String)
    ensures
        r@ == percent_encoded(data.spec_bytes()),
{
    urlencoding::encode(data).into_owned()
}

/// Puts the scheme of Gemini in front of `raw`, unless `raw` begins with
/// it. The scheme counts only at the very beginning.
pub fn with_scheme(raw: &str) -> (r: String)
    ensures
        r@ == schemed(raw@),
{
    let chars = chars_of(raw);
    let scheme = chars_of("gemini://");
    if starts_with(chars.as_slice(), scheme.as_slice()) {
        raw.to_owned()
    } else {
        "gemini://".to_owned().concat(raw)
    }
}

impl GeminiUrl {
    #[verifier::type_invariant]
    closed spec fn has_path(self) -> bool {
        self.path@.len() > 0
    }

    /// Makes the URL of a request from the parts that the parser read and
    /// the query to send. An empty path becomes `/`. Parts without a domain
    /// make no URL.
    pub fn from_parts(parts: UrlParts, query: Option<String>) -> (r: Result<GeminiUrl, ActorError>)
        ensures
            match r {
                Ok(url) => fixed(parts@, query.deep_view()) == Some(url@),
                Err(ActorError::DomainErr) => parts.domain is None,
                Err(_) => false,
            },
            r matches Ok(url) ==> url@.path.len() > 0,
    {
        let domain = match parts.domain {
            Some(domain) => domain,
            None => {
                return Err(ActorError::DomainErr);
            },
        };
        let path = if parts.path.as_str().unicode_len() == 0 {
            let slash = "/".to_owned();
            proof {
                reveal_strlit("/");
                assert(slash@ == seq!['/']);
            }
            slash
        } else {
            parts.path
        };
        Ok(GeminiUrl { domain, port: parts.port, path, query })
    }

    /// Reads a URL as the user wrote it. The scheme is put in front unless
    /// the text begins with it; the `url` crate parses the result; an
    /// empty path becomes `/`; the payload, percent-encoded, becomes the
    /// query, and without a payload the URL has no query.
    pub fn normalize(raw: &str, input: Option<&str>) -> (r: Result<GeminiUrl, ActorError>)
        ensures
            match r {
                Ok(url) => normalized(raw@, input.deep_view()) == Some(url@),
                Err(ActorError::Url(_)) => url_parts(schemed(raw@)) is None,
                Err(ActorError::DomainErr) => {
                    &&& url_parts(schemed(raw@)) matches Some(parts)
                    &&& parts.domain is None
                },
                Err(_) => false,
            },
            r matches Ok(url) ==> url@.path.len() > 0,
    {
        let text = with_scheme(raw);
        let parts = match parse_url(text.as_str()) {
            Ok(parts) => parts,
            Err(e) => {
                return Err(ActorError::Url(e));
            },
        };
        let query = match input {
            Some(payload) => Some(percent_encode(payload)),
            None => None,
        };
        GeminiUrl::from_parts(parts, query)
    }

    /// The domain that the request goes to.
    pub fn domain(&self) -> (r: &str)
        ensures
            r@ == self@.domain,
    {
        self.domain.as_str()
    }

    /// The port that the URL names, if it names one.
    pub fn port(&self) -> (r: Option<u16>)
        ensures
            r == self@.port,
    {
        self.port
    }

    /// The port that the request goes to: the one that the URL names, or
    /// 1965.
    pub fn port_or_default(&self) -> (r: u16)
        ensures
            r == match self@.port {
                Some(port) => port,
                None => DEFAULT_PORT,
            },
    {
        match self.port {
            Some(port) => port,
            None => DEFAULT_PORT,
        }
    }

    /// The path, which is not empty.
    pub fn path(&self) -> (r: &str)
        ensures
            r@ == self@.path,
            r@.len() > 0,
    {
        proof {
            use_type_invariant(self);
        }
        self.path.as_str()
    }

    /// The query, if the URL has one.
    pub fn query(&self) -> (r: Option<&str>)
        ensures
            r.deep_view() == self@.query,
    {
        match &self.query {
            Some(q) => Some(q.as_str()),
            None => None,
        }
    }

    /// The URL as it is written.
    pub fn to_string(&self) -> (r: String)
        ensures
            r@ == self@.text(),
    {
        let mut s = "gemini://".to_owned();
        s.append(self.domain.as_str());
        match self.port {
            Some(port) => {
                s.push(':');
                s.append(decimal(port as u64).as_str());
            },
            None => {},
        }
        s.append(self.path.as_str());
        match &self.query {
            Some(query) => {
                s.push('?');
                s.append(query.as_str());
            },
            None => {},
        }
        assert(s@ =~= self@.text());
        s
    }

    /// The request for this URL as it goes on the wire: the URL, a carriage
    /// return and a line feed, in UTF-8.
    pub fn request_line(&self) -> (r: Vec<u8>)
        ensures
            r@ == encode_utf8(self@.text() + seq!['\r', '\n']),
    {
        let mut s = self.to_string();
        s.push('\r');
        s.push('\n');
        assert(s@ =~= self@.text() + seq!['\r', '\n']);
        s.as_str().as_bytes_vec()
    }

    /// Where the connection for this URL goes: the domain, a colon, and the
    /// port in decimal.
    pub fn address(&self) -> (r: String)
        ensures
            r@ == self@.domain + seq![':'] + decimal_of(
                match self@.port {
                    Some(port) => port,
                    None => DEFAULT_PORT,
                } as nat,
            ),
    {
        let mut s = self.domain.clone();
        s.push(':');
        s.append(decimal(self.port_or_default() as u64).as_str());
        s
    }

    /// The URL of the robots.txt of the same domain, on the default port.
    pub fn robots_url(&self) -> (r: GeminiUrl)
        ensures
            r@ == (GeminiUrlView {
                domain: self@.domain,
                port: None,
                path: "/robots.txt"@,
                query: None,
            }),
    {
        let path = "/robots.txt".to_owned();
        proof {
            reveal_strlit("/robots.txt");
        }
        GeminiUrl { domain: self.domain.clone(), port: None, path, query: None }
    }
}

/// Putting the scheme in front twice is putting it in front once.
pub proof fn lemma_schemed_again(raw: Seq<char>)
    ensures
        schemed(schemed(raw)) == schemed(raw),
{
    if !"gemini://"@.is_prefix_of(raw) {
        assert(("gemini://"@ + raw).subrange(0, "gemini://"@.len() as int) == "gemini://"@);
    }
}

/// A URL is written with the scheme in front.
pub proof fn lemma_text_is_schemed(url: GeminiUrlView)
    ensures
        schemed(url.text()) == url.text(),
{
    assert(url.text().subrange(0, "gemini://"@.len() as int) == "gemini://"@);
}

/// The parts of a URL whose path is not empty make that URL again, with
/// whatever query is given.
pub proof fn lemma_fixed_again(url: GeminiUrlView, query: Option<Seq<char>>)
    requires
        url.path.len() > 0,
    ensures
        fixed(url.parts(), query) == Some(GeminiUrlView { query: query, ..url }),
{
}

/// Normalizing is idempotent as far as this library decides it: if the
/// parser reads the text of a normalized URL as the parts that it was
/// written from, then normalizing that text with the same payload gives the
/// same URL.
pub proof fn lemma_normalized_again(raw: Seq<char>, input: Option<Seq<char>>, url: GeminiUrlView)
    requires
        normalized(raw, input) == Some(url),
        url_parts(url.text()) == Some(url.parts()),
    ensures
        normalized(url.text(), input) == Some(url),
{
    lemma_text_is_schemed(url);
}

/// Normalizing the text of a normalized URL without a payload keeps its
/// domain, port and path and drops its query, under the same premise: that
/// the parser reads the text of the URL as the parts that it was written
/// from.
pub proof fn lemma_normalized_without_payload(url: GeminiUrlView)
    requires
        url.path.len() > 0,
        url_parts(url.text()) == Some(url.parts()),
    ensures
        normalized(url.text(), None) == Some(GeminiUrlView { query: None, ..url }),
{
    lemma_text_is_schemed(url);
}

} // verus!
