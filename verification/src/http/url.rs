//! URLs of the schemes `http`, `https` and `data`.

use vstd::prelude::*;
use vstd::slice::slice_to_vec;
use vstd::string::StringSliceAdditionalSpecFns;
use crate::bytes::{
    eq_bytes, lemma_split_at_first, lemma_split_at_first_none, split_at_first, split_once,
};
use crate::http::error::HttpError;
use crate::number::{all_digits, decimal, digit_value, lemma_decimal_port, parse_port, port_number};

verus! {

/// What a URL asks for: a resource behind a plain connection, one behind an
/// encrypted connection, or the data that the URL itself holds.
#[derive(Clone, Copy, Debug, PartialEq, Eq, Structural)]
pub enum Scheme {
    Http,
    Https,
    Data,
}

/// The payload of a `data` URL.
#[derive(Debug, PartialEq, Eq)]
pub struct DataPayload {
    pub content_type: Vec<u8>,
    pub body: Vec<u8>,
}

/// A URL taken apart. For `http` and `https` it names a host, a port and a
/// path; for `data` it holds the payload and nothing else.
#[derive(Debug, PartialEq, Eq)]
pub struct ParsedUrl {
    pub scheme: Scheme,
    pub host: Vec<u8>,
    pub port: u16,
    pub path: Vec<u8>,
    pub data_payload: Option<DataPayload>,
}

/// A `ParsedUrl` as plain values; the payload is content type, then body.
pub struct ParsedUrlView {
    pub scheme: Scheme,
    pub host: Seq<u8>,
    pub port: u16,
    pub path: Seq<u8>,
    pub data_payload: Option<(Seq<u8>, Seq<u8>)>,
}

impl ParsedUrlView {
    /// Either the payload is there, or host, port and path are, by the scheme.
    pub open spec fn wf(self) -> bool {
        if self.scheme == Scheme::Data {
            self.data_payload is Some && self.host.len() == 0 && self.port == 0 && self.path.len()
                == 0
        } else {
            self.data_payload is None && self.path.len() > 0 && self.path[0] == 0x2f
        }
    }
}

impl View for ParsedUrl {
    type V = ParsedUrlView;

    open spec fn view(&self) -> ParsedUrlView {
        ParsedUrlView {
            scheme: self.scheme,
            host: self.host@,
            port: self.port,
            path: self.path@,
            data_payload: match self.data_payload {
                Some(payload) => Some((payload.content_type@, payload.body@)),
                None => None,
            },
        }
    }
}

/// The parts that `parse` hands out, as plain values.
pub open spec fn parts_view(r: Result<ParsedUrl, HttpError>) -> Result<ParsedUrlView, HttpError> {
    match r {
        Ok(parts) => Ok(parts@),
        Err(e) => Err(e),
    }
}

/// The scheme and what follows its `:`. A URL without a `:` is read as an
/// `https` URL.
pub open spec fn scheme_and_rest(url: Seq<u8>) -> (Seq<u8>, Seq<u8>) {
    match split_at_first(url, 0x3a) {
        Some(parts) => parts,
        None => ("https".spec_bytes(), url),
    }
}

/// The scheme that `name` stands for, where it is one of the three.
pub open spec fn scheme_named(name: Seq<u8>) -> Option<Scheme> {
    if name == "http".spec_bytes() {
        Some(Scheme::Http)
    } else if name == "https".spec_bytes() {
        Some(Scheme::Https)
    } else if name == "data".spec_bytes() {
        Some(Scheme::Data)
    } else {
        None
    }
}

/// Whether the URL's scheme is one of `http`, `https` and `data`.
pub open spec fn has_known_scheme(url: Seq<u8>) -> bool {
    scheme_named(scheme_and_rest(url).0) is Some
}

/// The port that a scheme implies.
pub open spec fn default_port(scheme: Scheme) -> u16 {
    match scheme {
        Scheme::Http => 80,
        Scheme::Https => 443,
        Scheme::Data => 0,
    }
}

/// `s` without the `//` that it may start with.
pub open spec fn after_slashes(s: Seq<u8>) -> Seq<u8> {
    if s.len() >= 2 && s[0] == 0x2f && s[1] == 0x2f {
        s.skip(2)
    } else {
        s
    }
}

/// What `rest`, the text after `data:`, holds: the content type up to the
/// first `,` and the body after it, both as they stand.
pub open spec fn data_url(rest: Seq<u8>) -> Result<ParsedUrlView, HttpError> {
    match split_at_first(rest, 0x2c) {
        Some((content_type, body)) => Ok(
            ParsedUrlView {
                scheme: Scheme::Data,
                host: Seq::empty(),
                port: 0,
                path: Seq::empty(),
                data_payload: Some((content_type, body)),
            },
        ),
        None => Err(HttpError::MalformedUrl),
    }
}

/// What `rest`, the text after `http:` or `https:`, names: the host up to the
/// first `/`, with the port after a `:` in it or else the scheme's own, and
/// the path from that `/` on.
pub open spec fn network_url(scheme: Scheme, rest: Seq<u8>) -> Result<ParsedUrlView, HttpError> {
    match split_at_first(after_slashes(rest), 0x2f) {
        None => Err(HttpError::MalformedUrl),
        Some((authority, tail)) => match split_at_first(authority, 0x3a) {
            None => Ok(
                ParsedUrlView {
                    scheme,
                    host: authority,
                    port: default_port(scheme),
                    path: seq![0x2fu8] + tail,
                    data_payload: None,
                },
            ),
            Some((host, port)) => match port_number(port) {
                Some(port) => Ok(
                    ParsedUrlView {
                        scheme,
                        host,
                        port,
                        path: seq![0x2fu8] + tail,
                        data_payload: None,
                    },
                ),
                None => Err(HttpError::MalformedUrl),
            },
        },
    }
}

/// The parts of a URL whose scheme is known, or why it has none.
pub open spec fn parsed(url: Seq<u8>) -> Result<ParsedUrlView, HttpError>
    recommends
        has_known_scheme(url),
{
    let (name, rest) = scheme_and_rest(url);
    match scheme_named(name) {
        Some(Scheme::Data) => data_url(rest),
        Some(scheme) => network_url(scheme, rest),
        None => Err(HttpError::MalformedUrl),
    }
}

/// Every URL that parses is well formed: it holds a payload or names a
/// host, never both.
pub proof fn law_parsed_is_well_formed(url: Seq<u8>)
    ensures
        parsed(url) matches Ok(parts) ==> parts.wf(),
{
}

/// How a scheme is written in a URL.
pub open spec fn scheme_text(scheme: Scheme) -> Seq<u8> {
    match scheme {
        Scheme::Http => "http".spec_bytes(),
        Scheme::Https => "https".spec_bytes(),
        Scheme::Data => "data".spec_bytes(),
    }
}

/// The URL that names `host`, `port` where one is given, and `path` under
/// `scheme`: the scheme, `://`, the host, `:` and the port in decimal, `/`, and
/// the path.
pub open spec fn written(scheme: Scheme, host: Seq<u8>, port: Option<u16>, path: Seq<u8>) -> Seq<
    u8,
> {
    scheme_text(scheme) + seq![0x3au8, 0x2f, 0x2f] + host + match port {
        Some(p) => seq![0x3au8] + decimal(p as nat),
        None => Seq::empty(),
    } + seq![0x2fu8] + path
}

/// The three scheme names, byte by byte.
pub proof fn lemma_scheme_texts()
    ensures
        "http".spec_bytes() == seq![0x68u8, 0x74, 0x74, 0x70],
        "https".spec_bytes() == seq![0x68u8, 0x74, 0x74, 0x70, 0x73],
        "data".spec_bytes() == seq![0x64u8, 0x61, 0x74, 0x61],
{
    broadcast use vstd::string::is_ascii_spec_bytes;

    reveal_strlit("http");
    reveal_strlit("https");
    reveal_strlit("data");
    assert(vstd::string::is_ascii("http"));
    assert(vstd::string::is_ascii("https"));
    assert(vstd::string::is_ascii("data"));
    assert("http".spec_bytes() =~= seq![0x68u8, 0x74, 0x74, 0x70]);
    assert("https".spec_bytes() =~= seq![0x68u8, 0x74, 0x74, 0x70, 0x73]);
    assert("data".spec_bytes() =~= seq![0x64u8, 0x61, 0x74, 0x61]);
}

/// Parsing recovers what a URL was written from. For `http` and `https`, a
/// host without `:` and `/`, any port and any path: the URL written from them
/// parses into that scheme, that host, that port (or the scheme's own where
/// none was written) and the path behind a `/`.
pub proof fn law_parse_recovers_parts(
    scheme: Scheme,
    host: Seq<u8>,
    port: Option<u16>,
    path: Seq<u8>,
)
    requires
        scheme != Scheme::Data,
        forall|i: int| 0 <= i < host.len() ==> host[i] != 0x3a && host[i] != 0x2f,
    ensures
        has_known_scheme(written(scheme, host, port, path)),
        parsed(written(scheme, host, port, path)) == Ok::<ParsedUrlView, HttpError>(
            ParsedUrlView {
                scheme,
                host,
                port: match port {
                    Some(p) => p,
                    None => default_port(scheme),
                },
                path: seq![0x2fu8] + path,
                data_payload: None,
            },
        ),
{
    lemma_scheme_texts();
    let name = scheme_text(scheme);
    let port_text = match port {
        Some(p) => seq![0x3au8] + decimal(p as nat),
        None => Seq::<u8>::empty(),
    };
    let authority = host + port_text;
    let rest = seq![0x2fu8, 0x2f] + authority + seq![0x2fu8] + path;
    let url = written(scheme, host, port, path);
    assert(url =~= name + seq![0x3au8] + rest);
    lemma_split_at_first(name, 0x3a, rest);
    assert(scheme_and_rest(url) == (name, rest));
    assert(scheme_named(name) == Some(scheme));
    assert(after_slashes(rest) =~= authority + seq![0x2fu8] + path);
    match port {
        Some(p) => {
            lemma_decimal_port(p);
            let digits = decimal(p as nat);
            assert forall|i: int| 0 <= i < authority.len() implies authority[i] != 0x2f by {
                if i > host.len() {
                    assert(authority[i] == digits[i - host.len() - 1]);
                    assert(digit_value(digits[i - host.len() - 1], 10) is Some);
                }
            }
            lemma_split_at_first(authority, 0x2f, path);
            assert(authority =~= host + seq![0x3au8] + digits);
            lemma_split_at_first(host, 0x3a, digits);
        },
        None => {
            assert(authority =~= host);
            lemma_split_at_first(authority, 0x2f, path);
            lemma_split_at_first_none(host, 0x3a);
        },
    }
}

fn scheme_from_name(name: &[u8]) -> (scheme: Option<Scheme>)
    ensures
        scheme == scheme_named(name@),
{
    if eq_bytes(name, "http".as_bytes()) {
        Some(Scheme::Http)
    } else if eq_bytes(name, "https".as_bytes()) {
        Some(Scheme::Https)
    } else if eq_bytes(name, "data".as_bytes()) {
        Some(Scheme::Data)
    } else {
        None
    }
}

fn split_scheme(url: &[u8]) -> (parts: (&[u8], &[u8]))
    ensures
        (parts.0@, parts.1@) == scheme_and_rest(url@),
{
    match split_once(url, 0x3a) {
        Some(parts) => parts,
        None => ("https".as_bytes(), url),
    }
}

/// The name of the URL's scheme, as it is written.
pub fn scheme_name(url: &str) -> (name: Vec<u8>)
    ensures
        name@ == scheme_and_rest(url.spec_bytes()).0,
{
    slice_to_vec(split_scheme(url.as_bytes()).0)
}

/// Whether `parse` can be asked about `url`.
pub fn known_scheme(url: &str) -> (known: bool)
    ensures
        known == has_known_scheme(url.spec_bytes()),
{
    scheme_from_name(split_scheme(url.as_bytes()).0).is_some()
}

fn parse_data(rest: &[u8]) -> (r: Result<ParsedUrl, HttpError>)
    ensures
        parts_view(r) == data_url(rest@),
{
    match split_once(rest, 0x2c) {
        Some((content_type, body)) => Ok(
            ParsedUrl {
                scheme: Scheme::Data,
                host: Vec::new(),
                port: 0,
                path: Vec::new(),
                data_payload: Some(
                    DataPayload {
                        content_type: slice_to_vec(content_type),
                        body: slice_to_vec(body),
                    },
                ),
            },
        ),
        None => Err(HttpError::MalformedUrl),
    }
}

fn skip_slashes(s: &[u8]) -> (r: &[u8])
    ensures
        r@ == after_slashes(s@),
{
    if s.len() >= 2 && s[0] == 0x2f && s[1] == 0x2f {
        vstd::slice::slice_subrange(s, 2, s.len())
    } else {
        s
    }
}

fn parse_network(scheme: Scheme, rest: &[u8]) -> (r: Result<ParsedUrl, HttpError>)
    requires
        scheme != Scheme::Data,
    ensures
        parts_view(r) == network_url(scheme, rest@),
{
    let (authority, tail) = match split_once(skip_slashes(rest), 0x2f) {
        Some(parts) => parts,
        None => {
            return Err(HttpError::MalformedUrl);
        },
    };
    let mut path: Vec<u8> = Vec::new();
    path.push(0x2f);
    path.extend_from_slice(tail);
    assert(path@ =~= seq![0x2fu8] + tail@);
    let (host, port) = match split_once(authority, 0x3a) {
        Some((host, port_text)) => match parse_port(port_text) {
            Some(port) => (host, port),
            None => {
                return Err(HttpError::MalformedUrl);
            },
        },
        None => (
            authority,
            match scheme {
                Scheme::Http => 80u16,
                _ => 443u16,
            },
        ),
    };
    Ok(ParsedUrl { scheme, host: slice_to_vec(host), port, path, data_payload: None })
}

/// Takes `url` apart. A URL without `:` counts as `https`; the `//` after the
/// scheme may be left out. A URL of another scheme is not for this function:
/// ask `known_scheme` first.
pub fn parse(url: &str) -> (r: Result<ParsedUrl, HttpError>)
    requires
        has_known_scheme(url.spec_bytes()),
    ensures
        parts_view(r) == parsed(url.spec_bytes()),
        r matches Ok(parts) ==> parts@.wf(),
        r matches Err(e) ==> e == HttpError::MalformedUrl,
{
    let (name, rest) = split_scheme(url.as_bytes());
    match scheme_from_name(name) {
        Some(Scheme::Data) => parse_data(rest),
        Some(scheme) => parse_network(scheme, rest),
        None => Err(HttpError::MalformedUrl),
    }
}

} // verus!
