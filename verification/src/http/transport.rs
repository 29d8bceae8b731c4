//! What a request puts on the wire, and the checks before it does.

use vstd::prelude::*;
use vstd::string::StringSliceAdditionalSpecFns;
use crate::http::error::HttpError;
use crate::http::url::{ParsedUrl, Scheme};

verus! {

/// The request for `path` on `host`, from a client on `platform`: the request
/// line, the headers `Host`, `Connection`, `User-Agent` and `Accept-Encoding`,
/// and the empty line, each ended by a carriage return and a line feed.
pub open spec fn request_text(path: Seq<u8>, host: Seq<u8>, platform: Seq<u8>) -> Seq<u8> {
    "GET ".spec_bytes() + path + " HTTP/1.1\r\nHost: ".spec_bytes() + host
        + "\r\nConnection: close\r\nUser-Agent: Mozilla/5.0 (".spec_bytes() + platform
        + ")\r\nAccept-Encoding: gzip,deflate\r\n\r\n".spec_bytes()
}

/// The bytes to send for `target`, all of them.
pub fn write_request(target: &ParsedUrl, platform: &str) -> (text: Vec<u8>)
    ensures
        text@ == request_text(target.path@, target.host@, platform.spec_bytes()),
{
    let mut text: Vec<u8> = Vec::new();
    text.extend_from_slice("GET ".as_bytes());
    text.extend_from_slice(target.path.as_slice());
    text.extend_from_slice(" HTTP/1.1\r\nHost: ".as_bytes());
    text.extend_from_slice(target.host.as_slice());
    text.extend_from_slice("\r\nConnection: close\r\nUser-Agent: Mozilla/5.0 (".as_bytes());
    text.extend_from_slice(platform.as_bytes());
    text.extend_from_slice(")\r\nAccept-Encoding: gzip,deflate\r\n\r\n".as_bytes());
    assert(text@ =~= request_text(target.path@, target.host@, platform.spec_bytes()));
    text
}

/// Whether a read that failed counts as the end of the stream: it does where
/// an encrypted connection was aborted, since servers close such connections
/// without notice, and nowhere else.
pub open spec fn is_end_of_stream(secure: bool, aborted: bool) -> bool {
    secure && aborted
}

/// Tells the end of the stream from a failure, for a read that failed on a
/// connection that is `secure` or not, with an error that says that the
/// connection was `aborted` or another one.
pub fn failed_read_ends_stream(secure: bool, aborted: bool) -> (end: bool)
    ensures
        end == is_end_of_stream(secure, aborted),
{
    secure && aborted
}

/// Whether `host` is a DNS name that a certificate can be verified for.
pub uninterp spec fn dns_name_accepted(host: Seq<u8>) -> bool;

/// How the check of the server's name ends: only an encrypted connection
/// needs a name, and a host that is none is a malformed URL.
pub open spec fn server_name_verdict(scheme: Scheme, accepted: bool) -> Result<(), HttpError> {
    if scheme == Scheme::Https && !accepted {
        Err(HttpError::MalformedUrl)
    } else {
        Ok(())
    }
}

/// `webpki::DNSNameRef::try_from_ascii`, asked only whether it succeeds.
/// Trusted: the answer is a function of `host` alone, named
/// `dns_name_accepted`.
#[verifier::external_body]
fn is_dns_name(host: &[u8]) -> (accepted: bool)
    ensures
        accepted == dns_name_accepted(host@),
{
    webpki::DNSNameRef::try_from_ascii(host).is_ok()
}

/// The verdict on a server's name, once it is known whether the host is a
/// DNS name.
pub fn judge_server_name(scheme: Scheme, accepted: bool) -> (r: Result<(), HttpError>)
    ensures
        r == server_name_verdict(scheme, accepted),
{
    match scheme {
        Scheme::Https => if accepted {
            Ok(())
        } else {
            Err(HttpError::MalformedUrl)
        },
        _ => Ok(()),
    }
}

/// Checks, before the handshake of an encrypted connection, that the host
/// can be named in it. A plain connection needs no such name.
pub fn check_server_name(target: &ParsedUrl) -> (r: Result<(), HttpError>)
    ensures
        r == server_name_verdict(target.scheme, dns_name_accepted(target.host@)),
        target.scheme != Scheme::Https ==> r is Ok,
{
    match target.scheme {
        Scheme::Https => judge_server_name(Scheme::Https, is_dns_name(target.host.as_slice())),
        scheme => judge_server_name(scheme, true),
    }
}

} // verus!
