//! The parsed form of a storage endpoint: scheme, host, optional port
//! and path, held as plain byte strings.
//!
//! Parsing an endpoint string is the work of the `url` crate and stands
//! behind one trusted wrapper; everything downstream takes the parsed
//! parts and is verified against them.

use vstd::prelude::*;
use vstd::string::StrSliceExecFns;

verus! {

/// A storage endpoint, already parsed.
#[derive(Debug)]
pub struct Endpoint {
    pub scheme: Vec<u8>,
    pub host: Vec<u8>,
    pub port: Option<u16>,
    pub path: Vec<u8>,
}

impl Endpoint {
    /// The endpoint's parts as plain values.
    pub open spec fn parts(self) -> (Seq<u8>, Seq<u8>, Option<u16>, Seq<u8>) {
        (self.scheme@, self.host@, self.port, self.path@)
    }
}

/// What parsing an endpoint string yields: `None` when the string is
/// not a URL or has no host, otherwise the scheme, host, explicit port
/// and path.  Parsing is a function of the string alone.
pub uninterp spec fn spec_parse_endpoint(s: Seq<u8>) -> Option<(Seq<u8>, Seq<u8>, Option<u16>, Seq<u8>)>;

/// Relies on url::Url::parse and the accessors scheme, host_str, port
/// and path: a string that parses as a URL with a host yields those
/// parts; any other string is rejected.
#[verifier::external_body]
pub(crate) fn parse_endpoint(s: &[u8]) -> (r: Option<Endpoint>)
    ensures
        r is Some <==> spec_parse_endpoint(s@) is Some,
        r is Some ==> r->0.parts() == spec_parse_endpoint(s@)->0,
{
    let text = core::str::from_utf8(s).ok()?;
    let u = url::Url::parse(text).ok()?;
    let host = u.host_str()?.as_bytes().to_vec();
    Some(Endpoint {
        scheme: u.scheme().as_bytes().to_vec(),
        host,
        port: u.port(),
        path: u.path().as_bytes().to_vec(),
    })
}

/// The default endpoint when none is supplied: the standard AWS public
/// hostname over https.
pub fn default_endpoint() -> (r: Endpoint)
    ensures
        r.scheme@ == spec_https_scheme(),
        r.host@ == spec_default_host(),
        r.port is None,
        r.path@ == spec_root_path(),
{
    let scheme: Vec<u8> = "https".as_bytes_vec();
    let host: Vec<u8> = "s3.amazonaws.com".as_bytes_vec();
    let mut path: Vec<u8> = Vec::new();
    path.push(0x2f);
    proof {
        assert(spec_root_path() =~= path@);
    }
    Endpoint { scheme, host, port: None, path }
}

/// The bytes of `"https"`.
pub open spec fn spec_https_scheme() -> Seq<u8> {
    vstd::utf8::encode_utf8("https"@)
}

/// The bytes of `"s3.amazonaws.com"`.
pub open spec fn spec_default_host() -> Seq<u8> {
    vstd::utf8::encode_utf8("s3.amazonaws.com"@)
}

/// The bytes of `"/"`.
pub open spec fn spec_root_path() -> Seq<u8> {
    seq![0x2fu8]
}

} // verus!
