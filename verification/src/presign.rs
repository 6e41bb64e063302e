//! The presign engine: derives a time-limited, pre-authorized PUT URL
//! and the object's public URL without touching the network.

use vstd::prelude::*;
use vstd::string::StrSliceExecFns;
use vstd::string::StringSliceAdditionalSpecFns;
use crate::address::ResolvedAddress;
use crate::address::push_all;
use crate::address::resolve;
use crate::address::spec_canonical_uri;
use crate::address::spec_public_url;
use crate::address::spec_request_host;
use crate::address::spec_scheme_prefix;
use crate::bytestr::copy_bytes;
use crate::bytestr::spec_opt_bytes;
use crate::endpoint::Endpoint;
use crate::endpoint::default_endpoint;
use crate::endpoint::parse_endpoint;
use crate::endpoint::spec_default_host;
use crate::endpoint::spec_https_scheme;
use crate::endpoint::spec_parse_endpoint;
use crate::endpoint::spec_root_path;
use crate::errors::StorageError;
use crate::sigv4::sign_presign_put;
use crate::sigv4::spec_canonical_query;
use crate::sigv4::spec_final_query;
use crate::sigv4::spec_presign_signature;
use crate::sigv4::spec_scope;
use crate::timefmt::UtcTimestamp;
use crate::timefmt::spec_amz_date;
use crate::timefmt::spec_date_stamp;

verus! {

/// One presign request: credentials, target parameters, the object key
/// and an optional expiry in seconds.
pub struct PresignReq {
    pub access_key_id: Vec<u8>,
    pub secret_access_key: Vec<u8>,
    pub bucket: Vec<u8>,
    pub region: Option<Vec<u8>>,
    pub endpoint: Option<Vec<u8>>,
    pub force_path_style: bool,
    pub custom_domain: Option<Vec<u8>>,
    pub key: Vec<u8>,
    pub expires: Option<u32>,
}

/// A derived presigned PUT URL and the object's public URL.
pub struct PresignResp {
    pub put_url: Vec<u8>,
    pub public_url: Vec<u8>,
}

/// The region that signs: the given one, or `us-east-1`.
pub open spec fn spec_effective_region(region: Option<Vec<u8>>) -> Seq<u8> {
    match region {
        Some(r) => r@,
        None => "us-east-1".spec_bytes(),
    }
}

/// The expiry that signs: the given one, or 600 seconds.
pub open spec fn spec_effective_expires(expires: Option<u32>) -> u32 {
    match expires {
        Some(e) => e,
        None => 600,
    }
}

/// The two URLs the engine derives, as functions of the request, the
/// parsed endpoint parts and the timestamp.
pub open spec fn spec_presign_urls(
    req: PresignReq,
    scheme: Seq<u8>,
    host: Seq<u8>,
    port: Option<u16>,
    path: Seq<u8>,
    ts: UtcTimestamp,
) -> (Seq<u8>, Seq<u8>) {
    let region = spec_effective_region(req.region);
    let expires = spec_effective_expires(req.expires);
    let rhost = spec_request_host(req.force_path_style, req.bucket@, host);
    let uri = spec_canonical_uri(req.force_path_style, req.bucket@, path, req.key@);
    let scope = spec_scope(spec_date_stamp(ts), region, "s3".spec_bytes());
    let cq = spec_canonical_query(req.access_key_id@, scope, spec_amz_date(ts), expires);
    let sig = spec_presign_signature(
        req.access_key_id@,
        req.secret_access_key@,
        region,
        "s3".spec_bytes(),
        rhost,
        uri,
        expires,
        ts,
    );
    let put_url = spec_scheme_prefix(scheme) + rhost + uri + seq![0x3fu8] + spec_final_query(
        cq,
        sig,
    );
    let public_url = spec_public_url(
        req.force_path_style,
        spec_opt_bytes(req.custom_domain),
        req.bucket@,
        scheme,
        host,
        port,
        path,
        req.key@,
    );
    (put_url, public_url)
}

/// The request names an endpoint and it does not parse as a URL.
pub open spec fn spec_presign_endpoint_bad(req: PresignReq) -> bool {
    match req.endpoint {
        Some(e) => spec_parse_endpoint(e@) is None,
        None => false,
    }
}

/// The request names a region and it is empty.
pub open spec fn spec_region_bad(region: Option<Vec<u8>>) -> bool {
    match region {
        Some(r) => r@.len() == 0,
        None => false,
    }
}

/// The endpoint parts the engine works with: the parsed endpoint, or
/// the standard AWS one when none is given.
pub open spec fn spec_presign_endpoint_parts(req: PresignReq) -> (
    Seq<u8>,
    Seq<u8>,
    Option<u16>,
    Seq<u8>,
)
    recommends
        !spec_presign_endpoint_bad(req),
{
    match req.endpoint {
        Some(e) => spec_parse_endpoint(e@)->0,
        None => (spec_https_scheme(), spec_default_host(), None, spec_root_path()),
    }
}

/// Derives both URLs against an already-parsed endpoint.  Pure: the
/// result is a function of the arguments alone.
#[verifier::rlimit(60)]
pub fn presign_with_endpoint(req: &PresignReq, ep: &Endpoint, ts: &UtcTimestamp) -> (r:
    PresignResp)
    requires
        ts.wf(),
    ensures
        (r.put_url@, r.public_url@) == spec_presign_urls(
            *req,
            ep.scheme@,
            ep.host@,
            ep.port,
            ep.path@,
            *ts,
        ),
{
    let resolved: ResolvedAddress = resolve(
        req.force_path_style,
        &req.custom_domain,
        req.bucket.as_slice(),
        ep,
        req.key.as_slice(),
    );
    let region: Vec<u8> = match &req.region {
        Some(r) => copy_bytes(r.as_slice()),
        None => "us-east-1".as_bytes_vec(),
    };
    let expires: u32 = match req.expires {
        Some(e) => e,
        None => 600,
    };
    let service = "s3".as_bytes_vec();
    let out = sign_presign_put(
        req.access_key_id.as_slice(),
        req.secret_access_key.as_slice(),
        region.as_slice(),
        service.as_slice(),
        resolved.request_host.as_slice(),
        resolved.canonical_uri.as_slice(),
        expires,
        ts,
    );
    let mut put_url: Vec<u8> = Vec::new();
    push_all(&mut put_url, ep.scheme.as_slice());
    put_url.push(0x3a);
    put_url.push(0x2f);
    put_url.push(0x2f);
    push_all(&mut put_url, resolved.request_host.as_slice());
    push_all(&mut put_url, resolved.canonical_uri.as_slice());
    put_url.push(0x3f);
    push_all(&mut put_url, out.final_query.as_slice());
    proof {
        let region_s = spec_effective_region(req.region);
        let expires_s = spec_effective_expires(req.expires);
        assert(region@ == region_s);
        assert(expires == expires_s);
        assert(service@ == "s3".spec_bytes());
        let rhost = spec_request_host(req.force_path_style, req.bucket@, ep.host@);
        let uri = spec_canonical_uri(req.force_path_style, req.bucket@, ep.path@, req.key@);
        assert(resolved.request_host@ == rhost);
        assert(resolved.canonical_uri@ == uri);
        let scope = spec_scope(spec_date_stamp(*ts), region_s, "s3".spec_bytes());
        let cq = spec_canonical_query(req.access_key_id@, scope, spec_amz_date(*ts), expires_s);
        let sig = spec_presign_signature(
            req.access_key_id@,
            req.secret_access_key@,
            region_s,
            "s3".spec_bytes(),
            rhost,
            uri,
            expires_s,
            *ts,
        );
        assert(out.canonical_query@ == cq);
        assert(out.signature@ == sig);
        assert(out.final_query@ == spec_final_query(cq, sig));
        assert(put_url@ =~= spec_scheme_prefix(ep.scheme@) + rhost + uri + seq![0x3fu8]
            + spec_final_query(cq, sig));
    }
    PresignResp { put_url, public_url: resolved.public_url }
}

/// The presign engine: resolves the endpoint, rejects a malformed one
/// or an empty region, and otherwise derives the presigned PUT URL and
/// the public URL for the given timestamp.  No network is touched on
/// any path.
pub fn presign_at(req: &PresignReq, ts: &UtcTimestamp) -> (r: Result<
    PresignResp,
    StorageError,
>)
    requires
        ts.wf(),
    ensures
        spec_presign_endpoint_bad(*req) ==> (r matches Err(e) && e is InvalidEndpoint),
        !spec_presign_endpoint_bad(*req) && spec_region_bad(req.region) ==> (r matches Err(e)
            && e is SigningError),
        !spec_presign_endpoint_bad(*req) && !spec_region_bad(req.region) ==> (r matches Ok(resp)
            && ({
            let parts = spec_presign_endpoint_parts(*req);
            (resp.put_url@, resp.public_url@) == spec_presign_urls(
                *req,
                parts.0,
                parts.1,
                parts.2,
                parts.3,
                *ts,
            )
        })),
{
    let ep: Endpoint = match &req.endpoint {
        Some(e) => match parse_endpoint(e.as_slice()) {
            Some(ep) => ep,
            None => {
                return Err(StorageError::InvalidEndpoint);
            },
        },
        None => default_endpoint(),
    };
    match &req.region {
        Some(r) => {
            if r.len() == 0 {
                return Err(StorageError::SigningError);
            }
        },
        None => {},
    }
    Ok(presign_with_endpoint(req, &ep, ts))
}

} // verus!
