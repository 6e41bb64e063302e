//! The direct-upload engine: validates the target, resolves the public
//! URL, and decides the outcome of the PUT.
//!
//! The PUT itself is network I/O and happens outside this crate; the
//! caller performs it from the plan this module prepares and hands the
//! outcome back to `finish_upload`, which is verified for every
//! possible outcome.

use vstd::prelude::*;
use vstd::string::StrSliceExecFns;
use vstd::string::StringSliceAdditionalSpecFns;
use crate::address::resolve;
use crate::address::spec_public_url;
use crate::bytestr::copy_bytes;
use crate::bytestr::spec_opt_bytes;
use crate::bytestr::spec_trim;
use crate::bytestr::trim_bytes;
use crate::endpoint::Endpoint;
use crate::endpoint::default_endpoint;
use crate::endpoint::parse_endpoint;
use crate::endpoint::spec_default_host;
use crate::endpoint::spec_https_scheme;
use crate::endpoint::spec_parse_endpoint;
use crate::endpoint::spec_root_path;
use crate::errors::StorageError;
use crate::presign::spec_effective_region;

verus! {

/// One direct-upload request: credentials, target parameters, the
/// object key, its content type and the payload bytes.
pub struct UploadReq {
    pub access_key_id: Vec<u8>,
    pub secret_access_key: Vec<u8>,
    pub bucket: Vec<u8>,
    pub region: Option<Vec<u8>>,
    pub endpoint: Option<Vec<u8>>,
    pub force_path_style: bool,
    pub acl_public_read: bool,
    pub custom_domain: Option<Vec<u8>>,
    pub key: Vec<u8>,
    pub content_type: Option<Vec<u8>>,
    pub bytes: Vec<u8>,
}

impl UploadReq {
    /// The default of the addressing and ACL flags.
    pub fn default_true() -> (r: bool)
        ensures
            r,
    {
        true
    }
}

/// What a finished upload reports: the key and the public URL.
pub struct UploadResp {
    pub key: Vec<u8>,
    pub public_url: Vec<u8>,
}

/// Everything the transport needs for the PUT, plus the public URL the
/// object will have.
pub struct UploadPlan {
    /// The region to authenticate against, defaulted when absent.
    pub region: Vec<u8>,
    /// The trimmed endpoint override, `None` when absent or blank.
    pub endpoint_url: Option<Vec<u8>>,
    pub bucket: Vec<u8>,
    pub key: Vec<u8>,
    /// The content type to set, `None` when absent or empty.
    pub content_type: Option<Vec<u8>>,
    pub acl_public_read: bool,
    pub public_url: Vec<u8>,
}

/// How the transport's single PUT ended.
pub enum PutOutcome {
    /// A success status came back.
    Success,
    /// The connection failed or timed out before a response arrived.
    ConnectFailure(Vec<u8>),
    /// The remote answered with a non-success status and this body.
    Rejected { status: u16, body: Vec<u8> },
}

/// The endpoint the upload addresses: trimmed, with a blank override
/// treated as absent.
pub open spec fn spec_upload_endpoint(req: UploadReq) -> Option<Seq<u8>> {
    match req.endpoint {
        Some(e) => if spec_trim(e@).len() == 0 {
            None
        } else {
            Some(spec_trim(e@))
        },
        None => None,
    }
}

/// The request names a non-blank endpoint and it does not parse as a
/// URL.
pub open spec fn spec_upload_endpoint_bad(req: UploadReq) -> bool {
    match spec_upload_endpoint(req) {
        Some(e) => spec_parse_endpoint(e) is None,
        None => false,
    }
}

/// The endpoint parts the upload works with: the parsed override, or
/// the standard AWS one.
pub open spec fn spec_upload_endpoint_parts(req: UploadReq) -> (
    Seq<u8>,
    Seq<u8>,
    Option<u16>,
    Seq<u8>,
)
    recommends
        !spec_upload_endpoint_bad(req),
{
    match spec_upload_endpoint(req) {
        Some(e) => spec_parse_endpoint(e)->0,
        None => (spec_https_scheme(), spec_default_host(), None, spec_root_path()),
    }
}

/// The public URL of the uploaded object.
pub open spec fn spec_upload_public_url(
    req: UploadReq,
    scheme: Seq<u8>,
    host: Seq<u8>,
    port: Option<u16>,
    path: Seq<u8>,
) -> Seq<u8> {
    spec_public_url(
        req.force_path_style,
        spec_opt_bytes(req.custom_domain),
        req.bucket@,
        scheme,
        host,
        port,
        path,
        req.key@,
    )
}

/// The content type the plan carries: the given one unless absent or
/// empty.
pub open spec fn spec_plan_content_type(ct: Option<Vec<u8>>) -> Option<Seq<u8>> {
    match ct {
        Some(c) => if c@.len() == 0 {
            None
        } else {
            Some(c@)
        },
        None => None,
    }
}

/// Prepares a direct upload: rejects a malformed endpoint override,
/// defaults the region, drops a blank endpoint or an empty content
/// type, and resolves the public URL the object will have.
pub fn plan_upload(req: &UploadReq) -> (r: Result<UploadPlan, StorageError>)
    ensures
        spec_upload_endpoint_bad(*req) ==> (r matches Err(e) && e is InvalidEndpoint),
        !spec_upload_endpoint_bad(*req) ==> (r matches Ok(plan) && ({
            let parts = spec_upload_endpoint_parts(*req);
            &&& plan.region@ == spec_effective_region(req.region)
            &&& spec_opt_bytes(plan.endpoint_url) == spec_upload_endpoint(*req)
            &&& plan.bucket@ == req.bucket@
            &&& plan.key@ == req.key@
            &&& spec_opt_bytes(plan.content_type) == spec_plan_content_type(req.content_type)
            &&& plan.acl_public_read == req.acl_public_read
            &&& plan.public_url@ == spec_upload_public_url(*req, parts.0, parts.1, parts.2, parts.3)
        })),
{
    let endpoint_url: Option<Vec<u8>> = match &req.endpoint {
        Some(e) => {
            let t = trim_bytes(e.as_slice());
            if t.len() == 0 {
                None
            } else {
                Some(t)
            }
        },
        None => None,
    };
    let ep: Endpoint = match &endpoint_url {
        Some(e) => match parse_endpoint(e.as_slice()) {
            Some(ep) => ep,
            None => {
                return Err(StorageError::InvalidEndpoint);
            },
        },
        None => default_endpoint(),
    };
    let resolved = resolve(
        req.force_path_style,
        &req.custom_domain,
        req.bucket.as_slice(),
        &ep,
        req.key.as_slice(),
    );
    let region: Vec<u8> = match &req.region {
        Some(r) => copy_bytes(r.as_slice()),
        None => "us-east-1".as_bytes_vec(),
    };
    let content_type: Option<Vec<u8>> = match &req.content_type {
        Some(c) => {
            if c.len() == 0 {
                None
            } else {
                Some(copy_bytes(c.as_slice()))
            }
        },
        None => None,
    };
    Ok(
        UploadPlan {
            region,
            endpoint_url,
            bucket: copy_bytes(req.bucket.as_slice()),
            key: copy_bytes(req.key.as_slice()),
            content_type,
            acl_public_read: req.acl_public_read,
            public_url: resolved.public_url,
        },
    )
}

/// Decides the upload's result from the transport's outcome: success
/// reports the key and public URL; a connection failure becomes
/// `TransportError`; a non-success status becomes `RemoteRejected` with
/// the status and body attached.
pub fn finish_upload(plan: &UploadPlan, outcome: PutOutcome) -> (r: Result<
    UploadResp,
    StorageError,
>)
    ensures
        outcome is Success ==> (r matches Ok(resp) && resp.key@ == plan.key@ && resp.public_url@
            == plan.public_url@),
        outcome matches PutOutcome::ConnectFailure(m) ==> (r matches Err(e) && e matches
            StorageError::TransportError(t) && t@ == m@),
        outcome matches PutOutcome::Rejected { status, body } ==> (r matches Err(e) && e matches
            StorageError::RemoteRejected { status: s, body: b } && s == status && b@ == body@),
{
    match outcome {
        PutOutcome::Success => Ok(
            UploadResp {
                key: copy_bytes(plan.key.as_slice()),
                public_url: copy_bytes(plan.public_url.as_slice()),
            },
        ),
        PutOutcome::ConnectFailure(m) => Err(StorageError::TransportError(m)),
        PutOutcome::Rejected { status, body } => Err(
            StorageError::RemoteRejected { status, body },
        ),
    }
}

/// The two engines agree on the public URL: with the same addressing
/// parameters and endpoint, a presign and a direct upload name the
/// object by textually identical public URLs.
pub proof fn lemma_engines_agree_on_public_url(
    preq: crate::presign::PresignReq,
    ureq: UploadReq,
    scheme: Seq<u8>,
    host: Seq<u8>,
    port: Option<u16>,
    path: Seq<u8>,
    ts: crate::timefmt::UtcTimestamp,
)
    requires
        preq.force_path_style == ureq.force_path_style,
        spec_opt_bytes(preq.custom_domain) == spec_opt_bytes(ureq.custom_domain),
        preq.bucket@ == ureq.bucket@,
        preq.key@ == ureq.key@,
    ensures
        crate::presign::spec_presign_urls(preq, scheme, host, port, path, ts).1
            == spec_upload_public_url(ureq, scheme, host, port, path),
{
}

} // verus!
