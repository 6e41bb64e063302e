//! The Signature V4 derivation for a presigned PUT: canonical request,
//! string to sign, the four-stage keyed-hash chain, and the final query
//! string.  Every step is a function of the inputs and the timestamp
//! alone.

use vstd::prelude::*;
use vstd::string::StrSliceExecFns;
use vstd::string::StringSliceAdditionalSpecFns;
use crate::bytestr::spec_dec;
use crate::bytestr::push_dec_u32;
use crate::bytestr::bytes_eq;
use crate::crypto::spec_sha256;
use crate::crypto::spec_hmac_sha256;
use crate::crypto::spec_hex_lower;
use crate::crypto::sha256_digest;
use crate::crypto::hmac_sha256;
use crate::crypto::hex_lower;
use crate::query::QueryParam;
use crate::query::spec_canonical_query_of;
use crate::query::build_canonical_query;
use crate::address::push_all;
use crate::timefmt::UtcTimestamp;
use crate::timefmt::spec_date_stamp;
use crate::timefmt::spec_amz_date;
use crate::timefmt::date_stamp_bytes;
use crate::timefmt::amz_date_bytes;

verus! {

/// `{date_stamp}/{region}/{service}/aws4_request`.
pub open spec fn spec_scope(date_stamp: Seq<u8>, region: Seq<u8>, service: Seq<u8>) -> Seq<u8> {
    date_stamp + seq![0x2fu8] + region + seq![0x2fu8] + service + seq![0x2fu8]
        + "aws4_request".spec_bytes()
}

/// `{access_key_id}/{scope}`.
pub open spec fn spec_credential(akid: Seq<u8>, scope: Seq<u8>) -> Seq<u8> {
    akid + seq![0x2fu8] + scope
}

/// The five `X-Amz-*` presign parameters, in the order they are
/// assembled; the canonical query sorts them by key.
pub open spec fn spec_presign_params(
    akid: Seq<u8>,
    scope: Seq<u8>,
    amz_date: Seq<u8>,
    expires: u32,
) -> Seq<(Seq<u8>, Seq<u8>)> {
    seq![
        ("X-Amz-Algorithm".spec_bytes(), "AWS4-HMAC-SHA256".spec_bytes()),
        ("X-Amz-Credential".spec_bytes(), spec_credential(akid, scope)),
        ("X-Amz-Date".spec_bytes(), amz_date),
        ("X-Amz-Expires".spec_bytes(), spec_dec(expires as nat)),
        ("X-Amz-SignedHeaders".spec_bytes(), "host".spec_bytes()),
    ]
}

/// The canonical query of the five presign parameters.
pub open spec fn spec_canonical_query(
    akid: Seq<u8>,
    scope: Seq<u8>,
    amz_date: Seq<u8>,
    expires: u32,
) -> Seq<u8> {
    spec_canonical_query_of(spec_presign_params(akid, scope, amz_date, expires))
}

/// `host:{request_host}\n` — the one signed header.
pub open spec fn spec_canonical_headers(host: Seq<u8>) -> Seq<u8> {
    "host:".spec_bytes() + host + seq![0x0au8]
}

/// The canonical request: exactly five newline-joined sections after
/// the method, with the literal `UNSIGNED-PAYLOAD` sentinel as the
/// payload token — the body is unknown at presign time and must not be
/// hashed.
pub open spec fn spec_canonical_request(
    canonical_uri: Seq<u8>,
    canonical_query: Seq<u8>,
    host: Seq<u8>,
) -> Seq<u8> {
    "PUT".spec_bytes() + seq![0x0au8] + canonical_uri + seq![0x0au8] + canonical_query
        + seq![0x0au8] + spec_canonical_headers(host) + seq![0x0au8] + "host".spec_bytes()
        + seq![0x0au8] + "UNSIGNED-PAYLOAD".spec_bytes()
}

/// The string to sign: algorithm, instant, scope and the hex digest of
/// the canonical request.
pub open spec fn spec_string_to_sign(
    amz_date: Seq<u8>,
    scope: Seq<u8>,
    canonical_request: Seq<u8>,
) -> Seq<u8> {
    "AWS4-HMAC-SHA256".spec_bytes() + seq![0x0au8] + amz_date + seq![0x0au8] + scope
        + seq![0x0au8] + spec_hex_lower(spec_sha256(canonical_request))
}

/// The four-stage signing-key chain, each stage keyed by the previous
/// stage's output, seeded with `"AWS4" + secret`.
pub open spec fn spec_signing_key(
    secret: Seq<u8>,
    date_stamp: Seq<u8>,
    region: Seq<u8>,
    service: Seq<u8>,
) -> Seq<u8> {
    spec_hmac_sha256(
        spec_hmac_sha256(
            spec_hmac_sha256(
                spec_hmac_sha256("AWS4".spec_bytes() + secret, date_stamp),
                region,
            ),
            service,
        ),
        "aws4_request".spec_bytes(),
    )
}

/// The hex signature over the string to sign.
pub open spec fn spec_signature(
    secret: Seq<u8>,
    date_stamp: Seq<u8>,
    region: Seq<u8>,
    service: Seq<u8>,
    string_to_sign: Seq<u8>,
) -> Seq<u8> {
    spec_hex_lower(spec_hmac_sha256(spec_signing_key(secret, date_stamp, region, service), string_to_sign))
}

/// The whole presign signature as a function of the request parts and
/// the timestamp.
pub open spec fn spec_presign_signature(
    akid: Seq<u8>,
    secret: Seq<u8>,
    region: Seq<u8>,
    service: Seq<u8>,
    request_host: Seq<u8>,
    canonical_uri: Seq<u8>,
    expires: u32,
    ts: UtcTimestamp,
) -> Seq<u8> {
    let date_stamp = spec_date_stamp(ts);
    let amz_date = spec_amz_date(ts);
    let scope = spec_scope(date_stamp, region, service);
    let cq = spec_canonical_query(akid, scope, amz_date, expires);
    let creq = spec_canonical_request(canonical_uri, cq, request_host);
    let sts = spec_string_to_sign(amz_date, scope, creq);
    spec_signature(secret, date_stamp, region, service, sts)
}

/// The canonical query with `&X-Amz-Signature={signature}` appended.
pub open spec fn spec_final_query(canonical_query: Seq<u8>, signature: Seq<u8>) -> Seq<u8> {
    canonical_query + "&X-Amz-Signature=".spec_bytes() + signature
}

/// Everything the signer derives for one presigned PUT.
pub struct SigOutput {
    pub amz_date: Vec<u8>,
    pub date_stamp: Vec<u8>,
    pub scope: Vec<u8>,
    pub canonical_query: Vec<u8>,
    pub signature: Vec<u8>,
    pub final_query: Vec<u8>,
}

/// Signs a presigned PUT: derives the instant and scope from the
/// timestamp, builds the canonical query and request, and runs the
/// keyed-hash chain.  Deterministic: the output is a function of the
/// arguments alone.
pub fn sign_presign_put(
    access_key_id: &[u8],
    secret_access_key: &[u8],
    region: &[u8],
    service: &[u8],
    request_host: &[u8],
    canonical_uri: &[u8],
    expires: u32,
    ts: &UtcTimestamp,
) -> (r: SigOutput)
    requires
        ts.wf(),
    ensures
        r.amz_date@ == spec_amz_date(*ts),
        r.date_stamp@ == spec_date_stamp(*ts),
        r.scope@ == spec_scope(spec_date_stamp(*ts), region@, service@),
        r.canonical_query@ == spec_canonical_query(
            access_key_id@,
            spec_scope(spec_date_stamp(*ts), region@, service@),
            spec_amz_date(*ts),
            expires,
        ),
        r.signature@ == spec_presign_signature(
            access_key_id@,
            secret_access_key@,
            region@,
            service@,
            request_host@,
            canonical_uri@,
            expires,
            *ts,
        ),
        r.final_query@ == spec_final_query(r.canonical_query@, r.signature@),
{
    let amz_date = amz_date_bytes(ts);
    let date_stamp = date_stamp_bytes(ts);

    // scope = {date_stamp}/{region}/{service}/aws4_request
    let mut scope: Vec<u8> = Vec::new();
    push_all(&mut scope, date_stamp.as_slice());
    scope.push(0x2f);
    push_all(&mut scope, region);
    scope.push(0x2f);
    push_all(&mut scope, service);
    scope.push(0x2f);
    let aws4_request = "aws4_request".as_bytes_vec();
    push_all(&mut scope, aws4_request.as_slice());
    proof {
        assert(scope@ =~= spec_scope(spec_date_stamp(*ts), region@, service@));
    }

    // the five X-Amz-* parameters, sorted by the canonical query builder
    let mut credential: Vec<u8> = Vec::new();
    push_all(&mut credential, access_key_id);
    credential.push(0x2f);
    push_all(&mut credential, scope.as_slice());
    proof {
        assert(credential@ =~= spec_credential(access_key_id@, scope@));
    }
    let mut expires_value: Vec<u8> = Vec::new();
    push_dec_u32(&mut expires_value, expires);

    let mut params: Vec<QueryParam> = Vec::new();
    params.push(QueryParam { key: "X-Amz-Algorithm".as_bytes_vec(), value: "AWS4-HMAC-SHA256".as_bytes_vec() });
    params.push(QueryParam { key: "X-Amz-Credential".as_bytes_vec(), value: credential });
    params.push(QueryParam { key: "X-Amz-Date".as_bytes_vec(), value: amz_date_bytes(ts) });
    params.push(QueryParam { key: "X-Amz-Expires".as_bytes_vec(), value: expires_value });
    params.push(QueryParam { key: "X-Amz-SignedHeaders".as_bytes_vec(), value: "host".as_bytes_vec() });
    proof {
        assert(crate::query::spec_params(params@) =~= spec_presign_params(
            access_key_id@,
            scope@,
            spec_amz_date(*ts),
            expires,
        ));
    }
    let canonical_query = build_canonical_query(params);

    // canonical request, five newline-joined sections after the method
    let mut creq: Vec<u8> = Vec::new();
    let put_lit = "PUT".as_bytes_vec();
    push_all(&mut creq, put_lit.as_slice());
    creq.push(0x0a);
    push_all(&mut creq, canonical_uri);
    creq.push(0x0a);
    push_all(&mut creq, canonical_query.as_slice());
    creq.push(0x0a);
    let host_colon = "host:".as_bytes_vec();
    push_all(&mut creq, host_colon.as_slice());
    push_all(&mut creq, request_host);
    creq.push(0x0a);
    creq.push(0x0a);
    let host_lit = "host".as_bytes_vec();
    push_all(&mut creq, host_lit.as_slice());
    creq.push(0x0a);
    let unsigned_payload = "UNSIGNED-PAYLOAD".as_bytes_vec();
    push_all(&mut creq, unsigned_payload.as_slice());
    proof {
        assert(creq@ =~= spec_canonical_request(canonical_uri@, canonical_query@, request_host@));
    }

    // string to sign
    let creq_digest = sha256_digest(creq.as_slice());
    let creq_hex = hex_lower(creq_digest.as_slice());
    let mut sts: Vec<u8> = Vec::new();
    let algorithm = "AWS4-HMAC-SHA256".as_bytes_vec();
    push_all(&mut sts, algorithm.as_slice());
    sts.push(0x0a);
    push_all(&mut sts, amz_date.as_slice());
    sts.push(0x0a);
    push_all(&mut sts, scope.as_slice());
    sts.push(0x0a);
    push_all(&mut sts, creq_hex.as_slice());
    proof {
        assert(sts@ =~= spec_string_to_sign(spec_amz_date(*ts), scope@, creq@));
    }

    // the four-stage signing-key chain
    let mut seed: Vec<u8> = Vec::new();
    let aws4 = "AWS4".as_bytes_vec();
    push_all(&mut seed, aws4.as_slice());
    push_all(&mut seed, secret_access_key);
    let k_date = hmac_sha256(seed.as_slice(), date_stamp.as_slice());
    let k_region = hmac_sha256(k_date.as_slice(), region);
    let k_service = hmac_sha256(k_region.as_slice(), service);
    let k_signing = hmac_sha256(k_service.as_slice(), aws4_request.as_slice());
    proof {
        assert(seed@ =~= "AWS4".spec_bytes() + secret_access_key@);
        assert(k_signing@ == spec_signing_key(
            secret_access_key@,
            spec_date_stamp(*ts),
            region@,
            service@,
        ));
    }
    let tag = hmac_sha256(k_signing.as_slice(), sts.as_slice());
    let signature = hex_lower(tag.as_slice());

    // final query: canonical query plus the signature parameter
    let mut final_query: Vec<u8> = Vec::new();
    push_all(&mut final_query, canonical_query.as_slice());
    let sig_key = "&X-Amz-Signature=".as_bytes_vec();
    push_all(&mut final_query, sig_key.as_slice());
    push_all(&mut final_query, signature.as_slice());
    proof {
        assert(final_query@ =~= spec_final_query(canonical_query@, signature@));
    }

    SigOutput { amz_date, date_stamp, scope, canonical_query, signature, final_query }
}

/// Recomputes the signature for the given request parts and timestamp
/// and compares it against a candidate: true exactly when the candidate
/// is the signature this signer derives.
pub fn verify_presign_signature(
    access_key_id: &[u8],
    secret_access_key: &[u8],
    region: &[u8],
    service: &[u8],
    request_host: &[u8],
    canonical_uri: &[u8],
    expires: u32,
    ts: &UtcTimestamp,
    candidate: &[u8],
) -> (r: bool)
    requires
        ts.wf(),
    ensures
        r == (candidate@ == spec_presign_signature(
            access_key_id@,
            secret_access_key@,
            region@,
            service@,
            request_host@,
            canonical_uri@,
            expires,
            *ts,
        )),
{
    let out = sign_presign_put(
        access_key_id,
        secret_access_key,
        region,
        service,
        request_host,
        canonical_uri,
        expires,
        ts,
    );
    bytes_eq(out.signature.as_slice(), candidate)
}

/// Determinism: the signature is a function of credentials, region,
/// service, addressing, expiry and timestamp alone — equal inputs give
/// the identical signature, bit for bit.
pub proof fn lemma_signature_deterministic(
    akid: Seq<u8>,
    secret: Seq<u8>,
    region: Seq<u8>,
    service: Seq<u8>,
    host: Seq<u8>,
    uri: Seq<u8>,
    expires: u32,
    ts_a: UtcTimestamp,
    ts_b: UtcTimestamp,
)
    requires
        ts_a == ts_b,
    ensures
        spec_presign_signature(akid, secret, region, service, host, uri, expires, ts_a)
            == spec_presign_signature(akid, secret, region, service, host, uri, expires, ts_b),
{
}

/// Round trip: the final query string opens with the canonical query
/// untouched and closes with the embedded signature, and the embedded
/// bytes are exactly the signature that re-running the derivation on
/// the same inputs yields — so a verifier that recomputes it accepts.
pub proof fn lemma_presign_roundtrip(
    akid: Seq<u8>,
    secret: Seq<u8>,
    region: Seq<u8>,
    service: Seq<u8>,
    host: Seq<u8>,
    uri: Seq<u8>,
    expires: u32,
    ts: UtcTimestamp,
)
    ensures
        ({
            let sig = spec_presign_signature(akid, secret, region, service, host, uri, expires, ts);
            let scope = spec_scope(spec_date_stamp(ts), region, service);
            let cq = spec_canonical_query(akid, scope, spec_amz_date(ts), expires);
            let fq = spec_final_query(cq, sig);
            &&& fq.len() == cq.len() + "&X-Amz-Signature=".spec_bytes().len() + sig.len()
            &&& fq.subrange(0, cq.len() as int) == cq
            &&& fq.subrange(fq.len() - sig.len(), fq.len() as int) == spec_presign_signature(
                akid,
                secret,
                region,
                service,
                host,
                uri,
                expires,
                ts,
            )
        }),
{
    let sig = spec_presign_signature(akid, secret, region, service, host, uri, expires, ts);
    let scope = spec_scope(spec_date_stamp(ts), region, service);
    let cq = spec_canonical_query(akid, scope, spec_amz_date(ts), expires);
    let fq = spec_final_query(cq, sig);
    assert(fq.subrange(0, cq.len() as int) =~= cq);
    assert(fq.subrange(fq.len() - sig.len(), fq.len() as int) =~= sig);
}

} // verus!
