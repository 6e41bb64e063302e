//! Addressing: request host, canonical URI and public URL for an
//! object, under path-style or virtual-host addressing, with an
//! optional custom public domain.

use vstd::prelude::*;
use crate::bytestr::spec_dec;
use crate::bytestr::push_dec_u32;
use crate::encode::spec_enc_path;
use crate::encode::uri_encode_path;
use crate::endpoint::Endpoint;

verus! {

/// Appends all of `s` to `out`.
pub fn push_all(out: &mut Vec<u8>, s: &[u8])
    ensures
        final(out)@ == old(out)@ + s@,
{
    for i in 0..s.len()
        invariant
            out@ == old(out)@ + s@.take(i as int),
    {
        out.push(s[i]);
        proof {
            assert(old(out)@ + s@.take(i as int) + seq![s@[i as int]] =~= old(out)@ + s@.take(
                i + 1,
            ));
        }
    }
    proof {
        assert(s@.take(s@.len() as int) =~= s@);
    }
}

/// `host` with `:port` appended when an explicit port is set.
pub open spec fn spec_host_port(host: Seq<u8>, port: Option<u16>) -> Seq<u8> {
    match port {
        Some(p) => host + seq![0x3au8] + spec_dec(p as nat),
        None => host,
    }
}

/// The byte string with every trailing `/` removed.
pub open spec fn spec_trim_trailing_slash(s: Seq<u8>) -> Seq<u8>
    decreases s.len(),
{
    if s.len() > 0 && s.last() == 0x2f {
        spec_trim_trailing_slash(s.drop_last())
    } else {
        s
    }
}

/// The host the request is addressed to: the endpoint host itself under
/// path-style addressing, the bucket as a subdomain otherwise.
pub open spec fn spec_request_host(path_style: bool, bucket: Seq<u8>, host: Seq<u8>) -> Seq<u8> {
    if path_style {
        host
    } else {
        bucket + seq![0x2eu8] + host
    }
}

/// The canonical request URI: `/{bucket}/{encoded key}` appended to the
/// endpoint's path under path-style addressing, `/{encoded key}`
/// otherwise.
pub open spec fn spec_canonical_uri(
    path_style: bool,
    bucket: Seq<u8>,
    ep_path: Seq<u8>,
    key: Seq<u8>,
) -> Seq<u8> {
    if path_style {
        spec_trim_trailing_slash(ep_path) + seq![0x2fu8] + bucket + seq![0x2fu8] + spec_enc_path(
            key,
        )
    } else {
        seq![0x2fu8] + spec_enc_path(key)
    }
}

/// `scheme://`.
pub open spec fn spec_scheme_prefix(scheme: Seq<u8>) -> Seq<u8> {
    scheme + seq![0x3au8, 0x2fu8, 0x2fu8]
}

/// The externally visible URL of the object.  A custom public domain
/// overrides everything but the encoded key; otherwise the URL follows
/// the same host and path rule as the request, under the endpoint's
/// scheme.
pub open spec fn spec_public_url(
    path_style: bool,
    custom: Option<Seq<u8>>,
    bucket: Seq<u8>,
    scheme: Seq<u8>,
    host: Seq<u8>,
    port: Option<u16>,
    ep_path: Seq<u8>,
    key: Seq<u8>,
) -> Seq<u8> {
    match custom {
        Some(c) => spec_trim_trailing_slash(c) + seq![0x2fu8] + spec_enc_path(key),
        None => if path_style {
            spec_scheme_prefix(scheme) + spec_host_port(host, port) + spec_trim_trailing_slash(
                ep_path,
            ) + seq![0x2fu8] + bucket + seq![0x2fu8] + spec_enc_path(key)
        } else {
            spec_scheme_prefix(scheme) + bucket + seq![0x2eu8] + spec_host_port(host, port) + (
            if ep_path == seq![0x2fu8] {
                Seq::<u8>::empty()
            } else {
                ep_path
            }) + seq![0x2fu8] + spec_enc_path(key)
        },
    }
}

/// The resolved addressing of one object.
pub struct ResolvedAddress {
    pub request_host: Vec<u8>,
    pub canonical_uri: Vec<u8>,
    pub public_url: Vec<u8>,
}

proof fn lemma_trim_trailing_slash_take(s: Seq<u8>, i: int)
    requires
        0 <= i <= s.len(),
        forall|j: int| i <= j < s.len() ==> s[j] == 0x2f,
    ensures
        spec_trim_trailing_slash(s) == spec_trim_trailing_slash(s.take(i)),
    decreases s.len() - i,
{
    if i < s.len() {
        assert(s.drop_last() =~= s.take(s.len() - 1));
        lemma_trim_trailing_slash_take(s.take(s.len() - 1), i);
        assert(s.take(s.len() - 1).take(i) =~= s.take(i));
    } else {
        assert(s.take(i) =~= s);
    }
}

/// Copies `s` with every trailing `/` removed.
pub fn trim_trailing_slash(s: &[u8]) -> (r: Vec<u8>)
    ensures
        r@ == spec_trim_trailing_slash(s@),
{
    let mut hi: usize = s.len();
    while hi > 0 && s[hi - 1] == 0x2f
        invariant
            hi <= s@.len(),
            forall|j: int| hi <= j < s@.len() ==> s@[j] == 0x2f,
        decreases hi,
    {
        hi = hi - 1;
    }
    let mut out: Vec<u8> = Vec::new();
    for i in 0..hi
        invariant
            hi <= s@.len(),
            out@ =~= s@.take(i as int),
    {
        out.push(s[i]);
        proof {
            assert(out@ =~= s@.take(i + 1));
        }
    }
    proof {
        lemma_trim_trailing_slash_take(s@, hi as int);
        let t = s@.take(hi as int);
        if hi > 0 {
            assert(t.last() == s@[hi - 1]);
            assert(t.last() != 0x2f);
        }
        assert(spec_trim_trailing_slash(t) == t);
    }
    out
}

/// Appends `:port` when a port is set.
fn push_host_port(out: &mut Vec<u8>, host: &[u8], port: Option<u16>)
    ensures
        final(out)@ == old(out)@ + spec_host_port(host@, port),
{
    push_all(out, host);
    match port {
        Some(p) => {
            out.push(0x3a);
            push_dec_u32(out, p as u32);
            proof {
                assert(old(out)@ + host@ + seq![0x3au8] + spec_dec(p as nat) =~= old(out)@
                    + spec_host_port(host@, Some(p)));
            }
        },
        None => {},
    }
}

/// Resolves the request host, the canonical URI and the public URL for
/// one object.
pub fn resolve(
    path_style: bool,
    custom_domain: &Option<Vec<u8>>,
    bucket: &[u8],
    ep: &Endpoint,
    key: &[u8],
) -> (r: ResolvedAddress)
    ensures
        r.request_host@ == spec_request_host(path_style, bucket@, ep.host@),
        r.canonical_uri@ == spec_canonical_uri(path_style, bucket@, ep.path@, key@),
        r.public_url@ == spec_public_url(
            path_style,
            match custom_domain {
                Some(c) => Some(c@),
                None => None,
            },
            bucket@,
            ep.scheme@,
            ep.host@,
            ep.port,
            ep.path@,
            key@,
        ),
{
    let key_enc = uri_encode_path(key);

    let mut request_host: Vec<u8> = Vec::new();
    if path_style {
        push_all(&mut request_host, ep.host.as_slice());
    } else {
        push_all(&mut request_host, bucket);
        request_host.push(0x2e);
        push_all(&mut request_host, ep.host.as_slice());
        proof {
            assert(request_host@ =~= spec_request_host(path_style, bucket@, ep.host@));
        }
    }

    let mut canonical_uri: Vec<u8> = Vec::new();
    if path_style {
        let trimmed = trim_trailing_slash(ep.path.as_slice());
        push_all(&mut canonical_uri, trimmed.as_slice());
        canonical_uri.push(0x2f);
        push_all(&mut canonical_uri, bucket);
        canonical_uri.push(0x2f);
        push_all(&mut canonical_uri, key_enc.as_slice());
        proof {
            assert(canonical_uri@ =~= spec_canonical_uri(path_style, bucket@, ep.path@, key@));
        }
    } else {
        canonical_uri.push(0x2f);
        push_all(&mut canonical_uri, key_enc.as_slice());
        proof {
            assert(canonical_uri@ =~= spec_canonical_uri(path_style, bucket@, ep.path@, key@));
        }
    }

    let mut public_url: Vec<u8> = Vec::new();
    match custom_domain {
        Some(c) => {
            let trimmed = trim_trailing_slash(c.as_slice());
            push_all(&mut public_url, trimmed.as_slice());
            public_url.push(0x2f);
            push_all(&mut public_url, key_enc.as_slice());
            proof {
                assert(public_url@ =~= spec_trim_trailing_slash(c@) + seq![0x2fu8] + spec_enc_path(
                    key@,
                ));
            }
        },
        None => {
            push_all(&mut public_url, ep.scheme.as_slice());
            public_url.push(0x3a);
            public_url.push(0x2f);
            public_url.push(0x2f);
            if path_style {
                push_host_port(&mut public_url, ep.host.as_slice(), ep.port);
                let trimmed = trim_trailing_slash(ep.path.as_slice());
                push_all(&mut public_url, trimmed.as_slice());
                public_url.push(0x2f);
                push_all(&mut public_url, bucket);
                public_url.push(0x2f);
                push_all(&mut public_url, key_enc.as_slice());
                proof {
                    assert(public_url@ =~= spec_scheme_prefix(ep.scheme@) + spec_host_port(
                        ep.host@,
                        ep.port,
                    ) + spec_trim_trailing_slash(ep.path@) + seq![0x2fu8] + bucket@ + seq![0x2fu8]
                        + spec_enc_path(key@));
                }
            } else {
                push_all(&mut public_url, bucket);
                public_url.push(0x2e);
                push_host_port(&mut public_url, ep.host.as_slice(), ep.port);
                let keep_path = !(ep.path.len() == 1 && ep.path[0] == 0x2f);
                if keep_path {
                    push_all(&mut public_url, ep.path.as_slice());
                }
                public_url.push(0x2f);
                push_all(&mut public_url, key_enc.as_slice());
                proof {
                    if !keep_path {
                        assert(ep.path@ =~= seq![0x2fu8]);
                    } else {
                        assert(ep.path@ != seq![0x2fu8]);
                    }
                    assert(public_url@ =~= spec_scheme_prefix(ep.scheme@) + bucket@ + seq![0x2eu8]
                        + spec_host_port(ep.host@, ep.port) + (if ep.path@ == seq![0x2fu8] {
                        Seq::<u8>::empty()
                    } else {
                        ep.path@
                    }) + seq![0x2fu8] + spec_enc_path(key@));
                }
            }
        },
    }

    ResolvedAddress { request_host, canonical_uri, public_url }
}

/// A custom public domain overrides addressing: with it set, the public
/// URL does not depend on the addressing style, the bucket, or the
/// endpoint at all.
pub proof fn lemma_custom_domain_overrides(
    style_a: bool,
    style_b: bool,
    bucket_a: Seq<u8>,
    bucket_b: Seq<u8>,
    scheme_a: Seq<u8>,
    scheme_b: Seq<u8>,
    host_a: Seq<u8>,
    host_b: Seq<u8>,
    port_a: Option<u16>,
    port_b: Option<u16>,
    path_a: Seq<u8>,
    path_b: Seq<u8>,
    custom: Seq<u8>,
    key: Seq<u8>,
)
    ensures
        spec_public_url(style_a, Some(custom), bucket_a, scheme_a, host_a, port_a, path_a, key)
            == spec_public_url(
            style_b,
            Some(custom),
            bucket_b,
            scheme_b,
            host_b,
            port_b,
            path_b,
            key,
        ),
{
}

} // verus!
