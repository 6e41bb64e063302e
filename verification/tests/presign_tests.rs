use flymd_core::presign::{presign_at, PresignReq};
use flymd_core::sigv4::verify_presign_signature;
use flymd_core::timefmt::UtcTimestamp;
use flymd_core::errors::StorageError;
use flymd_core::upload::{plan_upload, UploadReq};
use flymd_core::query::{build_canonical_query, QueryParam};
use hmac::Mac;
use sha2::Digest;

fn ts() -> UtcTimestamp {
    UtcTimestamp { year: 2024, month: 1, day: 15, hour: 10, minute: 30, second: 0 }
}

fn base_req() -> PresignReq {
    PresignReq {
        access_key_id: b"AKID".to_vec(),
        secret_access_key: b"SECRET".to_vec(),
        bucket: b"b".to_vec(),
        region: Some(b"us-east-1".to_vec()),
        endpoint: None,
        force_path_style: false,
        custom_domain: None,
        key: b"a/b c.png".to_vec(),
        expires: Some(600),
    }
}

fn s(v: &[u8]) -> String {
    String::from_utf8(v.to_vec()).unwrap()
}

fn hmac_ref(key: &[u8], data: &[u8]) -> Vec<u8> {
    let mut mac = hmac::Hmac::<sha2::Sha256>::new_from_slice(key).unwrap();
    mac.update(data);
    mac.finalize().into_bytes().to_vec()
}

/// Reference derivation of the signature, built independently of the
/// library from the documented algorithm.
fn reference_signature(
    secret: &str,
    region: &str,
    host: &str,
    canonical_uri: &str,
    canonical_query: &str,
    amz_date: &str,
    date_stamp: &str,
) -> String {
    let canonical_request = format!(
        "PUT\n{}\n{}\nhost:{}\n\nhost\nUNSIGNED-PAYLOAD",
        canonical_uri, canonical_query, host
    );
    let string_to_sign = format!(
        "AWS4-HMAC-SHA256\n{}\n{}/{}/s3/aws4_request\n{}",
        amz_date,
        date_stamp,
        region,
        hex::encode(sha2::Sha256::digest(canonical_request.as_bytes()))
    );
    let k_date = hmac_ref(format!("AWS4{}", secret).as_bytes(), date_stamp.as_bytes());
    let k_region = hmac_ref(&k_date, region.as_bytes());
    let k_service = hmac_ref(&k_region, b"s3");
    let k_signing = hmac_ref(&k_service, b"aws4_request");
    hex::encode(hmac_ref(&k_signing, string_to_sign.as_bytes()))
}

fn query_pairs(url: &str) -> Vec<(String, String)> {
    let q = url.split('?').nth(1).unwrap();
    q.split('&')
        .map(|kv| {
            let mut it = kv.splitn(2, '=');
            (it.next().unwrap().to_string(), it.next().unwrap_or("").to_string())
        })
        .collect()
}

#[test]
fn presign_is_deterministic() {
    let a = presign_at(&base_req(), &ts()).unwrap();
    let b = presign_at(&base_req(), &ts()).unwrap();
    assert_eq!(a.put_url, b.put_url);
    assert_eq!(a.public_url, b.public_url);
}

#[test]
fn presign_golden_vector_matches_reference() {
    let resp = presign_at(&base_req(), &ts()).unwrap();
    let url = s(&resp.put_url);
    let pairs = query_pairs(&url);
    let sig = &pairs.iter().find(|(k, _)| k == "X-Amz-Signature").unwrap().1;

    let canonical_query = "X-Amz-Algorithm=AWS4-HMAC-SHA256\
        &X-Amz-Credential=AKID%2F20240115%2Fus-east-1%2Fs3%2Faws4_request\
        &X-Amz-Date=20240115T103000Z&X-Amz-Expires=600&X-Amz-SignedHeaders=host";
    let expected = reference_signature(
        "SECRET",
        "us-east-1",
        "b.s3.amazonaws.com",
        "/a/b%20c.png",
        canonical_query,
        "20240115T103000Z",
        "20240115",
    );
    assert_eq!(sig, &expected);
    assert_eq!(
        url,
        format!(
            "https://b.s3.amazonaws.com/a/b%20c.png?{}&X-Amz-Signature={}",
            canonical_query, expected
        )
    );
}

#[test]
fn presign_query_keys_strictly_ascending() {
    let resp = presign_at(&base_req(), &ts()).unwrap();
    let url = s(&resp.put_url);
    let pairs = query_pairs(&url);
    // the five canonical parameters come before the appended signature
    let canonical: Vec<&String> = pairs[..5].iter().map(|(k, _)| k).collect();
    for w in canonical.windows(2) {
        assert!(w[0] < w[1], "{} should sort before {}", w[0], w[1]);
    }
    assert_eq!(
        canonical,
        vec![
            "X-Amz-Algorithm",
            "X-Amz-Credential",
            "X-Amz-Date",
            "X-Amz-Expires",
            "X-Amz-SignedHeaders"
        ]
    );
    assert_eq!(pairs[5].0, "X-Amz-Signature");
}

#[test]
fn canonical_query_ignores_insertion_order() {
    let forward = vec![
        QueryParam { key: b"alpha".to_vec(), value: b"1".to_vec() },
        QueryParam { key: b"beta".to_vec(), value: b"2".to_vec() },
        QueryParam { key: b"gamma".to_vec(), value: b"3".to_vec() },
    ];
    let backward = vec![
        QueryParam { key: b"gamma".to_vec(), value: b"3".to_vec() },
        QueryParam { key: b"beta".to_vec(), value: b"2".to_vec() },
        QueryParam { key: b"alpha".to_vec(), value: b"1".to_vec() },
    ];
    let a = build_canonical_query(forward);
    let b = build_canonical_query(backward);
    assert_eq!(a, b);
    assert_eq!(s(&a), "alpha=1&beta=2&gamma=3");
}

#[test]
fn presign_roundtrip_signature_verifies_and_mutation_fails() {
    let resp = presign_at(&base_req(), &ts()).unwrap();
    let url = s(&resp.put_url);
    let pairs = query_pairs(&url);
    let sig = pairs.iter().find(|(k, _)| k == "X-Amz-Signature").unwrap().1.clone();

    let ok = verify_presign_signature(
        b"AKID",
        b"SECRET",
        b"us-east-1",
        b"s3",
        b"b.s3.amazonaws.com",
        b"/a/b%20c.png",
        600,
        &ts(),
        sig.as_bytes(),
    );
    assert!(ok);

    // flipping any single character of the signature invalidates it
    let mut mutated = sig.clone().into_bytes();
    mutated[0] = if mutated[0] == b'a' { b'b' } else { b'a' };
    let bad = verify_presign_signature(
        b"AKID",
        b"SECRET",
        b"us-east-1",
        b"s3",
        b"b.s3.amazonaws.com",
        b"/a/b%20c.png",
        600,
        &ts(),
        &mutated,
    );
    assert!(!bad);

    // a mutated query parameter (here: the expiry) signs differently,
    // so the old signature no longer validates
    let other = verify_presign_signature(
        b"AKID",
        b"SECRET",
        b"us-east-1",
        b"s3",
        b"b.s3.amazonaws.com",
        b"/a/b%20c.png",
        601,
        &ts(),
        sig.as_bytes(),
    );
    assert!(!other);
}

#[test]
fn presign_unicode_key_matches_reference() {
    let mut req = base_req();
    req.key = "文 件.png".as_bytes().to_vec();
    let resp = presign_at(&req, &ts()).unwrap();
    let url = s(&resp.put_url);
    let pairs = query_pairs(&url);
    let sig = &pairs.iter().find(|(k, _)| k == "X-Amz-Signature").unwrap().1;

    let key_enc = s(&flymd_core::encode::uri_encode_path("文 件.png".as_bytes()));
    assert_eq!(key_enc, "%E6%96%87%20%E4%BB%B6.png");
    let canonical_query = "X-Amz-Algorithm=AWS4-HMAC-SHA256\
        &X-Amz-Credential=AKID%2F20240115%2Fus-east-1%2Fs3%2Faws4_request\
        &X-Amz-Date=20240115T103000Z&X-Amz-Expires=600&X-Amz-SignedHeaders=host";
    let expected = reference_signature(
        "SECRET",
        "us-east-1",
        "b.s3.amazonaws.com",
        &format!("/{}", key_enc),
        canonical_query,
        "20240115T103000Z",
        "20240115",
    );
    assert_eq!(sig, &expected);
    assert_eq!(s(&resp.public_url), format!("https://b.s3.amazonaws.com/{}", key_enc));
}

#[test]
fn invalid_endpoint_rejected_by_both_engines() {
    let mut preq = base_req();
    preq.endpoint = Some(b"not a url".to_vec());
    match presign_at(&preq, &ts()) {
        Err(StorageError::InvalidEndpoint) => {}
        other => panic!("expected InvalidEndpoint, got {:?}", other.map(|_| ())),
    }

    let ureq = UploadReq {
        access_key_id: b"AKID".to_vec(),
        secret_access_key: b"SECRET".to_vec(),
        bucket: b"b".to_vec(),
        region: None,
        endpoint: Some(b"not a url".to_vec()),
        force_path_style: true,
        acl_public_read: true,
        custom_domain: None,
        key: b"k".to_vec(),
        content_type: None,
        bytes: vec![1, 2, 3],
    };
    match plan_upload(&ureq) {
        Err(StorageError::InvalidEndpoint) => {}
        other => panic!("expected InvalidEndpoint, got {:?}", other.map(|_| ())),
    }
}

#[test]
fn empty_region_is_a_signing_error() {
    let mut req = base_req();
    req.region = Some(Vec::new());
    match presign_at(&req, &ts()) {
        Err(StorageError::SigningError) => {}
        other => panic!("expected SigningError, got {:?}", other.map(|_| ())),
    }
}

#[test]
fn presign_with_endpoint_port_and_base_path() {
    let mut req = base_req();
    req.endpoint = Some(b"https://min.io:9000/base".to_vec());
    req.force_path_style = true;
    req.key = b"k".to_vec();
    let resp = presign_at(&req, &ts()).unwrap();
    let url = s(&resp.put_url);
    // the signing host carries no port; the URI keeps the endpoint's base path
    assert!(url.starts_with("https://min.io/base/b/k?X-Amz-Algorithm="));
    // the public URL keeps the explicit port
    assert_eq!(s(&resp.public_url), "https://min.io:9000/base/b/k");
}

#[test]
fn default_expiry_is_600_seconds() {
    let mut req = base_req();
    req.expires = None;
    let resp = presign_at(&req, &ts()).unwrap();
    let url = s(&resp.put_url);
    assert!(url.contains("X-Amz-Expires=600&"));
}

#[test]
fn default_region_is_us_east_1() {
    let mut req = base_req();
    req.region = None;
    let with_default = presign_at(&req, &ts()).unwrap();
    let explicit = presign_at(&base_req(), &ts()).unwrap();
    assert_eq!(with_default.put_url, explicit.put_url);
}
