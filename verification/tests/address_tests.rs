use flymd_core::encode::{uri_encode_path, uri_encode_query};
use flymd_core::presign::{presign_at, PresignReq};
use flymd_core::timefmt::{amz_date_bytes, date_stamp_bytes, UtcTimestamp};
use flymd_core::upload::{plan_upload, UploadReq};

fn s(v: &[u8]) -> String {
    String::from_utf8(v.to_vec()).unwrap()
}

fn ts() -> UtcTimestamp {
    UtcTimestamp { year: 2024, month: 1, day: 15, hour: 10, minute: 30, second: 0 }
}

fn preq(endpoint: &str, path_style: bool, bucket: &str, key: &str) -> PresignReq {
    PresignReq {
        access_key_id: b"AKID".to_vec(),
        secret_access_key: b"SECRET".to_vec(),
        bucket: bucket.as_bytes().to_vec(),
        region: None,
        endpoint: if endpoint.is_empty() { None } else { Some(endpoint.as_bytes().to_vec()) },
        force_path_style: path_style,
        custom_domain: None,
        key: key.as_bytes().to_vec(),
        expires: None,
    }
}

fn ureq(endpoint: &str, path_style: bool, bucket: &str, key: &str) -> UploadReq {
    UploadReq {
        access_key_id: b"AKID".to_vec(),
        secret_access_key: b"SECRET".to_vec(),
        bucket: bucket.as_bytes().to_vec(),
        region: None,
        endpoint: if endpoint.is_empty() { None } else { Some(endpoint.as_bytes().to_vec()) },
        force_path_style: path_style,
        acl_public_read: true,
        custom_domain: None,
        key: key.as_bytes().to_vec(),
        content_type: None,
        bytes: Vec::new(),
    }
}

#[test]
fn path_encoding_keeps_slash_and_escapes_space() {
    assert_eq!(s(&uri_encode_path(b"a/b c.png")), "a/b%20c.png");
}

#[test]
fn query_encoding_escapes_slash() {
    assert_eq!(s(&uri_encode_query(b"a/b c.png")), "a%2Fb%20c.png");
}

#[test]
fn path_encoding_keeps_empty_segments() {
    assert_eq!(s(&uri_encode_path(b"/a//b/")), "/a//b/");
}

#[test]
fn path_encoding_escapes_utf8_bytes() {
    // a multi-byte character is escaped byte for byte, uppercase hex
    assert_eq!(s(&uri_encode_path("é.png".as_bytes())), "%C3%A9.png");
}

#[test]
fn unreserved_alphabet_stands() {
    let all = b"AZaz09-_.~";
    assert_eq!(uri_encode_query(all), all.to_vec());
    assert_eq!(s(&uri_encode_query(b"a+b=c&d")), "a%2Bb%3Dc%26d");
}

#[test]
fn public_url_path_style_vs_virtual_host() {
    let p = presign_at(&preq("https://s3.example.com", true, "bkt", "k"), &ts()).unwrap();
    assert_eq!(s(&p.public_url), "https://s3.example.com/bkt/k");
    let v = presign_at(&preq("https://s3.example.com", false, "bkt", "k"), &ts()).unwrap();
    assert_eq!(s(&v.public_url), "https://bkt.s3.example.com/k");
}

#[test]
fn upload_public_url_matches_presign_public_url() {
    for style in [true, false] {
        let p = presign_at(&preq("https://s3.example.com", style, "bkt", "a b"), &ts()).unwrap();
        let u = plan_upload(&ureq("https://s3.example.com", style, "bkt", "a b")).unwrap();
        assert_eq!(p.public_url, u.public_url);
    }
}

#[test]
fn custom_domain_overrides_both_styles() {
    for style in [true, false] {
        let mut req = preq("https://s3.example.com", style, "bkt", "a/b c.png");
        req.custom_domain = Some(b"https://cdn.example.com".to_vec());
        let resp = presign_at(&req, &ts()).unwrap();
        assert_eq!(s(&resp.public_url), "https://cdn.example.com/a/b%20c.png");
    }
}

#[test]
fn custom_domain_trailing_slash_trimmed() {
    let mut req = preq("", false, "bkt", "k");
    req.custom_domain = Some(b"https://cdn.example.com/".to_vec());
    let resp = presign_at(&req, &ts()).unwrap();
    assert_eq!(s(&resp.public_url), "https://cdn.example.com/k");
}

#[test]
fn no_endpoint_falls_back_to_aws_hostnames() {
    let p = presign_at(&preq("", true, "bkt", "k"), &ts()).unwrap();
    assert_eq!(s(&p.public_url), "https://s3.amazonaws.com/bkt/k");
    let v = presign_at(&preq("", false, "bkt", "k"), &ts()).unwrap();
    assert_eq!(s(&v.public_url), "https://bkt.s3.amazonaws.com/k");
}

#[test]
fn timestamp_renderings() {
    let t = UtcTimestamp { year: 2024, month: 3, day: 7, hour: 9, minute: 5, second: 59 };
    assert_eq!(s(&amz_date_bytes(&t)), "20240307T090559Z");
    assert_eq!(s(&date_stamp_bytes(&t)), "20240307");
}
