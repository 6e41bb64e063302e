use flymd_core::errors::StorageError;
use flymd_core::pending::PendingOpenPath;
use flymd_core::upload::{finish_upload, plan_upload, PutOutcome, UploadReq};

fn s(v: &[u8]) -> String {
    String::from_utf8(v.to_vec()).unwrap()
}

fn req() -> UploadReq {
    UploadReq {
        access_key_id: b"AKID".to_vec(),
        secret_access_key: b"SECRET".to_vec(),
        bucket: b"bkt".to_vec(),
        region: None,
        endpoint: Some(b"  https://s3.example.com  ".to_vec()),
        force_path_style: true,
        acl_public_read: true,
        custom_domain: None,
        key: b"dir/pic 1.png".to_vec(),
        content_type: Some(b"image/png".to_vec()),
        bytes: vec![0xde, 0xad],
    }
}

#[test]
fn default_true_is_true() {
    assert!(UploadReq::default_true());
}

#[test]
fn plan_trims_endpoint_and_defaults_region() {
    let plan = plan_upload(&req()).unwrap();
    assert_eq!(s(&plan.region), "us-east-1");
    assert_eq!(plan.endpoint_url.as_deref(), Some(b"https://s3.example.com".as_slice()));
    assert_eq!(s(&plan.bucket), "bkt");
    assert_eq!(s(&plan.key), "dir/pic 1.png");
    assert_eq!(plan.content_type.as_deref(), Some(b"image/png".as_slice()));
    assert!(plan.acl_public_read);
    assert_eq!(s(&plan.public_url), "https://s3.example.com/bkt/dir/pic%201.png");
}

#[test]
fn plan_drops_blank_endpoint_and_empty_content_type() {
    let mut r = req();
    r.endpoint = Some(b"   ".to_vec());
    r.content_type = Some(Vec::new());
    let plan = plan_upload(&r).unwrap();
    assert_eq!(plan.endpoint_url, None);
    assert_eq!(plan.content_type, None);
    assert_eq!(s(&plan.public_url), "https://s3.amazonaws.com/bkt/dir/pic%201.png");
}

#[test]
fn finish_upload_reports_key_and_public_url() {
    let plan = plan_upload(&req()).unwrap();
    let resp = finish_upload(&plan, PutOutcome::Success).unwrap();
    assert_eq!(resp.key, plan.key);
    assert_eq!(resp.public_url, plan.public_url);
}

#[test]
fn finish_upload_maps_connection_failure_to_transport_error() {
    let plan = plan_upload(&req()).unwrap();
    match finish_upload(&plan, PutOutcome::ConnectFailure(b"timed out".to_vec())) {
        Err(StorageError::TransportError(m)) => assert_eq!(s(&m), "timed out"),
        other => panic!("expected TransportError, got {:?}", other.map(|_| ())),
    }
}

#[test]
fn finish_upload_maps_rejection_to_remote_rejected() {
    let plan = plan_upload(&req()).unwrap();
    match finish_upload(&plan, PutOutcome::Rejected { status: 403, body: b"denied".to_vec() }) {
        Err(StorageError::RemoteRejected { status, body }) => {
            assert_eq!(status, 403);
            assert_eq!(s(&body), "denied");
        }
        other => panic!("expected RemoteRejected, got {:?}", other.map(|_| ())),
    }
}

#[test]
fn pending_slot_takes_once() {
    let mut slot = PendingOpenPath::new();
    assert_eq!(slot.take(), None);
    slot.set("/tmp/a.md".to_string());
    slot.set("/tmp/b.md".to_string());
    assert_eq!(slot.take(), Some("/tmp/b.md".to_string()));
    assert_eq!(slot.take(), None);
}
