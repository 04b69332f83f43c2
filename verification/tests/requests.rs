use std::collections::HashSet;

use karl::error::Error;
use karl::packet::{request_kind, RequestKind, HT_COMPUTE_REQUEST, HT_COMPUTE_RESULT, HT_HOST_REQUEST, HT_PING_REQUEST, HT_PING_RESULT, HT_RAW_BYTES};
use karl::request::{ComputeRequest, KarlRequest, PingRequest};

#[test]
fn compute_request_builders() {
    let r = ComputeRequest::new(vec![1, 2, 3]);
    assert_eq!(r.zip, vec![1, 2, 3]);
    assert!(!r.stdout);
    assert!(!r.stderr);
    assert!(r.files.is_empty());
    let r = r.stdout().file("out.txt").file("log.txt").file("out.txt");
    assert!(r.stdout);
    assert!(!r.stderr);
    assert_eq!(r.files, vec!["out.txt".to_string(), "log.txt".to_string()]);
    let r = r.stderr();
    assert!(r.stderr);
    assert_eq!(r.zip, vec![1, 2, 3]);
}

#[test]
fn compute_request_files_are_a_set() {
    let a = ComputeRequest::new(vec![]).file("x").file("y");
    let b = ComputeRequest::new(vec![]).file("y").file("x").file("y");
    let sa: HashSet<String> = a.files.into_iter().collect();
    let sb: HashSet<String> = b.files.into_iter().collect();
    assert_eq!(sa, sb);
}

#[test]
fn karl_request_kinds() {
    let p = KarlRequest::Ping(PingRequest::new());
    assert!(matches!(p, KarlRequest::Ping(_)));
    let c = KarlRequest::Compute(ComputeRequest::new(vec![0]));
    assert!(matches!(c, KarlRequest::Compute(_)));
}

#[test]
fn packets_dispatch_by_header_type() {
    assert_eq!(request_kind(HT_PING_REQUEST).unwrap(), RequestKind::Ping);
    assert_eq!(request_kind(HT_COMPUTE_REQUEST).unwrap(), RequestKind::Compute);
    for ty in [HT_RAW_BYTES, HT_PING_RESULT, HT_COMPUTE_RESULT, HT_HOST_REQUEST, 99] {
        match request_kind(ty) {
            Err(Error::InvalidPacketType(t)) => assert_eq!(t, ty),
            _ => panic!("expected InvalidPacketType"),
        }
    }
    assert_eq!(RequestKind::Ping.result_type(), HT_PING_RESULT);
    assert_eq!(RequestKind::Compute.result_type(), HT_COMPUTE_RESULT);
}

#[test]
fn errors_convert() {
    let e: Error = std::io::Error::new(std::io::ErrorKind::Other, "boom").into();
    assert!(matches!(e, Error::IoError(_)));
    let e: Error = "oops".to_string().into();
    match e {
        Error::UnknownError(m) => assert_eq!(m, "oops"),
        _ => panic!("expected UnknownError"),
    }
}
