use hoya::bridge::BridgeFault;
use hoya::bridge::FetchPhase;
use hoya::bridge::app_log_call;
use hoya::bridge::fetch_request_phase;
use hoya::bridge::fetch_response_phase;
use hoya::bridge::invalid_request_result;
use hoya::bridge::success_fetch_result;
use hoya::bridge::transport_error_result;
use hoya::bridge::validate_fetch_request;
use hoya::sink::OutputBuffers;
use hoya::sink::StreamKind;
use hoya::wire::encode_fetch_result;
use hoya::decode::decode_fetch_result;
use hoya::decode::parse_fetch_request;

#[test]
fn log_call_formats_and_captures() {
    // Guest memory holding "INFO" then "hello".
    let mem = b"INFOhello".to_vec();
    let mut bufs = OutputBuffers::new();
    let line = app_log_call(&mut bufs, &mem, 0, 4, 4, 5).unwrap();
    assert_eq!(line, b"[INFO]: hello".to_vec());
    assert_eq!(bufs.snapshot(StreamKind::Stdout), b"[INFO]: hello\n".to_vec());
    assert_eq!(bufs.snapshot(StreamKind::Stderr), Vec::<u8>::new());
}

#[test]
fn log_call_uppercases_level() {
    let mem = b"warnboom".to_vec();
    let mut bufs = OutputBuffers::new();
    let line = app_log_call(&mut bufs, &mem, 0, 4, 4, 4).unwrap();
    assert_eq!(line, b"[WARN]: boom".to_vec());
}

#[test]
fn log_call_accepts_empty_level_and_message() {
    let mem = Vec::new();
    let mut bufs = OutputBuffers::new();
    let line = app_log_call(&mut bufs, &mem, 0, 0, 0, 0).unwrap();
    assert_eq!(line, b"[]: ".to_vec());
    assert_eq!(bufs.snapshot(StreamKind::Stdout), b"[]: \n".to_vec());
}

#[test]
fn log_call_rejects_bad_region() {
    let mem = b"INFOhello".to_vec();
    let mut bufs = OutputBuffers::new();
    let r = app_log_call(&mut bufs, &mem, 0, 4, 4, 6);
    assert!(matches!(r, Err(BridgeFault::OutOfBounds)));
    let r = app_log_call(&mut bufs, &mem, u32::MAX, 2, 0, 1);
    assert!(matches!(r, Err(BridgeFault::OutOfBounds)));
    assert_eq!(bufs.snapshot(StreamKind::Stdout), Vec::<u8>::new());
}

#[test]
fn log_call_rejects_bad_utf8() {
    let mem = vec![b'I', b'N', b'F', b'O', 0xff, 0xfe];
    let mut bufs = OutputBuffers::new();
    let r = app_log_call(&mut bufs, &mem, 0, 4, 4, 2);
    assert!(matches!(r, Err(BridgeFault::InvalidEncoding)));
    assert_eq!(bufs.snapshot(StreamKind::Stdout), Vec::<u8>::new());
}

#[test]
fn request_phase_accepts_valid_request() {
    let json = b"{\"url\":\"http://e/\",\"method\":\"GET\",\"headers\":{\"x-a\":\"1\"}}";
    let mut mem = vec![0u8; 128];
    mem[8..8 + json.len()].copy_from_slice(json);
    match fetch_request_phase(&mem, 8, json.len() as u32).unwrap() {
        FetchPhase::Ready(req) => {
            assert_eq!(req.method, b"GET".to_vec());
            assert_eq!(req.url, b"http://e/".to_vec());
        }
        FetchPhase::Reject(_) => panic!("expected a ready request"),
    }
}

#[test]
fn request_phase_rejects_malformed_json() {
    let mem = b"garbage".to_vec();
    match fetch_request_phase(&mem, 0, 7).unwrap() {
        FetchPhase::Reject(res) => {
            assert_eq!(res.status, 0);
            let e = res.error.unwrap();
            assert_eq!(e.code, b"INVALID_REQUEST".to_vec());
        }
        FetchPhase::Ready(_) => panic!("expected a rejection"),
    }
}

#[test]
fn request_phase_rejects_invalid_method() {
    let json = b"{\"url\":\"http://e/\",\"method\":\"G T\",\"headers\":{}}";
    let mem = json.to_vec();
    match fetch_request_phase(&mem, 0, json.len() as u32).unwrap() {
        FetchPhase::Reject(res) => {
            assert_eq!(res.status, 0);
            assert_eq!(res.error.unwrap().code, b"INVALID_REQUEST".to_vec());
        }
        FetchPhase::Ready(_) => panic!("expected a rejection"),
    }
}

#[test]
fn request_phase_faults_on_bad_region() {
    let mem = vec![0u8; 4];
    assert!(matches!(
        fetch_request_phase(&mem, 2, 4),
        Err(BridgeFault::OutOfBounds)
    ));
}

#[test]
fn validate_rejects_bad_header_name_and_value() {
    let ok = b"{\"url\":\"u\",\"method\":\"GET\",\"headers\":{\"a b\":\"c\"}}".to_vec();
    let req = parse_fetch_request(&ok).unwrap();
    assert!(!validate_fetch_request(&req));
    let bad_value =
        b"{\"url\":\"u\",\"method\":\"GET\",\"headers\":{\"a\":\"x\\u0000y\"}}".to_vec();
    let req = parse_fetch_request(&bad_value).unwrap();
    assert!(!validate_fetch_request(&req));
}

#[test]
fn response_phase_writes_when_it_fits() {
    let result = success_fetch_result(204, vec![], b"".to_vec());
    let enc = encode_fetch_result(&result);
    let mut mem = vec![0xaau8; 256];
    let n = fetch_response_phase(&mut mem, 16, 200, &result).unwrap();
    assert_eq!(n as usize, enc.len());
    assert_eq!(&mem[16..16 + enc.len()], enc.as_slice());
    assert!(mem[..16].iter().all(|&b| b == 0xaa));
    assert!(mem[16 + enc.len()..].iter().all(|&b| b == 0xaa));
    let back = decode_fetch_result(&enc).unwrap();
    assert_eq!(back.status, 204);
}

#[test]
fn response_phase_signals_required_size_without_writing() {
    // Over-capacity: the call returns exactly the negated serialized size
    // and the guest buffer is left unmodified.
    let result = success_fetch_result(200, vec![], b"a long enough body".to_vec());
    let enc_len = encode_fetch_result(&result).len() as i32;
    let mut mem = vec![0x55u8; 64];
    let n = fetch_response_phase(&mut mem, 0, 8, &result).unwrap();
    assert_eq!(n, -enc_len);
    assert_eq!(mem, vec![0x55u8; 64]);
}

#[test]
fn response_phase_faults_on_bad_destination() {
    let result = success_fetch_result(200, vec![], b"".to_vec());
    let mut mem = vec![0u8; 8];
    assert!(matches!(
        fetch_response_phase(&mut mem, 4, 1000, &result),
        Err(BridgeFault::OutOfBounds)
    ));
    assert_eq!(mem, vec![0u8; 8]);
}

#[test]
fn transport_error_is_reported_to_guest() {
    // An unreachable host becomes a status-0 result with an error
    // descriptor; the guest, not the host, observes the failure.
    let res = transport_error_result(
        &b"HTTP request execution failed: connection refused".to_vec(),
    );
    assert_eq!(res.status, 0);
    assert!(res.headers.is_empty());
    assert!(res.body.is_empty());
    let e = res.error.unwrap();
    assert_eq!(e.code, b"FETCH_FAILED".to_vec());
    assert_eq!(
        e.message,
        b"HTTP request execution failed: connection refused".to_vec()
    );
}

#[test]
fn invalid_request_result_shape() {
    let res = invalid_request_result(&b"fetch: invalid method or header".to_vec());
    assert_eq!(res.status, 0);
    assert_eq!(res.error.unwrap().code, b"INVALID_REQUEST".to_vec());
}
