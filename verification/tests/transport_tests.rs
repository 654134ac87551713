use hoya::bridge::fetch_response_phase;
use hoya::bridge::transport_error_result;
use hoya::decode::decode_fetch_result;

#[test]
fn unreachable_host_yields_status_zero_result_for_the_guest() {
    // A real transport failure, folded into the structured result and read
    // back through the wire protocol: the guest observes status 0 and the
    // descriptor, the host call itself succeeds.
    let rt = tokio::runtime::Runtime::new().unwrap();
    let outcome = rt.block_on(async { reqwest::get("http://127.0.0.1:9/").await });
    let err = outcome.err().expect("the connection must fail");
    let msg = format!("HTTP request execution failed: {}", err);
    let result = transport_error_result(&msg.into_bytes());
    assert_eq!(result.status, 0);

    let mut guest_buffer = vec![0u8; 4096];
    let written = fetch_response_phase(&mut guest_buffer, 0, 4096, &result).unwrap();
    assert!(written > 0);
    let observed = decode_fetch_result(&guest_buffer[..written as usize].to_vec()).unwrap();
    assert_eq!(observed.status, 0);
    assert!(observed.headers.is_empty());
    assert!(observed.body.is_empty());
    let e = observed.error.unwrap();
    assert_eq!(e.code, b"FETCH_FAILED".to_vec());
    assert!(e.message.starts_with(b"HTTP request execution failed:"));
}
