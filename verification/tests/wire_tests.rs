use hoya::wire::FetchError;
use hoya::wire::FetchResult;
use hoya::wire::encode_fetch_result;
use hoya::decode::decode_fetch_result;
use hoya::decode::parse_fetch_request;

fn sample_result() -> FetchResult {
    FetchResult {
        status: 200,
        headers: vec![(b"content-type".to_vec(), b"text/plain".to_vec())],
        body: b"hello".to_vec(),
        error: None,
    }
}

#[test]
fn encode_result_exact_bytes() {
    let enc = encode_fetch_result(&sample_result());
    assert_eq!(
        String::from_utf8(enc).unwrap(),
        "{\"status\":200,\"headers\":{\"content-type\":\"text/plain\"},\"body\":\"hello\",\"error\":null}"
    );
}

#[test]
fn encode_error_result_exact_bytes() {
    let r = FetchResult {
        status: 0,
        headers: vec![],
        body: Vec::new(),
        error: Some(FetchError { code: b"FETCH_FAILED".to_vec(), message: b"no route".to_vec() }),
    };
    let enc = encode_fetch_result(&r);
    assert_eq!(
        String::from_utf8(enc).unwrap(),
        "{\"status\":0,\"headers\":{},\"body\":\"\",\"error\":{\"code\":\"FETCH_FAILED\",\"message\":\"no route\"}}"
    );
}

#[test]
fn encode_escapes_specials() {
    let r = FetchResult {
        status: 1,
        headers: vec![],
        body: b"a\"b\\c\nd\te\rf\x08g\x0ch\x01i".to_vec(),
        error: None,
    };
    let enc = encode_fetch_result(&r);
    assert_eq!(
        String::from_utf8(enc).unwrap(),
        "{\"status\":1,\"headers\":{},\"body\":\"a\\\"b\\\\c\\nd\\te\\rf\\bg\\fh\\u0001i\",\"error\":null}"
    );
}

#[test]
fn serde_json_reads_encoded_result() {
    // Cross-check the verified encoder against an independent JSON parser.
    let enc = encode_fetch_result(&sample_result());
    let v: serde_json::Value = serde_json::from_slice(&enc).unwrap();
    assert_eq!(v["status"], serde_json::Value::from(200));
    assert_eq!(v["headers"]["content-type"], serde_json::Value::from("text/plain"));
    assert_eq!(v["body"], serde_json::Value::from("hello"));
    assert!(v["error"].is_null());
}

#[test]
fn decode_round_trips_sample() {
    let original = sample_result();
    let enc = encode_fetch_result(&original);
    let back = decode_fetch_result(&enc).unwrap();
    assert_eq!(back.status, original.status);
    assert_eq!(back.headers, original.headers);
    assert_eq!(back.body, original.body);
    assert!(back.error.is_none());
}

#[test]
fn decode_round_trips_error_and_specials() {
    let original = FetchResult {
        status: 65535,
        headers: vec![
            (b"a".to_vec(), b"1".to_vec()),
            (b"a".to_vec(), b"2".to_vec()),
            (b"x-odd".to_vec(), b"q\"\\\n\t\r\x02".to_vec()),
        ],
        body: b"\x00\x1f".to_vec(),
        error: Some(FetchError { code: b"E".to_vec(), message: b"m\"sg".to_vec() }),
    };
    let enc = encode_fetch_result(&original);
    let back = decode_fetch_result(&enc).unwrap();
    assert_eq!(back.status, original.status);
    assert_eq!(back.headers, original.headers);
    assert_eq!(back.body, original.body);
    let e = back.error.unwrap();
    assert_eq!(e.code, b"E".to_vec());
    assert_eq!(e.message, b"m\"sg".to_vec());
}

#[test]
fn decode_rejects_trailing_garbage() {
    let mut enc = encode_fetch_result(&sample_result());
    enc.push(b' ');
    assert!(decode_fetch_result(&enc).is_none());
}

#[test]
fn decode_rejects_bad_status() {
    let bytes = b"{\"status\":999999,\"headers\":{},\"body\":\"\",\"error\":null}".to_vec();
    assert!(decode_fetch_result(&bytes).is_none());
}

#[test]
fn parse_request_full() {
    let bytes =
        b"{\"url\":\"http://example.com/x\",\"method\":\"POST\",\"headers\":{\"a\":\"b\",\"c\":\"d\"},\"body\":\"payload\"}"
            .to_vec();
    let req = parse_fetch_request(&bytes).unwrap();
    assert_eq!(req.url, b"http://example.com/x".to_vec());
    assert_eq!(req.method, b"POST".to_vec());
    assert_eq!(
        req.headers,
        vec![(b"a".to_vec(), b"b".to_vec()), (b"c".to_vec(), b"d".to_vec())]
    );
    assert_eq!(req.body, Some(b"payload".to_vec()));
}

#[test]
fn parse_request_without_body() {
    let bytes = b"{\"url\":\"http://e/\",\"method\":\"GET\",\"headers\":{}}".to_vec();
    let req = parse_fetch_request(&bytes).unwrap();
    assert_eq!(req.body, None);
    assert!(req.headers.is_empty());
}

#[test]
fn parse_request_null_body() {
    let bytes = b"{\"url\":\"http://e/\",\"method\":\"GET\",\"headers\":{},\"body\":null}".to_vec();
    let req = parse_fetch_request(&bytes).unwrap();
    assert_eq!(req.body, None);
}

#[test]
fn parse_request_unicode_escape() {
    let bytes = b"{\"url\":\"\\u0041\\u002fz\",\"method\":\"GET\",\"headers\":{}}".to_vec();
    let req = parse_fetch_request(&bytes).unwrap();
    assert_eq!(req.url, b"A/z".to_vec());
}

#[test]
fn parse_request_accepts_raw_utf8_text() {
    // Non-ASCII text travels as raw UTF-8 bytes, not escapes.
    let bytes = "{\"url\":\"http://e/\u{fc}\",\"method\":\"GET\",\"headers\":{}}"
        .as_bytes()
        .to_vec();
    let req = parse_fetch_request(&bytes).unwrap();
    assert_eq!(req.url, "http://e/\u{fc}".as_bytes().to_vec());
}

#[test]
fn decode_rejects_status_just_over_range() {
    let bytes = b"{\"status\":65536,\"headers\":{},\"body\":\"\",\"error\":null}".to_vec();
    assert!(decode_fetch_result(&bytes).is_none());
    let ok = b"{\"status\":65535,\"headers\":{},\"body\":\"\",\"error\":null}".to_vec();
    assert_eq!(decode_fetch_result(&ok).unwrap().status, 65535);
}

#[test]
fn parse_request_rejects_malformed() {
    assert!(parse_fetch_request(&b"not json".to_vec()).is_none());
    assert!(parse_fetch_request(&b"{}".to_vec()).is_none());
    assert!(parse_fetch_request(
        &b"{\"method\":\"GET\",\"url\":\"x\",\"headers\":{}}".to_vec()
    )
    .is_none());
    assert!(parse_fetch_request(
        &b"{\"url\":\"x\",\"method\":\"GET\",\"headers\":{}".to_vec()
    )
    .is_none());
    assert!(parse_fetch_request(
        &b"{\"url\":\"x\",\"method\":\"GET\",\"headers\":{\"a\":1}}".to_vec()
    )
    .is_none());
}
