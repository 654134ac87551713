use hoya::clock::clock_unix_seconds;
use hoya::clock::iso_timestamp;
use hoya::errors::AppError;
use hoya::errors::ExecutionMetadata;
use hoya::errors::error_response;
use hoya::errors::success_response;
use hoya::jsvalue::GuestValue;
use hoya::jsvalue::stringify_value;
use hoya::orchestrator::wasm_outcome_output;

fn metadata(execution_time: u64, timestamp: &str, resource_size: usize) -> ExecutionMetadata {
    ExecutionMetadata {
        execution_time,
        code_type: "javascript".to_string(),
        timestamp: timestamp.to_string(),
        resource_size,
    }
}

#[test]
fn success_envelope_shape() {
    let r = success_response(
        "2".to_string(),
        "".to_string(),
        "".to_string(),
        metadata(5, "t", 3),
    );
    assert_eq!(r.status, "success");
    assert_eq!(r.output.unwrap(), "2");
    assert_eq!(r.stdout.unwrap(), "");
    assert_eq!(r.stderr.unwrap(), "");
    assert!(r.error.is_none());
    assert_eq!(r.metadata.execution_time, 5);
    assert_eq!(r.metadata.resource_size, 3);
}

#[test]
fn repeated_execution_yields_identical_output_and_size() {
    // The same payload and guest outcome give byte-identical output and
    // resource_size even when timing and timestamp differ between runs.
    let r1 = success_response(
        "2".to_string(),
        "".to_string(),
        "".to_string(),
        metadata(5, "2024-01-01T00:00:00+00:00", 3),
    );
    let r2 = success_response(
        "2".to_string(),
        "".to_string(),
        "".to_string(),
        metadata(999, "2024-01-02T09:09:09+00:00", 3),
    );
    assert_eq!(r1.output.unwrap(), r2.output.unwrap());
    assert_eq!(r1.metadata.resource_size, r2.metadata.resource_size);
    assert_ne!(r1.metadata.execution_time, r2.metadata.execution_time);
}

#[test]
fn script_engine_error_envelope() {
    let (status, resp) = error_response(&AppError::QuickJs("boom".to_string()), "ts".to_string());
    assert_eq!(status, 500);
    assert_eq!(resp.status, "error");
    assert!(resp.output.is_none());
    let info = resp.error.unwrap();
    assert_eq!(info.code, "JAVASCRIPT_EXECUTION_ERROR");
    assert_eq!(info.message, "JavaScript Execution Error: boom");
    let details = info.details.unwrap();
    assert_eq!(details, vec![("errorType".to_string(), "QuickJS".to_string())]);
    assert_eq!(resp.metadata.code_type, "unknown");
    assert_eq!(resp.metadata.execution_time, 0);
    assert_eq!(resp.metadata.resource_size, 0);
    assert_eq!(resp.metadata.timestamp, "ts");
}

#[test]
fn module_engine_error_envelope() {
    let (status, resp) = error_response(&AppError::Wasmtime("trap".to_string()), "t".to_string());
    assert_eq!(status, 500);
    let info = resp.error.unwrap();
    assert_eq!(info.code, "WEBASSEMBLY_EXECUTION_ERROR");
    assert_eq!(info.message, "WebAssembly Execution Error: trap");
    assert_eq!(
        info.details.unwrap(),
        vec![("errorType".to_string(), "Wasmtime".to_string())]
    );
}

#[test]
fn download_error_envelope() {
    let e = AppError::Reqwest {
        message: "connect refused".to_string(),
        url: Some("http://e/x.js".to_string()),
        status: Some(404),
    };
    let (status, resp) = error_response(&e, "t".to_string());
    assert_eq!(status, 502);
    let info = resp.error.unwrap();
    assert_eq!(info.code, "FETCH_ERROR");
    assert_eq!(info.message, "Failed to fetch resource: connect refused");
    let details = info.details.unwrap();
    assert_eq!(
        details,
        vec![
            ("url".to_string(), "http://e/x.js".to_string()),
            ("status".to_string(), "404".to_string()),
        ]
    );
}

#[test]
fn internal_error_envelope() {
    let (status, resp) = error_response(&AppError::Internal("oops".to_string()), "t".to_string());
    assert_eq!(status, 500);
    let info = resp.error.unwrap();
    assert_eq!(info.code, "INTERNAL_ERROR");
    assert_eq!(info.message, "oops");
    assert!(info.details.is_none());
}

#[test]
fn download_status_error_envelope() {
    // A non-success upstream status renders as a download failure with the
    // URL and that status in the details.
    let e = hoya::errors::download_status_error("http://e/x.js".to_string(), 404);
    let (status, resp) = error_response(&e, "t".to_string());
    assert_eq!(status, 502);
    let info = resp.error.unwrap();
    assert_eq!(info.code, "FETCH_ERROR");
    assert_eq!(info.message, "Failed to fetch resource: HTTP status 404");
    assert_eq!(
        info.details.unwrap(),
        vec![
            ("url".to_string(), "http://e/x.js".to_string()),
            ("status".to_string(), "404".to_string()),
        ]
    );
}

#[test]
fn script_payload_text_gates_utf8() {
    let ok = hoya::errors::script_payload_text(&b"1+1".to_vec()).unwrap();
    assert_eq!(ok, "1+1");
    match hoya::errors::script_payload_text(&vec![0xff, 0xfe]) {
        Err(AppError::Internal(m)) => {
            assert_eq!(
                m,
                "Failed to convert downloaded code to string: payload is not valid UTF-8"
            );
        }
        _ => panic!("expected an internal error"),
    }
}

#[test]
fn wasm_outcome_strings() {
    assert_eq!(wasm_outcome_output(true), "WASM module executed (_start)");
    assert_eq!(
        wasm_outcome_output(false),
        "WASM module instantiated (no _start called or found)"
    );
}

#[test]
fn stringify_primitives() {
    assert_eq!(stringify_value(&GuestValue::Int(2)), "2");
    assert_eq!(stringify_value(&GuestValue::Int(0)), "0");
    assert_eq!(stringify_value(&GuestValue::Int(-12)), "-12");
    assert_eq!(stringify_value(&GuestValue::Int(i32::MIN)), "-2147483648");
    assert_eq!(stringify_value(&GuestValue::Int(i32::MAX)), "2147483647");
    assert_eq!(stringify_value(&GuestValue::Bool(true)), "true");
    assert_eq!(stringify_value(&GuestValue::Bool(false)), "false");
    assert_eq!(stringify_value(&GuestValue::Null), "null");
    assert_eq!(stringify_value(&GuestValue::Undefined), "undefined");
    assert_eq!(stringify_value(&GuestValue::Str("pass".to_string())), "pass");
    assert_eq!(stringify_value(&GuestValue::Float("1.5".to_string())), "1.5");
    assert_eq!(
        stringify_value(&GuestValue::Other("Object".to_string())),
        "Execution resulted in a non-primitive type: Object"
    );
}

#[test]
fn iso_timestamp_matches_chrono() {
    assert_eq!(
        iso_timestamp(0, 0).unwrap(),
        "1970-01-01T00:00:00+00:00"
    );
    let expected = chrono::DateTime::<chrono::Utc>::from_timestamp(1_700_000_000, 0)
        .unwrap()
        .to_rfc3339();
    assert_eq!(iso_timestamp(1_700_000_000, 0).unwrap(), expected);
    assert!(iso_timestamp(u64::MAX, 0).is_none());
}

#[test]
fn clock_reads_a_plausible_time() {
    let now = clock_unix_seconds().unwrap();
    let reference = chrono::Utc::now().timestamp() as u64;
    assert!(now >= 1_600_000_000);
    assert!(now <= reference + 3600);
}
