use std::sync::Arc;
use std::sync::Mutex;

use hoya::errors::ExecutionMetadata;
use hoya::jsvalue::GuestValue;
use hoya::jsvalue::stringify_value;
use hoya::orchestrator::wasm_outcome_output;
use hoya::session::FaultClass;
use hoya::session::Phase;
use hoya::session::SessionEvent;
use hoya::session::step;
use hoya::sink::OutputBuffers;
use hoya::sink::StreamKind;

fn eval_to_string(source: &str) -> (String, String, String) {
    let runtime = rquickjs::Runtime::new().unwrap();
    let context = rquickjs::Context::full(&runtime).unwrap();
    let sink = Arc::new(Mutex::new(OutputBuffers::new()));
    let eval_sink = sink.clone();
    let output = context.with(|ctx| {
        let globals = ctx.globals();
        globals
            .set(
                "app_log",
                rquickjs::Function::new(ctx.clone(), move |level: String, message: String| {
                    let mut bufs = eval_sink.lock().unwrap();
                    hoya::bridge::app_log_text(
                        &mut bufs,
                        &level.into_bytes(),
                        &message.into_bytes(),
                    );
                }),
            )
            .unwrap();
        let value: rquickjs::Value = ctx.eval(source).unwrap();
        let guest_value = match value.type_of() {
            rquickjs::Type::String => {
                GuestValue::Str(value.as_string().unwrap().to_string().unwrap())
            }
            rquickjs::Type::Int => GuestValue::Int(value.as_int().unwrap()),
            rquickjs::Type::Bool => GuestValue::Bool(value.as_bool().unwrap()),
            rquickjs::Type::Float => GuestValue::Float(value.as_float().unwrap().to_string()),
            rquickjs::Type::Null => GuestValue::Null,
            rquickjs::Type::Undefined => GuestValue::Undefined,
            other => GuestValue::Other(format!("{:?}", other)),
        };
        stringify_value(&guest_value)
    });
    let bufs = sink.lock().unwrap();
    let stdout = bufs.snapshot_string(StreamKind::Stdout).unwrap();
    let stderr = bufs.snapshot_string(StreamKind::Stderr).unwrap();
    (output, stdout, stderr)
}

#[test]
fn scripted_arithmetic_payload() {
    // A bare expression evaluates to its stringified primitive value with
    // nothing captured.
    let (output, stdout, stderr) = eval_to_string("1+1");
    assert_eq!(output, "2");
    assert_eq!(stdout, "");
    assert_eq!(stderr, "");
}

#[test]
fn scripted_log_capture() {
    // The log capability writes the formatted line to the captured stdout
    // stream.
    let (output, stdout, stderr) = eval_to_string("app_log('INFO','hello')");
    assert_eq!(output, "undefined");
    assert_eq!(stdout, "[INFO]: hello\n");
    assert_eq!(stderr, "");
}

// A minimal compiled module: one linear memory, exported as "memory", no
// entry point.
fn module_with_memory_export() -> Vec<u8> {
    let mut m = vec![0x00, 0x61, 0x73, 0x6d, 0x01, 0x00, 0x00, 0x00];
    // memory section: one memory with min 1 page
    m.extend_from_slice(&[0x05, 0x03, 0x01, 0x00, 0x01]);
    // export section: "memory" as memory index 0
    m.extend_from_slice(&[0x07, 0x0a, 0x01, 0x06]);
    m.extend_from_slice(b"memory");
    m.extend_from_slice(&[0x02, 0x00]);
    m
}

// The same module without the export section.
fn module_without_memory_export() -> Vec<u8> {
    let mut m = vec![0x00, 0x61, 0x73, 0x6d, 0x01, 0x00, 0x00, 0x00];
    m.extend_from_slice(&[0x05, 0x03, 0x01, 0x00, 0x01]);
    m
}

// An engine configured for a small address-space budget.
fn test_engine() -> wasmtime::Engine {
    let mut config = wasmtime::Config::new();
    config.memory_reservation(1 << 20);
    config.memory_guard_size(1 << 16);
    wasmtime::Engine::new(&config).unwrap()
}

#[test]
fn module_without_memory_export_faults_before_running() {
    let engine = test_engine();
    let module = wasmtime::Module::from_binary(&engine, &module_without_memory_export()).unwrap();
    let mut store = wasmtime::Store::new(&engine, ());
    let linker = wasmtime::Linker::new(&engine);
    let instance = linker.instantiate(&mut store, &module).unwrap();
    assert!(instance.get_export(&mut store, "memory").is_none());
    // The session machine turns the missing export into an internal fault
    // straight from instantiation; no entry point can have run.
    let phase = step(Phase::Instantiating, SessionEvent::MemoryExportMissing);
    assert!(phase == Phase::Faulted(FaultClass::Internal));
    assert!(step(phase, SessionEvent::RunOk) != Phase::Running);
}

#[test]
fn module_without_entry_point_still_reports_success() {
    let engine = test_engine();
    let module = wasmtime::Module::from_binary(&engine, &module_with_memory_export()).unwrap();
    let mut store = wasmtime::Store::new(&engine, ());
    let linker = wasmtime::Linker::new(&engine);
    let instance = linker.instantiate(&mut store, &module).unwrap();
    assert!(matches!(
        instance.get_export(&mut store, "memory"),
        Some(wasmtime::Extern::Memory(_))
    ));
    let entry = instance.get_typed_func::<(), ()>(&mut store, "_start");
    assert!(entry.is_err());
    // Instantiation alone is a valid, reportable outcome.
    let response = hoya::errors::success_response(
        wasm_outcome_output(false),
        String::new(),
        String::new(),
        ExecutionMetadata {
            execution_time: 1,
            code_type: "webassembly".to_string(),
            timestamp: "t".to_string(),
            resource_size: module_with_memory_export().len(),
        },
    );
    assert_eq!(response.status, "success");
    assert_eq!(
        response.output.unwrap(),
        "WASM module instantiated (no _start called or found)"
    );
}
