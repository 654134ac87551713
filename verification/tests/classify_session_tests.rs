use hoya::classify::CodeType;
use hoya::classify::classify_code;
use hoya::classify::code_type_name;
use hoya::errors::AppError;
use hoya::session::FaultClass;
use hoya::session::Phase;
use hoya::session::SessionEvent;
use hoya::session::step;

#[test]
fn classify_recognizes_both_suffixes() {
    assert!(matches!(
        classify_code(&b"http://e/app.js".to_vec()),
        Ok(CodeType::JavaScript)
    ));
    assert!(matches!(
        classify_code(&b"http://e/mod.wasm".to_vec()),
        Ok(CodeType::WebAssembly)
    ));
}

#[test]
fn classify_rejects_unknown_suffix_before_any_download() {
    // An unrecognized suffix is an immediate internal error.
    match classify_code(&b"http://e/notes.txt".to_vec()) {
        Err(AppError::Internal(m)) => {
            assert_eq!(m, "Unsupported file extension. Only .js and .wasm are supported.");
        }
        _ => panic!("expected an internal error"),
    }
    assert!(classify_code(&b"http://e/APP.JS".to_vec()).is_err());
    assert!(classify_code(&b"js".to_vec()).is_err());
    assert!(classify_code(&b"".to_vec()).is_err());
}

#[test]
fn classify_uses_only_the_suffix() {
    assert!(matches!(
        classify_code(&b"x.wasm.js".to_vec()),
        Ok(CodeType::JavaScript)
    ));
    assert!(matches!(
        classify_code(&b"x.js.wasm".to_vec()),
        Ok(CodeType::WebAssembly)
    ));
}

#[test]
fn code_type_names() {
    assert_eq!(code_type_name(&CodeType::JavaScript), "javascript");
    assert_eq!(code_type_name(&CodeType::WebAssembly), "webassembly");
}

#[test]
fn session_happy_path() {
    let p = step(Phase::Received, SessionEvent::KindRecognized);
    assert!(p == Phase::Classified);
    let p = step(p, SessionEvent::DownloadOk);
    assert!(p == Phase::Downloaded);
    let p = step(p, SessionEvent::InstantiateStarted);
    assert!(p == Phase::Instantiating);
    let p = step(p, SessionEvent::InstantiateOk);
    assert!(p == Phase::Running);
    let p = step(p, SessionEvent::RunOk);
    assert!(p == Phase::Completed);
}

#[test]
fn missing_memory_export_faults_before_any_entry_point_runs() {
    // A module without the required memory export faults straight from
    // instantiation with the internal class; Running is never reached.
    let p = step(Phase::Instantiating, SessionEvent::MemoryExportMissing);
    assert!(p == Phase::Faulted(FaultClass::Internal));
    let after = step(p, SessionEvent::InstantiateOk);
    assert!(after != Phase::Running);
    let after = step(p, SessionEvent::RunOk);
    assert!(after != Phase::Running);
}

#[test]
fn unknown_kind_faults_without_download() {
    let p = step(Phase::Received, SessionEvent::KindUnknown);
    assert!(p == Phase::Faulted(FaultClass::Internal));
    let after = step(p, SessionEvent::DownloadOk);
    assert!(after != Phase::Downloaded);
}

#[test]
fn fault_classes_follow_the_failing_stage() {
    assert!(
        step(Phase::Classified, SessionEvent::DownloadFailed) == Phase::Faulted(FaultClass::Fetch)
    );
    assert!(
        step(Phase::Instantiating, SessionEvent::ScriptSetupFailed)
            == Phase::Faulted(FaultClass::Script)
    );
    assert!(
        step(Phase::Instantiating, SessionEvent::ModuleSetupFailed)
            == Phase::Faulted(FaultClass::Module)
    );
    assert!(step(Phase::Running, SessionEvent::ScriptFault) == Phase::Faulted(FaultClass::Script));
    assert!(step(Phase::Running, SessionEvent::ModuleFault) == Phase::Faulted(FaultClass::Module));
}

#[test]
fn running_is_reachable_only_by_successful_instantiation() {
    // Spot-check the inversion: no other phase/event pair yields Running.
    assert!(step(Phase::Instantiating, SessionEvent::InstantiateOk) == Phase::Running);
    assert!(step(Phase::Received, SessionEvent::InstantiateOk) != Phase::Running);
    assert!(step(Phase::Classified, SessionEvent::InstantiateOk) != Phase::Running);
    assert!(step(Phase::Downloaded, SessionEvent::InstantiateOk) != Phase::Running);
    assert!(step(Phase::Completed, SessionEvent::InstantiateOk) != Phase::Running);
    assert!(step(Phase::Instantiating, SessionEvent::RunOk) != Phase::Running);
    assert!(step(Phase::Instantiating, SessionEvent::KindRecognized) != Phase::Running);
}
