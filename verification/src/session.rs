//! The execution session state machine shared by both sandbox adapters:
//! `Received -> Classified -> Downloaded -> Instantiating -> Running ->
//! {Completed | Faulted}`.
//!
//! The orchestrator drives a session through these phases and reports every
//! fault; the transition function below is the single place that says which
//! step is legal from which phase, and with which fault class a step fails.

use vstd::prelude::*;

verus! {

/// The class of error a faulted session reports, mirroring the error
/// taxonomy: script-engine, module-engine, payload-download, or host-internal.
#[derive(PartialEq, Eq, Structural, Clone, Copy)]
pub enum FaultClass {
    Script,
    Module,
    Fetch,
    Internal,
}

/// The phase of one execution session.
#[derive(PartialEq, Eq, Structural, Clone, Copy)]
pub enum Phase {
    /// The request arrived; nothing is known about the payload yet.
    Received,
    /// The URL suffix was recognized as one of the two guest kinds.
    Classified,
    /// The payload bytes were downloaded.
    Downloaded,
    /// The guest engine is being set up and the payload linked/compiled.
    Instantiating,
    /// The guest entry point (or top-level script) is executing.
    Running,
    /// The session finished and an envelope can be assembled.
    Completed,
    /// The session failed; the class says which error variant it reports.
    Faulted(FaultClass),
}

/// One observable step of a session.
#[derive(PartialEq, Eq, Structural, Clone, Copy)]
pub enum SessionEvent {
    /// The URL suffix named a supported guest kind.
    KindRecognized,
    /// The URL suffix named no supported guest kind.
    KindUnknown,
    /// The payload downloaded successfully.
    DownloadOk,
    /// The payload could not be downloaded.
    DownloadFailed,
    /// Engine setup for the payload began.
    InstantiateStarted,
    /// The guest was linked and instantiated, with every required export.
    InstantiateOk,
    /// The scripting engine failed to set up or parse the payload.
    ScriptSetupFailed,
    /// The module engine failed to validate, link or instantiate.
    ModuleSetupFailed,
    /// The compiled module lacks the required linear-memory export.
    MemoryExportMissing,
    /// The entry point returned (or was legitimately absent).
    RunOk,
    /// The scripted guest threw or the compiled guest trapped.
    ScriptFault,
    /// The compiled guest trapped.
    ModuleFault,
}

/// The transition function of the session state machine. Any event that is
/// not legal in the given phase is a broken host invariant and faults the
/// session internally.
pub open spec fn spec_step(p: Phase, e: SessionEvent) -> Phase {
    match (p, e) {
        (Phase::Received, SessionEvent::KindRecognized) => Phase::Classified,
        (Phase::Received, SessionEvent::KindUnknown) => Phase::Faulted(FaultClass::Internal),
        (Phase::Classified, SessionEvent::DownloadOk) => Phase::Downloaded,
        (Phase::Classified, SessionEvent::DownloadFailed) => Phase::Faulted(FaultClass::Fetch),
        (Phase::Downloaded, SessionEvent::InstantiateStarted) => Phase::Instantiating,
        (Phase::Instantiating, SessionEvent::InstantiateOk) => Phase::Running,
        (Phase::Instantiating, SessionEvent::ScriptSetupFailed) => Phase::Faulted(
            FaultClass::Script,
        ),
        (Phase::Instantiating, SessionEvent::ModuleSetupFailed) => Phase::Faulted(
            FaultClass::Module,
        ),
        (Phase::Instantiating, SessionEvent::MemoryExportMissing) => Phase::Faulted(
            FaultClass::Internal,
        ),
        (Phase::Running, SessionEvent::RunOk) => Phase::Completed,
        (Phase::Running, SessionEvent::ScriptFault) => Phase::Faulted(FaultClass::Script),
        (Phase::Running, SessionEvent::ModuleFault) => Phase::Faulted(FaultClass::Module),
        _ => Phase::Faulted(FaultClass::Internal),
    }
}

/// Executable transition function; the orchestrator threads a phase through
/// its stages with this.
pub fn step(p: Phase, e: SessionEvent) -> (r: Phase)
    ensures
        r == spec_step(p, e),
{
    match (p, e) {
        (Phase::Received, SessionEvent::KindRecognized) => Phase::Classified,
        (Phase::Classified, SessionEvent::DownloadOk) => Phase::Downloaded,
        (Phase::Classified, SessionEvent::DownloadFailed) => Phase::Faulted(FaultClass::Fetch),
        (Phase::Downloaded, SessionEvent::InstantiateStarted) => Phase::Instantiating,
        (Phase::Instantiating, SessionEvent::InstantiateOk) => Phase::Running,
        (Phase::Instantiating, SessionEvent::ScriptSetupFailed) => Phase::Faulted(
            FaultClass::Script,
        ),
        (Phase::Instantiating, SessionEvent::ModuleSetupFailed) => Phase::Faulted(
            FaultClass::Module,
        ),
        (Phase::Running, SessionEvent::RunOk) => Phase::Completed,
        (Phase::Running, SessionEvent::ScriptFault) => Phase::Faulted(FaultClass::Script),
        (Phase::Running, SessionEvent::ModuleFault) => Phase::Faulted(FaultClass::Module),
        _ => Phase::Faulted(FaultClass::Internal),
    }
}

/// A compiled module without the required linear-memory export faults the
/// session with the internal error class straight from `Instantiating`:
/// execution never reaches `Running`, so no entry point can have run.
pub proof fn lemma_missing_memory_faults_before_run()
    ensures
        spec_step(Phase::Instantiating, SessionEvent::MemoryExportMissing) == Phase::Faulted(
            FaultClass::Internal,
        ),
        forall|e: SessionEvent|
            spec_step(Phase::Faulted(FaultClass::Internal), e) != Phase::Running,
{
}

/// `Running` is reachable only by a successful instantiation: every guest
/// that runs was linked with all required exports first.
pub proof fn lemma_running_only_after_instantiate(p: Phase, e: SessionEvent)
    ensures
        spec_step(p, e) == Phase::Running ==> p == Phase::Instantiating && e
            == SessionEvent::InstantiateOk,
{
}

/// `Downloaded` is reachable only from a recognized classification: an
/// unsupported suffix faults the session while still `Received`, before any
/// download step is legal.
pub proof fn lemma_no_download_without_classification(p: Phase, e: SessionEvent)
    ensures
        spec_step(p, e) == Phase::Downloaded ==> p == Phase::Classified && e
            == SessionEvent::DownloadOk,
        spec_step(Phase::Received, SessionEvent::KindUnknown) == Phase::Faulted(
            FaultClass::Internal,
        ),
{
}

} // verus!
