//! Guest execution host: the verified boundary layer of a service that runs
//! untrusted, remotely fetched guest code (a scripted program or a compiled
//! sandbox module) and returns a uniform result envelope.
//!
//! The library holds the logic that crosses the host/guest boundary:
//! bounds-checked access to guest linear memory, the output capture sink,
//! the capability bridge (log, clock, fetch) with its wire protocol, the
//! classification and session state machine, and the error taxonomy.
//! Engine instantiation and network I/O live outside the library and hand
//! plain values in and out.

pub mod bridge;
pub mod classify;
pub mod clock;
pub mod decode;
pub mod errors;
pub mod jsvalue;
pub mod mem;
pub mod orchestrator;
pub mod roundtrip;
pub mod session;
pub mod sink;
pub mod text;
pub mod wire;
