//! Error taxonomy and result envelope.
//!
//! Every failure of an execution session is converted into one [`AppError`]
//! variant before it leaves the orchestrator, and each variant renders to a
//! fixed machine-readable code, a human message, and an HTTP status class.
//! Successful executions render to the same envelope shape with a `success`
//! status.

use vstd::prelude::*;
use vstd::utf8::valid_utf8;
use vstd::utf8::decode_utf8;
use crate::text;

verus! {

/// Error information returned to clients: a machine-readable code, a human
/// message, and optional further detail entries.
pub struct ErrorInfo {
    /// Error code identifier.
    pub code: String,
    /// Human-readable error message.
    pub message: String,
    /// Optional additional details about the error.
    pub details: Option<Vec<(String, String)>>,
}

/// Metadata about one code execution.
pub struct ExecutionMetadata {
    /// Execution time in milliseconds.
    pub execution_time: u64,
    /// Type of code executed ("javascript" or "webassembly").
    pub code_type: String,
    /// ISO timestamp of execution.
    pub timestamp: String,
    /// Size of the executed code in bytes.
    pub resource_size: usize,
}

/// Response for the execute endpoint.
pub struct ExecuteResponse {
    /// Status of execution ("success" or "error").
    pub status: String,
    /// Output from code execution (if successful).
    pub output: Option<String>,
    /// Captured stdout-equivalent stream (if execution ran).
    pub stdout: Option<String>,
    /// Captured stderr-equivalent stream (if execution ran).
    pub stderr: Option<String>,
    /// Error information (if execution failed).
    pub error: Option<ErrorInfo>,
    /// Metadata about the execution.
    pub metadata: ExecutionMetadata,
}

/// Application error types: every failure mode of a session maps to exactly
/// one of these before it crosses the external interface.
#[derive(Debug)]
pub enum AppError {
    /// Failure inside the scripting-language engine, rendered to text.
    QuickJs(String),
    /// Failure inside the compiled-module engine, rendered to text.
    Wasmtime(String),
    /// Failure downloading the guest payload: the rendered error, and the
    /// offending URL and upstream status where known.
    Reqwest { message: String, url: Option<String>, status: Option<u16> },
    /// Any other host-side failure.
    Internal(String),
}

/// The machine-readable code for an error.
pub open spec fn spec_error_code(e: AppError) -> Seq<char> {
    match e {
        AppError::QuickJs(_) => "JAVASCRIPT_EXECUTION_ERROR"@,
        AppError::Wasmtime(_) => "WEBASSEMBLY_EXECUTION_ERROR"@,
        AppError::Reqwest { .. } => "FETCH_ERROR"@,
        AppError::Internal(_) => "INTERNAL_ERROR"@,
    }
}

/// The human-readable message for an error.
pub open spec fn spec_error_message(e: AppError) -> Seq<char> {
    match e {
        AppError::QuickJs(m) => "JavaScript Execution Error: "@ + m@,
        AppError::Wasmtime(m) => "WebAssembly Execution Error: "@ + m@,
        AppError::Reqwest { message, .. } => "Failed to fetch resource: "@ + message@,
        AppError::Internal(m) => m@,
    }
}

/// The detail entries an error renders to: the engine type for engine
/// errors; the offending URL and the upstream status (as decimal text),
/// where known, for download failures; nothing for internal errors.
pub open spec fn spec_error_details(e: AppError, d: Option<Vec<(String, String)>>) -> bool {
    match e {
        AppError::QuickJs(_) => d matches Some(v) && v@.len() == 1 && v@[0].0@ == "errorType"@
            && v@[0].1@ == "QuickJS"@,
        AppError::Wasmtime(_) => d matches Some(v) && v@.len() == 1 && v@[0].0@
            == "errorType"@ && v@[0].1@ == "Wasmtime"@,
        AppError::Reqwest { url, status, .. } => d matches Some(v) && {
            let ulen: int = if url is Some { 1 } else { 0 };
            &&& v@.len() == ulen + if status is Some { 1int } else { 0 }
            &&& (url matches Some(u) ==> v@[0].0@ == "url"@ && v@[0].1@ == u@)
            &&& (status matches Some(st) ==> v@[ulen].0@ == "status"@ && v@[ulen].1@
                == text::ascii_chars(text::dec_digits(st as nat)))
        },
        AppError::Internal(_) => d is None,
    }
}

/// The HTTP status an error maps to: bad-gateway for payload download
/// failures, internal-server-error for everything else.
pub open spec fn spec_http_status(e: AppError) -> u16 {
    match e {
        AppError::Reqwest { .. } => 502,
        _ => 500,
    }
}

impl AppError {
    /// The HTTP status class this error maps to.
    pub fn http_status(&self) -> (r: u16)
        ensures
            r == spec_http_status(*self),
    {
        match self {
            AppError::Reqwest { .. } => 502,
            _ => 500,
        }
    }

    /// Renders this error as client-facing error information, with the
    /// fixed code, the prefixed message, and the detail entries of the
    /// variant.
    pub fn error_info(&self) -> (r: ErrorInfo)
        ensures
            r.code@ == spec_error_code(*self),
            r.message@ == spec_error_message(*self),
            spec_error_details(*self, r.details),
    {
        match self {
            AppError::QuickJs(m) => {
                let mut details: Vec<(String, String)> = Vec::new();
                details.push(("errorType".to_owned(), "QuickJS".to_owned()));
                ErrorInfo {
                    code: "JAVASCRIPT_EXECUTION_ERROR".to_owned(),
                    message: text::str_concat("JavaScript Execution Error: ", m.as_str()),
                    details: Some(details),
                }
            },
            AppError::Wasmtime(m) => {
                let mut details: Vec<(String, String)> = Vec::new();
                details.push(("errorType".to_owned(), "Wasmtime".to_owned()));
                ErrorInfo {
                    code: "WEBASSEMBLY_EXECUTION_ERROR".to_owned(),
                    message: text::str_concat("WebAssembly Execution Error: ", m.as_str()),
                    details: Some(details),
                }
            },
            AppError::Reqwest { message, url, status } => {
                let mut details: Vec<(String, String)> = Vec::new();
                if let Some(u) = url {
                    details.push(("url".to_owned(), u.clone()));
                }
                if let Some(s) = status {
                    let digits = text::u64_dec(*s as u64);
                    proof {
                        text::lemma_dec_digits_ascii(*s as nat);
                        text::lemma_ascii_decode(digits@);
                    }
                    let rendered = match text::utf8_to_string(&digits) {
                        Some(t) => t,
                        None => {
                            proof {
                                assert(false);
                            }
                            String::new()
                        },
                    };
                    details.push(("status".to_owned(), rendered));
                }
                ErrorInfo {
                    code: "FETCH_ERROR".to_owned(),
                    message: text::str_concat("Failed to fetch resource: ", message.as_str()),
                    details: Some(details),
                }
            },
            AppError::Internal(m) => ErrorInfo {
                code: "INTERNAL_ERROR".to_owned(),
                message: m.clone(),
                details: None,
            },
        }
    }
}

impl From<String> for AppError {
    /// A bare message is an internal error.
    fn from(s: String) -> (r: Self)
        ensures
            r == AppError::Internal(s),
    {
        AppError::Internal(s)
    }
}

impl vstd::std_specs::convert::FromSpecImpl<String> for AppError {
    open spec fn obeys_from_spec() -> bool {
        true
    }

    open spec fn from_spec(s: String) -> Self {
        AppError::Internal(s)
    }
}

/// The error reported when the payload download came back with a
/// non-success upstream status: a download failure carrying the offending
/// URL and that status, which render into the envelope's details.
pub fn download_status_error(url: String, status: u16) -> (r: AppError)
    ensures
        r matches AppError::Reqwest { message, url: u, status: st } && {
            &&& message@ == "HTTP status "@ + text::ascii_chars(text::dec_digits(status as nat))
            &&& u matches Some(x) && x@ == url@
            &&& st == Some(status)
        },
{
    let digits = text::u64_dec(status as u64);
    proof {
        text::lemma_dec_digits_ascii(status as nat);
        text::lemma_ascii_decode(digits@);
    }
    let rendered = match text::utf8_to_string(&digits) {
        Some(t) => t,
        None => {
            proof {
                assert(false);
            }
            String::new()
        },
    };
    let message = text::str_concat("HTTP status ", rendered.as_str());
    AppError::Reqwest { message, url: Some(url), status: Some(status) }
}

/// Converts a downloaded scripted payload to text. The payload must be
/// UTF-8; one that is not is rejected with the internal error the service
/// reports.
pub fn script_payload_text(bytes: &Vec<u8>) -> (r: Result<String, AppError>)
    ensures
        (r is Ok) <==> valid_utf8(bytes@),
        r matches Ok(s) ==> s@ == decode_utf8(bytes@),
        r matches Err(e) ==> e matches AppError::Internal(m) && m@
            == "Failed to convert downloaded code to string: payload is not valid UTF-8"@,
{
    match text::utf8_to_string(bytes) {
        Some(s) => Ok(s),
        None => Err(
            AppError::Internal(
                "Failed to convert downloaded code to string: payload is not valid UTF-8".to_owned(),
            ),
        ),
    }
}

/// The envelope for a successful execution: `success` status, the guest's
/// output, both captured streams, no error, and the session's metadata.
pub fn success_response(
    output: String,
    stdout: String,
    stderr: String,
    metadata: ExecutionMetadata,
) -> (r: ExecuteResponse)
    ensures
        r.status@ == "success"@,
        r.output matches Some(o) && o@ == output@,
        r.stdout matches Some(s) && s@ == stdout@,
        r.stderr matches Some(s) && s@ == stderr@,
        r.error is None,
        r.metadata == metadata,
        r@ == spec_success_response(output@, stdout@, stderr@, metadata@),
{
    ExecuteResponse {
        status: "success".to_owned(),
        output: Some(output),
        stdout: Some(stdout),
        stderr: Some(stderr),
        error: None,
        metadata,
    }
}

/// The envelope for a failed execution: `error` status, the error rendered
/// per its variant, and placeholder metadata (no timing or size is known
/// for work that failed before or during execution). Returns the HTTP
/// status class alongside.
pub fn error_response(e: &AppError, timestamp: String) -> (r: (u16, ExecuteResponse))
    ensures
        r.0 == spec_http_status(*e),
        r.1.status@ == "error"@,
        r.1.output is None,
        r.1.stdout is None,
        r.1.stderr is None,
        r.1.error matches Some(info) && info.code@ == spec_error_code(*e) && info.message@
            == spec_error_message(*e) && spec_error_details(*e, info.details),
        r.1.metadata.execution_time == 0,
        r.1.metadata.code_type@ == "unknown"@,
        r.1.metadata.timestamp@ == timestamp@,
        r.1.metadata.resource_size == 0,
{
    let info = e.error_info();
    let resp = ExecuteResponse {
        status: "error".to_owned(),
        output: None,
        stdout: None,
        stderr: None,
        error: Some(info),
        metadata: ExecutionMetadata {
            execution_time: 0,
            code_type: "unknown".to_owned(),
            timestamp,
            resource_size: 0,
        },
    };
    (e.http_status(), resp)
}

/// Mathematical view of client-facing error information.
pub struct ErrorInfoView {
    pub code: Seq<char>,
    pub message: Seq<char>,
    pub details: Option<Seq<(Seq<char>, Seq<char>)>>,
}

/// Mathematical view of execution metadata.
pub struct ExecutionMetadataView {
    pub execution_time: u64,
    pub code_type: Seq<char>,
    pub timestamp: Seq<char>,
    pub resource_size: int,
}

/// Mathematical view of the execute-endpoint response.
pub struct ExecuteResponseView {
    pub status: Seq<char>,
    pub output: Option<Seq<char>>,
    pub stdout: Option<Seq<char>>,
    pub stderr: Option<Seq<char>>,
    pub error: Option<ErrorInfoView>,
    pub metadata: ExecutionMetadataView,
}

impl View for ErrorInfo {
    type V = ErrorInfoView;

    open spec fn view(&self) -> ErrorInfoView {
        ErrorInfoView {
            code: self.code@,
            message: self.message@,
            details: match self.details {
                Some(d) => Some(d@.map_values(|p: (String, String)| (p.0@, p.1@))),
                None => None,
            },
        }
    }
}

impl View for ExecutionMetadata {
    type V = ExecutionMetadataView;

    open spec fn view(&self) -> ExecutionMetadataView {
        ExecutionMetadataView {
            execution_time: self.execution_time,
            code_type: self.code_type@,
            timestamp: self.timestamp@,
            resource_size: self.resource_size as int,
        }
    }
}

impl View for ExecuteResponse {
    type V = ExecuteResponseView;

    open spec fn view(&self) -> ExecuteResponseView {
        ExecuteResponseView {
            status: self.status@,
            output: match self.output {
                Some(o) => Some(o@),
                None => None,
            },
            stdout: match self.stdout {
                Some(o) => Some(o@),
                None => None,
            },
            stderr: match self.stderr {
                Some(o) => Some(o@),
                None => None,
            },
            error: match self.error {
                Some(e) => Some(e@),
                None => None,
            },
            metadata: self.metadata@,
        }
    }
}

/// The envelope a successful execution renders to, as a function of the
/// session's outcome alone.
pub open spec fn spec_success_response(
    output: Seq<char>,
    stdout: Seq<char>,
    stderr: Seq<char>,
    metadata: ExecutionMetadataView,
) -> ExecuteResponseView {
    ExecuteResponseView {
        status: "success"@,
        output: Some(output),
        stdout: Some(stdout),
        stderr: Some(stderr),
        error: None,
        metadata,
    }
}

/// The idempotence law for the envelope: executing the same payload twice
/// with the same guest outcome yields identical `output` and
/// `resource_size`, whatever the two runs' timing and timestamps were.
/// With [`success_response`]'s contract, which pins the envelope to
/// [`spec_success_response`] of its arguments, this is the part of
/// repeat-execution determinism the host controls; the guest outcome
/// itself is the engine's to repeat.
pub proof fn lemma_idempotent_envelope(
    output: Seq<char>,
    stdout: Seq<char>,
    stderr: Seq<char>,
    m1: ExecutionMetadataView,
    m2: ExecutionMetadataView,
)
    requires
        m1.code_type == m2.code_type,
        m1.resource_size == m2.resource_size,
    ensures
        spec_success_response(output, stdout, stderr, m1).output == spec_success_response(
            output,
            stdout,
            stderr,
            m2,
        ).output,
        spec_success_response(output, stdout, stderr, m1).metadata.resource_size
            == spec_success_response(output, stdout, stderr, m2).metadata.resource_size,
        spec_success_response(output, stdout, stderr, m1).metadata.code_type
            == spec_success_response(output, stdout, stderr, m2).metadata.code_type,
{
}

} // verus!
