//! The capability bridge: the three host functions a guest can call —
//! `log`, `clock` and `fetch` — with their memory marshaling and
//! validation.
//!
//! Every guest-memory touch goes through the accessor; every failure is
//! classified as either guest-attributable (reported to the guest as a
//! structured result) or host-attributable (a [`BridgeFault`], which aborts
//! the invocation). The outbound HTTP transfer itself is I/O and happens
//! outside the library: [`fetch_request_phase`] decodes and validates the
//! guest's request, and [`fetch_response_phase`] serializes whatever result
//! the transfer produced back into the guest's buffer.

use vstd::prelude::*;
use vstd::utf8::valid_utf8;
use crate::mem::region_ok;
use crate::mem::read_region;
use crate::mem::write_region;
use crate::sink::OutputBuffers;
use crate::sink::StreamKind;
use crate::sink::rendered_line;
use crate::text;
use crate::text::upper_bytes;
use crate::wire::FetchRequest;
use crate::wire::FetchResult;
use crate::wire::FetchError;
use crate::wire::encode_result;
use crate::wire::encode_fetch_result;
use crate::decode::sp_request;
use crate::decode::parse_fetch_request;

verus! {

/// A host-attributable failure of one capability call: it aborts the whole
/// invocation rather than being reported to the guest.
#[derive(Debug)]
pub enum BridgeFault {
    /// A guest-supplied region lies outside the guest's memory, or its
    /// offset and length overflow.
    OutOfBounds,
    /// Guest-supplied text that must be UTF-8 is not.
    InvalidEncoding,
    /// A serialized result too large for the sizing protocol to express.
    TooLarge,
}

/// The bytes of the region `[ptr, ptr + len)` of a memory.
pub open spec fn region_bytes(m: Seq<u8>, ptr: u32, len: u32) -> Seq<u8> {
    m.subrange(ptr as int, ptr as int + len as int)
}

/// The line the `log` capability emits: `[LEVEL]: message`, with the level
/// raised to upper case.
pub open spec fn spec_log_line(level: Seq<u8>, msg: Seq<u8>) -> Seq<u8> {
    seq![0x5bu8] + upper_bytes(level) + seq![0x5du8, 0x3au8, 0x20u8] + msg
}

/// A log line built from valid UTF-8 level and message text is itself
/// valid UTF-8, newline included: the captured stream therefore stays
/// decodable across log calls.
pub proof fn lemma_log_line_valid(level: Seq<u8>, msg: Seq<u8>)
    requires
        valid_utf8(level),
        valid_utf8(msg),
    ensures
        valid_utf8(spec_log_line(level, msg)),
        valid_utf8(rendered_line(spec_log_line(level, msg))),
{
    crate::text::lemma_ascii_decode(seq![0x5bu8]);
    crate::text::lemma_ascii_decode(seq![0x5du8, 0x3au8, 0x20u8]);
    crate::text::lemma_ascii_decode(seq![0x0au8]);
    crate::text::lemma_upper_valid_utf8(level);
    vstd::utf8::valid_utf8_concat(seq![0x5bu8], upper_bytes(level));
    vstd::utf8::valid_utf8_concat(seq![0x5bu8] + upper_bytes(level), seq![0x5du8, 0x3au8,
        0x20u8]);
    vstd::utf8::valid_utf8_concat(seq![0x5bu8] + upper_bytes(level) + seq![0x5du8, 0x3au8,
        0x20u8], msg);
    vstd::utf8::valid_utf8_concat(spec_log_line(level, msg), seq![0x0au8]);
    assert(rendered_line(spec_log_line(level, msg)) =~= spec_log_line(level, msg) + seq![
        0x0au8,
    ]);
}

/// Formats one log line from raw level and message text.
pub fn format_log_line(level: &Vec<u8>, msg: &Vec<u8>) -> (r: Vec<u8>)
    ensures
        r@ == spec_log_line(level@, msg@),
{
    let mut out: Vec<u8> = Vec::new();
    out.push(0x5b);
    let upper = text::ascii_upper(level);
    out.extend_from_slice(upper.as_slice());
    out.push(0x5d);
    out.push(0x3a);
    out.push(0x20);
    out.extend_from_slice(msg.as_slice());
    proof {
        assert(out@ =~= spec_log_line(level@, msg@));
    }
    out
}

/// The `log` capability for a compiled-module guest: reads the level and
/// message from guest memory, validates both regions and their UTF-8,
/// formats `[LEVEL]: message`, and appends it to the sink's stdout stream.
/// Returns the formatted line so the caller can mirror it to host
/// diagnostics. A bad region or malformed UTF-8 fails only this call and
/// leaves the sink untouched.
pub fn app_log_call(
    bufs: &mut OutputBuffers,
    mem: &Vec<u8>,
    level_ptr: u32,
    level_len: u32,
    msg_ptr: u32,
    msg_len: u32,
) -> (r: Result<Vec<u8>, BridgeFault>)
    ensures
        (r matches Err(BridgeFault::OutOfBounds)) <==> !(region_ok(mem@.len(), level_ptr,
            level_len) && region_ok(mem@.len(), msg_ptr, msg_len)),
        (r matches Err(BridgeFault::InvalidEncoding)) <==> (region_ok(mem@.len(), level_ptr,
            level_len) && region_ok(mem@.len(), msg_ptr, msg_len) && !(valid_utf8(
            region_bytes(mem@, level_ptr, level_len),
        ) && valid_utf8(region_bytes(mem@, msg_ptr, msg_len)))),
        r matches Ok(line) ==> {
            &&& line@ == spec_log_line(
                region_bytes(mem@, level_ptr, level_len),
                region_bytes(mem@, msg_ptr, msg_len),
            )
            &&& valid_utf8(line@)
            &&& final(bufs).stdout@ == old(bufs).stdout@ + rendered_line(line@)
            &&& final(bufs).stderr@ == old(bufs).stderr@
            &&& valid_utf8(old(bufs).stdout@) ==> valid_utf8(final(bufs).stdout@)
        },
        r is Err ==> (r matches Err(BridgeFault::OutOfBounds) || r matches Err(
            BridgeFault::InvalidEncoding,
        )),
        r is Err ==> *final(bufs) == *old(bufs),
{
    let level = match read_region(mem, level_ptr, level_len) {
        None => {
            return Err(BridgeFault::OutOfBounds);
        },
        Some(v) => v,
    };
    let msg = match read_region(mem, msg_ptr, msg_len) {
        None => {
            return Err(BridgeFault::OutOfBounds);
        },
        Some(v) => v,
    };
    if text::utf8_to_string(&level).is_none() {
        return Err(BridgeFault::InvalidEncoding);
    }
    if text::utf8_to_string(&msg).is_none() {
        return Err(BridgeFault::InvalidEncoding);
    }
    let line = format_log_line(&level, &msg);
    proof {
        lemma_log_line_valid(level@, msg@);
        if valid_utf8(old(bufs).stdout@) {
            vstd::utf8::valid_utf8_concat(old(bufs).stdout@, rendered_line(line@));
        }
    }
    bufs.write(StreamKind::Stdout, &line);
    Ok(line)
}

/// The `log` capability for a scripted guest, whose engine hands the host
/// native strings: formats and captures without a memory read.
pub fn app_log_text(bufs: &mut OutputBuffers, level: &Vec<u8>, msg: &Vec<u8>) -> (r: Vec<u8>)
    ensures
        r@ == spec_log_line(level@, msg@),
        final(bufs).stdout@ == old(bufs).stdout@ + rendered_line(r@),
        final(bufs).stderr@ == old(bufs).stderr@,
        valid_utf8(level@) && valid_utf8(msg@) && valid_utf8(old(bufs).stdout@) ==> valid_utf8(
            final(bufs).stdout@,
        ),
{
    let line = format_log_line(level, msg);
    proof {
        if valid_utf8(level@) && valid_utf8(msg@) {
            lemma_log_line_valid(level@, msg@);
            if valid_utf8(old(bufs).stdout@) {
                vstd::utf8::valid_utf8_concat(old(bufs).stdout@, rendered_line(line@));
            }
        }
    }
    bufs.write(StreamKind::Stdout, &line);
    line
}

// ---------------------------------------------------------------------------
// Request validation
// ---------------------------------------------------------------------------

/// An HTTP token character (RFC 7230): the characters legal in a method
/// name or header field name.
pub open spec fn is_tchar(b: u8) -> bool {
    ||| (0x30 <= b <= 0x39)  // digit
    ||| (0x41 <= b <= 0x5a)  // upper alpha
    ||| (0x61 <= b <= 0x7a)  // lower alpha
    ||| b == 0x21 || b == 0x23 || b == 0x24 || b == 0x25 || b == 0x26 || b == 0x27
    ||| b == 0x2a || b == 0x2b || b == 0x2d || b == 0x2e || b == 0x5e || b == 0x5f
    ||| b == 0x60 || b == 0x7c || b == 0x7e
}

/// A non-empty string of token characters.
pub open spec fn valid_token(s: Seq<u8>) -> bool {
    s.len() > 0 && forall|i: int| 0 <= i < s.len() ==> is_tchar(#[trigger] s[i])
}

/// A legal header field value byte: horizontal tab, visible ASCII and
/// space, or a high byte.
pub open spec fn is_field_byte(b: u8) -> bool {
    b == 0x09 || (0x20 <= b <= 0x7e) || b >= 0x80
}

/// A legal header field value.
pub open spec fn valid_field_value(s: Seq<u8>) -> bool {
    forall|i: int| 0 <= i < s.len() ==> is_field_byte(#[trigger] s[i])
}

/// A well-formed header pair: a token name and a legal value.
pub open spec fn valid_header(h: (Seq<u8>, Seq<u8>)) -> bool {
    valid_token(h.0) && valid_field_value(h.1)
}

/// A fetch request the host will attempt: a token method and well-formed
/// header names and values. (The URL is handed to the HTTP client as is;
/// an address it cannot parse or reach comes back as a transport failure.)
pub open spec fn spec_valid_request(r: crate::wire::FetchRequestView) -> bool {
    &&& valid_token(r.method)
    &&& forall|i: int| 0 <= i < r.headers.len() ==> valid_header(#[trigger] r.headers[i])
}

/// Checks that a byte string is a non-empty HTTP token.
fn check_token(s: &Vec<u8>) -> (r: bool)
    ensures
        r == valid_token(s@),
{
    if s.len() == 0 {
        return false;
    }
    let mut i: usize = 0;
    while i < s.len()
        invariant
            i <= s@.len(),
            forall|j: int| 0 <= j < i as int ==> is_tchar(#[trigger] s@[j]),
        decreases s@.len() - i as int,
    {
        let b = s[i];
        let ok = (0x30 <= b && b <= 0x39) || (0x41 <= b && b <= 0x5a) || (0x61 <= b && b
            <= 0x7a) || b == 0x21 || b == 0x23 || b == 0x24 || b == 0x25 || b == 0x26 || b
            == 0x27 || b == 0x2a || b == 0x2b || b == 0x2d || b == 0x2e || b == 0x5e || b
            == 0x5f || b == 0x60 || b == 0x7c || b == 0x7e;
        if !ok {
            return false;
        }
        i += 1;
    }
    true
}

/// Checks that a byte string is a legal header field value.
fn check_field_value(s: &Vec<u8>) -> (r: bool)
    ensures
        r == valid_field_value(s@),
{
    let mut i: usize = 0;
    while i < s.len()
        invariant
            i <= s@.len(),
            forall|j: int| 0 <= j < i as int ==> is_field_byte(#[trigger] s@[j]),
        decreases s@.len() - i as int,
    {
        let b = s[i];
        if !(b == 0x09 || (0x20 <= b && b <= 0x7e) || b >= 0x80) {
            return false;
        }
        i += 1;
    }
    true
}

/// Checks a decoded fetch request's method and headers.
pub fn validate_fetch_request(req: &FetchRequest) -> (r: bool)
    ensures
        r == spec_valid_request(req@),
{
    if !check_token(&req.method) {
        return false;
    }
    let mut i: usize = 0;
    while i < req.headers.len()
        invariant
            i <= req.headers@.len(),
            valid_token(req@.method),
            forall|j: int| 0 <= j < i as int ==> valid_header(#[trigger] req@.headers[j]),
        decreases req.headers@.len() - i as int,
    {
        if !check_token(&req.headers[i].0) {
            proof {
                assert(req@.headers[i as int] == (req.headers@[i as int].0@, req.headers@[
                    i as int].1@));
            }
            return false;
        }
        if !check_field_value(&req.headers[i].1) {
            proof {
                assert(req@.headers[i as int] == (req.headers@[i as int].0@, req.headers@[
                    i as int].1@));
            }
            return false;
        }
        proof {
            assert(req@.headers[i as int] == (req.headers@[i as int].0@, req.headers@[
                i as int].1@));
            assert(valid_header(req@.headers[i as int]));
        }
        i += 1;
    }
    true
}

// ---------------------------------------------------------------------------
// The fetch capability
// ---------------------------------------------------------------------------

/// What decoding a guest's fetch request yields: a validated request ready
/// for the transfer, or a structured rejection to hand straight back to the
/// guest.
pub enum FetchPhase {
    /// The request decoded and validated; the caller performs the transfer.
    Ready(FetchRequest),
    /// The request was malformed or invalid: the guest receives this result
    /// (status `0` with an error descriptor) through the sizing protocol.
    Reject(FetchResult),
}

/// The `INVALID_REQUEST` error code as bytes.
pub open spec fn code_invalid_request() -> Seq<u8> {
    // INVALID_REQUEST
    seq![0x49u8, 0x4eu8, 0x56u8, 0x41u8, 0x4cu8, 0x49u8, 0x44u8, 0x5fu8, 0x52u8, 0x45u8,
        0x51u8, 0x55u8, 0x45u8, 0x53u8, 0x54u8]
}

/// The `FETCH_FAILED` error code as bytes.
pub open spec fn code_fetch_failed() -> Seq<u8> {
    // FETCH_FAILED
    seq![0x46u8, 0x45u8, 0x54u8, 0x43u8, 0x48u8, 0x5fu8, 0x46u8, 0x41u8, 0x49u8, 0x4cu8,
        0x45u8, 0x44u8]
}

/// A result that reports a failure to the guest: status `0`, no headers or
/// body, and a populated error descriptor.
pub open spec fn spec_error_result(code: Seq<u8>, message: Seq<u8>) -> crate::wire::FetchResultView {
    crate::wire::FetchResultView {
        status: 0,
        headers: Seq::empty(),
        body: Seq::empty(),
        error: Some((code, message)),
    }
}

/// Builds the result handed to a guest whose request was malformed or
/// invalid.
pub fn invalid_request_result(message: &Vec<u8>) -> (r: FetchResult)
    ensures
        r@ == spec_error_result(code_invalid_request(), message@),
{
    let mut code: Vec<u8> = Vec::new();
    code.push(0x49);
    code.push(0x4e);
    code.push(0x56);
    code.push(0x41);
    code.push(0x4c);
    code.push(0x49);
    code.push(0x44);
    code.push(0x5f);
    code.push(0x52);
    code.push(0x45);
    code.push(0x51);
    code.push(0x55);
    code.push(0x45);
    code.push(0x53);
    code.push(0x54);
    proof {
        assert(code@ =~= code_invalid_request());
    }
    let r = FetchResult {
        status: 0,
        headers: Vec::new(),
        body: Vec::new(),
        error: Some(FetchError { code, message: message.clone() }),
    };
    proof {
        assert(r@.headers =~= Seq::<(Seq<u8>, Seq<u8>)>::empty());
        assert(r@.body =~= Seq::<u8>::empty());
    }
    r
}

/// Builds the result handed to a guest whose request failed in transit:
/// the guest observes status `0` and the error descriptor rather than a
/// host-side fault.
pub fn transport_error_result(message: &Vec<u8>) -> (r: FetchResult)
    ensures
        r@ == spec_error_result(code_fetch_failed(), message@),
{
    let mut code: Vec<u8> = Vec::new();
    code.push(0x46);
    code.push(0x45);
    code.push(0x54);
    code.push(0x43);
    code.push(0x48);
    code.push(0x5f);
    code.push(0x46);
    code.push(0x41);
    code.push(0x49);
    code.push(0x4c);
    code.push(0x45);
    code.push(0x44);
    proof {
        assert(code@ =~= code_fetch_failed());
    }
    let r = FetchResult {
        status: 0,
        headers: Vec::new(),
        body: Vec::new(),
        error: Some(FetchError { code, message: message.clone() }),
    };
    proof {
        assert(r@.headers =~= Seq::<(Seq<u8>, Seq<u8>)>::empty());
        assert(r@.body =~= Seq::<u8>::empty());
    }
    r
}

/// Builds the result for a transfer that completed: the upstream status,
/// headers and body, and no error descriptor.
pub fn success_fetch_result(
    status: u16,
    headers: Vec<(Vec<u8>, Vec<u8>)>,
    body: Vec<u8>,
) -> (r: FetchResult)
    ensures
        r@.status == status,
        r@.headers == crate::wire::headers_view(headers@),
        r@.body == body@,
        r@.error is None,
{
    FetchResult { status, headers, body, error: None }
}

/// The first half of the `fetch` capability: reads the request bytes from
/// guest memory, decodes and validates them. A region fault is
/// host-attributable; a malformed or invalid request becomes a `Reject`
/// carrying the structured error the guest will receive.
pub fn fetch_request_phase(mem: &Vec<u8>, options_ptr: u32, options_len: u32) -> (r: Result<
    FetchPhase,
    BridgeFault,
>)
    ensures
        (r matches Err(BridgeFault::OutOfBounds)) <==> !region_ok(mem@.len(), options_ptr,
            options_len),
        r is Err ==> r matches Err(BridgeFault::OutOfBounds),
        r matches Ok(p) ==> {
            let bytes = region_bytes(mem@, options_ptr, options_len);
            match p {
                FetchPhase::Ready(req) => sp_request(bytes) == Some(req@) && spec_valid_request(
                    req@,
                ),
                FetchPhase::Reject(res) => (match sp_request(bytes) {
                    None => res@ == spec_error_result(
                        code_invalid_request(),
                        vstd::utf8::encode_utf8("fetch: failed to deserialize options"@),
                    ),
                    Some(req) => !spec_valid_request(req) && res@ == spec_error_result(
                        code_invalid_request(),
                        vstd::utf8::encode_utf8("fetch: invalid method or header"@),
                    ),
                }),
            }
        },
{
    let bytes = match read_region(mem, options_ptr, options_len) {
        None => {
            return Err(BridgeFault::OutOfBounds);
        },
        Some(v) => v,
    };
    match parse_fetch_request(&bytes) {
        None => {
            let msg = text::bytes_of_str("fetch: failed to deserialize options");
            Ok(FetchPhase::Reject(invalid_request_result(&msg)))
        },
        Some(req) => {
            if validate_fetch_request(&req) {
                Ok(FetchPhase::Ready(req))
            } else {
                let msg = text::bytes_of_str("fetch: invalid method or header");
                Ok(FetchPhase::Reject(invalid_request_result(&msg)))
            }
        },
    }
}

/// The second half of the `fetch` capability: serializes the result and
/// applies the sizing protocol. If the serialized form does not fit the
/// guest-declared capacity, nothing is written and the negative of the
/// required length is returned; otherwise the bytes are written at the
/// guest's buffer and the positive length returned. A destination outside
/// guest memory, or a result too large for the protocol to express, is
/// host-attributable.
pub fn fetch_response_phase(
    mem: &mut Vec<u8>,
    resp_buf_ptr: u32,
    resp_buf_max_len: u32,
    result: &FetchResult,
) -> (r: Result<i32, BridgeFault>)
    ensures
        ({
            let enc = encode_result(result@);
            &&& enc.len() > i32::MAX ==> {
                &&& r matches Err(BridgeFault::TooLarge)
                &&& final(mem)@ == old(mem)@
            }
            &&& enc.len() <= i32::MAX && enc.len() > resp_buf_max_len ==> {
                &&& r matches Ok(n) && n == -(enc.len() as int)
                &&& final(mem)@ == old(mem)@
            }
            &&& enc.len() <= i32::MAX && enc.len() <= resp_buf_max_len && !region_ok(
                old(mem)@.len(),
                resp_buf_ptr,
                enc.len() as u32,
            ) ==> {
                &&& r matches Err(BridgeFault::OutOfBounds)
                &&& final(mem)@ == old(mem)@
            }
            &&& enc.len() <= i32::MAX && enc.len() <= resp_buf_max_len && region_ok(
                old(mem)@.len(),
                resp_buf_ptr,
                enc.len() as u32,
            ) ==> {
                &&& r matches Ok(n) && n == enc.len()
                &&& final(mem)@ == old(mem)@.subrange(0, resp_buf_ptr as int) + enc + old(
                    mem,
                )@.subrange(resp_buf_ptr as int + enc.len() as int, old(mem)@.len() as int)
            }
            &&& final(mem)@.len() == old(mem)@.len()
        }),
{
    let enc = encode_fetch_result(result);
    if enc.len() > i32::MAX as usize {
        return Err(BridgeFault::TooLarge);
    }
    if enc.len() > resp_buf_max_len as usize {
        return Ok(-(enc.len() as i32));
    }
    if write_region(mem, resp_buf_ptr, &enc) {
        Ok(enc.len() as i32)
    } else {
        Err(BridgeFault::OutOfBounds)
    }
}

} // verus!
