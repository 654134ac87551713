//! The wire protocol for the `fetch` capability: structured requests and
//! results serialized to and from a guest-supplied byte buffer.
//!
//! The format is compact JSON over UTF-8 bytes. A request is one object
//! with the fields `url`, `method`, `headers` (an object of string pairs)
//! and an optional trailing `body` (a string, or `null`), in that order and
//! without extra whitespace. A result is one object with the fields
//! `status` (a number), `headers`, `body` and `error` (`null`, or an object
//! with `code` and `message`), in that order. Strings escape `"` and `\`
//! with a backslash, render the control bytes with short JSON escapes as
//! `\n`, `\t`, `\r`, `\b` and `\f`, and any other control byte as `\u00`
//! and two hex digits; the decoder additionally accepts `\/` and
//! `\u`-escapes up to `\u007f`.
//!
//! The grammar is given by the specification functions here and in the
//! decoding module; the executable encoder and decoders are proved against
//! them, and the round-trip law shows that decoding an encoded result
//! yields the original fields.

use vstd::prelude::*;
use crate::text::dec_digits;

verus! {

/// A guest-declared outbound HTTP request.
pub struct FetchRequest {
    /// Request URL, as UTF-8 bytes.
    pub url: Vec<u8>,
    /// HTTP method name.
    pub method: Vec<u8>,
    /// Header name/value pairs, in order.
    pub headers: Vec<(Vec<u8>, Vec<u8>)>,
    /// Optional request body.
    pub body: Option<Vec<u8>>,
}

/// An error descriptor inside a fetch result.
pub struct FetchError {
    /// Machine-readable error code.
    pub code: Vec<u8>,
    /// Human-readable error message.
    pub message: Vec<u8>,
}

/// The structured result of an outbound HTTP request, as handed back to the
/// guest. A transport failure is reported as status `0` with a populated
/// error descriptor.
pub struct FetchResult {
    /// HTTP status code; `0` for a transport failure.
    pub status: u16,
    /// Response header name/value pairs.
    pub headers: Vec<(Vec<u8>, Vec<u8>)>,
    /// Response body text.
    pub body: Vec<u8>,
    /// Error descriptor, populated exactly for failed requests.
    pub error: Option<FetchError>,
}

/// Mathematical view of a fetch request.
pub struct FetchRequestView {
    pub url: Seq<u8>,
    pub method: Seq<u8>,
    pub headers: Seq<(Seq<u8>, Seq<u8>)>,
    pub body: Option<Seq<u8>>,
}

/// Mathematical view of a fetch result.
pub struct FetchResultView {
    pub status: u16,
    pub headers: Seq<(Seq<u8>, Seq<u8>)>,
    pub body: Seq<u8>,
    pub error: Option<(Seq<u8>, Seq<u8>)>,
}

/// The view of a header list: each pair of byte vectors as a pair of byte
/// sequences.
pub open spec fn headers_view(h: Seq<(Vec<u8>, Vec<u8>)>) -> Seq<(Seq<u8>, Seq<u8>)> {
    h.map_values(|p: (Vec<u8>, Vec<u8>)| (p.0@, p.1@))
}

impl View for FetchRequest {
    type V = FetchRequestView;

    open spec fn view(&self) -> FetchRequestView {
        FetchRequestView {
            url: self.url@,
            method: self.method@,
            headers: headers_view(self.headers@),
            body: match self.body {
                Some(b) => Some(b@),
                None => None,
            },
        }
    }
}

impl View for FetchResult {
    type V = FetchResultView;

    open spec fn view(&self) -> FetchResultView {
        FetchResultView {
            status: self.status,
            headers: headers_view(self.headers@),
            body: self.body@,
            error: match self.error {
                Some(e) => Some((e.code@, e.message@)),
                None => None,
            },
        }
    }
}

// ---------------------------------------------------------------------------
// Encoding grammar
// ---------------------------------------------------------------------------

/// Lowercase hex digit for a value below 16.
pub open spec fn hex_digit(n: u8) -> u8 {
    if n < 10 {
        (0x30 + n) as u8
    } else {
        (0x57 + n) as u8
    }
}

/// The escaped rendering of one byte inside a JSON string: quote and
/// backslash are escaped, the control bytes with short JSON escapes get
/// them, any other control byte a `\u00` escape, and everything else
/// stands for itself.
pub open spec fn esc_byte(b: u8) -> Seq<u8> {
    if b == 0x22 {
        seq![0x5cu8, 0x22u8]
    } else if b == 0x5c {
        seq![0x5cu8, 0x5cu8]
    } else if b == 0x0a {
        seq![0x5cu8, 0x6eu8]
    } else if b == 0x09 {
        seq![0x5cu8, 0x74u8]
    } else if b == 0x0d {
        seq![0x5cu8, 0x72u8]
    } else if b == 0x08 {
        seq![0x5cu8, 0x62u8]
    } else if b == 0x0c {
        seq![0x5cu8, 0x66u8]
    } else if b < 0x20 {
        seq![0x5cu8, 0x75u8, 0x30u8, 0x30u8, hex_digit(b / 16), hex_digit(b % 16)]
    } else {
        seq![b]
    }
}

/// A byte string with every byte escaped.
pub open spec fn escape_bytes(s: Seq<u8>) -> Seq<u8>
    decreases s.len(),
{
    if s.len() == 0 {
        seq![]
    } else {
        esc_byte(s[0]) + escape_bytes(s.drop_first())
    }
}

/// A quoted JSON string.
pub open spec fn quoted(s: Seq<u8>) -> Seq<u8> {
    seq![0x22u8] + escape_bytes(s) + seq![0x22u8]
}

/// One encoded header pair: `"name":"value"`.
pub open spec fn enc_header(h: (Seq<u8>, Seq<u8>)) -> Seq<u8> {
    quoted(h.0) + seq![0x3au8] + quoted(h.1)
}

/// The encoded continuation of a header list: a leading comma before each
/// further pair.
pub open spec fn enc_headers_rest(hs: Seq<(Seq<u8>, Seq<u8>)>) -> Seq<u8>
    decreases hs.len(),
{
    if hs.len() == 0 {
        seq![]
    } else {
        seq![0x2cu8] + enc_header(hs[0]) + enc_headers_rest(hs.drop_first())
    }
}

/// The inside of an encoded header object.
pub open spec fn enc_headers_all(hs: Seq<(Seq<u8>, Seq<u8>)>) -> Seq<u8> {
    if hs.len() == 0 {
        seq![]
    } else {
        enc_header(hs[0]) + enc_headers_rest(hs.drop_first())
    }
}

/// The bytes of `"status":` preceded by the opening brace.
pub open spec fn lit_status_key() -> Seq<u8> {
    // {"status":
    seq![0x7bu8, 0x22u8, 0x73u8, 0x74u8, 0x61u8, 0x74u8, 0x75u8, 0x73u8, 0x22u8, 0x3au8]
}

/// The bytes of `,"headers":{`.
pub open spec fn lit_headers_key() -> Seq<u8> {
    seq![0x2cu8, 0x22u8, 0x68u8, 0x65u8, 0x61u8, 0x64u8, 0x65u8, 0x72u8, 0x73u8, 0x22u8,
        0x3au8, 0x7bu8]
}

/// The bytes of `,"body":`.
pub open spec fn lit_body_key() -> Seq<u8> {
    seq![0x2cu8, 0x22u8, 0x62u8, 0x6fu8, 0x64u8, 0x79u8, 0x22u8, 0x3au8]
}

/// The bytes of `,"error":`.
pub open spec fn lit_error_key() -> Seq<u8> {
    seq![0x2cu8, 0x22u8, 0x65u8, 0x72u8, 0x72u8, 0x6fu8, 0x72u8, 0x22u8, 0x3au8]
}

/// The bytes of `null`.
pub open spec fn lit_null() -> Seq<u8> {
    seq![0x6eu8, 0x75u8, 0x6cu8, 0x6cu8]
}

/// The bytes of `{"code":`.
pub open spec fn lit_code_key() -> Seq<u8> {
    seq![0x7bu8, 0x22u8, 0x63u8, 0x6fu8, 0x64u8, 0x65u8, 0x22u8, 0x3au8]
}

/// The bytes of `,"message":`.
pub open spec fn lit_message_key() -> Seq<u8> {
    seq![0x2cu8, 0x22u8, 0x6du8, 0x65u8, 0x73u8, 0x73u8, 0x61u8, 0x67u8, 0x65u8, 0x22u8,
        0x3au8]
}

/// The encoded error field: `null`, or an object with code and message.
pub open spec fn enc_error(e: Option<(Seq<u8>, Seq<u8>)>) -> Seq<u8> {
    match e {
        None => lit_null(),
        Some((c, m)) => lit_code_key() + quoted(c) + lit_message_key() + quoted(m) + seq![
            0x7du8,
        ],
    }
}

/// The full encoding of a fetch result.
pub open spec fn encode_result(v: FetchResultView) -> Seq<u8> {
    lit_status_key() + dec_digits(v.status as nat) + lit_headers_key() + enc_headers_all(
        v.headers,
    ) + seq![0x7du8] + lit_body_key() + quoted(v.body) + lit_error_key() + enc_error(v.error)
        + seq![0x7du8]
}

// ---------------------------------------------------------------------------
// Encoder
// ---------------------------------------------------------------------------

/// Escaping distributes over concatenation.
pub proof fn lemma_escape_concat(a: Seq<u8>, b: Seq<u8>)
    ensures
        escape_bytes(a + b) == escape_bytes(a) + escape_bytes(b),
    decreases a.len(),
{
    if a.len() == 0 {
        assert(a + b =~= b);
        assert(escape_bytes(a) + escape_bytes(b) =~= escape_bytes(b));
    } else {
        assert((a + b).drop_first() =~= a.drop_first() + b);
        lemma_escape_concat(a.drop_first(), b);
        assert(escape_bytes(a + b) =~= escape_bytes(a) + escape_bytes(b));
    }
}

/// Appends the escaped rendering of one byte.
fn push_escaped_byte(out: &mut Vec<u8>, b: u8)
    ensures
        final(out)@ == old(out)@ + esc_byte(b),
{
    if b == 0x22 {
        out.push(0x5c);
        out.push(0x22);
    } else if b == 0x5c {
        out.push(0x5c);
        out.push(0x5c);
    } else if b == 0x0a {
        out.push(0x5c);
        out.push(0x6e);
    } else if b == 0x09 {
        out.push(0x5c);
        out.push(0x74);
    } else if b == 0x0d {
        out.push(0x5c);
        out.push(0x72);
    } else if b == 0x08 {
        out.push(0x5c);
        out.push(0x62);
    } else if b == 0x0c {
        out.push(0x5c);
        out.push(0x66);
    } else if b < 0x20 {
        out.push(0x5c);
        out.push(0x75);
        out.push(0x30);
        out.push(0x30);
        let hi = b / 16;
        let lo = b % 16;
        out.push(if hi < 10 { 0x30 + hi } else { 0x57 + hi });
        out.push(if lo < 10 { 0x30 + lo } else { 0x57 + lo });
    } else {
        out.push(b);
    }
    proof {
        assert(out@ =~= old(out)@ + esc_byte(b));
    }
}

/// Appends a quoted, escaped JSON string.
fn push_quoted(out: &mut Vec<u8>, s: &Vec<u8>)
    ensures
        final(out)@ == old(out)@ + quoted(s@),
{
    out.push(0x22);
    let ghost mid = out@;
    let mut i: usize = 0;
    while i < s.len()
        invariant
            i <= s@.len(),
            mid == old(out)@ + seq![0x22u8],
            out@ == mid + escape_bytes(s@.take(i as int)),
        decreases s@.len() - i as int,
    {
        proof {
            assert(s@.take(i as int + 1) =~= s@.take(i as int) + seq![s@[i as int]]);
            lemma_escape_concat(s@.take(i as int), seq![s@[i as int]]);
            assert(seq![s@[i as int]].drop_first() =~= Seq::<u8>::empty());
            assert(escape_bytes(Seq::<u8>::empty()) =~= Seq::<u8>::empty());
            assert(escape_bytes(seq![s@[i as int]]) =~= esc_byte(s@[i as int]));
        }
        push_escaped_byte(out, s[i]);
        i += 1;
    }
    proof {
        assert(s@.take(s@.len() as int) =~= s@);
    }
    out.push(0x22);
    proof {
        assert(out@ =~= old(out)@ + quoted(s@));
    }
}

/// Appends one encoded header pair.
fn push_header(out: &mut Vec<u8>, name: &Vec<u8>, value: &Vec<u8>)
    ensures
        final(out)@ == old(out)@ + enc_header((name@, value@)),
{
    push_quoted(out, name);
    out.push(0x3a);
    push_quoted(out, value);
    proof {
        assert(out@ =~= old(out)@ + enc_header((name@, value@)));
    }
}

/// Pushing one more pair extends the encoded continuation of a header list.
proof fn lemma_enc_rest_snoc(hs: Seq<(Seq<u8>, Seq<u8>)>, h: (Seq<u8>, Seq<u8>))
    ensures
        enc_headers_rest(hs.push(h)) == enc_headers_rest(hs) + seq![0x2cu8] + enc_header(h),
    decreases hs.len(),
{
    if hs.len() == 0 {
        assert(hs.push(h)[0] == h);
        let empty = Seq::<(Seq<u8>, Seq<u8>)>::empty();
        assert(hs.push(h).drop_first() =~= empty);
        assert(enc_headers_rest(empty) =~= Seq::<u8>::empty());
        assert(enc_headers_rest(hs) =~= Seq::<u8>::empty());
        assert(enc_headers_rest(hs.push(h)) =~= seq![0x2cu8] + enc_header(h)
            + enc_headers_rest(empty));
        assert(enc_headers_rest(hs.push(h)) =~= enc_headers_rest(hs) + seq![0x2cu8]
            + enc_header(h));
    } else {
        assert(hs.push(h)[0] == hs[0]);
        assert(hs.push(h).drop_first() =~= hs.drop_first().push(h));
        lemma_enc_rest_snoc(hs.drop_first(), h);
        assert(enc_headers_rest(hs.push(h)) =~= seq![0x2cu8] + enc_header(hs[0])
            + enc_headers_rest(hs.drop_first().push(h)));
        assert(enc_headers_rest(hs.push(h)) =~= enc_headers_rest(hs) + seq![0x2cu8]
            + enc_header(h));
    }
}

/// Pushing one more pair extends the encoded inside of a header object.
proof fn lemma_enc_all_snoc(hs: Seq<(Seq<u8>, Seq<u8>)>, h: (Seq<u8>, Seq<u8>))
    ensures
        hs.len() == 0 ==> enc_headers_all(hs.push(h)) == enc_header(h),
        hs.len() > 0 ==> enc_headers_all(hs.push(h)) == enc_headers_all(hs) + seq![0x2cu8]
            + enc_header(h),
{
    if hs.len() == 0 {
        assert(hs.push(h)[0] == h);
        assert(hs.push(h).drop_first() =~= Seq::<(Seq<u8>, Seq<u8>)>::empty());
        assert(enc_headers_all(hs.push(h)) =~= enc_header(h));
    } else {
        assert(hs.push(h)[0] == hs[0]);
        assert(hs.push(h).drop_first() =~= hs.drop_first().push(h));
        lemma_enc_rest_snoc(hs.drop_first(), h);
        assert(enc_headers_all(hs.push(h)) =~= enc_headers_all(hs) + seq![0x2cu8]
            + enc_header(h));
    }
}

/// Appends the inside of an encoded header object.
fn push_headers(out: &mut Vec<u8>, headers: &Vec<(Vec<u8>, Vec<u8>)>)
    ensures
        final(out)@ == old(out)@ + enc_headers_all(headers_view(headers@)),
{
    let mut i: usize = 0;
    while i < headers.len()
        invariant
            i <= headers@.len(),
            out@ == old(out)@ + enc_headers_all(headers_view(headers@).take(i as int)),
        decreases headers@.len() - i as int,
    {
        proof {
            let hv = headers_view(headers@);
            assert(hv.take(i as int + 1) =~= hv.take(i as int).push(hv[i as int]));
            lemma_enc_all_snoc(hv.take(i as int), hv[i as int]);
        }
        if i > 0 {
            out.push(0x2c);
        }
        push_header(out, &headers[i].0, &headers[i].1);
        proof {
            let hv = headers_view(headers@);
            assert(hv[i as int] == (headers@[i as int].0@, headers@[i as int].1@));
            if i == 0 {
                assert(hv.take(0) =~= Seq::<(Seq<u8>, Seq<u8>)>::empty());
                assert(enc_headers_all(hv.take(0)) =~= Seq::<u8>::empty());
                assert(out@ =~= old(out)@ + enc_headers_all(hv.take(i as int + 1)));
            } else {
                assert(out@ =~= old(out)@ + enc_headers_all(hv.take(i as int + 1)));
            }
        }
        i += 1;
    }
    proof {
        assert(headers_view(headers@).take(headers@.len() as int) =~= headers_view(headers@));
    }
}

/// Appends a literal given as a vector of bytes.
fn push_all(out: &mut Vec<u8>, bytes: &Vec<u8>)
    ensures
        final(out)@ == old(out)@ + bytes@,
{
    out.extend_from_slice(bytes.as_slice());
}

/// Serializes a fetch result to its wire form.
pub fn encode_fetch_result(r: &FetchResult) -> (out: Vec<u8>)
    ensures
        out@ == encode_result(r@),
{
    let mut out: Vec<u8> = Vec::new();
    // {"status":
    let mut lit: Vec<u8> = Vec::new();
    lit.push(0x7b);
    lit.push(0x22);
    lit.push(0x73);
    lit.push(0x74);
    lit.push(0x61);
    lit.push(0x74);
    lit.push(0x75);
    lit.push(0x73);
    lit.push(0x22);
    lit.push(0x3a);
    proof {
        assert(lit@ =~= lit_status_key());
    }
    push_all(&mut out, &lit);
    let digits = crate::text::u64_dec(r.status as u64);
    push_all(&mut out, &digits);
    // ,"headers":{
    let mut lit2: Vec<u8> = Vec::new();
    lit2.push(0x2c);
    lit2.push(0x22);
    lit2.push(0x68);
    lit2.push(0x65);
    lit2.push(0x61);
    lit2.push(0x64);
    lit2.push(0x65);
    lit2.push(0x72);
    lit2.push(0x73);
    lit2.push(0x22);
    lit2.push(0x3a);
    lit2.push(0x7b);
    proof {
        assert(lit2@ =~= lit_headers_key());
    }
    push_all(&mut out, &lit2);
    push_headers(&mut out, &r.headers);
    out.push(0x7d);
    // ,"body":
    let mut lit3: Vec<u8> = Vec::new();
    lit3.push(0x2c);
    lit3.push(0x22);
    lit3.push(0x62);
    lit3.push(0x6f);
    lit3.push(0x64);
    lit3.push(0x79);
    lit3.push(0x22);
    lit3.push(0x3a);
    proof {
        assert(lit3@ =~= lit_body_key());
    }
    push_all(&mut out, &lit3);
    push_quoted(&mut out, &r.body);
    // ,"error":
    let mut lit4: Vec<u8> = Vec::new();
    lit4.push(0x2c);
    lit4.push(0x22);
    lit4.push(0x65);
    lit4.push(0x72);
    lit4.push(0x72);
    lit4.push(0x6f);
    lit4.push(0x72);
    lit4.push(0x22);
    lit4.push(0x3a);
    proof {
        assert(lit4@ =~= lit_error_key());
    }
    push_all(&mut out, &lit4);
    match &r.error {
        None => {
            out.push(0x6e);
            out.push(0x75);
            out.push(0x6c);
            out.push(0x6c);
        },
        Some(e) => {
            let mut lit5: Vec<u8> = Vec::new();
            lit5.push(0x7b);
            lit5.push(0x22);
            lit5.push(0x63);
            lit5.push(0x6f);
            lit5.push(0x64);
            lit5.push(0x65);
            lit5.push(0x22);
            lit5.push(0x3a);
            proof {
                assert(lit5@ =~= lit_code_key());
            }
            push_all(&mut out, &lit5);
            push_quoted(&mut out, &e.code);
            let mut lit6: Vec<u8> = Vec::new();
            lit6.push(0x2c);
            lit6.push(0x22);
            lit6.push(0x6d);
            lit6.push(0x65);
            lit6.push(0x73);
            lit6.push(0x73);
            lit6.push(0x61);
            lit6.push(0x67);
            lit6.push(0x65);
            lit6.push(0x22);
            lit6.push(0x3a);
            proof {
                assert(lit6@ =~= lit_message_key());
            }
            push_all(&mut out, &lit6);
            push_quoted(&mut out, &e.message);
            out.push(0x7d);
        },
    }
    out.push(0x7d);
    proof {
        assert(out@ =~= encode_result(r@));
    }
    out
}

} // verus!
