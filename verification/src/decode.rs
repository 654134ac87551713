//! The reference decoder for the wire protocol: a specification-level
//! parser (`sp_*` functions) defining exactly which byte strings are
//! well-formed requests and results, and executable decoders proved to
//! return precisely what the specification parser returns.

use vstd::prelude::*;
use crate::wire::FetchRequest;
use crate::wire::FetchResult;
use crate::wire::FetchError;
use crate::wire::FetchRequestView;
use crate::wire::FetchResultView;
use crate::wire::lit_status_key;
use crate::wire::lit_headers_key;
use crate::wire::lit_body_key;
use crate::wire::lit_error_key;
use crate::wire::lit_null;
use crate::wire::lit_code_key;
use crate::wire::lit_message_key;
use crate::wire::headers_view;

verus! {

/// ASCII decimal digit.
pub open spec fn is_digit(b: u8) -> bool {
    0x30 <= b <= 0x39
}

/// ASCII hex digit, either case.
pub open spec fn is_hex_byte(b: u8) -> bool {
    is_digit(b) || (0x61 <= b <= 0x66) || (0x41 <= b <= 0x46)
}

/// Value of an ASCII hex digit.
pub open spec fn hex_val(b: u8) -> u8 {
    if is_digit(b) {
        (b - 0x30) as u8
    } else if 0x61 <= b <= 0x66 {
        (b - 0x57) as u8
    } else {
        (b - 0x37) as u8
    }
}

/// A decoded byte prepended to the content of a string-parse continuation.
pub open spec fn prepend(d: u8, r: Option<(Seq<u8>, int)>) -> Option<(Seq<u8>, int)> {
    match r {
        None => None,
        Some((s, e)) => Some((seq![d] + s, e)),
    }
}

/// Parses the body of a JSON string from position `i` (just after the
/// opening quote) to just after the closing quote, undoing escapes.
pub open spec fn sp_str_body(b: Seq<u8>, i: int) -> Option<(Seq<u8>, int)>
    decreases b.len() - i,
{
    if i < 0 || i >= b.len() {
        None
    } else if b[i] == 0x22 {
        Some((seq![], i + 1))
    } else if b[i] == 0x5c {
        if i + 2 > b.len() {
            None
        } else {
            let e = b[i + 1];
            if e == 0x22 || e == 0x5c || e == 0x2f {
                prepend(e, sp_str_body(b, i + 2))
            } else if e == 0x6e {
                prepend(0x0a, sp_str_body(b, i + 2))
            } else if e == 0x74 {
                prepend(0x09, sp_str_body(b, i + 2))
            } else if e == 0x72 {
                prepend(0x0d, sp_str_body(b, i + 2))
            } else if e == 0x62 {
                prepend(0x08, sp_str_body(b, i + 2))
            } else if e == 0x66 {
                prepend(0x0c, sp_str_body(b, i + 2))
            } else if e == 0x75 {
                if i + 6 <= b.len() && b[i + 2] == 0x30 && b[i + 3] == 0x30 && is_hex_byte(
                    b[i + 4],
                ) && is_hex_byte(b[i + 5]) && hex_val(b[i + 4]) < 8 {
                    prepend((hex_val(b[i + 4]) * 16 + hex_val(b[i + 5])) as u8, sp_str_body(b, i + 6))
                } else {
                    None
                }
            } else {
                None
            }
        }
    } else if b[i] < 0x20 {
        None
    } else {
        prepend(b[i], sp_str_body(b, i + 1))
    }
}

/// Parses a quoted JSON string at position `i`.
pub open spec fn sp_string(b: Seq<u8>, i: int) -> Option<(Seq<u8>, int)> {
    if 0 <= i < b.len() && b[i] == 0x22 {
        sp_str_body(b, i + 1)
    } else {
        None
    }
}

/// End of the run of decimal digits starting at `i`.
pub open spec fn digit_run_end(b: Seq<u8>, i: int) -> int
    decreases b.len() - i,
{
    if 0 <= i < b.len() && is_digit(b[i]) {
        digit_run_end(b, i + 1)
    } else {
        i
    }
}

/// The value of the digits in `[i, j)`, most significant first.
pub open spec fn digits_val(b: Seq<u8>, i: int, j: int) -> int
    decreases j - i,
{
    if j <= i {
        0
    } else {
        digits_val(b, i, j - 1) * 10 + (b[j - 1] - 0x30)
    }
}

/// Parses a status number: a run of one to five digits whose value fits a
/// `u16`.
pub open spec fn sp_u16(b: Seq<u8>, i: int) -> Option<(u16, int)> {
    let e = digit_run_end(b, i);
    if 1 <= e - i <= 5 && digits_val(b, i, e) <= 65535 {
        Some((digits_val(b, i, e) as u16, e))
    } else {
        None
    }
}

/// Parses the exact literal `lit` at position `i`.
pub open spec fn sp_lit(b: Seq<u8>, i: int, lit: Seq<u8>) -> Option<int> {
    if 0 <= i && i + lit.len() <= b.len() && b.subrange(i, i + lit.len()) == lit {
        Some(i + lit.len())
    } else {
        None
    }
}

/// Parses one `"name":"value"` pair.
pub open spec fn sp_pair(b: Seq<u8>, i: int) -> Option<((Seq<u8>, Seq<u8>), int)> {
    match sp_string(b, i) {
        None => None,
        Some((k, j)) => if 0 <= j < b.len() && b[j] == 0x3a {
            match sp_string(b, j + 1) {
                None => None,
                Some((v, e)) => Some(((k, v), e)),
            }
        } else {
            None
        },
    }
}

/// Parses the continuation of a header object after at least one pair:
/// either the closing brace, or a comma and a further pair.
pub open spec fn sp_pairs_rest(b: Seq<u8>, i: int) -> Option<(Seq<(Seq<u8>, Seq<u8>)>, int)>
    decreases b.len() - i,
{
    if !(0 <= i < b.len()) {
        None
    } else if b[i] == 0x7d {
        Some((seq![], i + 1))
    } else if b[i] == 0x2c {
        match sp_pair(b, i + 1) {
            None => None,
            Some((p, j)) => if i + 1 < j <= b.len() {
                match sp_pairs_rest(b, j) {
                    None => None,
                    Some((ps, e)) => Some((seq![p] + ps, e)),
                }
            } else {
                None
            },
        }
    } else {
        None
    }
}

/// Parses the inside of a header object, from just after the opening brace
/// to just after the closing brace.
pub open spec fn sp_headers_inner(b: Seq<u8>, i: int) -> Option<(Seq<(Seq<u8>, Seq<u8>)>, int)> {
    if !(0 <= i < b.len()) {
        None
    } else if b[i] == 0x7d {
        Some((seq![], i + 1))
    } else {
        match sp_pair(b, i) {
            None => None,
            Some((p, j)) => if i < j <= b.len() {
                match sp_pairs_rest(b, j) {
                    None => None,
                    Some((ps, e)) => Some((seq![p] + ps, e)),
                }
            } else {
                None
            },
        }
    }
}

/// Parses the error field: `null`, or an object with `code` and `message`.
pub open spec fn sp_error(b: Seq<u8>, i: int) -> Option<(Option<(Seq<u8>, Seq<u8>)>, int)> {
    match sp_lit(b, i, lit_null()) {
        Some(j) => Some((None, j)),
        None => match sp_lit(b, i, lit_code_key()) {
            None => None,
            Some(j1) => match sp_string(b, j1) {
                None => None,
                Some((c, j2)) => match sp_lit(b, j2, lit_message_key()) {
                    None => None,
                    Some(j3) => match sp_string(b, j3) {
                        None => None,
                        Some((m, j4)) => if 0 <= j4 < b.len() && b[j4] == 0x7d {
                            Some((Some((c, m)), j4 + 1))
                        } else {
                            None
                        },
                    },
                },
            },
        },
    }
}

/// The reference decoding of a whole fetch-result buffer.
pub open spec fn sp_result(b: Seq<u8>) -> Option<FetchResultView> {
    match sp_lit(b, 0, lit_status_key()) {
        None => None,
        Some(i1) => match sp_u16(b, i1) {
            None => None,
            Some((st, i2)) => match sp_lit(b, i2, lit_headers_key()) {
                None => None,
                Some(i3) => match sp_headers_inner(b, i3) {
                    None => None,
                    Some((hs, i4)) => match sp_lit(b, i4, lit_body_key()) {
                        None => None,
                        Some(i5) => match sp_string(b, i5) {
                            None => None,
                            Some((body, i6)) => match sp_lit(b, i6, lit_error_key()) {
                                None => None,
                                Some(i7) => match sp_error(b, i7) {
                                    None => None,
                                    Some((err, i8)) => if i8 + 1 == b.len() && 0 <= i8
                                        < b.len() && b[i8] == 0x7d {
                                        Some(
                                            FetchResultView {
                                                status: st,
                                                headers: hs,
                                                body,
                                                error: err,
                                            },
                                        )
                                    } else {
                                        None
                                    },
                                },
                            },
                        },
                    },
                },
            },
        },
    }
}

/// The bytes of `{"url":`.
pub open spec fn lit_url_key() -> Seq<u8> {
    seq![0x7bu8, 0x22u8, 0x75u8, 0x72u8, 0x6cu8, 0x22u8, 0x3au8]
}

/// The bytes of `,"method":`.
pub open spec fn lit_method_key() -> Seq<u8> {
    seq![0x2cu8, 0x22u8, 0x6du8, 0x65u8, 0x74u8, 0x68u8, 0x6fu8, 0x64u8, 0x22u8, 0x3au8]
}

/// The reference decoding of a whole fetch-request buffer: `url`, `method`
/// and `headers` are required, in that order; a trailing `body` is optional
/// and may be `null`.
pub open spec fn sp_request(b: Seq<u8>) -> Option<FetchRequestView> {
    match sp_lit(b, 0, lit_url_key()) {
        None => None,
        Some(i1) => match sp_string(b, i1) {
            None => None,
            Some((url, i2)) => match sp_lit(b, i2, lit_method_key()) {
                None => None,
                Some(i3) => match sp_string(b, i3) {
                    None => None,
                    Some((method, i4)) => match sp_lit(b, i4, lit_headers_key()) {
                        None => None,
                        Some(i5) => match sp_headers_inner(b, i5) {
                            None => None,
                            Some((hs, i6)) => if i6 + 1 == b.len() && 0 <= i6 < b.len() && b[i6]
                                == 0x7d {
                                Some(
                                    FetchRequestView {
                                        url,
                                        method,
                                        headers: hs,
                                        body: None,
                                    },
                                )
                            } else {
                                match sp_lit(b, i6, lit_body_key()) {
                                    None => None,
                                    Some(i7) => match sp_lit(b, i7, lit_null()) {
                                        Some(i8) => if i8 + 1 == b.len() && 0 <= i8 < b.len()
                                            && b[i8] == 0x7d {
                                            Some(
                                                FetchRequestView {
                                                    url,
                                                    method,
                                                    headers: hs,
                                                    body: None,
                                                },
                                            )
                                        } else {
                                            None
                                        },
                                        None => match sp_string(b, i7) {
                                            None => None,
                                            Some((body, i8)) => if i8 + 1 == b.len() && 0 <= i8
                                                < b.len() && b[i8] == 0x7d {
                                                Some(
                                                    FetchRequestView {
                                                        url,
                                                        method,
                                                        headers: hs,
                                                        body: Some(body),
                                                    },
                                                )
                                            } else {
                                                None
                                            },
                                        },
                                    },
                                }
                            },
                        },
                    },
                },
            },
        },
    }
}

// ---------------------------------------------------------------------------
// Executable decoder
// ---------------------------------------------------------------------------

/// A parsed prefix prepended to a string-parse continuation.
pub open spec fn prepend_seq(acc: Seq<u8>, r: Option<(Seq<u8>, int)>) -> Option<(Seq<u8>, int)> {
    match r {
        None => None,
        Some((s, e)) => Some((acc + s, e)),
    }
}

/// Prepending one decoded byte commutes with extending the parsed prefix.
proof fn lemma_prepend_push(acc: Seq<u8>, d: u8, r: Option<(Seq<u8>, int)>)
    ensures
        prepend_seq(acc, prepend(d, r)) == prepend_seq(acc.push(d), r),
{
    match r {
        None => {},
        Some((s, e)) => {
            assert(acc + (seq![d] + s) =~= acc.push(d) + s);
        },
    }
}

/// Value of an ASCII hex digit.
fn hex_val_exec(b: u8) -> (r: u8)
    requires
        is_hex_byte(b),
    ensures
        r == hex_val(b),
{
    if 0x30 <= b && b <= 0x39 {
        b - 0x30
    } else if 0x61 <= b && b <= 0x66 {
        b - 0x57
    } else {
        b - 0x37
    }
}

/// Parses a quoted string at `i`, returning its unescaped content and the
/// position after the closing quote; agrees exactly with [`sp_string`].
pub fn p_string(b: &Vec<u8>, i: usize) -> (r: Option<(Vec<u8>, usize)>)
    ensures
        r matches Some((s, e)) ==> sp_string(b@, i as int) == Some((s@, e as int)) && e
            <= b@.len(),
        r is None ==> sp_string(b@, i as int) is None,
{
    if i >= b.len() || b[i] != 0x22 {
        return None;
    }
    let start: usize = i + 1;
    let mut acc: Vec<u8> = Vec::new();
    let mut j: usize = start;
    loop
        invariant
            i < b@.len(),
            b@[i as int] == 0x22,
            start == i + 1,
            start <= j <= b@.len(),
            sp_str_body(b@, start as int) == prepend_seq(acc@, sp_str_body(b@, j as int)),
        decreases b@.len() - j as int,
    {
        if j >= b.len() {
            return None;
        }
        let c = b[j];
        if c == 0x22 {
            proof {
                assert(sp_str_body(b@, j as int) == Some((Seq::<u8>::empty(), j as int + 1)));
                assert(acc@ + Seq::<u8>::empty() =~= acc@);
            }
            return Some((acc, j + 1));
        } else if c == 0x5c {
            if b.len() - j < 2 {
                return None;
            }
            let e = b[j + 1];
            let d: u8;
            let step: usize;
            if e == 0x22 || e == 0x5c || e == 0x2f {
                d = e;
                step = 2;
            } else if e == 0x6e {
                d = 0x0a;
                step = 2;
            } else if e == 0x74 {
                d = 0x09;
                step = 2;
            } else if e == 0x72 {
                d = 0x0d;
                step = 2;
            } else if e == 0x62 {
                d = 0x08;
                step = 2;
            } else if e == 0x66 {
                d = 0x0c;
                step = 2;
            } else if e == 0x75 {
                if b.len() - j >= 6 && b[j + 2] == 0x30 && b[j + 3] == 0x30 && {
                    let h4 = b[j + 4];
                    let h5 = b[j + 5];
                    ((0x30 <= h4 && h4 <= 0x39) || (0x61 <= h4 && h4 <= 0x66) || (0x41 <= h4
                        && h4 <= 0x46)) && ((0x30 <= h5 && h5 <= 0x39) || (0x61 <= h5 && h5
                        <= 0x66) || (0x41 <= h5 && h5 <= 0x46))
                } {
                    let hv4 = hex_val_exec(b[j + 4]);
                    if hv4 < 8 {
                        let hv5 = hex_val_exec(b[j + 5]);
                        d = hv4 * 16 + hv5;
                        step = 6;
                    } else {
                        return None;
                    }
                } else {
                    return None;
                }
            } else {
                return None;
            }
            proof {
                assert(sp_str_body(b@, j as int) == prepend(d, sp_str_body(b@, j as int
                    + step as int)));
                lemma_prepend_push(acc@, d, sp_str_body(b@, j as int + step as int));
            }
            acc.push(d);
            j += step;
        } else if c < 0x20 {
            return None;
        } else {
            proof {
                assert(sp_str_body(b@, j as int) == prepend(c, sp_str_body(b@, j as int + 1)));
                lemma_prepend_push(acc@, c, sp_str_body(b@, j as int + 1));
            }
            acc.push(c);
            j += 1;
        }
    }
}

/// Powers of ten.
pub open spec fn pow10(n: nat) -> int
    decreases n,
{
    if n == 0 {
        1
    } else {
        10 * pow10((n - 1) as nat)
    }
}

/// Parses a status number at `i`; agrees exactly with [`sp_u16`].
pub fn p_u16(b: &Vec<u8>, i: usize) -> (r: Option<(u16, usize)>)
    ensures
        r matches Some((v, e)) ==> sp_u16(b@, i as int) == Some((v, e as int)) && i < e
            <= b@.len(),
        r is None ==> sp_u16(b@, i as int) is None,
{
    if i > b.len() {
        return None;
    }
    let mut e: usize = i;
    while e < b.len() && 0x30 <= b[e] && b[e] <= 0x39
        invariant
            i <= e <= b@.len(),
            digit_run_end(b@, i as int) == digit_run_end(b@, e as int),
        decreases b@.len() - e as int,
    {
        e += 1;
    }
    proof {
        assert(digit_run_end(b@, e as int) == e as int);
    }
    if e == i || e - i > 5 {
        return None;
    }
    let mut val: u32 = 0;
    let mut k: usize = i;
    while k < e
        invariant
            i <= k <= e <= b@.len(),
            e - i <= 5,
            digit_run_end(b@, i as int) == e as int,
            val as int == digits_val(b@, i as int, k as int),
            (val as int) < pow10((k - i) as nat),
        decreases e as int - k as int,
    {
        proof {
            assert(is_digit(b@[k as int])) by {
                lemma_run_digits(b@, i as int, e as int, k as int);
            }
            assert(pow10(((k - i) + 1) as nat) == 10 * pow10((k - i) as nat));
            lemma_pow10_le((k - i + 1) as nat, 5);
            lemma_pow10_concrete();
        }
        val = val * 10 + (b[k] - 0x30) as u32;
        k += 1;
    }
    if val > 65535 {
        return None;
    }
    Some((val as u16, e))
}

/// Every position inside a digit run holds a digit.
proof fn lemma_run_digits(b: Seq<u8>, i: int, e: int, k: int)
    requires
        i <= k < e,
        digit_run_end(b, i) == e,
    ensures
        is_digit(b[k]),
    decreases k - i,
{
    assert(0 <= i < b.len() && is_digit(b[i])) by {
        if !(0 <= i < b.len() && is_digit(b[i])) {
            assert(digit_run_end(b, i) == i);
        }
    }
    if k > i {
        lemma_run_digits(b, i + 1, e, k);
    }
}

/// Powers of ten are monotone.
proof fn lemma_pow10_le(a: nat, c: nat)
    requires
        a <= c,
    ensures
        pow10(a) <= pow10(c),
    decreases c,
{
    if a < c {
        lemma_pow10_le(a, (c - 1) as nat);
        assert(pow10(c) == 10 * pow10((c - 1) as nat));
        lemma_pow10_pos((c - 1) as nat);
    }
}

/// Small concrete powers of ten.
proof fn lemma_pow10_concrete()
    ensures
        pow10(0) == 1,
        pow10(1) == 10,
        pow10(2) == 100,
        pow10(3) == 1000,
        pow10(4) == 10000,
        pow10(5) == 100000,
{
    assert(pow10(0) == 1);
    assert(pow10(1) == 10);
    assert(pow10(2) == 100);
    assert(pow10(3) == 1000);
    assert(pow10(4) == 10000);
    assert(pow10(5) == 100000);
}

/// Powers of ten are positive.
proof fn lemma_pow10_pos(a: nat)
    ensures
        pow10(a) >= 1,
    decreases a,
{
    if a > 0 {
        lemma_pow10_pos((a - 1) as nat);
    }
}

/// Parses the exact literal at `i`; agrees exactly with [`sp_lit`].
pub fn p_lit(b: &Vec<u8>, i: usize, lit: &Vec<u8>) -> (r: Option<usize>)
    ensures
        r matches Some(e) ==> sp_lit(b@, i as int, lit@) == Some(e as int) && i <= e
            <= b@.len(),
        r is None ==> sp_lit(b@, i as int, lit@) is None,
{
    if i > b.len() || b.len() - i < lit.len() {
        return None;
    }
    let mut k: usize = 0;
    while k < lit.len()
        invariant
            i + lit@.len() <= b@.len(),
            k <= lit@.len(),
            forall|j: int| 0 <= j < k as int ==> b@[i + j] == lit@[j],
        decreases lit@.len() - k as int,
    {
        proof {
            assert(b.len() == b@.len());
            assert(i + k < b@.len());
        }
        if b[i + k] != lit[k] {
            proof {
                assert(b@.subrange(i as int, i as int + lit@.len() as int)[k as int]
                    != lit@[k as int]);
            }
            return None;
        }
        k += 1;
    }
    proof {
        assert(b@.subrange(i as int, i as int + lit@.len() as int) =~= lit@);
    }
    Some(i + lit.len())
}

/// Parses one header pair; agrees exactly with [`sp_pair`].
pub fn p_pair(b: &Vec<u8>, i: usize) -> (r: Option<((Vec<u8>, Vec<u8>), usize)>)
    ensures
        r matches Some((p, e)) ==> sp_pair(b@, i as int) == Some(((p.0@, p.1@), e as int))
            && i < e <= b@.len(),
        r is None ==> sp_pair(b@, i as int) is None,
{
    match p_string(b, i) {
        None => None,
        Some((k, j)) => {
            if j < b.len() && b[j] == 0x3a {
                match p_string(b, j + 1) {
                    None => None,
                    Some((v, e)) => {
                        proof {
                            lemma_sp_str_bounds(b@, i as int);
                            lemma_sp_str_bounds(b@, j as int + 1);
                        }
                        Some(((k, v), e))
                    },
                }
            } else {
                None
            }
        },
    }
}

/// A successful string parse always advances the position.
proof fn lemma_sp_str_bounds(b: Seq<u8>, i: int)
    ensures
        sp_string(b, i) matches Some((s, e)) ==> i < e <= b.len(),
{
    if 0 <= i < b.len() && b[i] == 0x22 {
        lemma_sp_body_bounds(b, i + 1);
    }
}

/// A successful string-body parse ends within the buffer, after its start.
proof fn lemma_sp_body_bounds(b: Seq<u8>, i: int)
    ensures
        sp_str_body(b, i) matches Some((s, e)) ==> i < e <= b.len(),
    decreases b.len() - i,
{
    if 0 <= i < b.len() {
        if b[i] == 0x22 {
        } else if b[i] == 0x5c {
            if i + 2 <= b.len() {
                lemma_sp_body_bounds(b, i + 2);
                if i + 6 <= b.len() {
                    lemma_sp_body_bounds(b, i + 6);
                }
            }
        } else {
            lemma_sp_body_bounds(b, i + 1);
        }
    }
}

/// Parses the inside of a header object; agrees exactly with
/// [`sp_headers_inner`].
pub fn p_headers_inner(b: &Vec<u8>, i: usize) -> (r: Option<(Vec<(Vec<u8>, Vec<u8>)>, usize)>)
    ensures
        r matches Some((hs, e)) ==> sp_headers_inner(b@, i as int) == Some((headers_view(hs@),
            e as int)) && e <= b@.len(),
        r is None ==> sp_headers_inner(b@, i as int) is None,
{
    if i >= b.len() {
        return None;
    }
    if b[i] == 0x7d {
        let hs: Vec<(Vec<u8>, Vec<u8>)> = Vec::new();
        proof {
            assert(headers_view(hs@) =~= Seq::<(Seq<u8>, Seq<u8>)>::empty());
        }
        return Some((hs, i + 1));
    }
    let first = match p_pair(b, i) {
        None => {
            return None;
        },
        Some(x) => x,
    };
    let mut hs: Vec<(Vec<u8>, Vec<u8>)> = Vec::new();
    hs.push(first.0);
    let mut j: usize = first.1;
    let ghost first_view = (first.0.0@, first.0.1@);
    proof {
        assert(headers_view(hs@) =~= seq![first_view]);
    }
    // From here the result is seq![first] + whatever sp_pairs_rest yields.
    loop
        invariant
            j <= b@.len(),
            hs@.len() >= 1,
            sp_headers_inner(b@, i as int) == prepend_pairs(headers_view(hs@), sp_pairs_rest(
                b@, j as int)),
        decreases b@.len() - j as int,
    {
        if j >= b.len() {
            return None;
        }
        let c = b[j];
        if c == 0x7d {
            proof {
                assert(sp_pairs_rest(b@, j as int) == Some((Seq::<(Seq<u8>, Seq<u8>)>::empty(),
                    j as int + 1)));
                assert(headers_view(hs@) + Seq::<(Seq<u8>, Seq<u8>)>::empty() =~= headers_view(
                    hs@,
                ));
            }
            return Some((hs, j + 1));
        } else if c == 0x2c {
            match p_pair(b, j + 1) {
                None => {
                    return None;
                },
                Some((p, j2)) => {
                    proof {
                        let pv = (p.0@, p.1@);
                        lemma_prepend_pairs_push(headers_view(hs@), pv, sp_pairs_rest(b@,
                            j2 as int));
                        assert(headers_view(hs@.push(p)) =~= headers_view(hs@).push(pv));
                    }
                    hs.push(p);
                    j = j2;
                },
            }
        } else {
            return None;
        }
    }
}

/// A parsed pair list prepended to a pairs-parse continuation.
pub open spec fn prepend_pairs(
    acc: Seq<(Seq<u8>, Seq<u8>)>,
    r: Option<(Seq<(Seq<u8>, Seq<u8>)>, int)>,
) -> Option<(Seq<(Seq<u8>, Seq<u8>)>, int)> {
    match r {
        None => None,
        Some((ps, e)) => Some((acc + ps, e)),
    }
}

/// Prepending one parsed pair commutes with extending the accumulated list.
proof fn lemma_prepend_pairs_push(
    acc: Seq<(Seq<u8>, Seq<u8>)>,
    p: (Seq<u8>, Seq<u8>),
    r: Option<(Seq<(Seq<u8>, Seq<u8>)>, int)>,
)
    ensures
        prepend_pairs(acc, match r {
            None => None,
            Some((ps, e)) => Some((seq![p] + ps, e)),
        }) == prepend_pairs(acc.push(p), r),
{
    match r {
        None => {},
        Some((ps, e)) => {
            assert(acc + (seq![p] + ps) =~= acc.push(p) + ps);
        },
    }
}

/// The `null` literal as a vector.
fn v_lit_null() -> (r: Vec<u8>)
    ensures
        r@ == lit_null(),
{
    let mut v: Vec<u8> = Vec::new();
    v.push(0x6e);
    v.push(0x75);
    v.push(0x6c);
    v.push(0x6c);
    proof {
        assert(v@ =~= lit_null());
    }
    v
}

/// The `{"code":` literal as a vector.
fn v_code_key() -> (r: Vec<u8>)
    ensures
        r@ == lit_code_key(),
{
    let mut v: Vec<u8> = Vec::new();
    v.push(0x7b);
    v.push(0x22);
    v.push(0x63);
    v.push(0x6f);
    v.push(0x64);
    v.push(0x65);
    v.push(0x22);
    v.push(0x3a);
    proof {
        assert(v@ =~= lit_code_key());
    }
    v
}

/// The `,"message":` literal as a vector.
fn v_message_key() -> (r: Vec<u8>)
    ensures
        r@ == lit_message_key(),
{
    let mut v: Vec<u8> = Vec::new();
    v.push(0x2c);
    v.push(0x22);
    v.push(0x6d);
    v.push(0x65);
    v.push(0x73);
    v.push(0x73);
    v.push(0x61);
    v.push(0x67);
    v.push(0x65);
    v.push(0x22);
    v.push(0x3a);
    proof {
        assert(v@ =~= lit_message_key());
    }
    v
}

/// The `{"status":` literal as a vector.
fn v_status_key() -> (r: Vec<u8>)
    ensures
        r@ == lit_status_key(),
{
    let mut v: Vec<u8> = Vec::new();
    v.push(0x7b);
    v.push(0x22);
    v.push(0x73);
    v.push(0x74);
    v.push(0x61);
    v.push(0x74);
    v.push(0x75);
    v.push(0x73);
    v.push(0x22);
    v.push(0x3a);
    proof {
        assert(v@ =~= lit_status_key());
    }
    v
}

/// The `,"headers":{` literal as a vector.
fn v_headers_key() -> (r: Vec<u8>)
    ensures
        r@ == lit_headers_key(),
{
    let mut v: Vec<u8> = Vec::new();
    v.push(0x2c);
    v.push(0x22);
    v.push(0x68);
    v.push(0x65);
    v.push(0x61);
    v.push(0x64);
    v.push(0x65);
    v.push(0x72);
    v.push(0x73);
    v.push(0x22);
    v.push(0x3a);
    v.push(0x7b);
    proof {
        assert(v@ =~= lit_headers_key());
    }
    v
}

/// The `,"body":` literal as a vector.
fn v_body_key() -> (r: Vec<u8>)
    ensures
        r@ == lit_body_key(),
{
    let mut v: Vec<u8> = Vec::new();
    v.push(0x2c);
    v.push(0x22);
    v.push(0x62);
    v.push(0x6f);
    v.push(0x64);
    v.push(0x79);
    v.push(0x22);
    v.push(0x3a);
    proof {
        assert(v@ =~= lit_body_key());
    }
    v
}

/// The `,"error":` literal as a vector.
fn v_error_key() -> (r: Vec<u8>)
    ensures
        r@ == lit_error_key(),
{
    let mut v: Vec<u8> = Vec::new();
    v.push(0x2c);
    v.push(0x22);
    v.push(0x65);
    v.push(0x72);
    v.push(0x72);
    v.push(0x6f);
    v.push(0x72);
    v.push(0x22);
    v.push(0x3a);
    proof {
        assert(v@ =~= lit_error_key());
    }
    v
}

/// The `{"url":` literal as a vector.
fn v_url_key() -> (r: Vec<u8>)
    ensures
        r@ == lit_url_key(),
{
    let mut v: Vec<u8> = Vec::new();
    v.push(0x7b);
    v.push(0x22);
    v.push(0x75);
    v.push(0x72);
    v.push(0x6c);
    v.push(0x22);
    v.push(0x3a);
    proof {
        assert(v@ =~= lit_url_key());
    }
    v
}

/// The `,"method":` literal as a vector.
fn v_method_key() -> (r: Vec<u8>)
    ensures
        r@ == lit_method_key(),
{
    let mut v: Vec<u8> = Vec::new();
    v.push(0x2c);
    v.push(0x22);
    v.push(0x6d);
    v.push(0x65);
    v.push(0x74);
    v.push(0x68);
    v.push(0x6f);
    v.push(0x64);
    v.push(0x22);
    v.push(0x3a);
    proof {
        assert(v@ =~= lit_method_key());
    }
    v
}

/// View of an optional error pair.
pub open spec fn err_view(e: Option<(Vec<u8>, Vec<u8>)>) -> Option<(Seq<u8>, Seq<u8>)> {
    match e {
        Some(p) => Some((p.0@, p.1@)),
        None => None,
    }
}

/// Parses the error field; agrees exactly with [`sp_error`].
pub fn p_error(b: &Vec<u8>, i: usize) -> (r: Option<(Option<(Vec<u8>, Vec<u8>)>, usize)>)
    ensures
        r matches Some((e, end)) ==> sp_error(b@, i as int) == Some((err_view(e), end as int))
            && end <= b@.len(),
        r is None ==> sp_error(b@, i as int) is None,
{
    let null_lit = v_lit_null();
    match p_lit(b, i, &null_lit) {
        Some(j) => Some((None, j)),
        None => {
            let code_key = v_code_key();
            match p_lit(b, i, &code_key) {
                None => None,
                Some(j1) => match p_string(b, j1) {
                    None => None,
                    Some((c, j2)) => {
                        let message_key = v_message_key();
                        match p_lit(b, j2, &message_key) {
                            None => None,
                            Some(j3) => match p_string(b, j3) {
                                None => None,
                                Some((m, j4)) => {
                                    if j4 < b.len() && b[j4] == 0x7d {
                                        Some((Some((c, m)), j4 + 1))
                                    } else {
                                        None
                                    }
                                },
                            },
                        }
                    },
                },
            }
        },
    }
}

/// Decodes a whole fetch-result buffer; agrees exactly with [`sp_result`].
/// This is the reference decoder for the host-to-guest direction.
pub fn decode_fetch_result(b: &Vec<u8>) -> (r: Option<FetchResult>)
    ensures
        r matches Some(fr) ==> sp_result(b@) == Some(fr@),
        r is None ==> sp_result(b@) is None,
{
    let status_key = v_status_key();
    let i1 = match p_lit(b, 0, &status_key) {
        None => {
            return None;
        },
        Some(x) => x,
    };
    let (st, i2) = match p_u16(b, i1) {
        None => {
            return None;
        },
        Some(x) => x,
    };
    let headers_key = v_headers_key();
    let i3 = match p_lit(b, i2, &headers_key) {
        None => {
            return None;
        },
        Some(x) => x,
    };
    let (hs, i4) = match p_headers_inner(b, i3) {
        None => {
            return None;
        },
        Some(x) => x,
    };
    let body_key = v_body_key();
    let i5 = match p_lit(b, i4, &body_key) {
        None => {
            return None;
        },
        Some(x) => x,
    };
    let (body, i6) = match p_string(b, i5) {
        None => {
            return None;
        },
        Some(x) => x,
    };
    let error_key = v_error_key();
    let i7 = match p_lit(b, i6, &error_key) {
        None => {
            return None;
        },
        Some(x) => x,
    };
    let (err, i8) = match p_error(b, i7) {
        None => {
            return None;
        },
        Some(x) => x,
    };
    if i8 < b.len() && b[i8] == 0x7d && i8 + 1 == b.len() {
        let error = match err {
            None => None,
            Some((code, message)) => Some(FetchError { code, message }),
        };
        let fr = FetchResult { status: st, headers: hs, body, error };
        proof {
            assert(sp_result(b@) == Some(fr@));
        }
        Some(fr)
    } else {
        None
    }
}

/// Decodes a whole fetch-request buffer; agrees exactly with
/// [`sp_request`]. This is the host-side decoder for the guest-to-host
/// direction.
pub fn parse_fetch_request(b: &Vec<u8>) -> (r: Option<FetchRequest>)
    ensures
        r matches Some(fr) ==> sp_request(b@) == Some(fr@),
        r is None ==> sp_request(b@) is None,
{
    let url_key = v_url_key();
    let i1 = match p_lit(b, 0, &url_key) {
        None => {
            return None;
        },
        Some(x) => x,
    };
    let (url, i2) = match p_string(b, i1) {
        None => {
            return None;
        },
        Some(x) => x,
    };
    let method_key = v_method_key();
    let i3 = match p_lit(b, i2, &method_key) {
        None => {
            return None;
        },
        Some(x) => x,
    };
    let (method, i4) = match p_string(b, i3) {
        None => {
            return None;
        },
        Some(x) => x,
    };
    let headers_key = v_headers_key();
    let i5 = match p_lit(b, i4, &headers_key) {
        None => {
            return None;
        },
        Some(x) => x,
    };
    let (headers, i6) = match p_headers_inner(b, i5) {
        None => {
            return None;
        },
        Some(x) => x,
    };
    if i6 < b.len() && b[i6] == 0x7d && i6 + 1 == b.len() {
        let fr = FetchRequest { url, method, headers, body: None };
        proof {
            assert(sp_request(b@) == Some(fr@));
        }
        return Some(fr);
    }
    let body_key = v_body_key();
    let i7 = match p_lit(b, i6, &body_key) {
        None => {
            return None;
        },
        Some(x) => x,
    };
    let null_lit = v_lit_null();
    match p_lit(b, i7, &null_lit) {
        Some(i8) => {
            if i8 < b.len() && b[i8] == 0x7d && i8 + 1 == b.len() {
                let fr = FetchRequest { url, method, headers, body: None };
                proof {
                    assert(sp_request(b@) == Some(fr@));
                }
                Some(fr)
            } else {
                None
            }
        },
        None => {
            match p_string(b, i7) {
                None => None,
                Some((body, i8)) => {
                    if i8 < b.len() && b[i8] == 0x7d && i8 + 1 == b.len() {
                        let fr = FetchRequest { url, method, headers, body: Some(body) };
                        proof {
                            assert(sp_request(b@) == Some(fr@));
                        }
                        Some(fr)
                    } else {
                        None
                    }
                },
            }
        },
    }
}

} // verus!
