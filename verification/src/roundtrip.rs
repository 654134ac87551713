//! Round-trip correctness of the wire protocol: a fetch result serialized
//! by the encoder and read back by the reference decoder reproduces the
//! original status, headers, body and error fields exactly.

use vstd::prelude::*;
use crate::text::dec_digits;
use crate::wire::esc_byte;
use crate::wire::escape_bytes;
use crate::wire::quoted;
use crate::wire::enc_header;
use crate::wire::enc_headers_rest;
use crate::wire::enc_headers_all;
use crate::wire::enc_error;
use crate::wire::encode_result;
use crate::wire::hex_digit;
use crate::wire::lit_status_key;
use crate::wire::lit_headers_key;
use crate::wire::lit_body_key;
use crate::wire::lit_error_key;
use crate::wire::lit_null;
use crate::wire::lit_code_key;
use crate::wire::lit_message_key;
use crate::wire::FetchResultView;
use crate::decode::is_digit;
use crate::decode::is_hex_byte;
use crate::decode::hex_val;
use crate::decode::prepend;
use crate::decode::sp_str_body;
use crate::decode::sp_string;
use crate::decode::digit_run_end;
use crate::decode::digits_val;
use crate::decode::sp_u16;
use crate::decode::sp_lit;
use crate::decode::sp_pair;
use crate::decode::sp_pairs_rest;
use crate::decode::sp_headers_inner;
use crate::decode::sp_error;
use crate::decode::sp_result;

verus! {

/// `s` occurs in `b` at position `i`.
pub open spec fn sub_at(b: Seq<u8>, i: int, s: Seq<u8>) -> bool {
    0 <= i && i + s.len() <= b.len() && b.subrange(i, i + s.len()) == s
}

/// An occurrence of a concatenation splits into occurrences of its parts.
proof fn lemma_sub_at_split(b: Seq<u8>, i: int, s1: Seq<u8>, s2: Seq<u8>)
    requires
        sub_at(b, i, s1 + s2),
    ensures
        sub_at(b, i, s1),
        sub_at(b, i + s1.len(), s2),
{
    assert forall|k: int| 0 <= k < s1.len() implies b[i + k] == s1[k] by {
        assert(b.subrange(i, i + (s1 + s2).len() as int)[k] == (s1 + s2)[k]);
    }
    assert forall|k: int| 0 <= k < s2.len() implies b[i + s1.len() + k] == s2[k] by {
        assert(b.subrange(i, i + (s1 + s2).len() as int)[s1.len() + k] == (s1 + s2)[s1.len()
            + k]);
    }
    assert(b.subrange(i, i + s1.len()) =~= s1);
    assert(b.subrange(i + s1.len(), i + s1.len() + s2.len()) =~= s2);
}

/// A byte inside an occurrence equals the corresponding pattern byte.
proof fn lemma_sub_at_index(b: Seq<u8>, i: int, s: Seq<u8>, k: int)
    requires
        sub_at(b, i, s),
        0 <= k < s.len(),
    ensures
        b[i + k] == s[k],
{
    assert(b.subrange(i, i + s.len())[k] == s[k]);
}

/// Hex digits decode back to their value.
proof fn lemma_hex_digit_rt(x: u8)
    requires
        x < 16,
    ensures
        is_hex_byte(hex_digit(x)),
        hex_val(hex_digit(x)) == x,
{
}

/// Reading an escaped byte string back from a buffer yields the original
/// bytes and stops at the closing quote.
proof fn lemma_escape_rt(s: Seq<u8>, b: Seq<u8>, i: int)
    requires
        sub_at(b, i, escape_bytes(s) + seq![0x22u8]),
    ensures
        sp_str_body(b, i) == Some((s, i + escape_bytes(s).len() + 1)),
    decreases s.len(),
{
    if s.len() == 0 {
        assert(escape_bytes(s) =~= Seq::<u8>::empty());
        assert(escape_bytes(s) + seq![0x22u8] =~= seq![0x22u8]);
        lemma_sub_at_index(b, i, escape_bytes(s) + seq![0x22u8], 0);
        assert(b[i] == 0x22);
        assert(sp_str_body(b, i) == Some((Seq::<u8>::empty(), i + 1)));
        assert(Seq::<u8>::empty() =~= s);
    } else {
        let c = s[0];
        let e0 = esc_byte(c);
        let rest = escape_bytes(s.drop_first());
        assert(escape_bytes(s) == e0 + rest);
        assert(escape_bytes(s) + seq![0x22u8] =~= e0 + (rest + seq![0x22u8]));
        lemma_sub_at_split(b, i, e0, rest + seq![0x22u8]);
        lemma_escape_rt(s.drop_first(), b, i + e0.len());
        let after = sp_str_body(b, i + e0.len());
        assert(after == Some((s.drop_first(), i + e0.len() + rest.len() + 1)));
        assert(e0.len() + rest.len() == escape_bytes(s).len());
        // Establish the bytes the parser inspects.
        if c == 0x22 || c == 0x5c {
            assert(e0 =~= seq![0x5cu8, c]);
            lemma_sub_at_index(b, i, e0, 0);
            lemma_sub_at_index(b, i, e0, 1);
            assert(b[i + 0] == 0x5c && b[i + 1] == c);
            assert(b[i] == 0x5c);
            assert(sp_str_body(b, i) == prepend(c, after));
        } else if c == 0x0a {
            assert(e0 =~= seq![0x5cu8, 0x6eu8]);
            lemma_sub_at_index(b, i, e0, 0);
            lemma_sub_at_index(b, i, e0, 1);
            assert(b[i + 0] == 0x5c && b[i + 1] == 0x6e);
            assert(b[i] == 0x5c);
            assert(sp_str_body(b, i) == prepend(c, after));
        } else if c == 0x09 {
            assert(e0 =~= seq![0x5cu8, 0x74u8]);
            lemma_sub_at_index(b, i, e0, 0);
            lemma_sub_at_index(b, i, e0, 1);
            assert(b[i + 0] == 0x5c && b[i + 1] == 0x74);
            assert(b[i] == 0x5c);
            assert(sp_str_body(b, i) == prepend(c, after));
        } else if c == 0x0d {
            assert(e0 =~= seq![0x5cu8, 0x72u8]);
            lemma_sub_at_index(b, i, e0, 0);
            lemma_sub_at_index(b, i, e0, 1);
            assert(b[i + 0] == 0x5c && b[i + 1] == 0x72);
            assert(b[i] == 0x5c);
            assert(sp_str_body(b, i) == prepend(c, after));
        } else if c == 0x08 {
            assert(e0 =~= seq![0x5cu8, 0x62u8]);
            lemma_sub_at_index(b, i, e0, 0);
            lemma_sub_at_index(b, i, e0, 1);
            assert(b[i + 0] == 0x5c && b[i + 1] == 0x62);
            assert(b[i] == 0x5c);
            assert(sp_str_body(b, i) == prepend(c, after));
        } else if c == 0x0c {
            assert(e0 =~= seq![0x5cu8, 0x66u8]);
            lemma_sub_at_index(b, i, e0, 0);
            lemma_sub_at_index(b, i, e0, 1);
            assert(b[i + 0] == 0x5c && b[i + 1] == 0x66);
            assert(b[i] == 0x5c);
            assert(sp_str_body(b, i) == prepend(c, after));
        } else if c < 0x20 {
            assert(e0 =~= seq![0x5cu8, 0x75u8, 0x30u8, 0x30u8, hex_digit(c / 16), hex_digit(
                c % 16,
            )]);
            lemma_sub_at_index(b, i, e0, 0);
            lemma_sub_at_index(b, i, e0, 1);
            lemma_sub_at_index(b, i, e0, 2);
            lemma_sub_at_index(b, i, e0, 3);
            lemma_sub_at_index(b, i, e0, 4);
            lemma_sub_at_index(b, i, e0, 5);
            assert(b[i + 0] == 0x5c && b[i + 1] == 0x75 && b[i + 2] == 0x30 && b[i + 3]
                == 0x30);
            assert(b[i] == 0x5c);
            assert(b[i + 4] == hex_digit(c / 16) && b[i + 5] == hex_digit(c % 16));
            lemma_hex_digit_rt(c / 16);
            lemma_hex_digit_rt(c % 16);
            assert(hex_val(b[i + 4]) == c / 16 && hex_val(b[i + 5]) == c % 16);
            assert(c / 16 < 2);
            assert(hex_val(b[i + 4]) * 16 + hex_val(b[i + 5]) == c);
            assert(sp_str_body(b, i) == prepend(c, after));
        } else {
            assert(e0 =~= seq![c]);
            lemma_sub_at_index(b, i, e0, 0);
            assert(b[i + 0] == c);
            assert(b[i] == c);
            assert(c != 0x22 && c != 0x5c && !(c < 0x20));
            assert(sp_str_body(b, i) == prepend(c, after));
        }
        assert(seq![c] + s.drop_first() =~= s);
    }
}

/// Reading a quoted string back yields the original bytes.
proof fn lemma_string_rt(s: Seq<u8>, b: Seq<u8>, i: int)
    requires
        sub_at(b, i, quoted(s)),
    ensures
        sp_string(b, i) == Some((s, i + quoted(s).len())),
{
    assert(quoted(s) =~= seq![0x22u8] + (escape_bytes(s) + seq![0x22u8]));
    lemma_sub_at_split(b, i, seq![0x22u8], escape_bytes(s) + seq![0x22u8]);
    lemma_sub_at_index(b, i, seq![0x22u8], 0);
    assert(b[i] == 0x22);
    lemma_escape_rt(s, b, i + 1);
    assert(quoted(s).len() == escape_bytes(s).len() + 2);
}

/// Every byte of a decimal rendering is a digit.
proof fn lemma_dec_digits_are_digits(n: nat)
    ensures
        forall|k: int| 0 <= k < dec_digits(n).len() ==> is_digit(#[trigger] dec_digits(n)[k]),
    decreases n,
{
    if n >= 10 {
        lemma_dec_digits_are_digits(n / 10);
        assert forall|k: int| 0 <= k < dec_digits(n).len() implies is_digit(
            #[trigger] dec_digits(n)[k],
        ) by {
            if k < dec_digits(n / 10).len() {
                assert(dec_digits(n)[k] == dec_digits(n / 10)[k]);
            } else {
                assert(dec_digits(n)[k] == (0x30 + n % 10) as u8);
            }
        }
    }
}

/// The length of a decimal rendering, by magnitude.
proof fn lemma_dec_len(n: nat)
    ensures
        dec_digits(n).len() >= 1,
        n <= 9 ==> dec_digits(n).len() == 1,
        n <= 99 ==> dec_digits(n).len() <= 2,
        n <= 999 ==> dec_digits(n).len() <= 3,
        n <= 9999 ==> dec_digits(n).len() <= 4,
        n <= 99999 ==> dec_digits(n).len() <= 5,
    decreases n,
{
    if n >= 10 {
        lemma_dec_len(n / 10);
    }
}

/// A run of digits followed by a non-digit ends the digit scan exactly at
/// the non-digit.
proof fn lemma_run_end(b: Seq<u8>, k: int, end: int)
    requires
        0 <= k <= end <= b.len(),
        forall|j: int| k <= j < end ==> is_digit(#[trigger] b[j]),
        end == b.len() || !is_digit(b[end]),
    ensures
        digit_run_end(b, k) == end,
    decreases end - k,
{
    if k < end {
        assert(is_digit(b[k]));
        lemma_run_end(b, k + 1, end);
    }
}

/// Reading back the decimal rendering of `n` yields `n`.
proof fn lemma_digits_val_rt(n: nat, b: Seq<u8>, i: int)
    requires
        sub_at(b, i, dec_digits(n)),
    ensures
        digits_val(b, i, i + dec_digits(n).len()) == n,
    decreases n,
{
    if n < 10 {
        lemma_sub_at_index(b, i, dec_digits(n), 0);
        assert(b[i] == (0x30 + n) as u8);
        assert(digits_val(b, i, i + 1) == digits_val(b, i, i) * 10 + (b[i] - 0x30));
    } else {
        let prefix = dec_digits(n / 10);
        assert(dec_digits(n) =~= prefix + seq![(0x30 + n % 10) as u8]);
        lemma_sub_at_split(b, i, prefix, seq![(0x30 + n % 10) as u8]);
        lemma_digits_val_rt(n / 10, b, i);
        lemma_sub_at_index(b, i + prefix.len(), seq![(0x30 + n % 10) as u8], 0);
        let l = dec_digits(n).len();
        assert(b[i + l - 1] == (0x30 + n % 10) as u8);
        assert(digits_val(b, i, i + l) == digits_val(b, i, i + l - 1) * 10 + (b[i + l - 1]
            - 0x30));
        assert(digits_val(b, i, i + l - 1) == n / 10);
    }
}

/// Reading back a status number yields the number and stops at the first
/// non-digit.
proof fn lemma_u16_rt(n: nat, b: Seq<u8>, i: int)
    requires
        n <= 65535,
        sub_at(b, i, dec_digits(n)),
        i + dec_digits(n).len() == b.len() || !is_digit(b[i + dec_digits(n).len()]),
    ensures
        sp_u16(b, i) == Some((n as u16, i + dec_digits(n).len())),
{
    let l = dec_digits(n).len();
    lemma_dec_digits_are_digits(n);
    assert forall|j: int| i <= j < i + l implies is_digit(#[trigger] b[j]) by {
        lemma_sub_at_index(b, i, dec_digits(n), j - i);
    }
    lemma_run_end(b, i, i + l);
    lemma_dec_len(n);
    lemma_digits_val_rt(n, b, i);
}

/// Reading back one encoded header pair yields the pair.
proof fn lemma_pair_rt(h: (Seq<u8>, Seq<u8>), b: Seq<u8>, i: int)
    requires
        sub_at(b, i, enc_header(h)),
    ensures
        sp_pair(b, i) == Some((h, i + enc_header(h).len())),
{
    assert(enc_header(h) =~= quoted(h.0) + (seq![0x3au8] + quoted(h.1)));
    lemma_sub_at_split(b, i, quoted(h.0), seq![0x3au8] + quoted(h.1));
    let j = i + quoted(h.0).len();
    lemma_sub_at_split(b, j, seq![0x3au8], quoted(h.1));
    lemma_string_rt(h.0, b, i);
    lemma_sub_at_index(b, j, seq![0x3au8], 0);
    assert(b[j] == 0x3a);
    lemma_string_rt(h.1, b, j + 1);
    assert((h.0, h.1) == h);
}

/// Reading back the encoded continuation of a header list yields the
/// remaining pairs and consumes the closing brace.
proof fn lemma_pairs_rest_rt(hs: Seq<(Seq<u8>, Seq<u8>)>, b: Seq<u8>, i: int)
    requires
        sub_at(b, i, enc_headers_rest(hs) + seq![0x7du8]),
    ensures
        sp_pairs_rest(b, i) == Some((hs, i + enc_headers_rest(hs).len() + 1)),
    decreases hs.len(),
{
    if hs.len() == 0 {
        assert(enc_headers_rest(hs) =~= Seq::<u8>::empty());
        assert(enc_headers_rest(hs) + seq![0x7du8] =~= seq![0x7du8]);
        lemma_sub_at_index(b, i, enc_headers_rest(hs) + seq![0x7du8], 0);
        assert(b[i] == 0x7d);
        assert(hs =~= Seq::<(Seq<u8>, Seq<u8>)>::empty());
    } else {
        let h0 = hs[0];
        let rest = enc_headers_rest(hs.drop_first());
        assert(enc_headers_rest(hs) == seq![0x2cu8] + enc_header(h0) + rest);
        assert(enc_headers_rest(hs) + seq![0x7du8] =~= seq![0x2cu8] + (enc_header(h0) + (rest
            + seq![0x7du8])));
        lemma_sub_at_split(b, i, seq![0x2cu8], enc_header(h0) + (rest + seq![0x7du8]));
        lemma_sub_at_index(b, i, seq![0x2cu8], 0);
        assert(b[i] == 0x2c);
        lemma_sub_at_split(b, i + 1, enc_header(h0), rest + seq![0x7du8]);
        lemma_pair_rt(h0, b, i + 1);
        let j = i + 1 + enc_header(h0).len();
        lemma_pairs_rest_rt(hs.drop_first(), b, j);
        assert(seq![h0] + hs.drop_first() =~= hs);
    }
}

/// Reading back an encoded header object yields the header list.
proof fn lemma_headers_rt(hs: Seq<(Seq<u8>, Seq<u8>)>, b: Seq<u8>, i: int)
    requires
        sub_at(b, i, enc_headers_all(hs) + seq![0x7du8]),
    ensures
        sp_headers_inner(b, i) == Some((hs, i + enc_headers_all(hs).len() + 1)),
{
    if hs.len() == 0 {
        assert(enc_headers_all(hs) =~= Seq::<u8>::empty());
        assert(enc_headers_all(hs) + seq![0x7du8] =~= seq![0x7du8]);
        lemma_sub_at_index(b, i, enc_headers_all(hs) + seq![0x7du8], 0);
        assert(b[i] == 0x7d);
        assert(hs =~= Seq::<(Seq<u8>, Seq<u8>)>::empty());
    } else {
        let h0 = hs[0];
        let rest = enc_headers_rest(hs.drop_first());
        assert(enc_headers_all(hs) == enc_header(h0) + rest);
        assert(enc_headers_all(hs) + seq![0x7du8] =~= enc_header(h0) + (rest + seq![0x7du8]));
        lemma_sub_at_split(b, i, enc_header(h0), rest + seq![0x7du8]);
        assert(enc_header(h0) =~= quoted(h0.0) + (seq![0x3au8] + quoted(h0.1)));
        lemma_sub_at_index(b, i, enc_header(h0), 0);
        assert(b[i] == 0x22);
        lemma_pair_rt(h0, b, i);
        let j = i + enc_header(h0).len();
        lemma_pairs_rest_rt(hs.drop_first(), b, j);
        assert(seq![h0] + hs.drop_first() =~= hs);
    }
}

/// Reading back an encoded error field yields the descriptor.
proof fn lemma_error_rt(e: Option<(Seq<u8>, Seq<u8>)>, b: Seq<u8>, i: int)
    requires
        sub_at(b, i, enc_error(e)),
    ensures
        sp_error(b, i) == Some((e, i + enc_error(e).len())),
{
    match e {
        None => {
            assert(enc_error(e) == lit_null());
        },
        Some((c, m)) => {
            assert(enc_error(e) =~= lit_code_key() + (quoted(c) + (lit_message_key() + (quoted(
                m,
            ) + seq![0x7du8]))));
            lemma_sub_at_split(b, i, lit_code_key(), quoted(c) + (lit_message_key() + (quoted(
                m,
            ) + seq![0x7du8])));
            lemma_sub_at_index(b, i, lit_code_key(), 0);
            assert(b[i] == 0x7b);
            // The null branch cannot match: its first byte differs.
            assert(sp_lit(b, i, lit_null()) is None) by {
                if sp_lit(b, i, lit_null()) is Some {
                    assert(b.subrange(i, i + lit_null().len())[0] == lit_null()[0]);
                }
            }
            let j1 = i + lit_code_key().len();
            lemma_sub_at_split(b, j1, quoted(c), lit_message_key() + (quoted(m) + seq![
                0x7du8,
            ]));
            lemma_string_rt(c, b, j1);
            let j2 = j1 + quoted(c).len();
            lemma_sub_at_split(b, j2, lit_message_key(), quoted(m) + seq![0x7du8]);
            let j3 = j2 + lit_message_key().len();
            lemma_sub_at_split(b, j3, quoted(m), seq![0x7du8]);
            lemma_string_rt(m, b, j3);
            let j4 = j3 + quoted(m).len();
            lemma_sub_at_index(b, j4, seq![0x7du8], 0);
            assert(b[j4] == 0x7d);
        },
    }
}

/// Joining two adjacent occurrences gives an occurrence of the
/// concatenation.
proof fn lemma_sub_at_join(b: Seq<u8>, i: int, s1: Seq<u8>, s2: Seq<u8>)
    requires
        sub_at(b, i, s1),
        sub_at(b, i + s1.len(), s2),
    ensures
        sub_at(b, i, s1 + s2),
{
    assert forall|k: int| 0 <= k < (s1 + s2).len() implies b[i + k] == (s1 + s2)[k] by {
        if k < s1.len() {
            assert(b.subrange(i, i + s1.len())[k] == s1[k]);
        } else {
            assert(b.subrange(i + s1.len(), i + s1.len() + s2.len())[k - s1.len()] == s2[k
                - s1.len()]);
        }
    }
    assert(b.subrange(i, i + (s1 + s2).len()) =~= s1 + s2);
}

/// Offset of the status digits in an encoded result.
pub open spec fn off_status(v: FetchResultView) -> int {
    lit_status_key().len() as int
}

/// Offset of the `,"headers":{` literal.
pub open spec fn off_headers_key(v: FetchResultView) -> int {
    off_status(v) + dec_digits(v.status as nat).len()
}

/// Offset of the header pairs.
pub open spec fn off_headers(v: FetchResultView) -> int {
    off_headers_key(v) + lit_headers_key().len()
}

/// Offset of the `,"body":` literal.
pub open spec fn off_body_key(v: FetchResultView) -> int {
    off_headers(v) + enc_headers_all(v.headers).len() + 1
}

/// Offset of the body string.
pub open spec fn off_body(v: FetchResultView) -> int {
    off_body_key(v) + lit_body_key().len()
}

/// Offset of the `,"error":` literal.
pub open spec fn off_error_key(v: FetchResultView) -> int {
    off_body(v) + quoted(v.body).len()
}

/// Offset of the error field.
pub open spec fn off_error(v: FetchResultView) -> int {
    off_error_key(v) + lit_error_key().len()
}

/// Offset of the closing brace.
pub open spec fn off_close(v: FetchResultView) -> int {
    off_error(v) + enc_error(v.error).len()
}

/// Each piece of an encoded result occurs at its computed offset.
#[verifier::rlimit(100)]
#[verifier::spinoff_prover]
proof fn lemma_encode_pieces(v: FetchResultView)
    ensures
        sub_at(encode_result(v), 0, lit_status_key()),
        sub_at(encode_result(v), off_status(v), dec_digits(v.status as nat)),
        sub_at(encode_result(v), off_headers_key(v), lit_headers_key()),
        sub_at(encode_result(v), off_headers(v), enc_headers_all(v.headers) + seq![0x7du8]),
        sub_at(encode_result(v), off_body_key(v), lit_body_key()),
        sub_at(encode_result(v), off_body(v), quoted(v.body)),
        sub_at(encode_result(v), off_error_key(v), lit_error_key()),
        sub_at(encode_result(v), off_error(v), enc_error(v.error)),
        sub_at(encode_result(v), off_close(v), seq![0x7du8]),
        off_close(v) + 1 == encode_result(v).len(),
{
    let b = encode_result(v);
    let p1 = lit_status_key();
    let p2 = dec_digits(v.status as nat);
    let p3 = lit_headers_key();
    let p4 = enc_headers_all(v.headers);
    let p5 = seq![0x7du8];
    let p6 = lit_body_key();
    let p7 = quoted(v.body);
    let p8 = lit_error_key();
    let p9 = enc_error(v.error);
    let p10 = seq![0x7du8];
    let t2 = p1 + p2;
    let t3 = t2 + p3;
    let t4 = t3 + p4;
    let t5 = t4 + p5;
    let t6 = t5 + p6;
    let t7 = t6 + p7;
    let t8 = t7 + p8;
    let t9 = t8 + p9;
    let t10 = t9 + p10;
    assert(b == t10);
    assert(b.subrange(0, b.len() as int) =~= b);
    assert(sub_at(b, 0, t10));
    lemma_sub_at_split(b, 0, t9, p10);
    lemma_sub_at_split(b, 0, t8, p9);
    lemma_sub_at_split(b, 0, t7, p8);
    lemma_sub_at_split(b, 0, t6, p7);
    lemma_sub_at_split(b, 0, t5, p6);
    lemma_sub_at_split(b, 0, t4, p5);
    lemma_sub_at_split(b, 0, t3, p4);
    lemma_sub_at_split(b, 0, t2, p3);
    lemma_sub_at_split(b, 0, p1, p2);
    lemma_sub_at_join(b, off_headers(v), p4, p5);
}

/// The round-trip law for the wire protocol: decoding an encoded fetch
/// result with the reference decoder yields exactly the original status,
/// headers, body and error fields.
#[verifier::rlimit(100)]
#[verifier::spinoff_prover]
pub proof fn lemma_result_roundtrip(v: FetchResultView)
    ensures
        sp_result(encode_result(v)) == Some(v),
{
    let b = encode_result(v);
    lemma_encode_pieces(v);
    let i1 = off_status(v);
    let i2 = off_headers_key(v);
    let i3 = off_headers(v);
    let i4 = off_body_key(v);
    let i5 = off_body(v);
    let i6 = off_error_key(v);
    let i7 = off_error(v);
    let i8 = off_close(v);
    assert(sp_lit(b, 0, lit_status_key()) == Some(i1));
    lemma_sub_at_index(b, i2, lit_headers_key(), 0);
    assert(b[i2 + 0] == 0x2c);
    assert(!is_digit(b[i2]));
    lemma_u16_rt(v.status as nat, b, i1);
    assert(sp_u16(b, i1) == Some((v.status, i2)));
    assert(sp_lit(b, i2, lit_headers_key()) == Some(i3));
    lemma_headers_rt(v.headers, b, i3);
    assert(sp_headers_inner(b, i3) == Some((v.headers, i4)));
    assert(sp_lit(b, i4, lit_body_key()) == Some(i5));
    lemma_string_rt(v.body, b, i5);
    assert(sp_string(b, i5) == Some((v.body, i6)));
    assert(sp_lit(b, i6, lit_error_key()) == Some(i7));
    lemma_error_rt(v.error, b, i7);
    assert(sp_error(b, i7) == Some((v.error, i8)));
    lemma_sub_at_index(b, i8, seq![0x7du8], 0);
    assert(b[i8 + 0] == 0x7d);
    assert(b[i8] == 0x7d);
    assert(i8 + 1 == b.len());
    assert(sp_result(b) == Some(
        FetchResultView { status: v.status, headers: v.headers, body: v.body, error: v.error },
    ));
    assert(FetchResultView {
        status: v.status,
        headers: v.headers,
        body: v.body,
        error: v.error,
    } == v);
}

} // verus!
