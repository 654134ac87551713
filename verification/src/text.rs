//! Byte-level text utilities shared by the capability bridge and the result
//! envelope: ASCII case folding, decimal rendering, and the bridge between
//! UTF-8 byte streams and owned strings.
//!
//! Guest-supplied text crosses the memory boundary as raw bytes, so the
//! library works on `Vec<u8>` and converts to `String` only at the edge,
//! through [`utf8_to_string`].

use vstd::prelude::*;
use vstd::string::StringSliceAdditionalSpecFns;
use vstd::utf8::*;

verus! {

/// True when every byte is in the ASCII range.
pub open spec fn ascii_seq(b: Seq<u8>) -> bool {
    forall|i: int| 0 <= i < b.len() ==> b[i] < 0x80
}

/// The characters spelled by a sequence of ASCII bytes.
pub open spec fn ascii_chars(b: Seq<u8>) -> Seq<char> {
    b.map_values(|x: u8| x as char)
}

/// ASCII bytes form valid UTF-8 and decode to themselves, character for
/// character.
pub proof fn lemma_ascii_decode(b: Seq<u8>)
    requires
        ascii_seq(b),
    ensures
        valid_utf8(b),
        decode_utf8(b) == ascii_chars(b),
        encode_utf8(ascii_chars(b)) == b,
{
    let chars = ascii_chars(b);
    assert forall|i: int| 0 <= i < chars.len() implies '\0' <= #[trigger] chars[i] <= '\u{7f}'
    by {
        assert(chars[i] == b[i] as char);
    }
    assert(is_ascii_chars(chars));
    is_ascii_chars_encode_utf8(chars);
    assert(encode_utf8(chars) =~= b);
    encode_utf8_decode_utf8(chars);
    encode_utf8_valid_utf8(chars);
}

/// Relies on `String::from_utf8`: it succeeds exactly when the bytes are
/// valid UTF-8, and then yields the string whose characters are the decoding
/// of those bytes.
#[verifier::external_body]
pub fn utf8_to_string(bytes: &Vec<u8>) -> (r: Option<String>)
    ensures
        r is Some <==> valid_utf8(bytes@),
        r matches Some(s) ==> s@ == decode_utf8(bytes@),
{
    String::from_utf8(bytes.clone()).ok()
}

/// The UTF-8 bytes of a string slice, as an owned vector.
pub fn bytes_of_str(s: &str) -> (r: Vec<u8>)
    ensures
        r@ == encode_utf8(s@),
{
    vstd::slice::slice_to_vec(s.as_bytes())
}

/// The concatenation of two strings, stated over their character views.
pub fn str_concat(a: &str, b: &str) -> (r: String)
    ensures
        r@ == a@ + b@,
{
    proof {
        encode_utf8_valid_utf8(a@);
        encode_utf8_valid_utf8(b@);
        vstd::utf8::valid_utf8_concat(a.spec_bytes(), b.spec_bytes());
        lemma_encode_utf8_concat(a@, b@);
        encode_utf8_decode_utf8(a@ + b@);
    }
    let mut bytes = vstd::slice::slice_to_vec(a.as_bytes());
    bytes.extend_from_slice(b.as_bytes());
    assert(bytes@ == encode_utf8(a@ + b@));
    let r = utf8_to_string(&bytes);
    match r {
        Some(s) => s,
        None => {
            proof {
                assert(false);
            }
            String::new()
        },
    }
}

/// UTF-8 encoding distributes over concatenation of character sequences.
pub proof fn lemma_encode_utf8_concat(c1: Seq<char>, c2: Seq<char>)
    ensures
        encode_utf8(c1 + c2) == encode_utf8(c1) + encode_utf8(c2),
    decreases c1.len(),
{
    if c1.len() == 0 {
        assert(c1 + c2 =~= c2);
        assert(encode_utf8(c1) + encode_utf8(c2) =~= encode_utf8(c2));
    } else {
        assert((c1 + c2).drop_first() =~= c1.drop_first() + c2);
        lemma_encode_utf8_concat(c1.drop_first(), c2);
        assert(encode_utf8(c1 + c2) =~= encode_utf8(c1) + encode_utf8(c2));
    }
}

/// One byte mapped to upper case: ASCII lower-case letters are raised, every
/// other byte is left alone.
pub open spec fn upper_byte(b: u8) -> u8 {
    if 0x61 <= b <= 0x7a {
        (b - 0x20) as u8
    } else {
        b
    }
}

/// A byte sequence mapped to ASCII upper case.
pub open spec fn upper_bytes(s: Seq<u8>) -> Seq<u8> {
    s.map_values(|b: u8| upper_byte(b))
}

/// ASCII upper-casing of a byte string.
pub fn ascii_upper(s: &Vec<u8>) -> (r: Vec<u8>)
    ensures
        r@ == upper_bytes(s@),
{
    let mut out: Vec<u8> = Vec::new();
    let mut i: usize = 0;
    while i < s.len()
        invariant
            i <= s@.len(),
            out@.len() == i,
            forall|j: int| 0 <= j < i as int ==> out@[j] == upper_byte(s@[j]),
        decreases s@.len() - i as int,
    {
        let b = s[i];
        if 0x61 <= b && b <= 0x7a {
            out.push(b - 0x20);
        } else {
            out.push(b);
        }
        i += 1;
    }
    proof {
        assert(out@ =~= upper_bytes(s@));
    }
    out
}


/// ASCII upper-casing preserves UTF-8 validity: only bytes below `0x80`
/// change, they stay below `0x80`, and every byte of a multi-byte scalar
/// is `0x80` or above, so the scalar structure of the sequence is
/// untouched.
pub proof fn lemma_upper_valid_utf8(s: Seq<u8>)
    requires
        valid_utf8(s),
    ensures
        valid_utf8(upper_bytes(s)),
    decreases s.len(),
{
    if s.len() != 0 {
        let u = upper_bytes(s);
        assert(u.len() == s.len());
        assert(forall|i: int| 0 <= i < s.len() ==> #[trigger] u[i] == upper_byte(s[i]));
        let w = length_of_first_scalar(s);
        if is_leading_byte_width_1(s[0]) {
            assert(u[0] == upper_byte(s[0]));
            assert(is_leading_byte_width_1(u[0]));
            assert(length_of_first_scalar(u) == 1);
            let b0 = u[0];
            assert((b0 & 0x7f) <= 0x7f) by (bit_vector);
            assert(decode_first_codepoint(u) == (b0 & 0x7f) as u32);
            assert(not_surrogate(decode_first_codepoint(u)));
            assert(not_overlong_encoding(decode_first_codepoint(u), 1));
            assert(valid_first_scalar(u));
        } else if is_leading_byte_width_2(s[0]) {
            assert(u[0] == s[0] && u[1] == s[1]);
            assert(length_of_first_scalar(u) == 2);
            assert(decode_first_codepoint(u) == decode_first_codepoint(s));
            assert(valid_first_scalar(u));
        } else if is_leading_byte_width_3(s[0]) {
            assert(u[0] == s[0] && u[1] == s[1] && u[2] == s[2]);
            assert(length_of_first_scalar(u) == 3);
            assert(decode_first_codepoint(u) == decode_first_codepoint(s));
            assert(valid_first_scalar(u));
        } else {
            assert(is_leading_byte_width_4(s[0]));
            assert(u[0] == s[0] && u[1] == s[1] && u[2] == s[2] && u[3] == s[3]);
            assert(length_of_first_scalar(u) == 4);
            assert(decode_first_codepoint(u) == decode_first_codepoint(s));
            assert(valid_first_scalar(u));
        }
        assert(length_of_first_scalar(u) == w);
        assert(1 <= w <= s.len());
        assert(pop_first_scalar(s).len() == s.len() - w);
        assert(pop_first_scalar(u) =~= upper_bytes(pop_first_scalar(s)));
        lemma_upper_valid_utf8(pop_first_scalar(s));
        assert(valid_utf8(pop_first_scalar(u)));
    }
}

/// The decimal digits of `n`, most significant first, as ASCII bytes.
pub open spec fn dec_digits(n: nat) -> Seq<u8>
    decreases n,
{
    if n < 10 {
        seq![(0x30 + n) as u8]
    } else {
        dec_digits(n / 10).push((0x30 + n % 10) as u8)
    }
}

/// The decimal rendering of a possibly negative integer, with a leading
/// minus sign for negative values.
pub open spec fn int_dec(i: int) -> Seq<u8> {
    if i < 0 {
        seq![0x2du8] + dec_digits((-i) as nat)
    } else {
        dec_digits(i as nat)
    }
}

/// Decimal digits are ASCII bytes.
pub proof fn lemma_dec_digits_ascii(n: nat)
    ensures
        ascii_seq(dec_digits(n)),
        dec_digits(n).len() >= 1,
    decreases n,
{
    if n >= 10 {
        lemma_dec_digits_ascii(n / 10);
    }
}

/// A decimal rendering is ASCII.
pub proof fn lemma_int_dec_ascii(i: int)
    ensures
        ascii_seq(int_dec(i)),
        int_dec(i).len() >= 1,
{
    if i < 0 {
        lemma_dec_digits_ascii((-i) as nat);
    } else {
        lemma_dec_digits_ascii(i as nat);
    }
}

/// Decimal rendering of an unsigned value.
pub fn u64_dec(n: u64) -> (r: Vec<u8>)
    ensures
        r@ == dec_digits(n as nat),
    decreases n,
{
    if n < 10 {
        let mut out: Vec<u8> = Vec::new();
        out.push(0x30 + n as u8);
        proof {
            assert(out@ =~= dec_digits(n as nat));
        }
        out
    } else {
        let mut out = u64_dec(n / 10);
        out.push(0x30 + (n % 10) as u8);
        out
    }
}

/// Decimal rendering of a signed 64-bit value, minus sign included.
pub fn i64_dec(i: i64) -> (r: Vec<u8>)
    ensures
        r@ == int_dec(i as int),
{
    if i < 0 {
        let m: u64 = ((-(i + 1)) as u64) + 1;
        assert(m as nat == (-(i as int)) as nat);
        let digits = u64_dec(m);
        let mut out: Vec<u8> = Vec::new();
        out.push(0x2d);
        let mut k: usize = 0;
        while k < digits.len()
            invariant
                k <= digits@.len(),
                out@ == seq![0x2du8] + digits@.subrange(0, k as int),
            decreases digits@.len() - k as int,
        {
            out.push(digits[k]);
            k += 1;
            proof {
                assert(out@ =~= seq![0x2du8] + digits@.subrange(0, k as int));
            }
        }
        proof {
            assert(digits@.subrange(0, digits@.len() as int) =~= digits@);
        }
        out
    } else {
        u64_dec(i as u64)
    }
}

} // verus!
