//! Canonical string form of a scripted guest's result value.
//!
//! The engine reports its evaluation result as one of a few primitive
//! shapes; this module turns each into the string the envelope carries:
//! strings pass through, integers and booleans are rendered, null and
//! undefined are literalized, and non-primitive results are reported
//! descriptively rather than serialized in full. Floating-point values are
//! rendered by the engine side and pass through here as text.

use vstd::prelude::*;
use crate::text;

verus! {

/// A primitive-or-described guest result value.
pub enum GuestValue {
    /// A string result.
    Str(String),
    /// An integer result.
    Int(i32),
    /// A boolean result.
    Bool(bool),
    /// A floating-point result, already rendered to text by the engine
    /// driver.
    Float(String),
    /// The null value.
    Null,
    /// The undefined value.
    Undefined,
    /// A non-primitive result: the engine's name for its type.
    Other(String),
}

/// The canonical string form of a guest value.
pub open spec fn spec_stringify(v: GuestValue) -> Seq<char> {
    match v {
        GuestValue::Str(s) => s@,
        GuestValue::Int(i) => text::ascii_chars(text::int_dec(i as int)),
        GuestValue::Bool(b) => if b {
            "true"@
        } else {
            "false"@
        },
        GuestValue::Float(s) => s@,
        GuestValue::Null => "null"@,
        GuestValue::Undefined => "undefined"@,
        GuestValue::Other(t) => "Execution resulted in a non-primitive type: "@ + t@,
    }
}

/// Renders a guest value to its canonical string form.
pub fn stringify_value(v: &GuestValue) -> (r: String)
    ensures
        r@ == spec_stringify(*v),
{
    match v {
        GuestValue::Str(s) => s.clone(),
        GuestValue::Int(i) => {
            let digits = text::i64_dec(*i as i64);
            proof {
                text::lemma_int_dec_ascii(*i as int);
                text::lemma_ascii_decode(digits@);
            }
            match text::utf8_to_string(&digits) {
                Some(s) => s,
                None => {
                    proof {
                        assert(false);
                    }
                    String::new()
                },
            }
        },
        GuestValue::Bool(b) => if *b {
            "true".to_owned()
        } else {
            "false".to_owned()
        },
        GuestValue::Float(s) => s.clone(),
        GuestValue::Null => "null".to_owned(),
        GuestValue::Undefined => "undefined".to_owned(),
        GuestValue::Other(t) => text::str_concat(
            "Execution resulted in a non-primitive type: ",
            t.as_str(),
        ),
    }
}

} // verus!
