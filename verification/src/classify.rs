//! Payload classification: the guest kind is determined solely by the URL's
//! file suffix, before any download work begins. Exactly two suffixes are
//! recognized; every other URL is rejected up front.

use vstd::prelude::*;
use crate::errors::AppError;

verus! {

/// The two recognized guest kinds.
pub enum CodeType {
    JavaScript,
    WebAssembly,
}

/// True when `s` ends with `suffix`.
pub open spec fn ends_with(s: Seq<u8>, suffix: Seq<u8>) -> bool {
    s.len() >= suffix.len() && s.subrange(s.len() - suffix.len(), s.len() as int) == suffix
}

/// The `.js` suffix as bytes.
pub open spec fn js_suffix() -> Seq<u8> {
    seq![0x2eu8, 0x6au8, 0x73u8]
}

/// The `.wasm` suffix as bytes.
pub open spec fn wasm_suffix() -> Seq<u8> {
    seq![0x2eu8, 0x77u8, 0x61u8, 0x73u8, 0x6du8]
}

/// The classification rule: `.js` means a scripted guest, `.wasm` a
/// compiled-module guest, anything else is unsupported.
pub open spec fn spec_classify(url: Seq<u8>) -> Option<CodeType> {
    if ends_with(url, js_suffix()) {
        Some(CodeType::JavaScript)
    } else if ends_with(url, wasm_suffix()) {
        Some(CodeType::WebAssembly)
    } else {
        None
    }
}

/// Checks whether the URL bytes end with the given suffix.
fn ends_with_exec(url: &Vec<u8>, suffix: &Vec<u8>) -> (r: bool)
    ensures
        r == ends_with(url@, suffix@),
{
    if url.len() < suffix.len() {
        return false;
    }
    let base: usize = url.len() - suffix.len();
    let mut i: usize = 0;
    while i < suffix.len()
        invariant
            url@.len() >= suffix@.len(),
            base == url@.len() - suffix@.len(),
            i <= suffix@.len(),
            forall|j: int| 0 <= j < i as int ==> url@[base + j] == suffix@[j],
        decreases suffix@.len() - i as int,
    {
        proof {
            assert(url.len() == url@.len());
            assert(base + i < url@.len());
        }
        if url[base + i] != suffix[i] {
            assert(url@.subrange(url@.len() - suffix@.len(), url@.len() as int)[i as int]
                != suffix@[i as int]);
            return false;
        }
        i += 1;
    }
    proof {
        assert(url@.subrange(url@.len() - suffix@.len(), url@.len() as int) =~= suffix@);
    }
    true
}

/// Classifies a payload URL by its suffix, rejecting unrecognized suffixes
/// with the internal error the service reports before any download is
/// attempted.
pub fn classify_code(url: &Vec<u8>) -> (r: Result<CodeType, AppError>)
    ensures
        match r {
            Ok(ct) => spec_classify(url@) == Some(ct),
            Err(e) => {
                &&& spec_classify(url@) is None
                &&& e matches AppError::Internal(m)
                &&& m@ == "Unsupported file extension. Only .js and .wasm are supported."@
            },
        },
{
    let mut js: Vec<u8> = Vec::new();
    js.push(0x2e);
    js.push(0x6a);
    js.push(0x73);
    let mut wasm: Vec<u8> = Vec::new();
    wasm.push(0x2e);
    wasm.push(0x77);
    wasm.push(0x61);
    wasm.push(0x73);
    wasm.push(0x6d);
    proof {
        assert(js@ =~= js_suffix());
        assert(wasm@ =~= wasm_suffix());
    }
    if ends_with_exec(url, &js) {
        Ok(CodeType::JavaScript)
    } else if ends_with_exec(url, &wasm) {
        Ok(CodeType::WebAssembly)
    } else {
        Err(AppError::Internal(
            "Unsupported file extension. Only .js and .wasm are supported.".to_owned(),
        ))
    }
}

/// The canonical name of a guest kind, as reported in execution metadata.
pub fn code_type_name(ct: &CodeType) -> (r: String)
    ensures
        match *ct {
            CodeType::JavaScript => r@ == "javascript"@,
            CodeType::WebAssembly => r@ == "webassembly"@,
        },
{
    match ct {
        CodeType::JavaScript => "javascript".to_owned(),
        CodeType::WebAssembly => "webassembly".to_owned(),
    }
}

} // verus!
