use vstd::prelude::*;
use vstd::string::StringSliceAdditionalSpecFns;
use vstd::utf8::{decode_utf8, valid_utf8};

verus! {

/// The 32-byte record of `s`: its first `min(len, size)` bytes, then zeros.
pub open spec fn fixed_bytes_of(s: Seq<u8>, size: nat) -> Seq<u8> {
    Seq::new(32, |i: int| if i < s.len() && i < size { s[i] } else { 0u8 })
}

/// Copies the UTF-8 bytes of `s` into a zero-filled 32-byte array, keeping at
/// most `size` of them.
pub fn string_to_fixed_bytes(s: &str, size: usize) -> (r: [u8; 32])
    requires
        size <= 32 || s.spec_bytes().len() <= 32,
    ensures
        r@ == fixed_bytes_of(s.spec_bytes(), size as nat),
{
    let mut bytes = [0u8; 32];
    let string_bytes = s.as_bytes();
    let len: usize = if string_bytes.len() < size { string_bytes.len() } else { size };
    let mut i: usize = 0;
    while i < len
        invariant
            i <= len,
            len <= size,
            len <= string_bytes@.len(),
            len <= 32,
            string_bytes@ == s.spec_bytes(),
            forall|j: int| 0 <= j < i ==> bytes@[j] == string_bytes@[j],
            forall|j: int| i <= j < 32 ==> bytes@[j] == 0u8,
        decreases len - i,
    {
        bytes[i] = string_bytes[i];
        i = i + 1;
    }
    assert(bytes@ =~= fixed_bytes_of(s.spec_bytes(), size as nat));
    bytes
}

/// Relies on `String::from_utf8`: it succeeds exactly on valid UTF-8, and the
/// string then holds the characters those bytes encode.
#[verifier::external_body]
fn string_from_utf8(v: Vec<u8>) -> (r: Option<String>)
    ensures
        r is Some <==> valid_utf8(v@),
        r is Some ==> r->0@ == decode_utf8(v@),
{
    String::from_utf8(v).ok()
}

/// Reads a byte record back as text.
pub fn fixed_bytes_to_string(bytes: &[u8]) -> (r: String)
    requires
        valid_utf8(bytes@),
    ensures
        r@ == decode_utf8(bytes@),
{
    let v = vstd::slice::slice_to_vec(bytes);
    match string_from_utf8(v) {
        Some(s) => s,
        None => String::new(),
    }
}

} // verus!
