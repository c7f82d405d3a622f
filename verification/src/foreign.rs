//! Marshaling of text across the engine boundary: terminated byte buffers
//! going in, raw bytes coming back.
use vstd::prelude::*;
use vstd::string::*;
use vstd::utf8::*;
use crate::text::lemma_encoding_of_concat;

verus! {

/// Whether a byte sequence holds the terminator byte somewhere.
pub open spec fn has_nul(bytes: Seq<u8>) -> bool {
    exists|i: int| 0 <= i < bytes.len() && bytes[i] == 0u8
}

/// A buffer is terminated when its last byte, and no other, is the terminator.
pub open spec fn is_terminated(bytes: Seq<u8>) -> bool {
    &&& bytes.len() > 0
    &&& bytes[bytes.len() - 1] == 0u8
    &&& forall|i: int| 0 <= i < bytes.len() - 1 ==> bytes[i] != 0u8
}

/// A part of a text without terminator byte holds none either.
pub proof fn lemma_part_has_no_nul(text: Seq<char>, from: int, to: int)
    requires
        0 <= from <= to <= text.len(),
        !has_nul(encode_utf8(text)),
    ensures
        !has_nul(encode_utf8(text.subrange(from, to))),
{
    let before = text.subrange(0, from);
    let part = text.subrange(from, to);
    let after = text.subrange(to, text.len() as int);
    assert(text =~= before + (part + after));
    lemma_encoding_of_concat(part, after);
    lemma_encoding_of_concat(before, part + after);
    if has_nul(encode_utf8(part)) {
        let i = choose|i: int| 0 <= i < encode_utf8(part).len() && encode_utf8(part)[i] == 0u8;
        let j = encode_utf8(before).len() + i;
        assert(encode_utf8(text)[j] == 0u8);
    }
}

/// The reason a text cannot cross the boundary: it holds a terminator byte.
#[derive(Debug, PartialEq, Eq, Clone, Copy, Structural)]
pub struct NulError {
    /// Byte offset of the first terminator byte in the rejected text.
    pub position: usize,
}

impl NulError {
    /// A fixed description of the failure.
    pub fn message(&self) -> (r: String)
        ensures
            r@ == "nul byte found in provided data"@,
    {
        "nul byte found in provided data".to_owned()
    }
}

/// An owned, terminated copy of a text, fit to be handed to the engine.
pub struct ForeignString {
    bytes: Vec<u8>,
}

impl ForeignString {
    #[verifier::type_invariant]
    spec fn wf(&self) -> bool {
        is_terminated(self.bytes@)
    }

    /// The bytes of the buffer, terminator included.
    pub closed spec fn view(&self) -> Seq<u8> {
        self.bytes@
    }

    /// Copies `s` and appends the terminator. Fails exactly when `s` already
    /// holds a terminator byte, and then reports where the first one stands.
    pub fn new(s: &str) -> (r: Result<ForeignString, NulError>)
        ensures
            match r {
                Ok(f) => !has_nul(s.spec_bytes()) && f@ == s.spec_bytes().push(0u8),
                Err(e) => {
                    &&& e.position < s.spec_bytes().len()
                    &&& s.spec_bytes()[e.position as int] == 0u8
                    &&& forall|j: int| 0 <= j < e.position ==> s.spec_bytes()[j] != 0u8
                },
            },
    {
        let src = s.as_bytes();
        let mut bytes: Vec<u8> = Vec::new();
        let mut i: usize = 0;
        while i < src.len()
            invariant
                src@ == s.spec_bytes(),
                0 <= i <= src.len(),
                bytes@ == src@.subrange(0, i as int),
                forall|j: int| 0 <= j < i ==> src@[j] != 0u8,
            decreases src.len() - i,
        {
            let b = src[i];
            if b == 0 {
                return Err(NulError { position: i });
            }
            bytes.push(b);
            assert(bytes@ == src@.subrange(0, i + 1));
            i += 1;
        }
        assert(bytes@ == src@);
        bytes.push(0);
        Ok(ForeignString { bytes })
    }

    /// The buffer, terminator included.
    pub fn as_bytes_with_nul(&self) -> (r: &Vec<u8>)
        ensures
            r@ == self@,
            is_terminated(r@),
    {
        proof {
            use_type_invariant(self);
        }
        &self.bytes
    }

    /// The number of bytes before the terminator.
    pub fn len(&self) -> (r: usize)
        ensures
            r == self@.len() - 1,
            is_terminated(self@),
    {
        proof {
            use_type_invariant(self);
        }
        self.bytes.len() - 1
    }
}

/// Whether `s` holds a terminator byte.
pub fn contains_nul(s: &str) -> (r: bool)
    ensures
        r == has_nul(s.spec_bytes()),
{
    match ForeignString::new(s) {
        Ok(_) => false,
        Err(_) => true,
    }
}

/// Decoding of bytes that the engine handed back. Calls `str::from_utf8` of
/// the standard library, which checks that the bytes are valid UTF-8 and
/// then hands them out as text, unchanged; on any other input it fails.
/// The contract says so over `valid_utf8` and `decode_utf8`.
#[verifier::external_body]
pub(crate) fn decode_bytes(bytes: &Vec<u8>) -> (r: Option<String>)
    ensures
        r is Some <==> valid_utf8(bytes@),
        r matches Some(s) ==> s@ == decode_utf8(bytes@),
{
    match std::str::from_utf8(bytes) {
        Ok(text) => Some(text.to_owned()),
        Err(_) => None,
    }
}

/// The text that raw engine bytes stand for: their decoding where they are
/// valid UTF-8, and the empty text where they are not.
pub open spec fn text_or_empty(bytes: Seq<u8>) -> Seq<char> {
    if valid_utf8(bytes) {
        decode_utf8(bytes)
    } else {
        Seq::empty()
    }
}

/// Decodes raw engine bytes, giving the empty text where they are not valid
/// UTF-8.
pub fn from_foreign_or_empty(bytes: &Vec<u8>) -> (r: String)
    ensures
        r@ == text_or_empty(bytes@),
{
    match decode_bytes(bytes) {
        Some(s) => s,
        None => String::new(),
    }
}

/// Whether `buffer` is the terminated copy of `text`.
pub open spec fn is_buffer_of(buffer: ForeignString, text: &str) -> bool {
    buffer@ == text.spec_bytes().push(0u8)
}

} // verus!
