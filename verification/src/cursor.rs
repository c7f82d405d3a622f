//! The decisions of the stepping protocols: what one engine reply adds to the
//! result, and where the cursor stands after it.
use vstd::prelude::*;
use vstd::string::*;
use crate::libvoikko::{voikko_sentence_type, voikko_token_type};
use crate::text::{char_count, char_slice};
use crate::voikko::{Sentence, SentenceType, Token, TokenType};

verus! {

/// The token kind that an engine classification stands for.
pub open spec fn token_kind(raw: voikko_token_type) -> TokenType {
    match raw {
        voikko_token_type::TOKEN_NONE => TokenType::Nothing,
        voikko_token_type::TOKEN_WORD => TokenType::Word,
        voikko_token_type::TOKEN_PUNCTUATION => TokenType::Punctuation,
        voikko_token_type::TOKEN_WHITESPACE => TokenType::Whitespace,
        voikko_token_type::TOKEN_UNKNOWN => TokenType::Unknown,
    }
}

/// The boundary class that an engine classification stands for.
pub open spec fn sentence_kind(raw: voikko_sentence_type) -> SentenceType {
    match raw {
        voikko_sentence_type::SENTENCE_NONE => SentenceType::Nothing,
        voikko_sentence_type::SENTENCE_NO_START => SentenceType::NoStart,
        voikko_sentence_type::SENTENCE_PROBABLE => SentenceType::Probable,
        voikko_sentence_type::SENTENCE_POSSIBLE => SentenceType::Possible,
    }
}

/// Converts an engine classification of a token.
pub fn token_type_of(raw: voikko_token_type) -> (r: TokenType)
    ensures
        r == token_kind(raw),
{
    match raw {
        voikko_token_type::TOKEN_NONE => TokenType::Nothing,
        voikko_token_type::TOKEN_WORD => TokenType::Word,
        voikko_token_type::TOKEN_PUNCTUATION => TokenType::Punctuation,
        voikko_token_type::TOKEN_WHITESPACE => TokenType::Whitespace,
        voikko_token_type::TOKEN_UNKNOWN => TokenType::Unknown,
    }
}

/// Converts an engine classification of a sentence boundary.
pub fn sentence_type_of(raw: voikko_sentence_type) -> (r: SentenceType)
    ensures
        r == sentence_kind(raw),
{
    match raw {
        voikko_sentence_type::SENTENCE_NONE => SentenceType::Nothing,
        voikko_sentence_type::SENTENCE_NO_START => SentenceType::NoStart,
        voikko_sentence_type::SENTENCE_PROBABLE => SentenceType::Probable,
        voikko_sentence_type::SENTENCE_POSSIBLE => SentenceType::Possible,
    }
}

/// Where a unit of `len` characters that starts at `offset` ends: at
/// `offset + len`, or at the end of the text if that comes first.
pub open spec fn unit_end(total: int, offset: int, len: int) -> int {
    if offset >= total {
        total
    } else if len <= total - offset {
        offset + len
    } else {
        total
    }
}

/// Where a unit that starts at `offset` begins: at `offset`, or at the end of
/// the text if that comes first.
pub open spec fn unit_start(total: int, offset: int) -> int {
    if offset >= total {
        total
    } else {
        offset
    }
}

/// Whether a token reply yields a token: its kind is not the sentinel, it
/// reports at least one character, and the cursor is inside the text.
pub open spec fn yields_token(
    text: Seq<char>,
    offset: int,
    raw: voikko_token_type,
    len: int,
) -> bool {
    token_kind(raw) != TokenType::Nothing && len > 0 && offset < text.len()
}

/// One step of tokenizing. The reply `(raw, len)` is the engine's answer for
/// the text from character `offset` on, with `len` counted in characters.
/// Gives the token and the cursor after it, or `None` where the scan ends.
pub fn token_step(text: &str, offset: usize, raw: voikko_token_type, len: usize) -> (r: Option<
    (Token, usize),
>)
    ensures
        r is Some <==> yields_token(text@, offset as int, raw, len as int),
        r matches Some((token, next)) ==> {
            &&& next == unit_end(text@.len() as int, offset as int, len as int)
            &&& token.token_text@ == text@.subrange(offset as int, next as int)
            &&& token.token_type == token_kind(raw)
        },
{
    let total = char_count(text);
    let kind = token_type_of(raw);
    if kind == TokenType::Nothing || len == 0 || offset >= total {
        return None;
    }
    let next = if len <= total - offset {
        offset + len
    } else {
        total
    };
    let token = Token::new(char_slice(text, offset, next), kind);
    Some((token, next))
}

/// Whether scanning for sentences goes on after a reply: the boundary class
/// is not the sentinel and the reply moved the cursor.
pub open spec fn sentence_continues(
    text: Seq<char>,
    offset: int,
    raw: voikko_sentence_type,
    len: int,
) -> bool {
    sentence_kind(raw) != SentenceType::Nothing && unit_end(text.len() as int, offset, len)
        > unit_start(text.len() as int, offset)
}

/// One step of sentence splitting. The reply `(raw, len)` is the engine's
/// answer for the text from character `offset` on, with `len` counted in
/// characters. Gives the sentence, which carries the class of the boundary
/// after it, the cursor after it, and whether the scan goes on.
pub fn sentence_step(text: &str, offset: usize, raw: voikko_sentence_type, len: usize) -> (r: (
    Sentence,
    usize,
    bool,
))
    ensures
        r.1 == unit_end(text@.len() as int, offset as int, len as int),
        r.0.spec_text() == text@.subrange(
            unit_start(text@.len() as int, offset as int),
            r.1 as int,
        ),
        r.0.spec_next_start_type() == sentence_kind(raw),
        r.2 == sentence_continues(text@, offset as int, raw, len as int),
{
    let total = char_count(text);
    let kind = sentence_type_of(raw);
    let start = if offset >= total {
        total
    } else {
        offset
    };
    let next = if len <= total - start {
        start + len
    } else {
        total
    };
    let sentence = Sentence::new(char_slice(text, start, next), kind);
    (sentence, next, kind != SentenceType::Nothing && next > start)
}

/// Where scanning for grammar errors resumes after an error at `start_pos`
/// of `length` characters: behind the error, if that is representable and
/// lies behind `offset`, the place the scan came from.
pub open spec fn resume_offset(offset: int, start_pos: int, length: int) -> Option<int> {
    if offset < start_pos + length <= usize::MAX {
        Some(start_pos + length)
    } else {
        None
    }
}

/// One step of scanning for grammar errors: the offset to hand to the engine
/// next, or `None` where the reported error does not move the scan forward.
pub fn next_offset(offset: usize, start_pos: usize, length: usize) -> (r: Option<usize>)
    ensures
        match r {
            Some(next) => resume_offset(offset as int, start_pos as int, length as int) == Some(
                next as int,
            ),
            None => resume_offset(offset as int, start_pos as int, length as int) is None,
        },
{
    if length > usize::MAX - start_pos {
        return None;
    }
    let next = start_pos + length;
    if next > offset {
        Some(next)
    } else {
        None
    }
}

} // verus!
