//! The caller-facing session type and the values it hands out.
use vstd::prelude::*;
use vstd::string::*;
use vstd::utf8::*;
use crate::analysis::Analysis;
use crate::cursor::{
    sentence_kind, sentence_step, token_kind, token_step, unit_end, yields_token,
};
use crate::foreign::{
    contains_nul, has_nul, is_buffer_of, lemma_part_has_no_nul, text_or_empty, ForeignString,
    NulError,
};
use crate::hyphenation::{apply_mask, grapheme_clusters, hyphenate_with_mask};
use crate::libvoikko;
use crate::libvoikko::{
    are_analyses_of, flag, is_accepted, is_hyphenated_outcome, is_init_outcome, is_mask_outcome,
    is_finished_scan, is_scan_result, is_stuck_scan, offsets_increase, scan_gets_stuck,
    voikko_sentence_type, voikko_token_type, Engine, GrammarScanError,
};
use crate::text::{
    char_count, char_slice, joined, joined_prefix, lemma_joined_prefix_agrees, lemma_joined_push,
};

verus! {

/// Information about an available dictionary.
#[derive(Debug, PartialEq, Eq)]
pub struct Dictionary {
    pub language: String,
    pub script: String,
    pub variant: String,
    pub description: String,
}

impl Dictionary {
    /// A descriptor with copies of the four texts.
    #[must_use]
    pub fn new(language: &str, script: &str, variant: &str, description: &str) -> (r: Dictionary)
        ensures
            r.language@ == language@,
            r.script@ == script@,
            r.variant@ == variant@,
            r.description@ == description@,
    {
        Dictionary {
            language: language.to_owned(),
            script: script.to_owned(),
            variant: variant.to_owned(),
            description: description.to_owned(),
        }
    }
}

/// A spell check return value.
#[derive(Debug, PartialEq, Eq, Clone, Copy, Structural)]
pub enum SpellReturn {
    /// Incorrect spelling
    SpellFailed,
    /// Correct spelling
    SpellOk,
    /// The engine answered with a code it does not document
    InternalError,
    /// The engine failed to convert character sets
    CharsetConversionFailed,
}

/// The classification of an engine spelling code: 0 is a failed check, 1 a
/// passed one, 3 a failed character set conversion, and every other code an
/// internal error.
pub open spec fn spell_return(code: int) -> SpellReturn {
    if code == 0 {
        SpellReturn::SpellFailed
    } else if code == 1 {
        SpellReturn::SpellOk
    } else if code == 3 {
        SpellReturn::CharsetConversionFailed
    } else {
        SpellReturn::InternalError
    }
}

impl SpellReturn {
    /// Classifies an engine spelling code.
    pub fn from_code(code: isize) -> (r: SpellReturn)
        ensures
            r == spell_return(code as int),
    {
        if code == 0 {
            SpellReturn::SpellFailed
        } else if code == 1 {
            SpellReturn::SpellOk
        } else if code == 3 {
            SpellReturn::CharsetConversionFailed
        } else {
            SpellReturn::InternalError
        }
    }
}

/// Kind of a token.
#[derive(Debug, PartialEq, Eq, Clone, Copy, Structural)]
pub enum TokenType {
    /// No token: the end of the text, or an error
    Nothing,
    Word,
    Punctuation,
    Whitespace,
    Unknown,
}

/// Tokenization unit.
#[derive(Debug, PartialEq, Eq)]
pub struct Token {
    /// Text of the token
    pub token_text: String,
    /// Type of the token
    pub token_type: TokenType,
}

impl Token {
    /// A token with a copy of `token_text`.
    pub fn new(token_text: &str, token_type: TokenType) -> (r: Token)
        ensures
            r.token_text@ == token_text@,
            r.token_type == token_type,
    {
        Token { token_text: token_text.to_owned(), token_type }
    }
}

/// What the engine thinks of the boundary that follows a sentence.
#[derive(Debug, PartialEq, Eq, Clone, Copy, Structural)]
pub enum SentenceType {
    /// End of text reached or error.
    Nothing,
    /// This is not a start of a new sentence.
    NoStart,
    /// This is a probable start of a new sentence.
    Probable,
    /// This may be a start of a new sentence.
    Possible,
}

/// A sentence, with the class of the boundary after it.
#[derive(Debug, PartialEq, Eq)]
pub struct Sentence {
    text: String,
    next_start_type: SentenceType,
}

impl Sentence {
    /// The characters of the sentence.
    pub closed spec fn spec_text(&self) -> Seq<char> {
        self.text@
    }

    /// The class of the boundary after the sentence.
    pub closed spec fn spec_next_start_type(&self) -> SentenceType {
        self.next_start_type
    }

    /// A sentence with a copy of `sentence_text`.
    pub fn new(sentence_text: &str, sentence_type: SentenceType) -> (r: Sentence)
        ensures
            r.spec_text() == sentence_text@,
            r.spec_next_start_type() == sentence_type,
    {
        Sentence { text: sentence_text.to_owned(), next_start_type: sentence_type }
    }

    /// Text of the sentence.
    pub fn text(&self) -> (r: &str)
        ensures
            r@ == self.spec_text(),
    {
        self.text.as_str()
    }

    /// The class of the boundary after the sentence.
    pub fn next_start_type(&self) -> (r: SentenceType)
        ensures
            r == self.spec_next_start_type(),
    {
        self.next_start_type
    }
}

/// Grammar error.
#[derive(Debug, PartialEq, Eq)]
pub struct GrammarError {
    /// Error code
    pub code: i32,
    /// Start position of the error in characters
    pub start_pos: usize,
    /// Length of the error in characters
    pub length: usize,
    /// A list of suggestions for correcting the grammar error
    pub suggestions: Vec<String>,
    /// A localized short description of the grammar error
    pub description: String,
}

/// Failure to open an engine session.
#[derive(Debug)]
pub struct InitError {
    message: String,
}

impl InitError {
    /// What the error says.
    pub closed spec fn view(&self) -> Seq<char> {
        self.message@
    }

    /// An error that says `message`.
    pub fn new(message: &str) -> (r: InitError)
        ensures
            r@ == message@,
    {
        InitError { message: message.to_owned() }
    }

    /// The error for a text that could not cross the engine boundary.
    pub fn from_nul_error(error: NulError) -> (r: InitError)
        ensures
            r@ == "nul byte found in provided data"@,
    {
        InitError { message: error.message() }
    }

    /// What the error says.
    pub fn message(&self) -> (r: &str)
        ensures
            r@ == self@,
    {
        self.message.as_str()
    }
}

/// Failure to hyphenate a word.
#[derive(Debug, PartialEq, Eq)]
pub struct HyphenateError {
    message: String,
}

impl HyphenateError {
    /// What the error says.
    pub closed spec fn view(&self) -> Seq<char> {
        self.message@
    }

    /// An error that says `message`.
    pub fn new(message: &str) -> (r: Self)
        ensures
            r@ == message@,
    {
        HyphenateError { message: message.to_owned() }
    }

    /// The error for a text that could not cross the engine boundary.
    pub fn from_nul_error(error: NulError) -> (r: Self)
        ensures
            r@ == "nul byte found in provided data"@,
    {
        HyphenateError { message: error.message() }
    }

    /// The error for an engine reply that is not valid UTF-8.
    pub fn from_invalid_utf8() -> (r: Self)
        ensures
            r@ == "invalid utf-8 sequence in engine reply"@,
    {
        HyphenateError { message: "invalid utf-8 sequence in engine reply".to_owned() }
    }

    /// What the error says.
    pub fn message(&self) -> (r: &str)
        ensures
            r@ == self@,
    {
        self.message.as_str()
    }
}

/// The texts of tokens, in order.
pub open spec fn token_texts(tokens: Seq<Token>) -> Seq<Seq<char>> {
    tokens.map_values(|t: Token| t.token_text@)
}

/// The texts of sentences, in order.
pub open spec fn sentence_texts(sentences: Seq<Sentence>) -> Seq<Seq<char>> {
    sentences.map_values(|s: Sentence| s.spec_text())
}

/// The character at which the token with index `i` starts: the number of
/// characters in the tokens before it.
pub open spec fn token_offset(tokens: Seq<Token>, i: int) -> int {
    joined_prefix(token_texts(tokens), i as nat).len() as int
}

/// Whether `reply` is an answer of the engine to a request for the token
/// that `text` has at character `offset`: the engine was handed the
/// terminated encoding of the text from there on.
pub open spec fn is_token_reply<E: Engine>(
    engine: &E,
    text: Seq<char>,
    offset: int,
    reply: (voikko_token_type, usize),
) -> bool {
    exists|buffer: ForeignString|
        {
            &&& buffer@ == encode_utf8(text.subrange(offset, text.len() as int)).push(0u8)
            &&& #[trigger] call_ensures(E::next_token_cstr, (engine, &buffer), reply)
        }
}

/// Whether `token` is what `reply` yields at character `offset`.
pub open spec fn is_token_of(
    text: Seq<char>,
    offset: int,
    reply: (voikko_token_type, usize),
    token: Token,
) -> bool {
    &&& yields_token(text, offset, reply.0, reply.1 as int)
    &&& token.token_text@ == text.subrange(
        offset,
        unit_end(text.len() as int, offset, reply.1 as int),
    )
    &&& token.token_type == token_kind(reply.0)
}

/// Whether the token with index `i` is what an engine reply at its place
/// yields.
pub open spec fn is_token_at<E: Engine>(
    engine: &E,
    text: Seq<char>,
    tokens: Seq<Token>,
    i: int,
) -> bool {
    exists|reply: (voikko_token_type, usize)|
        #[trigger] is_token_reply(engine, text, token_offset(tokens, i), reply) && is_token_of(
            text,
            token_offset(tokens, i),
            reply,
            tokens[i],
        )
}

/// Every token is what the engine's reply at the token's place yields.
pub open spec fn tokens_follow_replies<E: Engine>(
    engine: &E,
    text: Seq<char>,
    tokens: Seq<Token>,
) -> bool {
    forall|i: int| 0 <= i < tokens.len() ==> #[trigger] is_token_at(engine, text, tokens, i)
}

/// The tokens cover the text, or the engine's reply behind the last of them
/// yields no token.
pub open spec fn token_scan_ended<E: Engine>(
    engine: &E,
    text: Seq<char>,
    tokens: Seq<Token>,
) -> bool {
    ||| joined(token_texts(tokens)) == text
    ||| exists|reply: (voikko_token_type, usize)|
        #[trigger] is_token_reply(engine, text, token_offset(tokens, tokens.len() as int), reply)
            && !yields_token(
            text,
            token_offset(tokens, tokens.len() as int),
            reply.0,
            reply.1 as int,
        )
}

/// With an engine that yields a token wherever text is left, a finished
/// scan covers the text: the tokens joined are the text, without gap or
/// overlap.
pub proof fn lemma_tokens_cover_text<E: Engine>(engine: &E, text: Seq<char>, tokens: Seq<Token>)
    requires
        joined(token_texts(tokens)).is_prefix_of(text),
        token_scan_ended(engine, text, tokens),
        forall|offset: int, reply: (voikko_token_type, usize)|
            0 <= offset < text.len() && #[trigger] is_token_reply(engine, text, offset, reply)
                ==> yields_token(text, offset, reply.0, reply.1 as int),
    ensures
        joined(token_texts(tokens)) == text,
{
    let covered = joined(token_texts(tokens));
    if covered.len() < text.len() {
        assert(covered != text);
        assert(token_offset(tokens, tokens.len() as int) == covered.len());
    } else {
        assert(covered =~= text);
    }
}

/// The character at which the sentence with index `i` starts: the number of
/// characters in the sentences before it.
pub open spec fn sentence_offset(sentences: Seq<Sentence>, i: int) -> int {
    joined_prefix(sentence_texts(sentences), i as nat).len() as int
}

/// Whether `reply` is an answer of the engine to a request for the sentence
/// that `text` has at character `offset`: the engine was handed the
/// terminated encoding of the text from there on.
pub open spec fn is_sentence_reply<E: Engine>(
    engine: &E,
    text: Seq<char>,
    offset: int,
    reply: (voikko_sentence_type, usize),
) -> bool {
    exists|buffer: ForeignString|
        {
            &&& buffer@ == encode_utf8(text.subrange(offset, text.len() as int)).push(0u8)
            &&& #[trigger] call_ensures(E::next_sentence_start_cstr, (engine, &buffer), reply)
        }
}

/// Whether `sentence` is what `reply` gives at character `offset`.
pub open spec fn is_sentence_of(
    text: Seq<char>,
    offset: int,
    reply: (voikko_sentence_type, usize),
    sentence: Sentence,
) -> bool {
    &&& sentence.spec_text() == text.subrange(
        offset,
        unit_end(text.len() as int, offset, reply.1 as int),
    )
    &&& sentence.spec_next_start_type() == sentence_kind(reply.0)
}

/// Whether the sentence with index `i` is what an engine reply at its place
/// gives.
pub open spec fn is_sentence_at<E: Engine>(
    engine: &E,
    text: Seq<char>,
    sentences: Seq<Sentence>,
    i: int,
) -> bool {
    exists|reply: (voikko_sentence_type, usize)|
        #[trigger] is_sentence_reply(engine, text, sentence_offset(sentences, i), reply) && is_sentence_of(
            text,
            sentence_offset(sentences, i),
            reply,
            sentences[i],
        )
}

/// Every sentence is what the engine's reply at the sentence's place gives.
pub open spec fn sentences_follow_replies<E: Engine>(
    engine: &E,
    text: Seq<char>,
    sentences: Seq<Sentence>,
) -> bool {
    forall|i: int| 0 <= i < sentences.len() ==> #[trigger] is_sentence_at(engine, text, sentences, i)
}

/// The sentences cover the text, or the last of them carries the sentinel
/// or has no characters.
pub open spec fn sentence_scan_ended(text: Seq<char>, sentences: Seq<Sentence>) -> bool {
    ||| joined(sentence_texts(sentences)) == text
    ||| sentences.len() > 0 && (sentences.last().spec_next_start_type() == SentenceType::Nothing
        || sentences.last().spec_text().len() == 0)
}

/// The engine's version string.
pub fn version<E: Engine>() -> (r: String)
    ensures
        call_ensures(E::get_version, (), r),
{
    libvoikko::version::<E>()
}

/// The installed dictionaries, looking in `path` first and then in the
/// standard places. Empty, without any engine call, when `path` holds a
/// terminator byte.
pub fn list_dicts<E: Engine>(path: &str) -> (r: Vec<Dictionary>)
    ensures
        has_nul(path.spec_bytes()) ==> r@.len() == 0,
        !has_nul(path.spec_bytes()) ==> exists|buffer: ForeignString|
            {
                &&& is_buffer_of(buffer, path)
                &&& #[trigger] call_ensures(E::list_dicts, (&buffer,), r)
            },
{
    match libvoikko::list_dicts::<E>(path) {
        Ok(list) => list,
        Err(_) => Vec::new(),
    }
}

/// The languages with a dictionary for spell checking, as BCP 47 tags.
/// Empty, without any engine call, when `path` holds a terminator byte.
pub fn list_supported_spelling_languages<E: Engine>(path: &str) -> (r: Vec<String>)
    ensures
        has_nul(path.spec_bytes()) ==> r@.len() == 0,
        !has_nul(path.spec_bytes()) ==> exists|buffer: ForeignString|
            {
                &&& is_buffer_of(buffer, path)
                &&& #[trigger] call_ensures(E::list_supported_spelling_languages, (&buffer,), r)
            },
{
    match libvoikko::list_supported_spelling_languages::<E>(path) {
        Ok(list) => list,
        Err(_) => Vec::new(),
    }
}

/// The languages with a dictionary for hyphenation, as BCP 47 tags. Empty,
/// without any engine call, when `path` holds a terminator byte.
pub fn list_supported_hyphenation_languages<E: Engine>(path: &str) -> (r: Vec<String>)
    ensures
        has_nul(path.spec_bytes()) ==> r@.len() == 0,
        !has_nul(path.spec_bytes()) ==> exists|buffer: ForeignString|
            {
                &&& is_buffer_of(buffer, path)
                &&& #[trigger] call_ensures(E::list_supported_hyphenation_languages, (&buffer,), r)
            },
{
    match libvoikko::list_supported_hyphenation_languages::<E>(path) {
        Ok(list) => list,
        Err(_) => Vec::new(),
    }
}

/// The languages with a dictionary for grammar checking, as BCP 47 tags.
/// Empty, without any engine call, when `path` holds a terminator byte.
pub fn list_supported_grammar_checking_languages<E: Engine>(path: &str) -> (r: Vec<String>)
    ensures
        has_nul(path.spec_bytes()) ==> r@.len() == 0,
        !has_nul(path.spec_bytes()) ==> exists|buffer: ForeignString|
            {
                &&& is_buffer_of(buffer, path)
                &&& #[trigger] call_ensures(
                    E::list_supported_grammar_checking_languages,
                    (&buffer,),
                    r,
                )
            },
{
    match libvoikko::list_supported_grammar_checking_languages::<E>(path) {
        Ok(list) => list,
        Err(_) => Vec::new(),
    }
}

/// One engine session. It owns the session and cannot be copied; the
/// session ends where the value is dropped.
pub struct Voikko<E: Engine> {
    handle: E,
}

/// What is made of the engine's reply to a request for a session: the
/// session that owns what the engine gave, or an error that carries the
/// engine's diagnostic, which is empty where that is not valid UTF-8.
pub open spec fn is_session_outcome<E: Engine>(
    reply: Result<E, Vec<u8>>,
    r: Result<Voikko<E>, InitError>,
) -> bool {
    match reply {
        Ok(engine) => r matches Ok(session) && *session.engine() == engine,
        Err(diagnostic) => r matches Err(error) && error@ == text_or_empty(diagnostic@),
    }
}

impl<E: Engine> Voikko<E> {
    /// The engine session that the value owns.
    pub closed spec fn engine(&self) -> &E {
        &self.handle
    }

    /// Whether `r` is what setting the boolean option `option` to `value`
    /// gave: the engine was handed exactly these, and `r` tells whether its
    /// reply was other than zero.
    pub open spec fn bool_option_set(&self, option: i32, value: bool, r: bool) -> bool {
        exists|reply: i32|
            {
                &&& #[trigger] call_ensures(
                    E::set_boolean_option,
                    (self.engine(), option, flag(value)),
                    reply,
                )
                &&& r == is_accepted(reply)
            }
    }

    /// Whether `r` is what setting the integer option `option` to `value`
    /// gave.
    pub open spec fn int_option_set(&self, option: i32, value: i32, r: bool) -> bool {
        exists|reply: i32|
            {
                &&& #[trigger] call_ensures(
                    E::set_integer_option,
                    (self.engine(), option, value),
                    reply,
                )
                &&& r == is_accepted(reply)
            }
    }

    /// Opens a session for the language with the BCP 47 tag `language`,
    /// looking for dictionaries in `path` first, if given. Fails before any
    /// engine call when one of the two holds a terminator byte, and with the
    /// engine's diagnostic when the engine gives no session.
    pub fn new(language: &str, path: Option<&str>) -> (r: Result<Voikko<E>, InitError>)
        ensures
            has_nul(language.spec_bytes()) ==> (r matches Err(error) && error@
                == "nul byte found in provided data"@),
            path matches Some(p) && has_nul(p.spec_bytes()) ==> (r matches Err(error) && error@
                == "nul byte found in provided data"@),
            match path {
                Some(p) => !has_nul(language.spec_bytes()) && !has_nul(p.spec_bytes()) ==> exists|
                    lang: ForeignString,
                    dir: ForeignString,
                    reply: Result<E, Vec<u8>>,
                |
                    {
                        &&& is_buffer_of(lang, language)
                        &&& is_buffer_of(dir, p)
                        &&& #[trigger] call_ensures(E::init, (&lang, Some(&dir)), reply)
                        &&& is_session_outcome(reply, r)
                    },
                None => !has_nul(language.spec_bytes()) ==> exists|
                    lang: ForeignString,
                    reply: Result<E, Vec<u8>>,
                |
                    {
                        &&& is_buffer_of(lang, language)
                        &&& #[trigger] call_ensures(E::init, (&lang, None::<&ForeignString>), reply)
                        &&& is_session_outcome(reply, r)
                    },
            },
    {
        match libvoikko::init::<E>(language, path) {
            Ok(handle) => {
                let session = Voikko { handle };
                assert(*session.engine() == session.handle);
                Ok(session)
            },
            Err(error) => Err(error),
        }
    }

    /// Checks the spelling of `word`. A word that holds a terminator byte
    /// fails the check without any engine call.
    #[must_use]
    pub fn spell(&self, word: &str) -> (r: SpellReturn)
        ensures
            has_nul(word.spec_bytes()) ==> r == SpellReturn::SpellFailed,
            !has_nul(word.spec_bytes()) ==> exists|buffer: ForeignString, reply: i32|
                {
                    &&& is_buffer_of(buffer, word)
                    &&& #[trigger] call_ensures(E::spell_cstr, (self.engine(), &buffer), reply)
                    &&& r == spell_return(reply as int)
                },
    {
        assert(self.engine() == &self.handle);
        match libvoikko::spell(&self.handle, word) {
            Ok(code) => SpellReturn::from_code(code),
            Err(_) => SpellReturn::SpellFailed,
        }
    }

    /// Suggested spellings for `word`, best first, as the engine gives them.
    /// Empty, without any engine call, when `word` holds a terminator byte.
    #[must_use]
    pub fn suggest(&self, word: &str) -> (r: Vec<String>)
        ensures
            has_nul(word.spec_bytes()) ==> r@.len() == 0,
            !has_nul(word.spec_bytes()) ==> exists|buffer: ForeignString|
                {
                    &&& is_buffer_of(buffer, word)
                    &&& #[trigger] call_ensures(E::suggest_cstr, (self.engine(), &buffer), r)
                },
    {
        assert(self.engine() == &self.handle);
        match libvoikko::suggest(&self.handle, word) {
            Ok(list) => list,
            Err(_) => Vec::new(),
        }
    }

    /// The hyphenation mask of `word`: one symbol for each of its
    /// characters, where `' '` stands for no hyphenation point, `'-'` for a
    /// hyphenation point in front of the character and `'='` for one that
    /// replaces the character.
    pub fn hyphens(&self, word: &str) -> (r: Result<String, bool>)
        ensures
            has_nul(word.spec_bytes()) ==> r == Err::<String, bool>(false),
            !has_nul(word.spec_bytes()) ==> exists|buffer: ForeignString, reply: Option<Vec<u8>>|
                {
                    &&& is_buffer_of(buffer, word)
                    &&& #[trigger] call_ensures(E::hyphenate_cstr, (self.engine(), &buffer), reply)
                    &&& is_mask_outcome(reply, r)
                },
    {
        assert(self.engine() == &self.handle);
        libvoikko::hyphens(&self.handle, word)
    }

    /// `word` with `hyphen` put in at its hyphenation points: its grapheme
    /// clusters are paired with those of its hyphenation mask. Fails where
    /// no mask can be had.
    pub fn hyphenate(&self, word: &str, hyphen: &str) -> (r: Result<String, bool>)
        ensures
            has_nul(word.spec_bytes()) ==> r == Err::<String, bool>(false),
            !has_nul(word.spec_bytes()) ==> exists|buffer: ForeignString, reply: Option<Vec<u8>>|
                {
                    &&& is_buffer_of(buffer, word)
                    &&& #[trigger] call_ensures(E::hyphenate_cstr, (self.engine(), &buffer), reply)
                    &&& is_hyphenation_of_reply(word@, hyphen@, reply, r)
                },
    {
        let mask = self.hyphens(word);
        hyphenate_from_mask(word, hyphen, mask)
    }

    /// `word` with `character` put in at its hyphenation points by the
    /// engine itself. With `allow_context_changes` the engine may hyphenate
    /// where that alters the word.
    pub fn hyphenate_new(&self, word: &str, character: &str, allow_context_changes: bool) -> (r:
        Result<String, HyphenateError>)
        ensures
            has_nul(word.spec_bytes()) || has_nul(character.spec_bytes()) ==> (r matches Err(error)
                && error@ == "nul byte found in provided data"@),
            !has_nul(word.spec_bytes()) && !has_nul(character.spec_bytes()) ==> exists|
                buffer: ForeignString,
                insertion: ForeignString,
                reply: Option<Vec<u8>>,
            |
                {
                    &&& is_buffer_of(buffer, word)
                    &&& is_buffer_of(insertion, character)
                    &&& #[trigger] call_ensures(
                        E::insert_hyphens_cstr,
                        (self.engine(), &buffer, &insertion, flag(allow_context_changes)),
                        reply,
                    )
                    &&& is_hyphenated_outcome(reply, r)
                },
    {
        assert(self.engine() == &self.handle);
        libvoikko::insert_hyphens(&self.handle, word, character, allow_context_changes)
    }

    /// The tokens of `text`. The engine is asked, again and again, for the
    /// token that the rest of the text starts with; its length comes in
    /// characters. The scan ends at the end of the text, or where the engine
    /// answers with the sentinel or with no characters; such a reply gives
    /// no token. The tokens partition what was scanned. A text that holds a
    /// terminator byte has no tokens.
    #[must_use]
    pub fn tokens(&self, text: &str) -> (r: Vec<Token>)
        ensures
            has_nul(text.spec_bytes()) ==> r@.len() == 0,
            joined(token_texts(r@)).is_prefix_of(text@),
            forall|i: int|
                0 <= i < r@.len() ==> (#[trigger] r@[i]).token_type != TokenType::Nothing
                    && r@[i].token_text@.len() > 0,
            tokens_follow_replies(self.engine(), text@, r@),
            !has_nul(text.spec_bytes()) ==> token_scan_ended(self.engine(), text@, r@),
    {
        let mut list: Vec<Token> = Vec::new();
        if contains_nul(text) {
            return list;
        }
        let total = char_count(text);
        let mut offset: usize = 0;
        let mut going = true;
        while offset < total && going
            invariant
                total == text@.len(),
                0 <= offset <= total,
                !has_nul(encode_utf8(text@)),
                joined(token_texts(list@)) == text@.subrange(0, offset as int),
                forall|i: int|
                    0 <= i < list@.len() ==> (#[trigger] list@[i]).token_type != TokenType::Nothing
                        && list@[i].token_text@.len() > 0,
                tokens_follow_replies(self.engine(), text@, list@),
                !going ==> token_scan_ended(self.engine(), text@, list@),
            decreases
                    total - offset + (if going {
                        1int
                    } else {
                        0int
                    }),
        {
            let rest = char_slice(text, offset, total);
            proof {
                lemma_part_has_no_nul(text@, offset as int, total as int);
            }
            let reply = libvoikko::next_token(&self.handle, rest);
            assert(is_token_reply(self.engine(), text@, offset as int, reply)) by {
                assert(self.engine() == &self.handle);
            }
            match token_step(text, offset, reply.0, reply.1) {
                None => {
                    going = false;
                    assert(token_offset(list@, list@.len() as int) == offset);
                },
                Some((token, next)) => {
                    let ghost before = list@;
                    proof {
                        lemma_joined_push(token_texts(before), token.token_text@);
                        assert(token_texts(before.push(token)) =~= token_texts(before).push(
                            token.token_text@,
                        ));
                        assert(text@.subrange(0, offset as int) + text@.subrange(
                            offset as int,
                            next as int,
                        ) =~= text@.subrange(0, next as int));
                    }
                    list.push(token);
                    proof {
                        assert forall|i: int| 0 <= i < list@.len() implies #[trigger] is_token_at(
                            self.engine(),
                            text@,
                            list@,
                            i,
                        ) by {
                            lemma_joined_prefix_agrees(
                                token_texts(list@),
                                token_texts(before),
                                i as nat,
                            );
                            if i < before.len() {
                                assert(is_token_at(self.engine(), text@, before, i));
                                let w = choose|w: (voikko_token_type, usize)|
                                    #[trigger] is_token_reply(self.engine(), text@, token_offset(before, i), w)
                                        && is_token_of(text@, token_offset(before, i), w, before[i]);
                                assert(token_offset(list@, i) == token_offset(before, i));
                                assert(list@[i] == before[i]);
                                assert(is_token_reply(self.engine(), text@, token_offset(list@, i), w));
                                assert(is_token_of(text@, token_offset(list@, i), w, list@[i]));
                            } else {
                                assert(i == before.len());
                                assert(joined(token_texts(before)).len() == offset);
                                assert(token_offset(list@, i) == offset);
                                assert(is_token_of(text@, offset as int, reply, list@[i]));
                                assert(is_token_reply(
                                    self.engine(),
                                    text@,
                                    token_offset(list@, i),
                                    reply,
                                ));
                            }
                        }
                    }
                    offset = next;
                },
            }
        }
        proof {
            if going {
                assert(text@.subrange(0, offset as int) =~= text@);
            }
        }
        list
    }

    /// The sentences of `text`. The engine is asked, again and again, for
    /// the sentence that the rest of the text starts with; its length comes
    /// in characters, and its class speaks of the boundary behind it. Every
    /// reply gives a sentence. The scan ends at the end of the text, or
    /// behind a reply with the sentinel or with no characters. The sentences
    /// partition what was scanned. A text that holds a terminator byte has
    /// no sentences.
    #[must_use]
    pub fn sentences(&self, text: &str) -> (r: Vec<Sentence>)
        ensures
            has_nul(text.spec_bytes()) ==> r@.len() == 0,
            joined(sentence_texts(r@)).is_prefix_of(text@),
            forall|i: int|
                0 <= i < r@.len() - 1 ==> (#[trigger] r@[i]).spec_next_start_type()
                    != SentenceType::Nothing && r@[i].spec_text().len() > 0,
            sentences_follow_replies(self.engine(), text@, r@),
            !has_nul(text.spec_bytes()) ==> sentence_scan_ended(text@, r@),
    {
        let mut list: Vec<Sentence> = Vec::new();
        if contains_nul(text) {
            return list;
        }
        let total = char_count(text);
        let mut offset: usize = 0;
        let mut going = true;
        while offset < total && going
            invariant
                total == text@.len(),
                0 <= offset <= total,
                !has_nul(encode_utf8(text@)),
                joined(sentence_texts(list@)) == text@.subrange(0, offset as int),
                forall|i: int|
                    0 <= i < list@.len() - (if going {
                        0int
                    } else {
                        1int
                    }) ==> (#[trigger] list@[i]).spec_next_start_type() != SentenceType::Nothing
                        && list@[i].spec_text().len() > 0,
                sentences_follow_replies(self.engine(), text@, list@),
                !going ==> sentence_scan_ended(text@, list@),
            decreases
                    total - offset + (if going {
                        1int
                    } else {
                        0int
                    }),
        {
            let rest = char_slice(text, offset, total);
            proof {
                lemma_part_has_no_nul(text@, offset as int, total as int);
            }
            let reply = libvoikko::next_sentence(&self.handle, rest);
            assert(is_sentence_reply(self.engine(), text@, offset as int, reply)) by {
                assert(self.engine() == &self.handle);
            }
            let (sentence, next, more) = sentence_step(text, offset, reply.0, reply.1);
            let ghost before = list@;
            proof {
                lemma_joined_push(sentence_texts(before), sentence.spec_text());
                assert(sentence_texts(before.push(sentence)) =~= sentence_texts(before).push(
                    sentence.spec_text(),
                ));
                assert(text@.subrange(0, offset as int) + text@.subrange(offset as int, next as int)
                    =~= text@.subrange(0, next as int));
            }
            list.push(sentence);
            proof {
                assert forall|i: int| 0 <= i < list@.len() implies #[trigger] is_sentence_at(
                    self.engine(),
                    text@,
                    list@,
                    i,
                ) by {
                    lemma_joined_prefix_agrees(
                        sentence_texts(list@),
                        sentence_texts(before),
                        i as nat,
                    );
                    if i < before.len() {
                        assert(is_sentence_at(self.engine(), text@, before, i));
                        let w = choose|w: (voikko_sentence_type, usize)|
                            #[trigger] is_sentence_reply(self.engine(), text@, sentence_offset(before, i), w)
                                && is_sentence_of(text@, sentence_offset(before, i), w, before[i]);
                        assert(sentence_offset(list@, i) == sentence_offset(before, i));
                        assert(list@[i] == before[i]);
                        assert(is_sentence_reply(self.engine(), text@, sentence_offset(list@, i), w));
                        assert(is_sentence_of(text@, sentence_offset(list@, i), w, list@[i]));
                    } else {
                        assert(i == before.len());
                        assert(joined(sentence_texts(before)).len() == offset);
                        assert(sentence_offset(list@, i) == offset);
                        assert(is_sentence_of(text@, offset as int, reply, list@[i]));
                        assert(is_sentence_reply(
                            self.engine(),
                            text@,
                            sentence_offset(list@, i),
                            reply,
                        ));
                    }
                }
            }
            offset = next;
            going = more;
        }
        proof {
            if going {
                assert(text@.subrange(0, offset as int) =~= text@);
            }
        }
        list
    }

    /// The morphological readings of `word`, in the engine's order; each
    /// maps attribute names to values. Empty, without any engine call, when
    /// `word` holds a terminator byte; empty too when the engine knows no
    /// reading.
    #[must_use]
    pub fn analyze(&self, word: &str) -> (r: Vec<Analysis>)
        ensures
            has_nul(word.spec_bytes()) ==> r@.len() == 0,
            !has_nul(word.spec_bytes()) ==> exists|
                buffer: ForeignString,
                records: Vec<Vec<(String, Vec<u8>)>>,
            |
                {
                    &&& is_buffer_of(buffer, word)
                    &&& #[trigger] call_ensures(
                        E::analyze_word_cstr,
                        (self.engine(), &buffer),
                        records,
                    )
                    &&& are_analyses_of(r@, records@)
                },
    {
        assert(self.engine() == &self.handle);
        match libvoikko::analyze_word(&self.handle, word) {
            Ok(list) => list,
            Err(_) => Vec::new(),
        }
    }

    /// The grammar errors of `text`, described in the language with the ISO
    /// code `desc_lang`. Empty, without any engine call, when one of the two
    /// holds a terminator byte. Otherwise the engine is scanned: the errors
    /// are its replies, one after the other, up to its first empty reply,
    /// and each ends behind the offset its scan started from; where a reply
    /// does not move the scan forward, the scan halts and nothing is handed
    /// out.
    #[must_use]
    pub fn grammar_errors(&self, text: &str, desc_lang: &str) -> (r: Vec<GrammarError>)
        ensures
            has_nul(text.spec_bytes()) || has_nul(desc_lang.spec_bytes()) ==> r@.len() == 0,
            offsets_increase(r@),
            !has_nul(text.spec_bytes()) && !has_nul(desc_lang.spec_bytes()) ==> exists|
                input: ForeignString,
                lang: ForeignString,
            |
                {
                    &&& is_buffer_of(input, text)
                    &&& is_buffer_of(lang, desc_lang)
                    &&& #[trigger] is_scan_result(self.engine(), input, lang, r@)
                },
    {
        assert(self.engine() == &self.handle);
        let outcome = libvoikko::get_grammar_errors(&self.handle, text, desc_lang);
        match outcome {
            Ok(list) => {
                proof {
                    let (input, lang) = choose|input: ForeignString, lang: ForeignString|
                        is_buffer_of(input, text) && is_buffer_of(lang, desc_lang)
                            && #[trigger] is_finished_scan(self.engine(), input, lang, list@);
                    assert(is_scan_result(self.engine(), input, lang, list@));
                }
                list
            },
            Err(error) => {
                let list: Vec<GrammarError> = Vec::new();
                proof {
                    if error == GrammarScanError::Internal {
                        let (input, lang, errors, stuck) = choose|
                            input: ForeignString,
                            lang: ForeignString,
                            errors: Seq<GrammarError>,
                            stuck: GrammarError,
                        |
                            is_buffer_of(input, text) && is_buffer_of(lang, desc_lang)
                                && #[trigger] is_stuck_scan(
                                self.engine(),
                                input,
                                lang,
                                errors,
                                stuck,
                            );
                        assert(scan_gets_stuck(self.engine(), input, lang));
                        assert(is_scan_result(self.engine(), input, lang, list@));
                    }
                }
                list
            },
        }
    }

    /// Ignore a dot at the end of a word, in spell checking, hyphenation and
    /// tokenizing. Default: false.
    pub fn set_opt_ignore_dot(&self, value: bool) -> (r: bool)
        ensures
            self.bool_option_set(0i32, value, r),
    {
        libvoikko::set_bool_option(&self.handle, 0, value)
    }

    /// Spell checking: ignore words that contain digits. Default: false.
    pub fn set_opt_ignore_numbers(&self, value: bool) -> (r: bool)
        ensures
            self.bool_option_set(1i32, value, r),
    {
        libvoikko::set_bool_option(&self.handle, 1, value)
    }

    /// Accept words written in uppercase letters only without checking them.
    /// Default: false.
    pub fn set_opt_ignore_uppercase(&self, value: bool) -> (r: bool)
        ensures
            self.bool_option_set(3i32, value, r),
    {
        libvoikko::set_bool_option(&self.handle, 3, value)
    }

    /// Accept words whose first letter is in uppercase. Default: true.
    pub fn set_opt_accept_first_uppercase(&self, value: bool) -> (r: bool)
        ensures
            self.bool_option_set(6i32, value, r),
    {
        libvoikko::set_bool_option(&self.handle, 6, value)
    }

    /// Accept words in uppercase letters only if they are spelled correctly,
    /// case apart. Default: true.
    pub fn set_opt_accept_all_uppercase(&self, value: bool) -> (r: bool)
        ensures
            self.bool_option_set(7i32, value, r),
    {
        libvoikko::set_bool_option(&self.handle, 7, value)
    }

    /// Leave out hyphenation points that are correct but ugly. Default: false.
    pub fn set_opt_no_ugly_hyphenation(&self, value: bool) -> (r: bool)
        ensures
            self.bool_option_set(4i32, value, r),
    {
        libvoikko::set_bool_option(&self.handle, 4, value)
    }

    /// Make suggestions for errors of character recognition, not of typing.
    /// Default: false.
    pub fn set_opt_ocr_suggestions(&self, value: bool) -> (r: bool)
        ensures
            self.bool_option_set(8i32, value, r),
    {
        libvoikko::set_bool_option(&self.handle, 8, value)
    }

    /// Spell checking: ignore tokens that are no words, such as URLs and email
    /// addresses. Default: true.
    pub fn set_opt_ignore_nonwords(&self, value: bool) -> (r: bool)
        ensures
            self.bool_option_set(10i32, value, r),
    {
        libvoikko::set_bool_option(&self.handle, 10, value)
    }

    /// Spell checking: allow some extra hyphens in words. Default: false.
    pub fn set_opt_accept_extra_hyphens(&self, value: bool) -> (r: bool)
        ensures
            self.bool_option_set(11i32, value, r),
    {
        libvoikko::set_bool_option(&self.handle, 11, value)
    }

    /// Spell checking: accept words that miss a hyphen at their start or end.
    /// Default: false.
    pub fn set_opt_accept_missing_hyphens(&self, value: bool) -> (r: bool)
        ensures
            self.bool_option_set(12i32, value, r),
    {
        libvoikko::set_bool_option(&self.handle, 12, value)
    }

    /// Grammar checking: accept incomplete sentences as they occur in titles.
    /// Default: false.
    pub fn set_opt_accept_titles_in_gc(&self, value: bool) -> (r: bool)
        ensures
            self.bool_option_set(13i32, value, r),
    {
        libvoikko::set_bool_option(&self.handle, 13, value)
    }

    /// Grammar checking: accept an unfinished sentence at the end of a
    /// paragraph. Default: false.
    pub fn set_opt_accept_unfinished_paragraphs_in_gc(&self, value: bool) -> (r: bool)
        ensures
            self.bool_option_set(14i32, value, r),
    {
        libvoikko::set_bool_option(&self.handle, 14, value)
    }

    /// Hyphenation: hyphenate unknown words. Default: true.
    pub fn set_opt_hyphenate_unknown_words(&self, value: bool) -> (r: bool)
        ensures
            self.bool_option_set(15i32, value, r),
    {
        libvoikko::set_bool_option(&self.handle, 15, value)
    }

    /// Grammar checking: accept paragraphs that would be valid in a bulleted
    /// list. Default: false.
    pub fn set_opt_accept_bulleted_lists_in_gc(&self, value: bool) -> (r: bool)
        ensures
            self.bool_option_set(16i32, value, r),
    {
        libvoikko::set_bool_option(&self.handle, 16, value)
    }

    /// The least length of a word, or of a part of a compound word, that may
    /// be hyphenated. Default: 2.
    pub fn set_min_hyphenated_word_length(&self, value: i32) -> (r: bool)
        ensures
            self.int_option_set(9i32, value, r),
    {
        libvoikko::set_int_option(&self.handle, 9, value)
    }

    /// The size of the spell checker's cache as an exponent of two, or -1 for
    /// no cache. Default: 0.
    pub fn set_speller_cache_size(&self, value: i32) -> (r: bool)
        ensures
            self.int_option_set(17i32, value, r),
    {
        libvoikko::set_int_option(&self.handle, 17, value)
    }
}

/// Whether `r` is the hyphenation of `word` under the engine's reply to a
/// request for its mask: the decoded mask applied, or a failure where the
/// engine gave no mask or one that is not valid UTF-8.
pub open spec fn is_hyphenation_of_reply(
    word: Seq<char>,
    hyphen: Seq<char>,
    reply: Option<Vec<u8>>,
    r: Result<String, bool>,
) -> bool {
    match reply {
        Some(bytes) => if valid_utf8(bytes@) {
            r matches Ok(text) && text@ == apply_mask(
                grapheme_clusters(word),
                grapheme_clusters(decode_utf8(bytes@)),
                hyphen,
            )
        } else {
            r == Err::<String, bool>(false)
        },
        None => r == Err::<String, bool>(false),
    }
}

/// Whether `r` is the hyphenation of `word` under the outcome `mask` of a
/// request for its mask: the mask applied, or a failure where there is none.
pub open spec fn is_hyphenation_with(
    word: Seq<char>,
    hyphen: Seq<char>,
    mask: Result<String, bool>,
    r: Result<String, bool>,
) -> bool {
    match mask {
        Ok(marks) => r matches Ok(text) && text@ == apply_mask(
            grapheme_clusters(word),
            grapheme_clusters(marks@),
            hyphen,
        ),
        Err(_) => r == Err::<String, bool>(false),
    }
}

/// Builds the hyphenated form of `word` from the outcome of a request for
/// its mask.
pub fn hyphenate_from_mask(word: &str, hyphen: &str, mask: Result<String, bool>) -> (r: Result<
    String,
    bool,
>)
    ensures
        is_hyphenation_with(word@, hyphen@, mask, r),
{
    match mask {
        Ok(marks) => Ok(hyphenate_with_mask(word, marks.as_str(), hyphen)),
        Err(_) => Err(false),
    }
}

} // verus!
