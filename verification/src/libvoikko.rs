//! The engine boundary: the operations an engine session offers, in plain
//! values, and the functions that marshal a request, make one call and
//! extract the reply.
use vstd::prelude::*;
use vstd::string::*;
use vstd::utf8::*;
use crate::foreign::{
    decode_bytes, from_foreign_or_empty, has_nul, is_buffer_of, text_or_empty, ForeignString,
    NulError,
};
use crate::analysis::{map_of, Analysis};
use crate::cursor::{next_offset, resume_offset};
use crate::voikko::{Dictionary, GrammarError, HyphenateError, InitError};

verus! {

/// Classification of a token as the engine reports it.
#[allow(non_camel_case_types)]
#[derive(Debug, PartialEq, Eq, Clone, Copy, Structural)]
pub enum voikko_token_type {
    TOKEN_NONE,
    TOKEN_WORD,
    TOKEN_PUNCTUATION,
    TOKEN_WHITESPACE,
    TOKEN_UNKNOWN,
}

/// Classification of a sentence boundary as the engine reports it.
#[allow(non_camel_case_types)]
#[derive(Debug, PartialEq, Eq, Clone, Copy, Structural)]
pub enum voikko_sentence_type {
    SENTENCE_NONE,
    SENTENCE_NO_START,
    SENTENCE_PROBABLE,
    SENTENCE_POSSIBLE,
}

/// One engine session, and the session-free queries of the engine.
///
/// Nothing is promised of what an engine answers: every function of this
/// crate that calls one is proved for whatever comes back. An implementation
/// releases its session when it is dropped, and copies every engine-owned
/// buffer into the owned values it returns.
pub trait Engine: Sized {
    /// Creates a session for `language`, searching `path` first if given.
    /// On failure gives the raw bytes of the engine's diagnostic.
    fn init(language: &ForeignString, path: Option<&ForeignString>) -> Result<Self, Vec<u8>>;

    /// The engine's version string.
    fn get_version() -> String;

    /// The installed dictionaries, searching `path` first.
    fn list_dicts(path: &ForeignString) -> Vec<Dictionary>;

    /// Language tags with a dictionary for spell checking.
    fn list_supported_spelling_languages(path: &ForeignString) -> Vec<String>;

    /// Language tags with a dictionary for hyphenation.
    fn list_supported_hyphenation_languages(path: &ForeignString) -> Vec<String>;

    /// Language tags with a dictionary for grammar checking.
    fn list_supported_grammar_checking_languages(path: &ForeignString) -> Vec<String>;

    /// Sets a boolean option; a zero reply means the engine refused it.
    fn set_boolean_option(&self, option: i32, value: i32) -> i32;

    /// Sets an integer option; a zero reply means the engine refused it.
    fn set_integer_option(&self, option: i32, value: i32) -> i32;

    /// The engine's spelling code for `word`.
    fn spell_cstr(&self, word: &ForeignString) -> i32;

    /// Suggested spellings for `word`, best first.
    fn suggest_cstr(&self, word: &ForeignString) -> Vec<String>;

    /// The raw bytes of the hyphenation mask of `word`, if the engine gave one.
    fn hyphenate_cstr(&self, word: &ForeignString) -> Option<Vec<u8>>;

    /// The raw bytes of `word` with `hyphen` inserted by the engine itself.
    fn insert_hyphens_cstr(
        &self,
        word: &ForeignString,
        hyphen: &ForeignString,
        allow_context_changes: i32,
    ) -> Option<Vec<u8>>;

    /// Kind and length in characters of the token that `text` starts with.
    fn next_token_cstr(&self, text: &ForeignString) -> (voikko_token_type, usize);

    /// Boundary class and length in characters of the sentence that `text`
    /// starts with.
    fn next_sentence_start_cstr(&self, text: &ForeignString) -> (voikko_sentence_type, usize);

    /// The grammar error of `text` that comes after `skiperrors` others
    /// among those found from character `startpos` on, described in
    /// `desc_lang`.
    fn next_grammar_error_cstr(
        &self,
        text: &ForeignString,
        startpos: usize,
        skiperrors: i32,
        desc_lang: &ForeignString,
    ) -> Option<GrammarError>;

    /// The readings of `word`: for each, its attribute names with the raw
    /// bytes of their values, in the engine's order.
    fn analyze_word_cstr(&self, word: &ForeignString) -> Vec<Vec<(String, Vec<u8>)>>;
}

/// Whether an engine reply to an option request means that it was accepted.
pub open spec fn is_accepted(reply: i32) -> bool {
    reply != 0
}

/// The integer that stands for a boolean across the boundary.
pub open spec fn flag(value: bool) -> i32 {
    if value {
        1i32
    } else {
        0i32
    }
}

/// Converts a boolean for the engine.
pub fn flag_of(value: bool) -> (r: i32)
    ensures
        r == flag(value),
{
    if value {
        1
    } else {
        0
    }
}

/// The error that a failed session creation is reported with: the engine's
/// diagnostic, or the empty text where that is not valid UTF-8.
pub open spec fn is_init_outcome<E: Engine>(
    reply: Result<E, Vec<u8>>,
    r: Result<E, InitError>,
) -> bool {
    match reply {
        Ok(engine) => r == Ok::<E, InitError>(engine),
        Err(diagnostic) => r matches Err(error) && error@ == text_or_empty(diagnostic@),
    }
}

/// Opens an engine session for `language`. Fails before any engine call when
/// `language` or `path` holds a terminator byte, and with the engine's
/// diagnostic when the engine gives no session.
pub fn init<E: Engine>(language: &str, path: Option<&str>) -> (r: Result<E, InitError>)
    ensures
        has_nul(language.spec_bytes()) ==> (r matches Err(error) && error@
            == "nul byte found in provided data"@),
        match path {
            Some(p) => {
                &&& has_nul(p.spec_bytes()) ==> (r matches Err(error) && error@
                    == "nul byte found in provided data"@)
                &&& !has_nul(language.spec_bytes()) && !has_nul(p.spec_bytes()) ==> exists|
                    lang: ForeignString,
                    dir: ForeignString,
                    reply: Result<E, Vec<u8>>,
                |
                    {
                        &&& is_buffer_of(lang, language)
                        &&& is_buffer_of(dir, p)
                        &&& #[trigger] call_ensures(E::init, (&lang, Some(&dir)), reply)
                        &&& is_init_outcome(reply, r)
                    }
            },
            None => !has_nul(language.spec_bytes()) ==> exists|
                lang: ForeignString,
                reply: Result<E, Vec<u8>>,
            |
                {
                    &&& is_buffer_of(lang, language)
                    &&& #[trigger] call_ensures(E::init, (&lang, None::<&ForeignString>), reply)
                    &&& is_init_outcome(reply, r)
                },
        },
{
    let dir = match path {
        Some(p) => match ForeignString::new(p) {
            Ok(buffer) => Some(buffer),
            Err(error) => { return Err(InitError::from_nul_error(error)); },
        },
        None => None,
    };
    let lang = match ForeignString::new(language) {
        Ok(buffer) => buffer,
        Err(error) => { return Err(InitError::from_nul_error(error)); },
    };
    let reply = match &dir {
        Some(buffer) => E::init(&lang, Some(buffer)),
        None => E::init(&lang, None),
    };
    match reply {
        Ok(engine) => Ok(engine),
        Err(diagnostic) => {
            let message = from_foreign_or_empty(&diagnostic);
            Err(InitError::new(message.as_str()))
        },
    }
}

/// The engine's version string.
pub fn version<E: Engine>() -> (r: String)
    ensures
        call_ensures(E::get_version, (), r),
{
    E::get_version()
}

/// Asks the engine for its spelling code of `word`. Fails, before any engine
/// call, exactly when `word` holds a terminator byte.
pub fn spell<E: Engine>(engine: &E, word: &str) -> (r: Result<isize, NulError>)
    ensures
        r is Err <==> has_nul(word.spec_bytes()),
        r is Ok ==> exists|buffer: ForeignString, reply: i32|
            {
                &&& is_buffer_of(buffer, word)
                &&& #[trigger] call_ensures(E::spell_cstr, (engine, &buffer), reply)
                &&& r == Ok::<isize, NulError>(reply as isize)
            },
{
    let buffer = match ForeignString::new(word) {
        Ok(buffer) => buffer,
        Err(error) => { return Err(error); },
    };
    let reply = engine.spell_cstr(&buffer);
    Ok(reply as isize)
}

/// Asks the engine for spellings to replace `word` with, best first. Fails,
/// before any engine call, exactly when `word` holds a terminator byte.
pub fn suggest<E: Engine>(engine: &E, word: &str) -> (r: Result<Vec<String>, NulError>)
    ensures
        r is Err <==> has_nul(word.spec_bytes()),
        r is Ok ==> exists|buffer: ForeignString, list: Vec<String>|
            {
                &&& is_buffer_of(buffer, word)
                &&& #[trigger] call_ensures(E::suggest_cstr, (engine, &buffer), list)
                &&& r == Ok::<Vec<String>, NulError>(list)
            },
{
    let buffer = match ForeignString::new(word) {
        Ok(buffer) => buffer,
        Err(error) => { return Err(error); },
    };
    let list = engine.suggest_cstr(&buffer);
    Ok(list)
}

/// What is made of the engine's reply to a request for a hyphenation mask:
/// the decoded mask, or `Err(false)` where the engine gave none or gave
/// bytes that are not valid UTF-8.
pub open spec fn is_mask_outcome(reply: Option<Vec<u8>>, r: Result<String, bool>) -> bool {
    match reply {
        Some(bytes) => if valid_utf8(bytes@) {
            r matches Ok(mask) && mask@ == decode_utf8(bytes@)
        } else {
            r == Err::<String, bool>(false)
        },
        None => r == Err::<String, bool>(false),
    }
}

/// Decides what a reply to a request for a hyphenation mask amounts to.
pub fn mask_from_reply(reply: Option<Vec<u8>>) -> (r: Result<String, bool>)
    ensures
        is_mask_outcome(reply, r),
{
    match reply {
        Some(bytes) => match decode_bytes(&bytes) {
            Some(mask) => Ok(mask),
            None => Err(false),
        },
        None => Err(false),
    }
}

/// Asks the engine for the hyphenation mask of `word`. Gives `Err(false)`,
/// before any engine call, when `word` holds a terminator byte.
pub fn hyphens<E: Engine>(engine: &E, word: &str) -> (r: Result<String, bool>)
    ensures
        has_nul(word.spec_bytes()) ==> r == Err::<String, bool>(false),
        !has_nul(word.spec_bytes()) ==> exists|buffer: ForeignString, reply: Option<Vec<u8>>|
            {
                &&& is_buffer_of(buffer, word)
                &&& #[trigger] call_ensures(E::hyphenate_cstr, (engine, &buffer), reply)
                &&& is_mask_outcome(reply, r)
            },
{
    let buffer = match ForeignString::new(word) {
        Ok(buffer) => buffer,
        Err(_) => { return Err(false); },
    };
    let reply = engine.hyphenate_cstr(&buffer);
    mask_from_reply(reply)
}

/// What is made of the engine's reply to a request for a hyphenated word.
pub open spec fn is_hyphenated_outcome(
    reply: Option<Vec<u8>>,
    r: Result<String, HyphenateError>,
) -> bool {
    match reply {
        Some(bytes) => if valid_utf8(bytes@) {
            r matches Ok(text) && text@ == decode_utf8(bytes@)
        } else {
            r matches Err(error) && error@ == "invalid utf-8 sequence in engine reply"@
        },
        None => r matches Err(error) && error@
            == "Error hyphenating string: null pointer from libvoikko"@,
    }
}

/// Decides what a reply to a request for a hyphenated word amounts to.
pub fn hyphenated_from_reply(reply: Option<Vec<u8>>) -> (r: Result<String, HyphenateError>)
    ensures
        is_hyphenated_outcome(reply, r),
{
    match reply {
        Some(bytes) => match decode_bytes(&bytes) {
            Some(text) => Ok(text),
            None => Err(HyphenateError::from_invalid_utf8()),
        },
        None => Err(
            HyphenateError::new("Error hyphenating string: null pointer from libvoikko"),
        ),
    }
}

/// Asks the engine to put `hyphen` into `word` itself. Fails before any
/// engine call when `word` or `hyphen` holds a terminator byte.
pub fn insert_hyphens<E: Engine>(
    engine: &E,
    word: &str,
    hyphen: &str,
    allow_context_changes: bool,
) -> (r: Result<String, HyphenateError>)
    ensures
        has_nul(word.spec_bytes()) || has_nul(hyphen.spec_bytes()) ==> (r matches Err(error)
            && error@ == "nul byte found in provided data"@),
        !has_nul(word.spec_bytes()) && !has_nul(hyphen.spec_bytes()) ==> exists|
            buffer: ForeignString,
            insertion: ForeignString,
            reply: Option<Vec<u8>>,
        |
            {
                &&& is_buffer_of(buffer, word)
                &&& is_buffer_of(insertion, hyphen)
                &&& #[trigger] call_ensures(
                    E::insert_hyphens_cstr,
                    (engine, &buffer, &insertion, flag(allow_context_changes)),
                    reply,
                )
                &&& is_hyphenated_outcome(reply, r)
            },
{
    let buffer = match ForeignString::new(word) {
        Ok(buffer) => buffer,
        Err(error) => { return Err(HyphenateError::from_nul_error(error)); },
    };
    let insertion = match ForeignString::new(hyphen) {
        Ok(buffer) => buffer,
        Err(error) => { return Err(HyphenateError::from_nul_error(error)); },
    };
    let reply = engine.insert_hyphens_cstr(&buffer, &insertion, flag_of(allow_context_changes));
    hyphenated_from_reply(reply)
}

/// Asks the engine for the token that `text` starts with. Gives the sentinel
/// and no length, before any engine call, when `text` holds a terminator
/// byte.
pub fn next_token<E: Engine>(engine: &E, text: &str) -> (r: (voikko_token_type, usize))
    ensures
        has_nul(text.spec_bytes()) ==> r == (voikko_token_type::TOKEN_NONE, 0usize),
        !has_nul(text.spec_bytes()) ==> exists|buffer: ForeignString|
            {
                &&& is_buffer_of(buffer, text)
                &&& #[trigger] call_ensures(E::next_token_cstr, (engine, &buffer), r)
            },
{
    match ForeignString::new(text) {
        Ok(buffer) => engine.next_token_cstr(&buffer),
        Err(_) => (voikko_token_type::TOKEN_NONE, 0),
    }
}

/// Asks the engine for the sentence that `text` starts with. Gives the
/// sentinel and no length, before any engine call, when `text` holds a
/// terminator byte.
pub fn next_sentence<E: Engine>(engine: &E, text: &str) -> (r: (voikko_sentence_type, usize))
    ensures
        has_nul(text.spec_bytes()) ==> r == (voikko_sentence_type::SENTENCE_NONE, 0usize),
        !has_nul(text.spec_bytes()) ==> exists|buffer: ForeignString|
            {
                &&& is_buffer_of(buffer, text)
                &&& #[trigger] call_ensures(E::next_sentence_start_cstr, (engine, &buffer), r)
            },
{
    match ForeignString::new(text) {
        Ok(buffer) => engine.next_sentence_start_cstr(&buffer),
        Err(_) => (voikko_sentence_type::SENTENCE_NONE, 0),
    }
}

/// Asks the engine for the installed dictionaries. Fails, before any engine
/// call, exactly when `path` holds a terminator byte.
pub fn list_dicts<E: Engine>(path: &str) -> (r: Result<Vec<Dictionary>, NulError>)
    ensures
        r is Err <==> has_nul(path.spec_bytes()),
        r is Ok ==> exists|buffer: ForeignString, list: Vec<Dictionary>|
            {
                &&& is_buffer_of(buffer, path)
                &&& #[trigger] call_ensures(E::list_dicts, (&buffer,), list)
                &&& r == Ok::<Vec<Dictionary>, NulError>(list)
            },
{
    let buffer = match ForeignString::new(path) {
        Ok(buffer) => buffer,
        Err(error) => { return Err(error); },
    };
    let list = E::list_dicts(&buffer);
    Ok(list)
}

/// Asks the engine for the languages it can spell check. Fails, before any
/// engine call, exactly when `path` holds a terminator byte.
pub fn list_supported_spelling_languages<E: Engine>(path: &str) -> (r: Result<
    Vec<String>,
    NulError,
>)
    ensures
        r is Err <==> has_nul(path.spec_bytes()),
        r is Ok ==> exists|buffer: ForeignString, list: Vec<String>|
            {
                &&& is_buffer_of(buffer, path)
                &&& #[trigger] call_ensures(E::list_supported_spelling_languages, (&buffer,), list)
                &&& r == Ok::<Vec<String>, NulError>(list)
            },
{
    let buffer = match ForeignString::new(path) {
        Ok(buffer) => buffer,
        Err(error) => { return Err(error); },
    };
    let list = E::list_supported_spelling_languages(&buffer);
    Ok(list)
}

/// Asks the engine for the languages it can hyphenate. Fails, before any
/// engine call, exactly when `path` holds a terminator byte.
pub fn list_supported_hyphenation_languages<E: Engine>(path: &str) -> (r: Result<
    Vec<String>,
    NulError,
>)
    ensures
        r is Err <==> has_nul(path.spec_bytes()),
        r is Ok ==> exists|buffer: ForeignString, list: Vec<String>|
            {
                &&& is_buffer_of(buffer, path)
                &&& #[trigger] call_ensures(E::list_supported_hyphenation_languages, (&buffer,), list)
                &&& r == Ok::<Vec<String>, NulError>(list)
            },
{
    let buffer = match ForeignString::new(path) {
        Ok(buffer) => buffer,
        Err(error) => { return Err(error); },
    };
    let list = E::list_supported_hyphenation_languages(&buffer);
    Ok(list)
}

/// Asks the engine for the languages it can check the grammar of. Fails,
/// before any engine call, exactly when `path` holds a terminator byte.
pub fn list_supported_grammar_checking_languages<E: Engine>(path: &str) -> (r: Result<
    Vec<String>,
    NulError,
>)
    ensures
        r is Err <==> has_nul(path.spec_bytes()),
        r is Ok ==> exists|buffer: ForeignString, list: Vec<String>|
            {
                &&& is_buffer_of(buffer, path)
                &&& #[trigger] call_ensures(E::list_supported_grammar_checking_languages, (&buffer,), list)
                &&& r == Ok::<Vec<String>, NulError>(list)
            },
{
    let buffer = match ForeignString::new(path) {
        Ok(buffer) => buffer,
        Err(error) => { return Err(error); },
    };
    let list = E::list_supported_grammar_checking_languages(&buffer);
    Ok(list)
}

/// The names of one reading with their decoded values; a value that is not
/// valid UTF-8 counts as the empty text.
pub open spec fn reading_pairs(record: Seq<(String, Vec<u8>)>) -> Seq<(Seq<char>, Seq<char>)> {
    record.map_values(|p: (String, Vec<u8>)| (p.0@, text_or_empty(p.1@)))
}

/// Whether `list` holds, reading by reading and in the same order, the
/// mappings that `records` spell out.
pub open spec fn are_analyses_of(list: Seq<Analysis>, records: Seq<Vec<(String, Vec<u8>)>>) -> bool {
    &&& list.len() == records.len()
    &&& forall|i: int|
        0 <= i < list.len() ==> (#[trigger] list[i])@ == map_of(reading_pairs(records[i]@))
}

/// Builds the mapping of one reading by inserting its pairs in order.
pub fn collect_analysis(record: &Vec<(String, Vec<u8>)>) -> (r: Analysis)
    ensures
        r@ == map_of(reading_pairs(record@)),
{
    let mut analysis = Analysis::new();
    let mut j: usize = 0;
    while j < record.len()
        invariant
            0 <= j <= record@.len(),
            analysis@ == map_of(reading_pairs(record@).subrange(0, j as int)),
        decreases record.len() - j,
    {
        let name = record[j].0.clone();
        let value = from_foreign_or_empty(&record[j].1);
        analysis.insert(name, value);
        proof {
            let pairs = reading_pairs(record@);
            assert(pairs.subrange(0, j + 1).drop_last() =~= pairs.subrange(0, j as int));
        }
        j += 1;
    }
    assert(reading_pairs(record@).subrange(0, j as int) =~= reading_pairs(record@));
    analysis
}

/// Builds the mappings of all readings, in the engine's order. No reading
/// gives no mapping.
pub fn collect_analyses(records: &Vec<Vec<(String, Vec<u8>)>>) -> (r: Vec<Analysis>)
    ensures
        are_analyses_of(r@, records@),
{
    let mut list: Vec<Analysis> = Vec::new();
    let mut i: usize = 0;
    while i < records.len()
        invariant
            0 <= i <= records@.len(),
            are_analyses_of(list@, records@.subrange(0, i as int)),
        decreases records.len() - i,
    {
        let analysis = collect_analysis(&records[i]);
        list.push(analysis);
        i += 1;
    }
    assert(records@.subrange(0, i as int) =~= records@);
    list
}

/// Asks the engine for the readings of `word` and builds their mappings.
/// Fails, before any engine call, exactly when `word` holds a terminator
/// byte.
pub fn analyze_word<E: Engine>(engine: &E, word: &str) -> (r: Result<Vec<Analysis>, NulError>)
    ensures
        r is Err <==> has_nul(word.spec_bytes()),
        r is Ok ==> exists|buffer: ForeignString, records: Vec<Vec<(String, Vec<u8>)>>|
            {
                &&& is_buffer_of(buffer, word)
                &&& #[trigger] call_ensures(E::analyze_word_cstr, (engine, &buffer), records)
                &&& (r matches Ok(list) && are_analyses_of(list@, records@))
            },
{
    let buffer = match ForeignString::new(word) {
        Ok(buffer) => buffer,
        Err(error) => { return Err(error); },
    };
    let records = engine.analyze_word_cstr(&buffer);
    let list = collect_analyses(&records);
    Ok(list)
}

/// Why a scan for grammar errors gave no result.
#[derive(Debug, PartialEq, Eq, Clone, Copy, Structural)]
pub enum GrammarScanError {
    /// The text or the description language holds a terminator byte.
    InvalidInput(NulError),
    /// The engine reported an error that does not move the scan forward.
    Internal,
}

/// The character offset just behind a grammar error.
pub open spec fn error_end(error: GrammarError) -> int {
    error.start_pos as int + error.length as int
}

/// The offset handed to the engine by the call with index `i`: zero for the
/// first, and for each later one the end of the error found before it.
pub open spec fn scan_offset(errors: Seq<GrammarError>, i: int) -> int {
    if i <= 0 {
        0
    } else {
        error_end(errors[i - 1])
    }
}

/// Every error ends behind the offset that the scan for it started from.
pub open spec fn offsets_increase(errors: Seq<GrammarError>) -> bool {
    forall|i: int|
        0 <= i < errors.len() ==> scan_offset(errors, i) < #[trigger] error_end(errors[i])
            <= usize::MAX
}

/// Every error is what the engine answered to the call with its index.
pub open spec fn scanned_from<E: Engine>(
    engine: &E,
    text: ForeignString,
    desc_lang: ForeignString,
    errors: Seq<GrammarError>,
) -> bool {
    forall|i: int|
        0 <= i < errors.len() ==> call_ensures(
            E::next_grammar_error_cstr,
            (engine, &text, scan_offset(errors, i) as usize, 0i32, &desc_lang),
            Some(#[trigger] errors[i]),
        )
}

/// Whether `errors` is what a scan to the end found: each error is the
/// engine's reply to the call with its index and ends behind the offset of
/// that call, and the engine's reply to the call after the last is empty.
pub open spec fn is_finished_scan<E: Engine>(
    engine: &E,
    text: ForeignString,
    desc_lang: ForeignString,
    errors: Seq<GrammarError>,
) -> bool {
    &&& offsets_increase(errors)
    &&& scanned_from(engine, text, desc_lang, errors)
    &&& call_ensures(
        E::next_grammar_error_cstr,
        (engine, &text, scan_offset(errors, errors.len() as int) as usize, 0i32, &desc_lang),
        None::<GrammarError>,
    )
}

/// Whether a scan that had found `errors` came to a halt at `stuck`: the
/// engine's next reply, an error that does not end behind the offset the
/// engine was given, or whose end cannot be represented.
pub open spec fn is_stuck_scan<E: Engine>(
    engine: &E,
    text: ForeignString,
    desc_lang: ForeignString,
    errors: Seq<GrammarError>,
    stuck: GrammarError,
) -> bool {
    &&& offsets_increase(errors)
    &&& scanned_from(engine, text, desc_lang, errors)
    &&& call_ensures(
        E::next_grammar_error_cstr,
        (engine, &text, scan_offset(errors, errors.len() as int) as usize, 0i32, &desc_lang),
        Some(stuck),
    )
    &&& resume_offset(
        scan_offset(errors, errors.len() as int),
        stuck.start_pos as int,
        stuck.length as int,
    ) is None
}

/// Whether a scan that hands the engine `text` and `desc_lang` halts
/// somewhere: after some errors the engine reports one that does not move
/// the scan forward.
pub open spec fn scan_gets_stuck<E: Engine>(
    engine: &E,
    text: ForeignString,
    desc_lang: ForeignString,
) -> bool {
    exists|errors: Seq<GrammarError>, stuck: GrammarError| #[trigger]
        is_stuck_scan(engine, text, desc_lang, errors, stuck)
}

/// Whether `errors` is what is handed out for a scan: what a scan to the end
/// found, or nothing where the scan halted.
pub open spec fn is_scan_result<E: Engine>(
    engine: &E,
    text: ForeignString,
    desc_lang: ForeignString,
    errors: Seq<GrammarError>,
) -> bool {
    ||| is_finished_scan(engine, text, desc_lang, errors)
    ||| errors.len() == 0 && scan_gets_stuck(engine, text, desc_lang)
}

/// Collects the grammar errors of `text`, described in `desc_lang`.
///
/// The engine is always given the whole text, no errors to skip, and the
/// offset to resume from: zero at first, then the end of the error it
/// reported last. The scan ends
/// with the engine's first empty reply. It fails before any engine call when
/// `text` or `desc_lang` holds a terminator byte, and as soon as a reported
/// error does not end behind the offset the engine was given.
pub fn get_grammar_errors<E: Engine>(engine: &E, text: &str, desc_lang: &str) -> (r: Result<
    Vec<GrammarError>,
    GrammarScanError,
>)
    ensures
        r matches Err(GrammarScanError::InvalidInput(_)) <==> has_nul(text.spec_bytes())
            || has_nul(desc_lang.spec_bytes()),
        r matches Ok(errors) ==> offsets_increase(errors@),
        r is Ok ==> exists|input: ForeignString, lang: ForeignString, errors: Vec<GrammarError>|
            {
                &&& r == Ok::<Vec<GrammarError>, GrammarScanError>(errors)
                &&& is_buffer_of(input, text)
                &&& is_buffer_of(lang, desc_lang)
                &&& #[trigger] is_finished_scan(engine, input, lang, errors@)
            },
        r matches Err(GrammarScanError::Internal) ==> exists|
            input: ForeignString,
            lang: ForeignString,
            errors: Seq<GrammarError>,
            stuck: GrammarError,
        |
            {
                &&& is_buffer_of(input, text)
                &&& is_buffer_of(lang, desc_lang)
                &&& #[trigger] is_stuck_scan(engine, input, lang, errors, stuck)
            },
{
    let input = match ForeignString::new(text) {
        Ok(buffer) => buffer,
        Err(error) => { return Err(GrammarScanError::InvalidInput(error)); },
    };
    let lang = match ForeignString::new(desc_lang) {
        Ok(buffer) => buffer,
        Err(error) => { return Err(GrammarScanError::InvalidInput(error)); },
    };
    let mut errors: Vec<GrammarError> = Vec::new();
    let mut offset: usize = 0;
    loop
        invariant
            is_buffer_of(input, text),
            is_buffer_of(lang, desc_lang),
            !has_nul(text.spec_bytes()),
            !has_nul(desc_lang.spec_bytes()),
            offsets_increase(errors@),
            scanned_from(engine, input, lang, errors@),
            offset == scan_offset(errors@, errors@.len() as int),
        decreases usize::MAX - offset,
    {
        let reply = engine.next_grammar_error_cstr(&input, offset, 0, &lang);
        match reply {
            None => {
                assert(is_finished_scan(engine, input, lang, errors@));
                return Ok(errors);
            },
            Some(error) => {
                match next_offset(offset, error.start_pos, error.length) {
                    None => {
                        assert(is_stuck_scan(engine, input, lang, errors@, error));
                        return Err(GrammarScanError::Internal);
                    },
                    Some(next) => {
                        let ghost before = errors@;
                        errors.push(error);
                        proof {
                            assert forall|i: int| 0 <= i < errors@.len() implies scan_offset(
                                errors@,
                                i,
                            ) < #[trigger] error_end(errors@[i]) <= usize::MAX by {
                                if i < before.len() {
                                    assert(errors@[i] == before[i]);
                                    assert(scan_offset(errors@, i) == scan_offset(before, i));
                                }
                            }
                            assert forall|i: int| 0 <= i < errors@.len() implies call_ensures(
                                E::next_grammar_error_cstr,
                                (engine, &input, scan_offset(errors@, i) as usize, 0i32, &lang),
                                Some(#[trigger] errors@[i]),
                            ) by {
                                if i < before.len() {
                                    assert(errors@[i] == before[i]);
                                    assert(scan_offset(errors@, i) == scan_offset(before, i));
                                }
                            }
                        }
                        offset = next;
                    },
                }
            },
        }
    }
}

/// A scan whose offsets increase makes at most as many steps as the text
/// has positions before its last offset: the error with index `i` ends
/// behind character `i`.
pub proof fn lemma_scan_is_bounded(errors: Seq<GrammarError>, i: int)
    requires
        offsets_increase(errors),
        0 <= i < errors.len(),
    ensures
        error_end(errors[i]) > i,
    decreases i,
{
    if i > 0 {
        lemma_scan_is_bounded(errors, i - 1);
    }
}

/// The offsets handed to the engine never decrease from one call to the
/// next.
pub proof fn lemma_scan_offsets_are_monotonic(errors: Seq<GrammarError>, i: int, j: int)
    requires
        offsets_increase(errors),
        0 <= i <= j <= errors.len(),
    ensures
        scan_offset(errors, i) <= scan_offset(errors, j),
    decreases j - i,
{
    if i < j {
        lemma_scan_offsets_are_monotonic(errors, i, j - 1);
        if j - 1 >= 0 {
            assert(scan_offset(errors, j - 1) < error_end(errors[j - 1]));
        }
    }
}

/// Hands a boolean option to the engine and reports whether it took it.
pub fn set_bool_option<E: Engine>(engine: &E, option: i32, value: bool) -> (r: bool)
    ensures
        exists|reply: i32|
            {
                &&& #[trigger] call_ensures(E::set_boolean_option, (engine, option, flag(value)), reply)
                &&& r == is_accepted(reply)
            },
{
    let reply = engine.set_boolean_option(option, flag_of(value));
    reply != 0
}

/// Hands an integer option to the engine and reports whether it took it.
pub fn set_int_option<E: Engine>(engine: &E, option: i32, value: i32) -> (r: bool)
    ensures
        exists|reply: i32|
            {
                &&& #[trigger] call_ensures(E::set_integer_option, (engine, option, value), reply)
                &&& r == is_accepted(reply)
            },
{
    let reply = engine.set_integer_option(option, value);
    reply != 0
}

} // verus!
