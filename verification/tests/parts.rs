//! The pieces below the session API: marshaling, stepping decisions, the
//! hyphenation aligner and the analysis mapping.
use voikko_rs::analysis::Analysis;
use voikko_rs::cursor::{next_offset, sentence_step, sentence_type_of, token_step, token_type_of};
use voikko_rs::foreign::{contains_nul, from_foreign_or_empty, ForeignString, NulError};
use voikko_rs::hyphenation::{hyphenate_with_mask, insert_at_marks};
use voikko_rs::libvoikko::{
    collect_analyses, collect_analysis, flag_of, hyphenated_from_reply, mask_from_reply,
    voikko_sentence_type, voikko_token_type,
};
use voikko_rs::text::{char_count, char_slice, char_to_byte_len, split_at_char, text_eq};
use voikko_rs::voikko::{
    hyphenate_from_mask, HyphenateError, InitError, Sentence, SentenceType, Token, TokenType,
};

#[test]
fn foreign_string_appends_the_terminator() {
    let buffer = ForeignString::new("yö").unwrap();
    assert_eq!(buffer.as_bytes_with_nul(), &vec![b'y', 0xc3, 0xb6, 0]);
    assert_eq!(buffer.len(), 3);
    let empty = ForeignString::new("").unwrap();
    assert_eq!(empty.as_bytes_with_nul(), &vec![0u8]);
    assert_eq!(empty.len(), 0);
}

#[test]
fn foreign_string_reports_the_first_terminator() {
    assert_eq!(ForeignString::new("ab\0c\0").err(), Some(NulError { position: 2 }));
    assert_eq!(ForeignString::new("\0").err(), Some(NulError { position: 0 }));
    assert_eq!(ForeignString::new("ö\0").err(), Some(NulError { position: 2 }));
    assert!(contains_nul("a\0"));
    assert!(!contains_nul("a0"));
    assert!(!contains_nul(""));
    assert_eq!(NulError { position: 2 }.message(), "nul byte found in provided data");
}

#[test]
fn foreign_bytes_decode_as_utf8() {
    assert_eq!(mask_from_reply(Some("pitää".as_bytes().to_vec())), Ok("pitää".to_string()));
    assert_eq!(mask_from_reply(Some(vec![])), Ok(String::new()));
    assert_eq!(mask_from_reply(Some(vec![0xff])), Err(false));
    assert_eq!(mask_from_reply(Some(vec![0xed, 0xa0, 0x80])), Err(false));
    assert_eq!(mask_from_reply(Some(vec![0xc0, 0x80])), Err(false));
    assert_eq!(from_foreign_or_empty(&"pitää".as_bytes().to_vec()), "pitää");
    assert_eq!(from_foreign_or_empty(&"kissa".as_bytes().to_vec()), "kissa");
    assert_eq!(from_foreign_or_empty(&vec![b'a', 0xc3]), "");
}

#[test]
fn texts_compare_by_their_characters() {
    assert!(text_eq("ääliö", "ääliö"));
    assert!(text_eq("", ""));
    assert!(!text_eq("a", "A"));
    assert!(!text_eq("ab", "abc"));
    assert!(!text_eq("ö", "o"));
}

#[test]
fn character_lengths_convert_to_byte_lengths() {
    assert_eq!(char_to_byte_len("kissa", 3), (3, 3));
    assert_eq!(char_to_byte_len("yö on", 2), (2, 3));
    assert_eq!(char_to_byte_len("yö on", 0), (0, 0));
    assert_eq!(char_to_byte_len("yö on", 5), (5, 6));
    assert_eq!(char_to_byte_len("yö on", 9), (5, 6));
    assert_eq!(char_to_byte_len("", 4), (0, 0));
    // one, two, three and four bytes to a character
    assert_eq!(char_to_byte_len("aä€😀!", 1), (1, 1));
    assert_eq!(char_to_byte_len("aä€😀!", 2), (2, 3));
    assert_eq!(char_to_byte_len("aä€😀!", 3), (3, 6));
    assert_eq!(char_to_byte_len("aä€😀!", 4), (4, 10));
    assert_eq!(char_to_byte_len("aä€😀!", usize::MAX), (5, 11));
}

#[test]
fn texts_are_sliced_by_characters() {
    assert_eq!(char_count("ääliö"), 5);
    assert_eq!(char_count(""), 0);
    assert_eq!(char_count("aä€😀!"), 5);
    assert_eq!(split_at_char("Järvenpää kuuluu", 9), ("Järvenpää", " kuuluu"));
    assert_eq!(split_at_char("yö", 0), ("", "yö"));
    assert_eq!(split_at_char("yö", 2), ("yö", ""));
    assert_eq!(split_at_char("yö", 7), ("yö", ""));
    assert_eq!(char_slice("Mäntsälä koillisessa", 1, 8), "äntsälä");
    assert_eq!(char_slice("aä€😀!", 2, 4), "€😀");
    assert_eq!(char_slice("yö on", 3, 99), "on");
    assert_eq!(char_slice("yö on", 3, 3), "");
    assert_eq!(char_slice("yö on", 4, 2), "");
    assert_eq!(char_slice("yö on", 9, 12), "");
}

#[test]
fn errors_carry_their_message() {
    assert_eq!(InitError::new("no dictionary").message(), "no dictionary");
    assert_eq!(
        InitError::from_nul_error(NulError { position: 1 }).message(),
        "nul byte found in provided data"
    );
    assert_eq!(HyphenateError::new("failed").message(), "failed");
    assert_eq!(HyphenateError::new("failed"), HyphenateError::new("failed"));
    assert_eq!(
        HyphenateError::from_nul_error(NulError { position: 0 }).message(),
        "nul byte found in provided data"
    );
    assert_eq!(
        HyphenateError::from_invalid_utf8().message(),
        "invalid utf-8 sequence in engine reply"
    );
}

#[test]
fn engine_classes_convert_one_to_one() {
    assert_eq!(token_type_of(voikko_token_type::TOKEN_NONE), TokenType::Nothing);
    assert_eq!(token_type_of(voikko_token_type::TOKEN_WORD), TokenType::Word);
    assert_eq!(token_type_of(voikko_token_type::TOKEN_PUNCTUATION), TokenType::Punctuation);
    assert_eq!(token_type_of(voikko_token_type::TOKEN_WHITESPACE), TokenType::Whitespace);
    assert_eq!(token_type_of(voikko_token_type::TOKEN_UNKNOWN), TokenType::Unknown);
    assert_eq!(sentence_type_of(voikko_sentence_type::SENTENCE_NONE), SentenceType::Nothing);
    assert_eq!(sentence_type_of(voikko_sentence_type::SENTENCE_NO_START), SentenceType::NoStart);
    assert_eq!(sentence_type_of(voikko_sentence_type::SENTENCE_PROBABLE), SentenceType::Probable);
    assert_eq!(sentence_type_of(voikko_sentence_type::SENTENCE_POSSIBLE), SentenceType::Possible);
    assert_eq!(flag_of(true), 1);
    assert_eq!(flag_of(false), 0);
}

#[test]
fn token_step_slices_by_characters() {
    let text = "yö on";
    assert_eq!(
        token_step(text, 0, voikko_token_type::TOKEN_WORD, 2),
        Some((Token::new("yö", TokenType::Word), 2))
    );
    assert_eq!(
        token_step(text, 2, voikko_token_type::TOKEN_WHITESPACE, 1),
        Some((Token::new(" ", TokenType::Whitespace), 3))
    );
    assert_eq!(
        token_step(text, 3, voikko_token_type::TOKEN_WORD, 9),
        Some((Token::new("on", TokenType::Word), 5))
    );
    assert_eq!(token_step(text, 3, voikko_token_type::TOKEN_NONE, 2), None);
    assert_eq!(token_step(text, 3, voikko_token_type::TOKEN_WORD, 0), None);
    assert_eq!(token_step(text, 5, voikko_token_type::TOKEN_WORD, 1), None);
    assert_eq!(token_step(text, 6, voikko_token_type::TOKEN_WORD, 1), None);
    assert_eq!(
        token_step(text, 4, voikko_token_type::TOKEN_UNKNOWN, usize::MAX),
        Some((Token::new("n", TokenType::Unknown), 5))
    );
}

#[test]
fn sentence_step_records_every_reply() {
    let text = "Yö. Aamu";
    let (first, next, more) = sentence_step(text, 0, voikko_sentence_type::SENTENCE_PROBABLE, 4);
    assert_eq!(first, Sentence::new("Yö. ", SentenceType::Probable));
    assert_eq!((next, more), (4, true));
    let (last, next, more) = sentence_step(text, 4, voikko_sentence_type::SENTENCE_NONE, 4);
    assert_eq!(last, Sentence::new("Aamu", SentenceType::Nothing));
    assert_eq!((next, more), (8, false));
    let (cut, next, more) = sentence_step(text, 4, voikko_sentence_type::SENTENCE_POSSIBLE, 40);
    assert_eq!(cut, Sentence::new("Aamu", SentenceType::Possible));
    assert_eq!((next, more), (8, true));
    let (still, next, more) = sentence_step(text, 4, voikko_sentence_type::SENTENCE_NO_START, 0);
    assert_eq!(still, Sentence::new("", SentenceType::NoStart));
    assert_eq!((next, more), (4, false));
    let (beyond, next, more) = sentence_step(text, 11, voikko_sentence_type::SENTENCE_PROBABLE, 1);
    assert_eq!(beyond, Sentence::new("", SentenceType::Probable));
    assert_eq!((next, more), (8, false));
}

#[test]
fn next_offset_demands_progress() {
    assert_eq!(next_offset(0, 21, 11), Some(32));
    assert_eq!(next_offset(32, 42, 7), Some(49));
    assert_eq!(next_offset(0, 0, 0), None);
    assert_eq!(next_offset(32, 21, 11), None);
    assert_eq!(next_offset(33, 21, 11), None);
    assert_eq!(next_offset(31, 21, 11), Some(32));
    assert_eq!(next_offset(0, usize::MAX, 1), None);
    assert_eq!(next_offset(0, usize::MAX, 0), Some(usize::MAX));
    assert_eq!(next_offset(usize::MAX, usize::MAX, 0), None);
}

#[test]
fn mask_is_applied_symbol_by_symbol() {
    assert_eq!(hyphenate_with_mask("kissa", "   - ", "-"), "kis-sa");
    assert_eq!(hyphenate_with_mask("kissa", "   - ", "=>"), "kis=>sa");
    assert_eq!(hyphenate_with_mask("vaa'an", "   =  ", "-"), "vaa-an");
    assert_eq!(hyphenate_with_mask("kissa", "     ", "-"), "kissa");
    assert_eq!(hyphenate_with_mask("kissa", "xyz?!", "-"), "kissa");
    assert_eq!(hyphenate_with_mask("", "", "-"), "");
    assert_eq!(hyphenate_with_mask("ab", "--", "-"), "-a-b");
    assert_eq!(hyphenate_with_mask("ab", "==", "+"), "++");
}

#[test]
fn mask_and_word_pair_up_to_the_shorter() {
    assert_eq!(hyphenate_with_mask("kissa", "   ", "-"), "kis");
    assert_eq!(hyphenate_with_mask("kis", "   - ", "-"), "kis");
    assert_eq!(hyphenate_with_mask("kissa", "", "-"), "");
}

#[test]
fn mask_is_aligned_by_grapheme_clusters() {
    // "e" with a combining acute accent is one cluster of two characters.
    assert_eq!(hyphenate_with_mask("ae\u{301}b", " - ", "-"), "a-e\u{301}b");
    assert_eq!(hyphenate_with_mask("ae\u{301}b", "  -", "-"), "ae\u{301}-b");
    assert_eq!(hyphenate_with_mask("a\r\nb", " =-", "|"), "a||b");
    assert_eq!(hyphenate_with_mask("🇫🇮x", " -", "-"), "🇫🇮-x");
}

#[test]
fn marks_are_single_symbols() {
    let word = vec!["a".to_string(), "b".to_string(), "c".to_string()];
    let mask = vec!["-".to_string(), "--".to_string(), "=".to_string()];
    assert_eq!(insert_at_marks(&word, &mask, "."), ".ab.");
    let none: Vec<String> = Vec::new();
    assert_eq!(insert_at_marks(&word, &none, "."), "");
}

#[test]
fn empty_insertion_keeps_words_without_replacing_marks() {
    for (word, mask) in [("kissa", "   - "), ("suihku", "    - "), ("ae\u{301}b", " --")] {
        assert_eq!(hyphenate_with_mask(word, mask, ""), word);
    }
}

#[test]
fn removing_the_insertion_gives_the_word_back() {
    for hyphen in ["-", "\u{ad}", "<wbr>"] {
        let word = "kunnallispolitiikka";
        let mask = "   -  -  - - -   - ";
        let hyphenated = hyphenate_with_mask(word, mask, hyphen);
        assert_eq!(hyphenated.replace(hyphen, ""), word);
    }
    assert_eq!(
        hyphenate_with_mask("kunnallispolitiikka", "   -  -  - - -   - ", "-"),
        "kun-nal-lis-po-li-tiik-ka"
    );
}

#[test]
fn replies_turn_into_outcomes() {
    assert_eq!(mask_from_reply(Some(" - ".as_bytes().to_vec())), Ok(" - ".to_string()));
    assert_eq!(mask_from_reply(Some(vec![0x80])), Err(false));
    assert_eq!(mask_from_reply(None), Err(false));
    assert_eq!(hyphenated_from_reply(Some("ki-sa".as_bytes().to_vec())), Ok("ki-sa".to_string()));
    assert_eq!(
        hyphenated_from_reply(None),
        Err(HyphenateError::new("Error hyphenating string: null pointer from libvoikko"))
    );
    assert_eq!(hyphenated_from_reply(Some(vec![0x80])), Err(HyphenateError::from_invalid_utf8()));
    assert_eq!(hyphenate_from_mask("kissa", "-", Ok("   - ".to_string())), Ok("kis-sa".to_string()));
    assert_eq!(hyphenate_from_mask("kissa", "-", Err(true)), Err(false));
}

#[test]
fn analysis_maps_names_to_values() {
    let mut analysis = Analysis::new();
    assert!(analysis.is_empty());
    assert_eq!(analysis.insert("CLASS".to_string(), "nimisana".to_string()), None);
    assert_eq!(analysis.insert("NUMBER".to_string(), "singular".to_string()), None);
    assert_eq!(
        analysis.insert("CLASS".to_string(), "laatusana".to_string()),
        Some("nimisana".to_string())
    );
    assert!(!analysis.is_empty());
    assert_eq!(analysis.get("CLASS").unwrap(), "laatusana");
    assert_eq!(analysis.get("NUMBER").unwrap(), "singular");
    assert!(analysis.get("class").is_none());
    assert_eq!(analysis.entries().len(), 2);
}

#[test]
fn analyses_are_equal_whatever_the_order() {
    let mut a = Analysis::new();
    a.insert("CLASS".to_string(), "nimisana".to_string());
    a.insert("NUMBER".to_string(), "singular".to_string());
    let mut b = Analysis::new();
    b.insert("NUMBER".to_string(), "plural".to_string());
    b.insert("CLASS".to_string(), "nimisana".to_string());
    assert_ne!(a, b);
    b.insert("NUMBER".to_string(), "singular".to_string());
    assert_eq!(a, b);
    b.insert("BASEFORM".to_string(), "kissa".to_string());
    assert_ne!(a, b);
    assert_ne!(b, a);
    assert_eq!(Analysis::new(), Analysis::new());
}

#[test]
fn readings_are_collected_in_order() {
    let records = vec![
        vec![("CLASS".to_string(), b"nimisana".to_vec()), ("X".to_string(), vec![0xff])],
        vec![],
        vec![("CLASS".to_string(), b"a".to_vec()), ("CLASS".to_string(), b"b".to_vec())],
    ];
    let list = collect_analyses(&records);
    assert_eq!(list.len(), 3);
    assert_eq!(list[0].get("CLASS").unwrap(), "nimisana");
    assert_eq!(list[0].get("X").unwrap(), "");
    assert!(list[1].is_empty());
    assert_eq!(list[2].get("CLASS").unwrap(), "b");
    assert_eq!(collect_analysis(&records[2]), list[2]);
    assert!(collect_analyses(&Vec::new()).is_empty());
}
