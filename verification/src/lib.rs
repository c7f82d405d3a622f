//! A verified access layer in front of a handle-based natural-language
//! analysis engine: spell checking, hyphenation, tokenization, sentence
//! splitting, grammar checking and morphological analysis.
//!
//! The engine itself stays behind the [`libvoikko::Engine`] trait. Everything
//! that decides what is handed to the engine and what is made of its replies
//! lives here and is proved for every reply the engine may give.
pub mod analysis;
pub mod cursor;
pub mod foreign;
pub mod hyphenation;
pub mod libvoikko;
pub mod text;
pub mod voikko;
