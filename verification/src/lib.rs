//! Dictionary lookups for English ⇄ Chinese (Youdao) and German (Netzverb):
//! building request URLs, turning fetched HTML into structured entries, and
//! rendering those entries as Markdown.

use vstd::prelude::*;

pub mod cli;
pub mod color;
pub mod german;
pub mod gui;
pub mod html;
pub mod laws;
pub mod parse;
pub mod rdict;
pub mod source;
pub mod text;
pub mod youdao;

use crate::text::push_str;

verus! {

/// True when `c` lies in the CJK Unified Ideographs block (U+4E00..=U+9FFF).
pub open spec fn is_cjk_char(c: char) -> bool {
    '\u{4E00}' <= c && c <= '\u{9FFF}'
}

/// True when some character of `text` is a CJK Unified Ideograph.
pub open spec fn has_cjk(text: Seq<char>) -> bool {
    exists|i: int| 0 <= i < text.len() && is_cjk_char(#[trigger] text[i])
}

/// Check if text contains CJK (Chinese, Japanese, Korean) characters.
///
/// Used to decide whether a Youdao lookup goes English→Chinese or
/// Chinese→English.
pub fn is_cjk(text: &str) -> (found: bool)
    ensures
        found == has_cjk(text@),
{
    let v = crate::text::chars_of(text);
    let mut i: usize = 0;
    while i < v.len()
        invariant
            v@ == text@,
            i <= v@.len(),
            forall|j: int| 0 <= j < i ==> !is_cjk_char(#[trigger] text@[j]),
        decreases v.len() - i,
    {
        let c = v[i];
        if '\u{4E00}' <= c && c <= '\u{9FFF}' {
            assert(is_cjk_char(text@[i as int]));
            return true;
        }
        i = i + 1;
    }
    false
}

/// Why a lookup failed.
pub enum Error {
    /// The cache database path is not valid UTF-8 (the path, lossily converted).
    InvalidDatabasePath(String),
    /// The page held no translation data.
    NoTranslationResults,
    /// The response could not be used (why).
    Parse(String),
    /// The HTTP request failed (the client's message).
    Http(String),
    /// The cache database failed (the driver's message).
    Database(String),
    /// A cache entry could not be serialized (the serializer's message).
    Serialize(String),
    /// An I/O operation failed (the system's message).
    Io(String),
}

/// The model of an `Error`: its variant and the text it carries.
pub enum ErrorModel {
    InvalidDatabasePath(Seq<char>),
    NoTranslationResults,
    Parse(Seq<char>),
    Http(Seq<char>),
    Database(Seq<char>),
    Serialize(Seq<char>),
    Io(Seq<char>),
}

impl View for Error {
    type V = ErrorModel;

    open spec fn view(&self) -> ErrorModel {
        match self {
            Error::InvalidDatabasePath(s) => ErrorModel::InvalidDatabasePath(s@),
            Error::NoTranslationResults => ErrorModel::NoTranslationResults,
            Error::Parse(s) => ErrorModel::Parse(s@),
            Error::Http(s) => ErrorModel::Http(s@),
            Error::Database(s) => ErrorModel::Database(s@),
            Error::Serialize(s) => ErrorModel::Serialize(s@),
            Error::Io(s) => ErrorModel::Io(s@),
        }
    }
}

/// The message that describes an error to the user.
pub open spec fn error_message(e: ErrorModel) -> Seq<char> {
    match e {
        ErrorModel::InvalidDatabasePath(p) => "Invalid UTF-8 database path: "@ + p,
        ErrorModel::NoTranslationResults => "No translation results"@,
        ErrorModel::Parse(m) => "Failed to parse response: "@ + m,
        ErrorModel::Http(m) => "HTTP request failed: "@ + m,
        ErrorModel::Database(m) => "Database error: "@ + m,
        ErrorModel::Serialize(m) => "Serialization error: "@ + m,
        ErrorModel::Io(m) => "I/O error: "@ + m,
    }
}

impl Error {
    /// The message that describes the error to the user.
    pub fn message(&self) -> (m: String)
        ensures
            m@ == error_message(self@),
    {
        let (head, detail): (&str, &str) = match self {
            Error::InvalidDatabasePath(p) => ("Invalid UTF-8 database path: ", p.as_str()),
            Error::NoTranslationResults => ("No translation results", ""),
            Error::Parse(m) => ("Failed to parse response: ", m.as_str()),
            Error::Http(m) => ("HTTP request failed: ", m.as_str()),
            Error::Database(m) => ("Database error: ", m.as_str()),
            Error::Serialize(m) => ("Serialization error: ", m.as_str()),
            Error::Io(m) => ("I/O error: ", m.as_str()),
        };
        let mut m = head.to_owned();
        push_str(&mut m, detail);
        proof {
            if self@ is NoTranslationResults {
                assert(""@ =~= Seq::<char>::empty()) by {
                    reveal_strlit("");
                }
                assert(m@ =~= "No translation results"@);
            }
        }
        m
    }
}

} // verus!
