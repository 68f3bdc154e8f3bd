//! Dictionary sources: where a word is looked up and how its page is read.

use vstd::prelude::*;

use crate::parse::{result_view, TranslationData, TranslationModel};
use crate::{Error, ErrorModel};

verus! {

/// A dictionary that can be asked about a word.
pub trait DictionarySource {
    /// The source's name.
    spec fn source_name(&self) -> Seq<char>;

    /// The URL of the page about `word`.
    spec fn url_for(&self, word: Seq<char>) -> Seq<char>;

    /// What the page `html` about `word` gives.
    spec fn parse_result(&self, word: Seq<char>, html: Seq<char>) -> Result<
        TranslationModel,
        ErrorModel,
    >;

    fn name(&self) -> (n: &'static str)
        ensures
            n@ == self.source_name(),
    ;

    fn fetch_url(&self, word: &str) -> (url: String)
        ensures
            url@ == self.url_for(word@),
    ;

    fn parse(&self, word: &str, html: &str) -> (r: Result<TranslationData, Error>)
        ensures
            result_view(r) == self.parse_result(word@, html@),
    ;
}

} // verus!
