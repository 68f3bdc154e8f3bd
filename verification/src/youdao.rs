//! The Youdao dictionary (m.youdao.com), English ⇄ Chinese.

use vstd::prelude::*;

use crate::parse::{
    to_chinese, to_chinese_result, to_english, to_english_result, TranslationData,
    TranslationModel,
};
use crate::source::DictionarySource;
use crate::text::push_str;
use crate::{has_cjk, is_cjk, Error, ErrorModel};

verus! {

/// The Youdao dictionary at `base_url`.
#[derive(Debug)]
pub struct YoudaoSource {
    base_url: String,
}

impl View for YoudaoSource {
    type V = Seq<char>;

    /// The base URL of the dictionary.
    closed spec fn view(&self) -> Seq<char> {
        self.base_url@
    }
}

impl YoudaoSource {
    /// The dictionary at `base_url`.
    pub fn new(base_url: &str) -> (s: Self)
        ensures
            s@ == base_url@,
    {
        YoudaoSource { base_url: base_url.to_owned() }
    }
}

/// The URL of the result page for `word` in the dictionary at `base_url`.
pub open spec fn youdao_url(base_url: Seq<char>, word: Seq<char>) -> Seq<char> {
    base_url + "/result?word="@ + word + "&lang=en"@
}

/// What a Youdao page gives: Chinese→English for words with CJK characters,
/// English→Chinese otherwise.
pub open spec fn youdao_result(word: Seq<char>, html: Seq<char>) -> Result<
    TranslationModel,
    ErrorModel,
> {
    if has_cjk(word) {
        match to_english_result(word, html) {
            Ok(t) => Ok(TranslationModel::ToEnglish(t)),
            Err(e) => Err(e),
        }
    } else {
        match to_chinese_result(word, html) {
            Ok(t) => Ok(TranslationModel::ToChinese(t)),
            Err(e) => Err(e),
        }
    }
}

impl DictionarySource for YoudaoSource {
    open spec fn source_name(&self) -> Seq<char> {
        "youdao"@
    }

    open spec fn url_for(&self, word: Seq<char>) -> Seq<char> {
        youdao_url(self@, word)
    }

    open spec fn parse_result(&self, word: Seq<char>, html: Seq<char>) -> Result<
        TranslationModel,
        ErrorModel,
    > {
        youdao_result(word, html)
    }

    fn name(&self) -> (n: &'static str) {
        "youdao"
    }

    fn fetch_url(&self, word: &str) -> (url: String) {
        let mut url = self.base_url.clone();
        push_str(&mut url, "/result?word=");
        push_str(&mut url, word);
        push_str(&mut url, "&lang=en");
        url
    }

    fn parse(&self, word: &str, html: &str) -> (r: Result<TranslationData, Error>) {
        if is_cjk(word) {
            match to_english(word, html) {
                Ok(t) => Ok(TranslationData::ToEnglish(t)),
                Err(e) => Err(e),
            }
        } else {
            match to_chinese(word, html) {
                Ok(t) => Ok(TranslationData::ToChinese(t)),
                Err(e) => Err(e),
            }
        }
    }
}

} // verus!
