//! Youdao result pages: the entry types and their parsing.
//!
//! Parsing goes in two steps. The page is first read into plain values (the
//! raw texts of the elements that the dictionary's layout puts its data in),
//! then those texts are cleaned into an entry. Each step has its own contract.

use vstd::prelude::*;

use crate::html::{
    css_selector_valid, document_select_count, element_select_count, element_text,
    element_text_pieces, select_in_document, select_in_element, CssSelector, Document, Element,
    StepModel,
};
use crate::text::{
    concat, concat_strs, split_char, split_char_str, trim, trim_char, trim_char_str, trim_str,
    views,
};
use crate::{Error, ErrorModel};

verus! {

// ---------------------------------------------------------------------------
// Entry types and their models
// ---------------------------------------------------------------------------

/// British and American phonetic transcriptions.
#[derive(Debug, Clone)]
pub struct Pronunciation {
    pub uk: Option<String>,
    pub us: Option<String>,
}

/// An example sentence and its translation.
#[derive(Debug, Clone)]
pub struct Example {
    pub en: String,
    pub zh: String,
}

/// A part of speech with its definitions.
#[derive(Debug, Clone)]
pub struct Meaning {
    pub part_of_speech: Option<String>,
    pub definitions: Vec<String>,
}

/// An English word looked up for its Chinese meanings.
#[derive(Debug, Clone)]
pub struct ToChinese {
    pub input_text: String,
    pub pronunciation: Pronunciation,
    pub meanings: Vec<Meaning>,
    pub examples: Vec<Example>,
}

/// A Chinese word looked up for its English meanings.
#[derive(Debug, Clone)]
pub struct ToEnglish {
    pub input_text: String,
    pub meanings: Vec<String>,
    pub examples: Vec<Example>,
}

/// The data that one lookup returns, by the kind of dictionary.
#[derive(Debug, Clone)]
pub enum TranslationData {
    ToChinese(ToChinese),
    ToEnglish(ToEnglish),
    German(crate::german::GermanEntry),
}

/// The characters of an optional string.
pub open spec fn opt_view(o: Option<String>) -> Option<Seq<char>> {
    match o {
        Some(s) => Some(s@),
        None => None,
    }
}

/// The model of a `Pronunciation`.
pub struct PronunciationModel {
    pub uk: Option<Seq<char>>,
    pub us: Option<Seq<char>>,
}

/// The model of an `Example`.
pub struct ExampleModel {
    pub en: Seq<char>,
    pub zh: Seq<char>,
}

/// The model of a `Meaning`.
pub struct MeaningModel {
    pub part_of_speech: Option<Seq<char>>,
    pub definitions: Seq<Seq<char>>,
}

/// The model of a `ToChinese` entry.
pub struct ToChineseModel {
    pub input_text: Seq<char>,
    pub pronunciation: PronunciationModel,
    pub meanings: Seq<MeaningModel>,
    pub examples: Seq<ExampleModel>,
}

/// The model of a `ToEnglish` entry.
pub struct ToEnglishModel {
    pub input_text: Seq<char>,
    pub meanings: Seq<Seq<char>>,
    pub examples: Seq<ExampleModel>,
}

/// The model of `TranslationData`.
pub enum TranslationModel {
    ToChinese(ToChineseModel),
    ToEnglish(ToEnglishModel),
    German(crate::german::GermanEntryModel),
}

impl View for Pronunciation {
    type V = PronunciationModel;

    open spec fn view(&self) -> PronunciationModel {
        PronunciationModel { uk: opt_view(self.uk), us: opt_view(self.us) }
    }
}

impl View for Example {
    type V = ExampleModel;

    open spec fn view(&self) -> ExampleModel {
        ExampleModel { en: self.en@, zh: self.zh@ }
    }
}

impl View for Meaning {
    type V = MeaningModel;

    open spec fn view(&self) -> MeaningModel {
        MeaningModel { part_of_speech: opt_view(self.part_of_speech), definitions: views(self.definitions@) }
    }
}

/// The models of a vector of examples.
pub open spec fn example_views(v: Seq<Example>) -> Seq<ExampleModel> {
    v.map_values(|e: Example| e@)
}

/// The models of a vector of meanings.
pub open spec fn meaning_views(v: Seq<Meaning>) -> Seq<MeaningModel> {
    v.map_values(|m: Meaning| m@)
}

impl View for ToChinese {
    type V = ToChineseModel;

    open spec fn view(&self) -> ToChineseModel {
        ToChineseModel {
            input_text: self.input_text@,
            pronunciation: self.pronunciation@,
            meanings: meaning_views(self.meanings@),
            examples: example_views(self.examples@),
        }
    }
}

impl View for ToEnglish {
    type V = ToEnglishModel;

    open spec fn view(&self) -> ToEnglishModel {
        ToEnglishModel {
            input_text: self.input_text@,
            meanings: views(self.meanings@),
            examples: example_views(self.examples@),
        }
    }
}

impl View for TranslationData {
    type V = TranslationModel;

    open spec fn view(&self) -> TranslationModel {
        match self {
            TranslationData::ToChinese(t) => TranslationModel::ToChinese(t@),
            TranslationData::ToEnglish(t) => TranslationModel::ToEnglish(t@),
            TranslationData::German(g) => TranslationModel::German(g@),
        }
    }
}

/// The model of a parse result.
pub open spec fn result_view<T: View>(r: Result<T, Error>) -> Result<T::V, ErrorModel> {
    match r {
        Ok(t) => Ok(t@),
        Err(e) => Err(e@),
    }
}

// ---------------------------------------------------------------------------
// Selectors
// ---------------------------------------------------------------------------

/// The result body of a page.
pub const BODY_SELECTOR: &'static str = ".search_result-dict";
/// A phonetic transcription (British first, then American).
pub const PRONUNCIATION_SELECTOR: &'static str = ".phone_con .per-phone .phonetic";
/// A meaning block of an English→Chinese page.
pub const MEANINGS_SELECTOR: &'static str = ".trans-container .basic .word-exp";
/// The definitions text of a meaning block.
pub const DEFINITIONS_SELECTOR: &'static str = ".trans";
/// The part of speech of a meaning block.
pub const PART_OF_SPEECH_SELECTOR: &'static str = ".pos";
/// An example block.
pub const EXAMPLE_SELECTOR: &'static str = ".trans-container .mcols-layout .col2";
/// The English sentence of an example block.
pub const EN_SELECTOR: &'static str = ".sen-eng";
/// The Chinese sentence of an example block.
pub const ZH_SELECTOR: &'static str = ".sen-ch";
/// An English translation on a Chinese→English page.
pub const TO_ENGLISH_TRANSLATION_SELECTOR: &'static str = ".trans-container .basic .col2 .point";

/// The message of the error for a selector that `Selector::parse` refuses.
pub open spec fn invalid_selector_message(css: Seq<char>) -> Seq<char> {
    "invalid CSS selector: "@ + css
}

/// The first selector of `list` that `Selector::parse` refuses, if any.
pub open spec fn first_invalid_selector(list: Seq<Seq<char>>) -> Option<Seq<char>>
    decreases list.len(),
{
    if list.len() == 0 {
        None
    } else if !css_selector_valid(list[0]) {
        Some(list[0])
    } else {
        first_invalid_selector(list.drop_first())
    }
}

/// The characters of each string slice.
pub open spec fn str_views(v: Seq<&str>) -> Seq<Seq<char>> {
    v.map_values(|s: &str| s@)
}

/// Compiles the selectors of `list`, in order; fails on the first that
/// `Selector::parse` refuses.
pub(crate) fn compile_selectors(list: &Vec<&str>) -> (r: Result<Vec<CssSelector>, Error>)
    ensures
        match first_invalid_selector(str_views(list@)) {
            Some(css) => r matches Err(e) && e@ == ErrorModel::Parse(invalid_selector_message(css)),
            None => r matches Ok(v) && v@.len() == list@.len() && forall|i: int|
                0 <= i < v@.len() ==> (#[trigger] v@[i])@ == list@[i]@,
        },
{
    let mut out: Vec<CssSelector> = Vec::new();
    let mut i: usize = 0;
    assert(str_views(list@).skip(0) == str_views(list@));
    while i < list.len()
        invariant
            i <= list@.len(),
            out@.len() == i,
            forall|j: int| 0 <= j < i ==> (#[trigger] out@[j])@ == list@[j]@,
            forall|j: int| 0 <= j < i ==> css_selector_valid(#[trigger] str_views(list@)[j]),
            first_invalid_selector(str_views(list@)) == first_invalid_selector(
                str_views(list@).skip(i as int),
            ),
        decreases list.len() - i,
    {
        let ghost rest = str_views(list@).skip(i as int);
        assert(rest[0] == list@[i as int]@);
        match CssSelector::parse(list[i]) {
            Some(s) => {
                assert(rest.drop_first() == str_views(list@).skip(i + 1));
                out.push(s);
            },
            None => {
                let mut msg = "invalid CSS selector: ".to_owned();
                crate::text::push_str(&mut msg, list[i]);
                return Err(Error::Parse(msg));
            },
        }
        i = i + 1;
    }
    assert(str_views(list@).skip(i as int).len() == 0);
    Ok(out)
}

// ---------------------------------------------------------------------------
// Reading a page into plain values
// ---------------------------------------------------------------------------

/// The text of the element reached by `path` (its text pieces joined).
pub open spec fn text_at(html: Seq<char>, path: Seq<StepModel>) -> Seq<char> {
    concat(element_text_pieces(html, path))
}

/// The text of the first element that `css` selects inside the element at
/// `path`, if it selects any.
pub open spec fn first_text_in(html: Seq<char>, path: Seq<StepModel>, css: Seq<char>) -> Option<
    Seq<char>,
> {
    if element_select_count(html, path, css) > 0 {
        Some(text_at(html, path.push((css, 0nat))))
    } else {
        None
    }
}

/// The raw texts of one meaning block of a result page.
pub struct MeaningBlock {
    pub part_of_speech: Option<String>,
    pub definitions: Option<String>,
}

/// The raw texts of one example block of a result page.
pub struct ExampleBlock {
    pub en: Option<String>,
    pub zh: Option<String>,
}

/// What an English→Chinese page holds, as raw texts.
pub struct ChinesePage {
    /// The first two pronunciation elements' texts.
    pub pronunciations: Vec<String>,
    pub meanings: Vec<MeaningBlock>,
    pub examples: Vec<ExampleBlock>,
}

/// What a Chinese→English page holds, as raw texts.
pub struct EnglishPage {
    pub translations: Vec<String>,
    pub examples: Vec<ExampleBlock>,
}

/// The model of a `MeaningBlock`.
pub struct MeaningBlockModel {
    pub part_of_speech: Option<Seq<char>>,
    pub definitions: Option<Seq<char>>,
}

/// The model of an `ExampleBlock`.
pub struct ExampleBlockModel {
    pub en: Option<Seq<char>>,
    pub zh: Option<Seq<char>>,
}

/// The model of a `ChinesePage`.
pub struct ChinesePageModel {
    pub pronunciations: Seq<Seq<char>>,
    pub meanings: Seq<MeaningBlockModel>,
    pub examples: Seq<ExampleBlockModel>,
}

/// The model of an `EnglishPage`.
pub struct EnglishPageModel {
    pub translations: Seq<Seq<char>>,
    pub examples: Seq<ExampleBlockModel>,
}

impl View for MeaningBlock {
    type V = MeaningBlockModel;

    open spec fn view(&self) -> MeaningBlockModel {
        MeaningBlockModel {
            part_of_speech: opt_view(self.part_of_speech),
            definitions: opt_view(self.definitions),
        }
    }
}

impl View for ExampleBlock {
    type V = ExampleBlockModel;

    open spec fn view(&self) -> ExampleBlockModel {
        ExampleBlockModel { en: opt_view(self.en), zh: opt_view(self.zh) }
    }
}

impl View for ChinesePage {
    type V = ChinesePageModel;

    open spec fn view(&self) -> ChinesePageModel {
        ChinesePageModel {
            pronunciations: views(self.pronunciations@),
            meanings: self.meanings@.map_values(|b: MeaningBlock| b@),
            examples: self.examples@.map_values(|b: ExampleBlock| b@),
        }
    }
}

impl View for EnglishPage {
    type V = EnglishPageModel;

    open spec fn view(&self) -> EnglishPageModel {
        EnglishPageModel {
            translations: views(self.translations@),
            examples: self.examples@.map_values(|b: ExampleBlock| b@),
        }
    }
}

/// The path of the result body: the first element that `BODY_SELECTOR` selects.
pub open spec fn body_path() -> Seq<StepModel> {
    seq![(BODY_SELECTOR@, 0nat)]
}

/// The example blocks inside the element at `path`.
pub open spec fn example_blocks_model(html: Seq<char>, path: Seq<StepModel>) -> Seq<ExampleBlockModel> {
    Seq::new(
        element_select_count(html, path, EXAMPLE_SELECTOR@),
        |i: int|
            {
                let e = path.push((EXAMPLE_SELECTOR@, i as nat));
                ExampleBlockModel {
                    en: first_text_in(html, e, EN_SELECTOR@),
                    zh: first_text_in(html, e, ZH_SELECTOR@),
                }
            },
    )
}

/// What an English→Chinese page holds, read from `html`; `None` when it has
/// no result body.
pub open spec fn chinese_page_model(html: Seq<char>) -> Option<ChinesePageModel> {
    if document_select_count(html, BODY_SELECTOR@) == 0 {
        None
    } else {
        let b = body_path();
        let np = element_select_count(html, b, PRONUNCIATION_SELECTOR@);
        Some(
            ChinesePageModel {
                pronunciations: Seq::new(
                    if np < 2 { np } else { 2 },
                    |i: int| text_at(html, b.push((PRONUNCIATION_SELECTOR@, i as nat))),
                ),
                meanings: Seq::new(
                    element_select_count(html, b, MEANINGS_SELECTOR@),
                    |i: int|
                        {
                            let m = b.push((MEANINGS_SELECTOR@, i as nat));
                            MeaningBlockModel {
                                part_of_speech: first_text_in(html, m, PART_OF_SPEECH_SELECTOR@),
                                definitions: first_text_in(html, m, DEFINITIONS_SELECTOR@),
                            }
                        },
                ),
                examples: example_blocks_model(html, b),
            },
        )
    }
}

/// What a Chinese→English page holds, read from `html`; `None` when it has
/// no result body.
pub open spec fn english_page_model(html: Seq<char>) -> Option<EnglishPageModel> {
    if document_select_count(html, BODY_SELECTOR@) == 0 {
        None
    } else {
        let b = body_path();
        Some(
            EnglishPageModel {
                translations: Seq::new(
                    element_select_count(html, b, TO_ENGLISH_TRANSLATION_SELECTOR@),
                    |i: int| text_at(html, b.push((TO_ENGLISH_TRANSLATION_SELECTOR@, i as nat))),
                ),
                examples: example_blocks_model(html, b),
            },
        )
    }
}

/// The text of an element (its text pieces joined).
pub(crate) fn text_of(el: &Element) -> (t: String)
    ensures
        t@ == text_at(el.html(), el.path()),
{
    let pieces = element_text(el);
    concat_strs(&pieces)
}

/// The text of the first element that `sel` selects inside `el`, if any.
pub(crate) fn first_text(el: &Element, sel: &CssSelector) -> (t: Option<String>)
    ensures
        opt_view(t) == first_text_in(el.html(), el.path(), sel@),
{
    let found = select_in_element(el, sel);
    if found.len() > 0 {
        Some(text_of(&found[0]))
    } else {
        None
    }
}

/// The example blocks inside `el`.
fn example_blocks(el: &Element, example: &CssSelector, en: &CssSelector, zh: &CssSelector) -> (r:
    Vec<ExampleBlock>)
    requires
        example@ == EXAMPLE_SELECTOR@,
        en@ == EN_SELECTOR@,
        zh@ == ZH_SELECTOR@,
    ensures
        r@.map_values(|b: ExampleBlock| b@) == example_blocks_model(el.html(), el.path()),
{
    let found = select_in_element(el, example);
    let mut out: Vec<ExampleBlock> = Vec::new();
    let mut i: usize = 0;
    while i < found.len()
        invariant
            i <= found@.len(),
            found@.len() == element_select_count(el.html(), el.path(), example@),
            forall|j: int|
                0 <= j < found@.len() ==> (#[trigger] found@[j]).html() == el.html()
                    && found@[j].path() == el.path().push((example@, j as nat)),
            en@ == EN_SELECTOR@,
            zh@ == ZH_SELECTOR@,
            example@ == EXAMPLE_SELECTOR@,
            out@.len() == i,
            forall|j: int|
                0 <= j < i ==> (#[trigger] out@[j])@ == example_blocks_model(el.html(), el.path())[j],
        decreases found.len() - i,
    {
        let b = ExampleBlock { en: first_text(&found[i], en), zh: first_text(&found[i], zh) };
        out.push(b);
        i = i + 1;
    }
    assert(out@.map_values(|b: ExampleBlock| b@) =~= example_blocks_model(el.html(), el.path()));
    out
}

/// Reads an English→Chinese page; `None` when it has no result body.
/// The selectors are those of `chinese_selectors`, in that order.
fn read_chinese_page(doc: &Document, sels: &Vec<CssSelector>) -> (r: Option<ChinesePage>)
    requires
        sels@.len() == 8,
        sels@[0]@ == BODY_SELECTOR@,
        sels@[1]@ == PRONUNCIATION_SELECTOR@,
        sels@[2]@ == MEANINGS_SELECTOR@,
        sels@[3]@ == PART_OF_SPEECH_SELECTOR@,
        sels@[4]@ == DEFINITIONS_SELECTOR@,
        sels@[5]@ == EXAMPLE_SELECTOR@,
        sels@[6]@ == EN_SELECTOR@,
        sels@[7]@ == ZH_SELECTOR@,
    ensures
        match r {
            Some(p) => chinese_page_model(doc@) == Some(p@),
            None => chinese_page_model(doc@) is None,
        },
{
    let bodies = select_in_document(doc, &sels[0]);
    if bodies.len() == 0 {
        return None;
    }
    let body = &bodies[0];
    let ghost html = doc@;
    let ghost b = body_path();
    assert(body.path() == b);

    let prons = select_in_element(body, &sels[1]);
    let np = if prons.len() < 2 {
        prons.len()
    } else {
        2
    };
    let mut pronunciations: Vec<String> = Vec::new();
    let mut i: usize = 0;
    while i < np
        invariant
            np <= prons@.len(),
            i <= np,
            forall|j: int|
                0 <= j < prons@.len() ==> (#[trigger] prons@[j]).html() == html
                    && prons@[j].path() == b.push((PRONUNCIATION_SELECTOR@, j as nat)),
            pronunciations@.len() == i,
            forall|j: int|
                0 <= j < i ==> (#[trigger] pronunciations@[j])@ == text_at(
                    html,
                    b.push((PRONUNCIATION_SELECTOR@, j as nat)),
                ),
        decreases np - i,
    {
        pronunciations.push(text_of(&prons[i]));
        i = i + 1;
    }

    let blocks = select_in_element(body, &sels[2]);
    let mut meanings: Vec<MeaningBlock> = Vec::new();
    let mut k: usize = 0;
    while k < blocks.len()
        invariant
            k <= blocks@.len(),
            sels@[3]@ == PART_OF_SPEECH_SELECTOR@,
            sels@[4]@ == DEFINITIONS_SELECTOR@,
            sels@.len() == 8,
            forall|j: int|
                0 <= j < blocks@.len() ==> (#[trigger] blocks@[j]).html() == html
                    && blocks@[j].path() == b.push((MEANINGS_SELECTOR@, j as nat)),
            meanings@.len() == k,
            forall|j: int|
                0 <= j < k ==> (#[trigger] meanings@[j])@ == ({
                    let m = b.push((MEANINGS_SELECTOR@, j as nat));
                    MeaningBlockModel {
                        part_of_speech: first_text_in(html, m, PART_OF_SPEECH_SELECTOR@),
                        definitions: first_text_in(html, m, DEFINITIONS_SELECTOR@),
                    }
                }),
        decreases blocks.len() - k,
    {
        let mb = MeaningBlock {
            part_of_speech: first_text(&blocks[k], &sels[3]),
            definitions: first_text(&blocks[k], &sels[4]),
        };
        meanings.push(mb);
        k = k + 1;
    }

    let examples = example_blocks(body, &sels[5], &sels[6], &sels[7]);
    let page = ChinesePage { pronunciations, meanings, examples };
    assert(page@.pronunciations =~= chinese_page_model(html).unwrap().pronunciations);
    assert(page@.meanings =~= chinese_page_model(html).unwrap().meanings);
    Some(page)
}

/// Reads a Chinese→English page; `None` when it has no result body.
/// The selectors are those of `english_selectors`, in that order.
fn read_english_page(doc: &Document, sels: &Vec<CssSelector>) -> (r: Option<EnglishPage>)
    requires
        sels@.len() == 5,
        sels@[0]@ == BODY_SELECTOR@,
        sels@[1]@ == TO_ENGLISH_TRANSLATION_SELECTOR@,
        sels@[2]@ == EXAMPLE_SELECTOR@,
        sels@[3]@ == EN_SELECTOR@,
        sels@[4]@ == ZH_SELECTOR@,
    ensures
        match r {
            Some(p) => english_page_model(doc@) == Some(p@),
            None => english_page_model(doc@) is None,
        },
{
    let bodies = select_in_document(doc, &sels[0]);
    if bodies.len() == 0 {
        return None;
    }
    let body = &bodies[0];
    let ghost html = doc@;
    let ghost b = body_path();
    assert(body.path() == b);

    let found = select_in_element(body, &sels[1]);
    let mut translations: Vec<String> = Vec::new();
    let mut i: usize = 0;
    while i < found.len()
        invariant
            i <= found@.len(),
            forall|j: int|
                0 <= j < found@.len() ==> (#[trigger] found@[j]).html() == html
                    && found@[j].path() == b.push((TO_ENGLISH_TRANSLATION_SELECTOR@, j as nat)),
            translations@.len() == i,
            forall|j: int|
                0 <= j < i ==> (#[trigger] translations@[j])@ == text_at(
                    html,
                    b.push((TO_ENGLISH_TRANSLATION_SELECTOR@, j as nat)),
                ),
        decreases found.len() - i,
    {
        translations.push(text_of(&found[i]));
        i = i + 1;
    }
    let examples = example_blocks(body, &sels[2], &sels[3], &sels[4]);
    let page = EnglishPage { translations, examples };
    assert(page@.translations =~= english_page_model(html).unwrap().translations);
    Some(page)
}

} // verus!

verus! {

// ---------------------------------------------------------------------------
// Cleaning raw texts into entries
// ---------------------------------------------------------------------------

/// A pronunciation as shown: the text without surrounding slashes and
/// whitespace; none when nothing is left.
pub open spec fn pronunciation_text(t: Seq<char>) -> Option<Seq<char>> {
    let x = trim(trim_char(t, '/'));
    if x.len() == 0 {
        None
    } else {
        Some(x)
    }
}

/// Each text trimmed.
pub open spec fn trim_all(v: Seq<Seq<char>>) -> Seq<Seq<char>> {
    v.map_values(|p: Seq<char>| trim(p))
}

/// A trimmed text, or the empty text when there is none.
pub open spec fn text_or_empty(o: Option<Seq<char>>) -> Seq<char> {
    match o {
        Some(t) => trim(t),
        None => seq![],
    }
}

/// A meaning read from its block: the trimmed part of speech, and the
/// definitions text trimmed, split at full-width semicolons (U+FF1B), each
/// piece trimmed.
pub open spec fn meaning_of_block(b: MeaningBlockModel) -> MeaningModel {
    MeaningModel {
        part_of_speech: match b.part_of_speech {
            Some(t) => Some(trim(t)),
            None => None,
        },
        definitions: match b.definitions {
            Some(t) => trim_all(split_char(trim(t), '；')),
            None => seq![],
        },
    }
}

/// A meaning is kept when it has a part of speech or a definition.
pub open spec fn keeps_meaning(m: MeaningModel) -> bool {
    m.part_of_speech is Some || m.definitions.len() > 0
}

/// The meanings read from `bs`, in order, without those that have neither a
/// part of speech nor a definition.
pub open spec fn meanings_of_blocks(bs: Seq<MeaningBlockModel>) -> Seq<MeaningModel>
    decreases bs.len(),
{
    if bs.len() == 0 {
        seq![]
    } else {
        let rest = meanings_of_blocks(bs.drop_last());
        let m = meaning_of_block(bs.last());
        if keeps_meaning(m) {
            rest.push(m)
        } else {
            rest
        }
    }
}

/// An example read from its block: both texts trimmed, missing ones empty.
pub open spec fn example_of_block(b: ExampleBlockModel) -> ExampleModel {
    ExampleModel { en: text_or_empty(b.en), zh: text_or_empty(b.zh) }
}

/// An example is kept when its sentence or its translation is not empty.
pub open spec fn keeps_example(e: ExampleModel) -> bool {
    e.en.len() > 0 || e.zh.len() > 0
}

/// The examples read from `bs`, in order, without the empty ones.
pub open spec fn examples_of_blocks(bs: Seq<ExampleBlockModel>) -> Seq<ExampleModel>
    decreases bs.len(),
{
    if bs.len() == 0 {
        seq![]
    } else {
        let rest = examples_of_blocks(bs.drop_last());
        let e = example_of_block(bs.last());
        if keeps_example(e) {
            rest.push(e)
        } else {
            rest
        }
    }
}

/// The non-empty texts of `v`, trimmed, in order.
pub open spec fn nonempty_trimmed(v: Seq<Seq<char>>) -> Seq<Seq<char>>
    decreases v.len(),
{
    if v.len() == 0 {
        seq![]
    } else {
        let rest = nonempty_trimmed(v.drop_last());
        let t = trim(v.last());
        if t.len() > 0 {
            rest.push(t)
        } else {
            rest
        }
    }
}

/// The error for a page without a result body.
pub open spec fn no_body_error() -> ErrorModel {
    ErrorModel::Parse("no .search_result-dict found"@)
}

/// The English→Chinese entry for `input` that a read page gives.
pub open spec fn chinese_entry(input: Seq<char>, page: Option<ChinesePageModel>) -> Result<
    ToChineseModel,
    ErrorModel,
> {
    match page {
        None => Err(no_body_error()),
        Some(p) => {
            let uk = if p.pronunciations.len() > 0 {
                pronunciation_text(p.pronunciations[0])
            } else {
                None
            };
            let us = if p.pronunciations.len() > 1 {
                pronunciation_text(p.pronunciations[1])
            } else {
                None
            };
            let meanings = meanings_of_blocks(p.meanings);
            let examples = examples_of_blocks(p.examples);
            if examples.len() == 0 && meanings.len() == 0 && uk is None && us is None {
                Err(ErrorModel::NoTranslationResults)
            } else {
                Ok(
                    ToChineseModel {
                        input_text: input,
                        pronunciation: PronunciationModel { uk, us },
                        meanings,
                        examples,
                    },
                )
            }
        },
    }
}

/// The Chinese→English entry for `input` that a read page gives.
pub open spec fn english_entry(input: Seq<char>, page: Option<EnglishPageModel>) -> Result<
    ToEnglishModel,
    ErrorModel,
> {
    match page {
        None => Err(no_body_error()),
        Some(p) => {
            let meanings = nonempty_trimmed(p.translations);
            let examples = examples_of_blocks(p.examples);
            if examples.len() == 0 && meanings.len() == 0 {
                Err(ErrorModel::NoTranslationResults)
            } else {
                Ok(ToEnglishModel { input_text: input, meanings, examples })
            }
        },
    }
}

/// The model of an optional read page.
pub open spec fn chinese_page_view(p: Option<ChinesePage>) -> Option<ChinesePageModel> {
    match p {
        Some(p) => Some(p@),
        None => None,
    }
}

/// The model of an optional read page.
pub open spec fn english_page_view(p: Option<EnglishPage>) -> Option<EnglishPageModel> {
    match p {
        Some(p) => Some(p@),
        None => None,
    }
}

/// The trimmed text, or the empty string when there is none.
fn trimmed_or_empty(o: &Option<String>) -> (t: String)
    ensures
        t@ == text_or_empty(opt_view(*o)),
{
    match o {
        Some(s) => trim_str(s.as_str()),
        None => String::new(),
    }
}

/// The examples of the given blocks, without the empty ones.
fn examples_from_blocks(blocks: &Vec<ExampleBlock>) -> (r: Vec<Example>)
    ensures
        example_views(r@) == examples_of_blocks(blocks@.map_values(|b: ExampleBlock| b@)),
{
    let ghost bv = blocks@.map_values(|b: ExampleBlock| b@);
    let mut out: Vec<Example> = Vec::new();
    let mut i: usize = 0;
    while i < blocks.len()
        invariant
            i <= blocks@.len(),
            bv == blocks@.map_values(|b: ExampleBlock| b@),
            example_views(out@) == examples_of_blocks(bv.take(i as int)),
        decreases blocks.len() - i,
    {
        let en = trimmed_or_empty(&blocks[i].en);
        let zh = trimmed_or_empty(&blocks[i].zh);
        assert(bv.take(i + 1).drop_last() == bv.take(i as int));
        assert(bv.take(i + 1).last() == blocks@[i as int]@);
        if !en.as_str().is_empty() || !zh.as_str().is_empty() {
            let ex = Example { en, zh };
            assert(example_views(out@.push(ex)) == example_views(out@).push(ex@));
            out.push(ex);
        }
        i = i + 1;
    }
    assert(bv.take(blocks@.len() as int) == bv);
    out
}

/// The definitions of a definitions text: split at full-width semicolons,
/// each piece trimmed.
fn definitions_of(t: &str) -> (r: Vec<String>)
    ensures
        views(r@) == trim_all(split_char(trim(t@), '；')),
{
    let whole = trim_str(t);
    let pieces = split_char_str(whole.as_str(), '；');
    let mut out: Vec<String> = Vec::new();
    let mut i: usize = 0;
    while i < pieces.len()
        invariant
            i <= pieces@.len(),
            out@.len() == i,
            forall|j: int| 0 <= j < i ==> (#[trigger] out@[j])@ == trim(pieces@[j]@),
        decreases pieces.len() - i,
    {
        out.push(trim_str(pieces[i].as_str()));
        i = i + 1;
    }
    assert(views(out@) =~= trim_all(views(pieces@)));
    out
}

/// Builds the English→Chinese entry for `input_text` from a read page
/// (`None`: the page has no result body).
pub fn chinese_from_page(input_text: &str, page: Option<ChinesePage>) -> (r: Result<ToChinese, Error>)
    ensures
        result_view(r) == chinese_entry(input_text@, chinese_page_view(page)),
{
    let p = match page {
        None => return Err(Error::Parse("no .search_result-dict found".to_owned())),
        Some(p) => p,
    };
    let ghost pv = p@;
    let uk = if p.pronunciations.len() > 0 {
        let t = trim_str(trim_char_str(p.pronunciations[0].as_str(), '/').as_str());
        if t.as_str().is_empty() {
            None
        } else {
            Some(t)
        }
    } else {
        None
    };
    let us = if p.pronunciations.len() > 1 {
        let t = trim_str(trim_char_str(p.pronunciations[1].as_str(), '/').as_str());
        if t.as_str().is_empty() {
            None
        } else {
            Some(t)
        }
    } else {
        None
    };

    let ghost mv = p.meanings@.map_values(|b: MeaningBlock| b@);
    let mut meanings: Vec<Meaning> = Vec::new();
    let mut i: usize = 0;
    while i < p.meanings.len()
        invariant
            i <= p.meanings@.len(),
            mv == p.meanings@.map_values(|b: MeaningBlock| b@),
            meaning_views(meanings@) == meanings_of_blocks(mv.take(i as int)),
        decreases p.meanings.len() - i,
    {
        let block = &p.meanings[i];
        let part_of_speech = match &block.part_of_speech {
            Some(t) => Some(trim_str(t.as_str())),
            None => None,
        };
        let definitions = match &block.definitions {
            Some(t) => definitions_of(t.as_str()),
            None => Vec::new(),
        };
        assert(mv.take(i + 1).drop_last() == mv.take(i as int));
        assert(mv.take(i + 1).last() == block@);
        let m = Meaning { part_of_speech, definitions };
        assert(m@.part_of_speech == meaning_of_block(block@).part_of_speech);
        assert(m@.definitions =~= meaning_of_block(block@).definitions);
        assert(m@ == meaning_of_block(block@));
        assert(m@.definitions.len() == m.definitions@.len());
        if m.part_of_speech.is_some() || m.definitions.len() > 0 {
            assert(meaning_views(meanings@.push(m)) == meaning_views(meanings@).push(m@));
            meanings.push(m);
        }
        i = i + 1;
    }
    assert(mv.take(p.meanings@.len() as int) == mv);

    let examples = examples_from_blocks(&p.examples);
    if examples.len() == 0 && meanings.len() == 0 && uk.is_none() && us.is_none() {
        return Err(Error::NoTranslationResults);
    }
    Ok(
        ToChinese {
            input_text: input_text.to_owned(),
            pronunciation: Pronunciation { uk, us },
            meanings,
            examples,
        },
    )
}

/// Builds the Chinese→English entry for `input_text` from a read page
/// (`None`: the page has no result body).
pub fn english_from_page(input_text: &str, page: Option<EnglishPage>) -> (r: Result<ToEnglish, Error>)
    ensures
        result_view(r) == english_entry(input_text@, english_page_view(page)),
{
    let p = match page {
        None => return Err(Error::Parse("no .search_result-dict found".to_owned())),
        Some(p) => p,
    };
    let ghost tv = views(p.translations@);
    let mut meanings: Vec<String> = Vec::new();
    let mut i: usize = 0;
    while i < p.translations.len()
        invariant
            i <= p.translations@.len(),
            tv == views(p.translations@),
            views(meanings@) == nonempty_trimmed(tv.take(i as int)),
        decreases p.translations.len() - i,
    {
        let t = trim_str(p.translations[i].as_str());
        assert(tv.take(i + 1).drop_last() == tv.take(i as int));
        if !t.as_str().is_empty() {
            assert(views(meanings@.push(t)) == views(meanings@).push(t@));
            meanings.push(t);
        }
        i = i + 1;
    }
    assert(tv.take(p.translations@.len() as int) == tv);
    let examples = examples_from_blocks(&p.examples);
    if examples.len() == 0 && meanings.len() == 0 {
        return Err(Error::NoTranslationResults);
    }
    Ok(ToEnglish { input_text: input_text.to_owned(), meanings, examples })
}

} // verus!

verus! {

/// The selectors that English→Chinese parsing compiles, in order.
pub open spec fn chinese_selectors() -> Seq<Seq<char>> {
    seq![
        BODY_SELECTOR@,
        PRONUNCIATION_SELECTOR@,
        MEANINGS_SELECTOR@,
        PART_OF_SPEECH_SELECTOR@,
        DEFINITIONS_SELECTOR@,
        EXAMPLE_SELECTOR@,
        EN_SELECTOR@,
        ZH_SELECTOR@,
    ]
}

/// The selectors that Chinese→English parsing compiles, in order.
pub open spec fn english_selectors() -> Seq<Seq<char>> {
    seq![
        BODY_SELECTOR@,
        TO_ENGLISH_TRANSLATION_SELECTOR@,
        EXAMPLE_SELECTOR@,
        EN_SELECTOR@,
        ZH_SELECTOR@,
    ]
}

/// What parsing an English→Chinese page gives.
pub open spec fn to_chinese_result(input: Seq<char>, html: Seq<char>) -> Result<
    ToChineseModel,
    ErrorModel,
> {
    match first_invalid_selector(chinese_selectors()) {
        Some(css) => Err(ErrorModel::Parse(invalid_selector_message(css))),
        None => chinese_entry(input, chinese_page_model(html)),
    }
}

/// What parsing a Chinese→English page gives.
pub open spec fn to_english_result(input: Seq<char>, html: Seq<char>) -> Result<
    ToEnglishModel,
    ErrorModel,
> {
    match first_invalid_selector(english_selectors()) {
        Some(css) => Err(ErrorModel::Parse(invalid_selector_message(css))),
        None => english_entry(input, english_page_model(html)),
    }
}

/// Parses English, returns Chinese: the entry for `input_text` on the Youdao
/// result page `html`.
pub fn to_chinese(input_text: &str, html: &str) -> (r: Result<ToChinese, Error>)
    ensures
        result_view(r) == to_chinese_result(input_text@, html@),
{
    let list: Vec<&str> = vec![
        BODY_SELECTOR,
        PRONUNCIATION_SELECTOR,
        MEANINGS_SELECTOR,
        PART_OF_SPEECH_SELECTOR,
        DEFINITIONS_SELECTOR,
        EXAMPLE_SELECTOR,
        EN_SELECTOR,
        ZH_SELECTOR,
    ];
    assert(str_views(list@) =~= chinese_selectors());
    let sels = compile_selectors(&list)?;
    let doc = Document::parse(html);
    let page = read_chinese_page(&doc, &sels);
    chinese_from_page(input_text, page)
}

/// Parses Chinese, returns English: the entry for `input_text` on the Youdao
/// result page `html`.
pub fn to_english(input_text: &str, html: &str) -> (r: Result<ToEnglish, Error>)
    ensures
        result_view(r) == to_english_result(input_text@, html@),
{
    let list: Vec<&str> = vec![
        BODY_SELECTOR,
        TO_ENGLISH_TRANSLATION_SELECTOR,
        EXAMPLE_SELECTOR,
        EN_SELECTOR,
        ZH_SELECTOR,
    ];
    assert(str_views(list@) =~= english_selectors());
    let sels = compile_selectors(&list)?;
    let doc = Document::parse(html);
    let page = read_english_page(&doc, &sels);
    english_from_page(input_text, page)
}

} // verus!

verus! {

impl Default for Pronunciation {
    /// No transcriptions.
    fn default() -> (p: Self)
        ensures
            p.uk is None && p.us is None,
    {
        Pronunciation { uk: None, us: None }
    }
}

impl Default for Example {
    /// An empty sentence and translation.
    fn default() -> (e: Self)
        ensures
            e@.en.len() == 0 && e@.zh.len() == 0,
    {
        Example { en: String::new(), zh: String::new() }
    }
}

impl Default for Meaning {
    /// No part of speech, no definitions.
    fn default() -> (m: Self)
        ensures
            m.part_of_speech is None && m.definitions@.len() == 0,
    {
        Meaning { part_of_speech: None, definitions: Vec::new() }
    }
}

impl Default for ToChinese {
    /// An empty entry for the empty word.
    fn default() -> (t: Self)
        ensures
            t@.input_text.len() == 0,
            t@.pronunciation.uk is None && t@.pronunciation.us is None,
            t@.meanings.len() == 0 && t@.examples.len() == 0,
    {
        ToChinese {
            input_text: String::new(),
            pronunciation: Pronunciation { uk: None, us: None },
            meanings: Vec::new(),
            examples: Vec::new(),
        }
    }
}

impl Default for ToEnglish {
    /// An empty entry for the empty word.
    fn default() -> (t: Self)
        ensures
            t@.input_text.len() == 0 && t@.meanings.len() == 0 && t@.examples.len() == 0,
    {
        ToEnglish { input_text: String::new(), meanings: Vec::new(), examples: Vec::new() }
    }
}

} // verus!
