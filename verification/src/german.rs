//! The German dictionary (Netzverb, verbformen.com).

use vstd::prelude::*;

use crate::html::{
    document_select_count, element_select_count, element_text, select_in_document,
    select_in_element, CssSelector, Document, Element,
};
use crate::parse::{
    compile_selectors, first_invalid_selector, invalid_selector_message, opt_view, str_views,
    text_at, text_of,
};
use crate::text::{
    byte_len, contains, contains_str, ends_with, ends_with_str, join, join_strs, lowercase,
    push_str, starts_with, starts_with_str, to_lowercase, trim, trim_end, trim_end_matches,
    trim_end_matches_str, trim_end_str, trim_str, take_chars, views, same_str,
};
use crate::{Error, ErrorModel};

verus! {

/// A German dictionary entry.
#[derive(Debug, Clone)]
pub struct GermanEntry {
    pub word: String,
    pub gender: Option<String>,
    pub article: Option<String>,
    pub phonetic: Option<String>,
    pub cefr_level: Option<String>,
    pub word_type: Option<String>,
    pub definitions: Vec<String>,
    pub examples: Vec<(String, String)>,
}

/// The model of a `GermanEntry`.
pub struct GermanEntryModel {
    pub word: Seq<char>,
    pub gender: Option<Seq<char>>,
    pub article: Option<Seq<char>>,
    pub phonetic: Option<Seq<char>>,
    pub cefr_level: Option<Seq<char>>,
    pub word_type: Option<Seq<char>>,
    pub definitions: Seq<Seq<char>>,
    pub examples: Seq<(Seq<char>, Seq<char>)>,
}

/// The models of a vector of string pairs.
pub open spec fn pair_views(v: Seq<(String, String)>) -> Seq<(Seq<char>, Seq<char>)> {
    v.map_values(|p: (String, String)| (p.0@, p.1@))
}

impl View for GermanEntry {
    type V = GermanEntryModel;

    open spec fn view(&self) -> GermanEntryModel {
        GermanEntryModel {
            word: self.word@,
            gender: opt_view(self.gender),
            article: opt_view(self.article),
            phonetic: opt_view(self.phonetic),
            cefr_level: opt_view(self.cefr_level),
            word_type: opt_view(self.word_type),
            definitions: views(self.definitions@),
            examples: pair_views(self.examples@),
        }
    }
}

/// The Netzverb dictionary at `base_url`.
#[derive(Debug)]
pub struct WoerterNetSource {
    base_url: String,
}

impl View for WoerterNetSource {
    type V = Seq<char>;

    /// The base URL of the dictionary.
    closed spec fn view(&self) -> Seq<char> {
        self.base_url@
    }
}

impl WoerterNetSource {
    /// The dictionary at `base_url`.
    pub fn new(base_url: &str) -> (s: Self)
        ensures
            s@ == base_url@,
    {
        WoerterNetSource { base_url: base_url.to_owned() }
    }
}

// ---------------------------------------------------------------------------
// Word types and URLs
// ---------------------------------------------------------------------------

/// Whether `s` ends with one of `suffixes`.
pub open spec fn ends_with_any(s: Seq<char>, suffixes: Seq<Seq<char>>) -> bool {
    exists|i: int| 0 <= i < suffixes.len() && ends_with(s, #[trigger] suffixes[i])
}

/// Endings that mark a verb.
pub open spec fn verb_suffixes() -> Seq<Seq<char>> {
    seq!["ieren"@, "eln"@, "ern"@, "en"@]
}

/// Endings that mark an adjective.
pub open spec fn adjective_suffixes() -> Seq<Seq<char>> {
    seq![
        "lich"@,
        "isch"@,
        "ig"@,
        "bar"@,
        "sam"@,
        "los"@,
        "haft"@,
        "arm"@,
        "frei"@,
        "reich"@,
    ]
}

/// The word type that the ending of a lowercased word suggests.
pub open spec fn word_type_from_lowercase(lower: Seq<char>) -> Seq<char> {
    if ends_with_any(lower, verb_suffixes()) {
        "verb"@
    } else if ends_with_any(lower, adjective_suffixes()) {
        "adjective"@
    } else {
        "noun"@
    }
}

/// The word type guessed from the ending of the lowercased word.
pub open spec fn guessed_word_type(word: Seq<char>) -> Seq<char> {
    word_type_from_lowercase(lowercase(word))
}

/// Whether `s` ends with one of `suffixes`.
fn ends_with_one_of(s: &str, suffixes: &Vec<&str>) -> (b: bool)
    ensures
        b == ends_with_any(s@, str_views(suffixes@)),
{
    let mut i: usize = 0;
    while i < suffixes.len()
        invariant
            i <= suffixes@.len(),
            forall|j: int| 0 <= j < i ==> !ends_with(s@, #[trigger] str_views(suffixes@)[j]),
        decreases suffixes.len() - i,
    {
        if ends_with_str(s, suffixes[i]) {
            assert(ends_with(s@, str_views(suffixes@)[i as int]));
            return true;
        }
        i = i + 1;
    }
    false
}

/// The word type that the ending of a lowercased word suggests: "verb" for
/// -ieren, -eln, -ern, -en; "adjective" for -lich, -isch, -ig, -bar, -sam,
/// -los, -haft, -arm, -frei, -reich; "noun" otherwise.
pub fn word_type_of_lowercase(lower: &str) -> (t: &'static str)
    ensures
        t@ == word_type_from_lowercase(lower@),
{
    let verbs: Vec<&str> = vec!["ieren", "eln", "ern", "en"];
    assert(str_views(verbs@) =~= verb_suffixes());
    let adjectives: Vec<&str> = vec![
        "lich",
        "isch",
        "ig",
        "bar",
        "sam",
        "los",
        "haft",
        "arm",
        "frei",
        "reich",
    ];
    assert(str_views(adjectives@) =~= adjective_suffixes());
    if ends_with_one_of(lower, &verbs) {
        "verb"
    } else if ends_with_one_of(lower, &adjectives) {
        "adjective"
    } else {
        "noun"
    }
}

/// Guess German word type from suffix for URL selection: "verb",
/// "adjective" or "noun".
pub fn guess_word_type(word: &str) -> (t: &'static str)
    ensures
        t@ == guessed_word_type(word@),
{
    let lower = to_lowercase(word);
    word_type_of_lowercase(lower.as_str())
}

/// The path of the page for `word`, below the dictionary's base URL.
pub open spec fn german_page_path(word: Seq<char>) -> Seq<char> {
    let t = guessed_word_type(word);
    if t == "verb"@ {
        "conjugation/"@ + word + ".htm"@
    } else if t == "adjective"@ {
        "declension/adjectives/"@ + word + ".htm"@
    } else {
        "declension/nouns/"@ + word + ".htm"@
    }
}

/// The URL of the page for `word` in the dictionary at `base_url`.
pub open spec fn german_fetch_url(base_url: Seq<char>, word: Seq<char>) -> Seq<char> {
    base_url + "/"@ + german_page_path(word)
}

impl WoerterNetSource {
    /// The URL of the page for `word`: conjugation pages for words that look
    /// like verbs, declension pages otherwise.
    pub fn word_url(&self, word: &str) -> (url: String)
        ensures
            url@ == german_fetch_url(self@, word@),
    {
        let kind = guess_word_type(word);
        let mut path = if same_str(kind, "verb") {
            "conjugation/".to_owned()
        } else if same_str(kind, "adjective") {
            "declension/adjectives/".to_owned()
        } else {
            "declension/nouns/".to_owned()
        };
        push_str(&mut path, word);
        push_str(&mut path, ".htm");
        let mut url = self.base_url.clone();
        push_str(&mut url, "/");
        push_str(&mut url, path.as_str());
        url
    }
}

} // verus!

verus! {

// ---------------------------------------------------------------------------
// Reading a page into plain values
// ---------------------------------------------------------------------------

/// The page title, which names the kind of page.
pub const TITLE_SELECTOR: &'static str = "title";
/// The page body, whose text holds the transcription.
pub const BODY_SELECTOR: &'static str = "body";
/// An FAQ entry (schema.org microdata).
pub const FAQ_SELECTOR: &'static str = "[itemprop=\"mainEntity\"]";
/// The answer paragraph of an FAQ entry.
pub const ANSWER_SELECTOR: &'static str = "[itemprop=\"acceptedAnswer\"] p";
/// Italic text, which these pages use for definitions only.
pub const DEFINITION_SELECTOR: &'static str = "i";
/// An item of the example list.
pub const EXAMPLE_ITEM_SELECTOR: &'static str = "ul.rLstGt li";
/// A span inside an example item; the last holds the English text.
pub const SPAN_SELECTOR: &'static str = "span";

/// The selectors that German parsing compiles, in order.
pub open spec fn german_selectors() -> Seq<Seq<char>> {
    seq![
        TITLE_SELECTOR@,
        BODY_SELECTOR@,
        FAQ_SELECTOR@,
        ANSWER_SELECTOR@,
        DEFINITION_SELECTOR@,
        EXAMPLE_ITEM_SELECTOR@,
        SPAN_SELECTOR@,
    ]
}

/// The raw texts of one example list item.
pub struct ExampleItem {
    /// The text pieces of the item.
    pub pieces: Vec<String>,
    /// The text of the item's last `span`, if it has one.
    pub last_span: Option<String>,
}

/// What a Netzverb page holds, as raw texts.
pub struct GermanPage {
    /// The text of the first `title` element.
    pub title: Option<String>,
    /// For each FAQ entry, the text of its first answer paragraph.
    pub answers: Vec<Option<String>>,
    /// The text pieces of the first `body` element.
    pub body: Option<Vec<String>>,
    /// The texts of the `i` elements.
    pub italics: Vec<String>,
    /// The first three example list items.
    pub items: Vec<ExampleItem>,
}

/// The model of an `ExampleItem`.
pub struct ExampleItemModel {
    pub pieces: Seq<Seq<char>>,
    pub last_span: Option<Seq<char>>,
}

/// The model of a `GermanPage`.
pub struct GermanPageModel {
    pub title: Option<Seq<char>>,
    pub answers: Seq<Option<Seq<char>>>,
    pub body: Option<Seq<Seq<char>>>,
    pub italics: Seq<Seq<char>>,
    pub items: Seq<ExampleItemModel>,
}

impl View for ExampleItem {
    type V = ExampleItemModel;

    open spec fn view(&self) -> ExampleItemModel {
        ExampleItemModel { pieces: views(self.pieces@), last_span: opt_view(self.last_span) }
    }
}

/// The models of an optional vector of strings.
pub open spec fn opt_views(o: Option<Vec<String>>) -> Option<Seq<Seq<char>>> {
    match o {
        Some(v) => Some(views(v@)),
        None => None,
    }
}

impl View for GermanPage {
    type V = GermanPageModel;

    open spec fn view(&self) -> GermanPageModel {
        GermanPageModel {
            title: opt_view(self.title),
            answers: self.answers@.map_values(|a: Option<String>| opt_view(a)),
            body: opt_views(self.body),
            italics: views(self.italics@),
            items: self.items@.map_values(|it: ExampleItem| it@),
        }
    }
}

/// The text of the first element that `css` selects in the document, if any.
pub open spec fn first_document_text(html: Seq<char>, css: Seq<char>) -> Option<Seq<char>> {
    if document_select_count(html, css) > 0 {
        Some(text_at(html, seq![(css, 0nat)]))
    } else {
        None
    }
}

/// What a Netzverb page holds, read from `html`.
pub open spec fn german_page_model(html: Seq<char>) -> GermanPageModel {
    let ni = document_select_count(html, EXAMPLE_ITEM_SELECTOR@);
    GermanPageModel {
        title: first_document_text(html, TITLE_SELECTOR@),
        answers: Seq::new(
            document_select_count(html, FAQ_SELECTOR@),
            |i: int|
                {
                    let f = seq![(FAQ_SELECTOR@, i as nat)];
                    if element_select_count(html, f, ANSWER_SELECTOR@) > 0 {
                        Some(text_at(html, f.push((ANSWER_SELECTOR@, 0nat))))
                    } else {
                        None
                    }
                },
        ),
        body: if document_select_count(html, BODY_SELECTOR@) > 0 {
            Some(crate::html::element_text_pieces(html, seq![(BODY_SELECTOR@, 0nat)]))
        } else {
            None
        },
        italics: Seq::new(
            document_select_count(html, DEFINITION_SELECTOR@),
            |i: int| text_at(html, seq![(DEFINITION_SELECTOR@, i as nat)]),
        ),
        items: Seq::new(
            if ni < 3 { ni } else { 3 },
            |i: int|
                {
                    let li = seq![(EXAMPLE_ITEM_SELECTOR@, i as nat)];
                    let ns = element_select_count(html, li, SPAN_SELECTOR@);
                    ExampleItemModel {
                        pieces: crate::html::element_text_pieces(html, li),
                        last_span: if ns > 0 {
                            Some(text_at(html, li.push((SPAN_SELECTOR@, (ns - 1) as nat))))
                        } else {
                            None
                        },
                    }
                },
        ),
    }
}

/// The text of the first element of `found`, if any.
fn first_text_of(found: &Vec<Element>) -> (t: Option<String>)
    ensures
        found@.len() > 0 ==> opt_view(t) == Some(text_at(found@[0].html(), found@[0].path())),
        found@.len() == 0 ==> t is None,
{
    if found.len() > 0 {
        Some(text_of(&found[0]))
    } else {
        None
    }
}

/// Reads a Netzverb page. The selectors are those of `german_selectors`, in
/// that order.
fn read_german_page(doc: &Document, sels: &Vec<CssSelector>) -> (p: GermanPage)
    requires
        sels@.len() == 7,
        forall|i: int| 0 <= i < 7 ==> (#[trigger] sels@[i])@ == german_selectors()[i],
    ensures
        p@ == german_page_model(doc@),
{
    let ghost html = doc@;
    assert(sels@[0]@ == TITLE_SELECTOR@);
    assert(sels@[1]@ == BODY_SELECTOR@);
    assert(sels@[2]@ == FAQ_SELECTOR@);
    assert(sels@[3]@ == ANSWER_SELECTOR@);
    assert(sels@[4]@ == DEFINITION_SELECTOR@);
    assert(sels@[5]@ == EXAMPLE_ITEM_SELECTOR@);
    assert(sels@[6]@ == SPAN_SELECTOR@);

    let titles = select_in_document(doc, &sels[0]);
    let title = first_text_of(&titles);

    let faqs = select_in_document(doc, &sels[2]);
    let mut answers: Vec<Option<String>> = Vec::new();
    let mut i: usize = 0;
    while i < faqs.len()
        invariant
            i <= faqs@.len(),
            sels@.len() == 7,
            sels@[3]@ == ANSWER_SELECTOR@,
            faqs@.len() == document_select_count(html, FAQ_SELECTOR@),
            forall|j: int|
                0 <= j < faqs@.len() ==> (#[trigger] faqs@[j]).html() == html && faqs@[j].path()
                    == seq![(FAQ_SELECTOR@, j as nat)],
            answers@.len() == i,
            forall|j: int|
                0 <= j < i ==> opt_view(#[trigger] answers@[j]) == german_page_model(html).answers[j],
        decreases faqs.len() - i,
    {
        let found = select_in_element(&faqs[i], &sels[3]);
        let a = first_text_of(&found);
        answers.push(a);
        i = i + 1;
    }

    let bodies = select_in_document(doc, &sels[1]);
    let body = if bodies.len() > 0 {
        Some(element_text(&bodies[0]))
    } else {
        None
    };

    let defs = select_in_document(doc, &sels[4]);
    let mut italics: Vec<String> = Vec::new();
    let mut k: usize = 0;
    while k < defs.len()
        invariant
            k <= defs@.len(),
            defs@.len() == document_select_count(html, DEFINITION_SELECTOR@),
            forall|j: int|
                0 <= j < defs@.len() ==> (#[trigger] defs@[j]).html() == html && defs@[j].path()
                    == seq![(DEFINITION_SELECTOR@, j as nat)],
            italics@.len() == k,
            forall|j: int|
                0 <= j < k ==> (#[trigger] italics@[j])@ == german_page_model(html).italics[j],
        decreases defs.len() - k,
    {
        italics.push(text_of(&defs[k]));
        k = k + 1;
    }

    let lis = select_in_document(doc, &sels[5]);
    let n = if lis.len() < 3 {
        lis.len()
    } else {
        3
    };
    let mut items: Vec<ExampleItem> = Vec::new();
    let mut m: usize = 0;
    while m < n
        invariant
            m <= n <= lis@.len(),
            n == if lis@.len() < 3 { lis@.len() } else { 3 },
            sels@.len() == 7,
            sels@[6]@ == SPAN_SELECTOR@,
            lis@.len() == document_select_count(html, EXAMPLE_ITEM_SELECTOR@),
            forall|j: int|
                0 <= j < lis@.len() ==> (#[trigger] lis@[j]).html() == html && lis@[j].path()
                    == seq![(EXAMPLE_ITEM_SELECTOR@, j as nat)],
            items@.len() == m,
            forall|j: int| 0 <= j < m ==> (#[trigger] items@[j])@ == german_page_model(html).items[j],
        decreases n - m,
    {
        let pieces = element_text(&lis[m]);
        let spans = select_in_element(&lis[m], &sels[6]);
        let last_span = if spans.len() > 0 {
            Some(text_of(&spans[spans.len() - 1]))
        } else {
            None
        };
        items.push(ExampleItem { pieces, last_span });
        m = m + 1;
    }

    let p = GermanPage { title, answers, body, italics, items };
    assert(p@.answers =~= german_page_model(html).answers);
    assert(p@.italics =~= german_page_model(html).italics);
    assert(p@.items =~= german_page_model(html).items);
    p
}

} // verus!

verus! {

// ---------------------------------------------------------------------------
// What the page says
// ---------------------------------------------------------------------------

/// The word type that the page title names: "verb" for conjugation pages,
/// "adjective" or "noun" for declension pages.
pub open spec fn title_word_type(title: Option<Seq<char>>) -> Option<Seq<char>> {
    match title {
        None => None,
        Some(t) => word_type_from_lowercase_title(lowercase(t)),
    }
}

/// The word type that a lowercased page title names.
pub open spec fn word_type_from_lowercase_title(l: Seq<char>) -> Option<Seq<char>> {
    if contains(l, "conjugation"@) {
        Some("verb"@)
    } else if contains(l, "declension of adjective"@) || contains(
        l,
        "declension adjective"@,
    ) {
        Some("adjective"@)
    } else if contains(l, "declension of noun"@) || contains(l, "declension noun"@) {
        Some("noun"@)
    } else {
        None
    }
}

/// The CEFR levels, from the lowest.
pub open spec fn cefr_levels() -> Seq<Seq<char>> {
    seq!["A1"@, "A2"@, "B1"@, "B2"@, "C1"@, "C2"@]
}

/// The CEFR levels with their lowercase forms, from the lowest.
pub open spec fn cefr_level_keys() -> Seq<(Seq<char>, Seq<char>)> {
    seq![
        ("A1"@, "a1"@),
        ("A2"@, "a2"@),
        ("B1"@, "b1"@),
        ("B2"@, "b2"@),
        ("C1"@, "c1"@),
        ("C2"@, "c2"@),
    ]
}

/// The first of `levels` whose lowercase form occurs in `answer`.
pub open spec fn first_level_in(answer: Seq<char>, levels: Seq<(Seq<char>, Seq<char>)>) -> Option<
    Seq<char>,
>
    decreases levels.len(),
{
    if levels.len() == 0 {
        None
    } else if contains(answer, levels[0].1) {
        Some(levels[0].0)
    } else {
        first_level_in(answer, levels.drop_first())
    }
}

/// The articles with their genders, in the order they are tried.
pub open spec fn articles() -> Seq<(Seq<char>, Seq<char>)> {
    seq![("das"@, "neuter"@), ("der"@, "masculine"@), ("die"@, "feminine"@)]
}

/// The phrase `article is "<article>"`.
pub open spec fn article_phrase(article: Seq<char>) -> Seq<char> {
    "article is \""@ + article + "\""@
}

/// The phrase `"<word>" is <gender>`.
pub open spec fn gender_phrase(word: Seq<char>, gender: Seq<char>) -> Seq<char> {
    "\""@ + word + "\" is "@ + gender
}

/// The first article (with its gender) of `pairs` that `answer` names.
pub open spec fn first_article_in(
    word: Seq<char>,
    answer: Seq<char>,
    pairs: Seq<(Seq<char>, Seq<char>)>,
) -> Option<(Seq<char>, Seq<char>)>
    decreases pairs.len(),
{
    if pairs.len() == 0 {
        None
    } else if contains(answer, article_phrase(pairs[0].0)) || contains(
        answer,
        gender_phrase(word, pairs[0].1),
    ) {
        Some(pairs[0])
    } else {
        first_article_in(word, answer, pairs.drop_first())
    }
}

/// What the FAQ answers say: the CEFR level and the article with its gender.
pub struct FaqFacts {
    pub cefr_level: Option<Seq<char>>,
    pub article: Option<(Seq<char>, Seq<char>)>,
}

/// The facts of the FAQ answers, each non-empty answer (lowercased) overriding
/// what earlier answers said where it says something itself.
pub open spec fn faq_facts(word: Seq<char>, answers: Seq<Option<Seq<char>>>) -> FaqFacts
    decreases answers.len(),
{
    if answers.len() == 0 {
        FaqFacts { cefr_level: None, article: None }
    } else {
        let f = faq_facts(word, answers.drop_last());
        let a = match answers.last() {
            Some(t) => t,
            None => seq![],
        };
        if a.len() == 0 {
            f
        } else {
            let l = lowercase(a);
            FaqFacts {
                cefr_level: match first_level_in(l, cefr_level_keys()) {
                    Some(x) => Some(x),
                    None => f.cefr_level,
                },
                article: match first_article_in(word, l, articles()) {
                    Some(p) => Some(p),
                    None => f.article,
                },
            }
        }
    }
}

/// Characters that only IPA transcriptions of German use.
pub open spec fn is_ipa_char(c: char) -> bool {
    ||| c == 'ˈ'
    ||| c == 'ˌ'
    ||| c == 'ː'
    ||| c == 'ʃ'
    ||| c == 'ʒ'
    ||| c == 'ʔ'
    ||| c == 'ç'
    ||| c == 'x'
    ||| c == 'ŋ'
    ||| c == 'ʁ'
    ||| c == 'ø'
    ||| c == 'ɛ'
    ||| c == 'œ'
    ||| c == 'ʏ'
    ||| c == 'ʊ'
    ||| c == 'ɪ'
    ||| c == 'ə'
    ||| c == 'ɐ'
}

/// A text between slashes is taken as a transcription when it is 2 to 25
/// bytes long and holds an IPA character.
pub open spec fn ipa_candidate(buf: Seq<char>) -> bool {
    &&& 2 <= byte_len(buf) <= 25
    &&& exists|i: int| 0 <= i < buf.len() && is_ipa_char(#[trigger] buf[i])
}

/// The state of the scan for a transcription.
pub struct IpaScan {
    pub found: Option<Seq<char>>,
    pub in_ipa: bool,
    pub buf: Seq<char>,
}

/// One character of the scan: a slash closes a candidate (taken when it
/// qualifies) or opens one; other characters extend an open candidate.
pub open spec fn ipa_step(st: IpaScan, ch: char) -> IpaScan {
    if st.found is Some {
        st
    } else if ch == '/' {
        if st.in_ipa && ipa_candidate(st.buf) {
            IpaScan { found: Some(st.buf), in_ipa: st.in_ipa, buf: st.buf }
        } else {
            IpaScan { found: None, in_ipa: !st.in_ipa, buf: seq![] }
        }
    } else if st.in_ipa {
        IpaScan { found: None, in_ipa: true, buf: st.buf.push(ch) }
    } else {
        st
    }
}

/// The scan over `s`.
pub open spec fn ipa_scan(s: Seq<char>) -> IpaScan
    decreases s.len(),
{
    if s.len() == 0 {
        IpaScan { found: None, in_ipa: false, buf: seq![] }
    } else {
        ipa_step(ipa_scan(s.drop_last()), s.last())
    }
}

/// The first 3000 characters of the body text (its pieces joined by spaces).
pub open spec fn body_head(body: Option<Seq<Seq<char>>>) -> Seq<char> {
    let t = match body {
        Some(p) => join(p, " "@),
        None => seq![],
    };
    t.take(if t.len() < 3000 { t.len() as int } else { 3000 })
}

/// An `i` text is taken as a definition when it is 11 to 299 bytes long and
/// is no link or handle.
pub open spec fn definition_candidate(t: Seq<char>) -> bool {
    &&& byte_len(t) > 10
    &&& byte_len(t) < 300
    &&& !starts_with(t, "http"@)
    &&& !starts_with(t, "@"@)
}

/// The definitions: the trimmed candidate texts, in order, each once, at most 8.
pub open spec fn collect_definitions(italics: Seq<Seq<char>>) -> Seq<Seq<char>>
    decreases italics.len(),
{
    if italics.len() == 0 {
        seq![]
    } else {
        let d = collect_definitions(italics.drop_last());
        let t = trim(italics.last());
        if d.len() >= 8 {
            d
        } else if definition_candidate(t) && !d.contains(trim(t)) {
            d.push(trim(t))
        } else {
            d
        }
    }
}

/// A list item as an example: the English text is the item's last span, the
/// German text is what comes before it.
pub open spec fn example_of_item(it: ExampleItemModel) -> (Seq<char>, Seq<char>) {
    let all = join(it.pieces, " "@);
    let english = match it.last_span {
        Some(t) => trim(t),
        None => seq![],
    };
    let german = if english.len() > 0 {
        trim_end(trim_end_matches(all, english))
    } else {
        trim(all)
    };
    (german, english)
}

/// An example is kept when both texts are longer than 5 bytes.
pub open spec fn keeps_pair(p: (Seq<char>, Seq<char>)) -> bool {
    byte_len(p.0) > 5 && byte_len(p.1) > 5
}

/// The examples of the list items, in order, without the short ones.
pub open spec fn collect_examples(items: Seq<ExampleItemModel>) -> Seq<(Seq<char>, Seq<char>)>
    decreases items.len(),
{
    if items.len() == 0 {
        seq![]
    } else {
        let e = collect_examples(items.drop_last());
        let p = example_of_item(items.last());
        if keeps_pair(p) {
            e.push(p)
        } else {
            e
        }
    }
}

/// The entry for `word` that a read page gives.
pub open spec fn german_entry(word: Seq<char>, page: GermanPageModel) -> Result<
    GermanEntryModel,
    ErrorModel,
> {
    let word_type = title_word_type(page.title);
    let faq = faq_facts(word, page.answers);
    let phonetic = ipa_scan(body_head(page.body)).found;
    let definitions = collect_definitions(page.italics);
    let examples = collect_examples(page.items);
    if word_type is None && faq.cefr_level is None && phonetic is None && definitions.len() == 0
        && examples.len() == 0 {
        Err(ErrorModel::NoTranslationResults)
    } else {
        Ok(
            GermanEntryModel {
                word,
                gender: match faq.article {
                    Some(p) => Some(p.1),
                    None => None,
                },
                article: match faq.article {
                    Some(p) => Some(p.0),
                    None => None,
                },
                phonetic,
                cefr_level: faq.cefr_level,
                word_type,
                definitions,
                examples,
            },
        )
    }
}

} // verus!

verus! {

/// The word type that a page title names.
fn word_type_of_title(title: &Option<String>) -> (r: Option<String>)
    ensures
        opt_view(r) == title_word_type(opt_view(*title)),
{
    match title {
        None => None,
        Some(t) => {
            let l = to_lowercase(t.as_str());
            word_type_of_lowercase_title(l.as_str())
        },
    }
}

/// The word type that a lowercased page title names: "verb" when it
/// mentions "conjugation", "adjective" or "noun" when it mentions the
/// declension of one, none otherwise.
pub fn word_type_of_lowercase_title(l: &str) -> (r: Option<String>)
    ensures
        opt_view(r) == word_type_from_lowercase_title(l@),
{
    if contains_str(l, "conjugation") {
        Some("verb".to_owned())
    } else if contains_str(l, "declension of adjective") || contains_str(
        l,
        "declension adjective",
    ) {
        Some("adjective".to_owned())
    } else if contains_str(l, "declension of noun") || contains_str(
        l,
        "declension noun",
    ) {
        Some("noun".to_owned())
    } else {
        None
    }
}

/// The CEFR level that a lowercased FAQ answer names: the first of A1, A2,
/// B1, B2, C1, C2 whose lowercase form occurs in it.
pub fn level_in(answer: &str) -> (r: Option<String>)
    ensures
        opt_view(r) == first_level_in(answer@, cefr_level_keys()),
{
    let levels: Vec<(&str, &str)> = vec![
        ("A1", "a1"),
        ("A2", "a2"),
        ("B1", "b1"),
        ("B2", "b2"),
        ("C1", "c1"),
        ("C2", "c2"),
    ];
    let ghost lv = levels@.map_values(|p: (&str, &str)| (p.0@, p.1@));
    assert(lv =~= cefr_level_keys());
    let mut i: usize = 0;
    assert(lv.skip(0) == lv);
    while i < levels.len()
        invariant
            i <= levels@.len(),
            lv == levels@.map_values(|p: (&str, &str)| (p.0@, p.1@)),
            lv == cefr_level_keys(),
            first_level_in(answer@, cefr_level_keys()) == first_level_in(
                answer@,
                lv.skip(i as int),
            ),
        decreases levels.len() - i,
    {
        let ghost rest = lv.skip(i as int);
        assert(rest[0] == (levels@[i as int].0@, levels@[i as int].1@));
        let (level, lower) = levels[i];
        if contains_str(answer, lower) {
            return Some(level.to_owned());
        }
        assert(rest.drop_first() == lv.skip(i + 1));
        i = i + 1;
    }
    assert(lv.skip(i as int).len() == 0);
    None
}

/// `article is "<article>"`.
fn article_phrase_of(article: &str) -> (s: String)
    ensures
        s@ == article_phrase(article@),
{
    let mut s = "article is \"".to_owned();
    push_str(&mut s, article);
    push_str(&mut s, "\"");
    s
}

/// `"<word>" is <gender>`.
fn gender_phrase_of(word: &str, gender: &str) -> (s: String)
    ensures
        s@ == gender_phrase(word@, gender@),
{
    let mut s = "\"".to_owned();
    push_str(&mut s, word);
    push_str(&mut s, "\" is ");
    push_str(&mut s, gender);
    s
}

/// The article (with its gender) that a lowercased FAQ answer names: the
/// first of das/neuter, der/masculine, die/feminine for which the answer
/// holds `article is "<article>"` or `"<word>" is <gender>`.
pub fn article_in(word: &str, answer: &str) -> (r: Option<(String, String)>)
    ensures
        match r {
            Some(p) => first_article_in(word@, answer@, articles()) == Some((p.0@, p.1@)),
            None => first_article_in(word@, answer@, articles()) is None,
        },
{
    let pairs: Vec<(&str, &str)> = vec![("das", "neuter"), ("der", "masculine"), ("die", "feminine")];
    let ghost pv = pairs@.map_values(|p: (&str, &str)| (p.0@, p.1@));
    assert(pv =~= articles());
    let mut i: usize = 0;
    assert(pv.skip(0) == pv);
    while i < pairs.len()
        invariant
            i <= pairs@.len(),
            pv == pairs@.map_values(|p: (&str, &str)| (p.0@, p.1@)),
            pv == articles(),
            first_article_in(word@, answer@, articles()) == first_article_in(
                word@,
                answer@,
                pv.skip(i as int),
            ),
        decreases pairs.len() - i,
    {
        let ghost rest = pv.skip(i as int);
        assert(rest[0] == (pairs@[i as int].0@, pairs@[i as int].1@));
        let (article, gender) = pairs[i];
        if contains_str(answer, article_phrase_of(article).as_str()) || contains_str(
            answer,
            gender_phrase_of(word, gender).as_str(),
        ) {
            return Some((article.to_owned(), gender.to_owned()));
        }
        assert(rest.drop_first() == pv.skip(i + 1));
        i = i + 1;
    }
    assert(pv.skip(i as int).len() == 0);
    None
}

/// Whether `c` is one of the IPA characters that German transcriptions use.
fn ipa_char(c: char) -> (b: bool)
    ensures
        b == is_ipa_char(c),
{
    c == 'ˈ' || c == 'ˌ' || c == 'ː' || c == 'ʃ' || c == 'ʒ' || c == 'ʔ' || c == 'ç' || c == 'x'
        || c == 'ŋ' || c == 'ʁ' || c == 'ø' || c == 'ɛ' || c == 'œ' || c == 'ʏ' || c == 'ʊ'
        || c == 'ɪ' || c == 'ə' || c == 'ɐ'
}

/// Whether a text between slashes is taken as a transcription.
fn is_ipa_candidate(buf: &str) -> (b: bool)
    ensures
        b == ipa_candidate(buf@),
{
    let n = buf.as_bytes().len();
    if n < 2 || n > 25 {
        return false;
    }
    let v = crate::text::chars_of(buf);
    let mut i: usize = 0;
    while i < v.len()
        invariant
            v@ == buf@,
            2 <= byte_len(buf@) <= 25,
            i <= v@.len(),
            forall|j: int| 0 <= j < i ==> !is_ipa_char(#[trigger] buf@[j]),
        decreases v.len() - i,
    {
        if ipa_char(v[i]) {
            assert(is_ipa_char(buf@[i as int]));
            return true;
        }
        i = i + 1;
    }
    false
}

/// Once the scan has found a transcription, further characters change nothing.
proof fn lemma_ipa_scan_stable(s: Seq<char>, k: int)
    requires
        0 <= k <= s.len(),
        ipa_scan(s.take(k)).found is Some,
    ensures
        ipa_scan(s) == ipa_scan(s.take(k)),
    decreases s.len(),
{
    if k < s.len() {
        assert(s.drop_last().take(k) == s.take(k));
        lemma_ipa_scan_stable(s.drop_last(), k);
    } else {
        assert(s.take(k) == s);
    }
}

/// The first transcription between slashes in `head`.
fn find_phonetic(head: &str) -> (r: Option<String>)
    ensures
        opt_view(r) == ipa_scan(head@).found,
{
    let v = crate::text::chars_of(head);
    let n = v.len();
    let mut in_ipa = false;
    let mut buf = String::new();
    let mut found: Option<String> = None;
    let mut i: usize = 0;
    assert(v@.take(0) =~= Seq::<char>::empty());
    while i < n && found.is_none()
        invariant
            n == v@.len(),
            v@ == head@,
            i <= n,
            ipa_scan(v@.take(i as int)) == (IpaScan { found: opt_view(found), in_ipa, buf: buf@ }),
        decreases n - i,
    {
        let ch = v[i];
        assert(v@.take(i + 1).drop_last() == v@.take(i as int));
        assert(v@.take(i + 1).last() == ch);
        if ch == '/' {
            if in_ipa && is_ipa_candidate(buf.as_str()) {
                found = Some(buf.clone());
            } else {
                in_ipa = !in_ipa;
                buf = String::new();
            }
        } else if in_ipa {
            crate::text::push_char(&mut buf, ch);
        }
        i = i + 1;
    }
    proof {
        if found.is_some() {
            lemma_ipa_scan_stable(v@, i as int);
        } else {
            assert(v@.take(i as int) == v@);
        }
    }
    found
}

/// Whether `v` holds a string equal to `s`.
fn holds_str(v: &Vec<String>, s: &str) -> (b: bool)
    ensures
        b == views(v@).contains(s@),
{
    let mut i: usize = 0;
    while i < v.len()
        invariant
            i <= v@.len(),
            forall|j: int| 0 <= j < i ==> (#[trigger] v@[j])@ != s@,
        decreases v.len() - i,
    {
        if same_str(v[i].as_str(), s) {
            assert(views(v@)[i as int] == s@);
            return true;
        }
        i = i + 1;
    }
    proof {
        if views(v@).contains(s@) {
            let j = choose|j: int| 0 <= j < views(v@).len() && views(v@)[j] == s@;
            assert(v@[j]@ == s@);
        }
    }
    false
}

/// Once 8 definitions are collected, further texts change nothing.
proof fn lemma_definitions_full(s: Seq<Seq<char>>, k: int)
    requires
        0 <= k <= s.len(),
        collect_definitions(s.take(k)).len() >= 8,
    ensures
        collect_definitions(s) == collect_definitions(s.take(k)),
    decreases s.len(),
{
    if k < s.len() {
        assert(s.drop_last().take(k) == s.take(k));
        lemma_definitions_full(s.drop_last(), k);
    } else {
        assert(s.take(k) == s);
    }
}

/// The definitions among the `i` texts.
fn definitions_from(italics: &Vec<String>) -> (r: Vec<String>)
    ensures
        views(r@) == collect_definitions(views(italics@)),
{
    let ghost iv = views(italics@);
    let mut defs: Vec<String> = Vec::new();
    let mut i: usize = 0;
    assert(iv.take(0) =~= Seq::<Seq<char>>::empty());
    while i < italics.len() && defs.len() < 8
        invariant
            i <= italics@.len(),
            iv == views(italics@),
            views(defs@) == collect_definitions(iv.take(i as int)),
        decreases italics.len() - i,
    {
        let text = trim_str(italics[i].as_str());
        assert(iv.take(i + 1).drop_last() == iv.take(i as int));
        assert(iv.take(i + 1).last() == italics@[i as int]@);
        let n = text.as_str().as_bytes().len();
        if n > 10 && n < 300 && !starts_with_str(text.as_str(), "http") && !starts_with_str(
            text.as_str(),
            "@",
        ) {
            let clean = trim_str(text.as_str());
            if !holds_str(&defs, clean.as_str()) {
                proof {
                    crate::text::lemma_views_push(defs@, clean);
                }
                defs.push(clean);
            }
        }
        i = i + 1;
    }
    proof {
        if defs@.len() >= 8 {
            lemma_definitions_full(iv, i as int);
        } else {
            assert(iv.take(i as int) == iv);
        }
    }
    defs
}

/// The examples among the list items.
fn examples_from(items: &Vec<ExampleItem>) -> (r: Vec<(String, String)>)
    ensures
        pair_views(r@) == collect_examples(items@.map_values(|it: ExampleItem| it@)),
{
    let ghost mv = items@.map_values(|it: ExampleItem| it@);
    let mut out: Vec<(String, String)> = Vec::new();
    let mut i: usize = 0;
    while i < items.len()
        invariant
            i <= items@.len(),
            mv == items@.map_values(|it: ExampleItem| it@),
            pair_views(out@) == collect_examples(mv.take(i as int)),
        decreases items.len() - i,
    {
        let item = &items[i];
        assert(mv.take(i + 1).drop_last() == mv.take(i as int));
        assert(mv.take(i + 1).last() == item@);
        let all_text = join_strs(&item.pieces, " ");
        let english = match &item.last_span {
            Some(t) => trim_str(t.as_str()),
            None => String::new(),
        };
        let german = if !english.as_str().is_empty() {
            let stripped = trim_end_matches_str(all_text.as_str(), english.as_str());
            trim_end_str(stripped.as_str())
        } else {
            trim_str(all_text.as_str())
        };
        assert((german@, english@) == example_of_item(item@));
        if german.as_str().as_bytes().len() > 5 && english.as_str().as_bytes().len() > 5 {
            let ghost pair = (german, english);
            assert(pair_views(out@.push(pair)) =~= pair_views(out@).push((german@, english@)));
            out.push((german, english));
        }
        i = i + 1;
    }
    assert(mv.take(items@.len() as int) == mv);
    out
}

} // verus!

verus! {

/// Builds the entry for `word` from a read Netzverb page.
pub fn german_from_page(word: &str, page: &GermanPage) -> (r: Result<GermanEntry, Error>)
    ensures
        crate::parse::result_view(r) == german_entry(word@, page@),
{
    let word_type = word_type_of_title(&page.title);

    // FAQ answers: CEFR level and article / gender.
    let ghost av = page@.answers;
    let mut cefr_level: Option<String> = None;
    let mut article: Option<String> = None;
    let mut gender: Option<String> = None;
    let mut i: usize = 0;
    while i < page.answers.len()
        invariant
            i <= page.answers@.len(),
            av == page@.answers,
            av.len() == page.answers@.len(),
            opt_view(cefr_level) == faq_facts(word@, av.take(i as int)).cefr_level,
            match faq_facts(word@, av.take(i as int)).article {
                Some(p) => opt_view(article) == Some(p.0) && opt_view(gender) == Some(p.1),
                None => article is None && gender is None,
            },
        decreases page.answers.len() - i,
    {
        assert(av.take(i + 1).drop_last() == av.take(i as int));
        assert(av.take(i + 1).last() == opt_view(page.answers@[i as int]));
        let answer = match &page.answers[i] {
            Some(t) => t.clone(),
            None => String::new(),
        };
        if !answer.as_str().is_empty() {
            let a_lower = to_lowercase(answer.as_str());
            match level_in(a_lower.as_str()) {
                Some(level) => {
                    cefr_level = Some(level);
                },
                None => {},
            }
            match article_in(word, a_lower.as_str()) {
                Some((a, g)) => {
                    article = Some(a);
                    gender = Some(g);
                },
                None => {},
            }
        }
        i = i + 1;
    }
    assert(av.take(page.answers@.len() as int) == av);

    // Transcription: the first qualifying text between slashes in the body.
    let body_text = match &page.body {
        Some(pieces) => join_strs(pieces, " "),
        None => String::new(),
    };
    let head = take_chars(body_text.as_str(), 3000);
    let phonetic = find_phonetic(head.as_str());

    let definitions = definitions_from(&page.italics);
    let examples = examples_from(&page.items);

    if word_type.is_none() && cefr_level.is_none() && phonetic.is_none() && definitions.len() == 0
        && examples.len() == 0 {
        return Err(Error::NoTranslationResults);
    }
    Ok(
        GermanEntry {
            word: word.to_owned(),
            gender,
            article,
            phonetic,
            cefr_level,
            word_type,
            definitions,
            examples,
        },
    )
}

/// What parsing a Netzverb page for `word` gives.
pub open spec fn german_result(word: Seq<char>, html: Seq<char>) -> Result<
    GermanEntryModel,
    ErrorModel,
> {
    match first_invalid_selector(german_selectors()) {
        Some(css) => Err(ErrorModel::Parse(invalid_selector_message(css))),
        None => german_entry(word, german_page_model(html)),
    }
}

/// Parses a Netzverb page for `word`.
pub fn parse_german(word: &str, html: &str) -> (r: Result<GermanEntry, Error>)
    ensures
        crate::parse::result_view(r) == german_result(word@, html@),
{
    let list: Vec<&str> = vec![
        TITLE_SELECTOR,
        BODY_SELECTOR,
        FAQ_SELECTOR,
        ANSWER_SELECTOR,
        DEFINITION_SELECTOR,
        EXAMPLE_ITEM_SELECTOR,
        SPAN_SELECTOR,
    ];
    assert(str_views(list@) =~= german_selectors());
    let sels = compile_selectors(&list)?;
    let doc = Document::parse(html);
    let page = read_german_page(&doc, &sels);
    german_from_page(word, &page)
}

} // verus!

verus! {

/// What a Netzverb page gives, as translation data.
pub open spec fn german_translation(word: Seq<char>, html: Seq<char>) -> Result<
    crate::parse::TranslationModel,
    ErrorModel,
> {
    match german_result(word, html) {
        Ok(g) => Ok(crate::parse::TranslationModel::German(g)),
        Err(e) => Err(e),
    }
}

impl crate::source::DictionarySource for WoerterNetSource {
    open spec fn source_name(&self) -> Seq<char> {
        "woerter-net"@
    }

    open spec fn url_for(&self, word: Seq<char>) -> Seq<char> {
        german_fetch_url(self@, word)
    }

    open spec fn parse_result(&self, word: Seq<char>, html: Seq<char>) -> Result<
        crate::parse::TranslationModel,
        ErrorModel,
    > {
        german_translation(word, html)
    }

    fn name(&self) -> (n: &'static str) {
        "woerter-net"
    }

    fn fetch_url(&self, word: &str) -> (url: String) {
        self.word_url(word)
    }

    fn parse(&self, word: &str, html: &str) -> (r: Result<crate::parse::TranslationData, Error>) {
        match parse_german(word, html) {
            Ok(g) => Ok(crate::parse::TranslationData::German(g)),
            Err(e) => Err(e),
        }
    }
}

} // verus!

verus! {

impl Default for GermanEntry {
    /// An empty entry for the empty word.
    fn default() -> (e: Self)
        ensures
            e@.word.len() == 0,
            e@.gender is None && e@.article is None && e@.phonetic is None,
            e@.cefr_level is None && e@.word_type is None,
            e@.definitions.len() == 0 && e@.examples.len() == 0,
    {
        GermanEntry {
            word: String::new(),
            gender: None,
            article: None,
            phonetic: None,
            cefr_level: None,
            word_type: None,
            definitions: Vec::new(),
            examples: Vec::new(),
        }
    }
}

} // verus!
