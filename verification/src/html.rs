//! HTML documents as parsed by `scraper`.
//!
//! A parsed document is known by the text it was parsed from. An element is
//! known by the document it belongs to and by the path of selections that
//! reached it: the first step is the `index`-th element that selecting with
//! `css` in the document yields, each further step the `index`-th element
//! that selecting with `css` inside the previous element yields.

use scraper::{ElementRef, Html, Selector};
use vstd::prelude::*;

use crate::text::views;

verus! {

/// `scraper::Html`, a parsed document (opaque).
#[verifier::external_type_specification]
#[verifier::external_body]
pub struct ExHtml(Html);

/// `scraper::Selector`, a compiled selector (opaque).
#[verifier::external_type_specification]
#[verifier::external_body]
pub struct ExSelector(Selector);

/// `scraper::ElementRef`, an element of a parsed document (opaque).
#[verifier::external_type_specification]
#[verifier::external_body]
pub struct ExElementRef<'a>(ElementRef<'a>);

/// One selection step: the `index`-th element yielded by selecting with `css`.
pub type StepModel = (Seq<char>, nat);

/// Names whether `Selector::parse` accepts `css`, which depends on `css` alone.
pub uninterp spec fn css_selector_valid(css: Seq<char>) -> bool;

/// Names how many elements `Html::select` yields for selector `css` on the
/// document parsed from `html`.
pub uninterp spec fn document_select_count(html: Seq<char>, css: Seq<char>) -> nat;

/// Names how many elements `ElementRef::select` yields for selector `css`
/// inside the element reached by `path` in the document parsed from `html`.
pub uninterp spec fn element_select_count(
    html: Seq<char>,
    path: Seq<StepModel>,
    css: Seq<char>,
) -> nat;

/// Names the text pieces that `ElementRef::text` yields for the element
/// reached by `path` in the document parsed from `html`.
pub uninterp spec fn element_text_pieces(html: Seq<char>, path: Seq<StepModel>) -> Seq<Seq<char>>;

/// A parsed HTML document.
pub struct Document {
    source: String,
    tree: Html,
}

impl View for Document {
    type V = Seq<char>;

    closed spec fn view(&self) -> Seq<char> {
        self.source@
    }
}

/// A compiled CSS selector.
pub struct CssSelector {
    source: String,
    compiled: Selector,
}

impl View for CssSelector {
    type V = Seq<char>;

    closed spec fn view(&self) -> Seq<char> {
        self.source@
    }
}

/// One step of the path that reached an element.
#[derive(Clone)]
pub struct SelectStep {
    css: String,
    index: usize,
}

/// The model of a selection step.
pub closed spec fn step_model(s: SelectStep) -> StepModel {
    (s.css@, s.index as nat)
}

/// An element of a parsed document.
pub struct Element<'a> {
    doc: &'a Document,
    path: Vec<SelectStep>,
    node: ElementRef<'a>,
}

impl<'a> Element<'a> {
    /// The text of the document the element belongs to.
    pub closed spec fn html(&self) -> Seq<char> {
        self.doc.source@
    }

    /// The path of selections that reached the element.
    pub closed spec fn path(&self) -> Seq<StepModel> {
        self.path@.map_values(|s: SelectStep| step_model(s))
    }
}

impl Document {
    /// Calls `scraper::Html::parse_document` on `html` and keeps `html` with
    /// the tree. Claims only that the document is known by the text it was
    /// parsed from; what the tree holds is reached through the names above.
    #[verifier::external_body]
    pub(crate) fn parse(html: &str) -> (d: Document)
        ensures
            d@ == html@,
    {
        Document { source: html.to_owned(), tree: Html::parse_document(html) }
    }
}

impl CssSelector {
    /// Calls `scraper::Selector::parse` on `css`. Claims that it gives a
    /// selector exactly when `css_selector_valid(css)` holds, and that the
    /// selector is known by `css`; the parse error is dropped.
    #[verifier::external_body]
    pub(crate) fn parse(css: &str) -> (r: Option<CssSelector>)
        ensures
            r is Some <==> css_selector_valid(css@),
            r matches Some(s) ==> s@ == css@,
    {
        match Selector::parse(css) {
            Ok(compiled) => Some(CssSelector { source: css.to_owned(), compiled }),
            Err(_) => None,
        }
    }
}

/// Calls `scraper::Html::select` and collects what it yields. Claims that
/// it yields `document_select_count(doc, css)` elements, and that the `i`-th
/// of them belongs to `doc` and is known by the one-step path `(css, i)`.
#[verifier::external_body]
pub(crate) fn select_in_document<'a>(doc: &'a Document, sel: &CssSelector) -> (r: Vec<Element<'a>>)
    ensures
        r@.len() == document_select_count(doc@, sel@),
        forall|i: int|
            0 <= i < r@.len() ==> (#[trigger] r@[i]).html() == doc@ && r@[i].path() == seq![
                (sel@, i as nat),
            ],
{
    doc.tree.select(&sel.compiled).enumerate().map(|(index, node)| Element {
        doc,
        path: vec![SelectStep { css: sel.source.clone(), index }],
        node,
    }).collect()
}

/// Calls `scraper::ElementRef::select` on `el` and collects what it yields.
/// Claims that it yields `element_select_count(html, path, css)` elements for
/// `el`'s document text and path, and that the `i`-th of them belongs to the
/// same document and is known by `el`'s path extended by `(css, i)`.
#[verifier::external_body]
pub(crate) fn select_in_element<'a>(el: &Element<'a>, sel: &CssSelector) -> (r: Vec<Element<'a>>)
    ensures
        r@.len() == element_select_count(el.html(), el.path(), sel@),
        forall|i: int|
            0 <= i < r@.len() ==> (#[trigger] r@[i]).html() == el.html() && r@[i].path()
                == el.path().push((sel@, i as nat)),
{
    el.node.select(&sel.compiled).enumerate().map(|(index, node)| {
        let mut path = el.path.clone();
        path.push(SelectStep { css: sel.source.clone(), index });
        Element { doc: el.doc, path, node }
    }).collect()
}

/// Calls `scraper::ElementRef::text` on `el` and collects the pieces.
/// Claims that they are `element_text_pieces(html, path)` for `el`'s
/// document text and path.
#[verifier::external_body]
pub(crate) fn element_text<'a>(el: &Element<'a>) -> (r: Vec<String>)
    ensures
        views(r@) == element_text_pieces(el.html(), el.path()),
{
    el.node.text().map(|t| t.to_owned()).collect()
}

} // verus!
