//! HTML documents and CSS selectors, read through the `scraper` crate.
//!
//! The library never looks inside a parsed document itself: each question it
//! asks (how many elements match a selector, what an attribute of the `k`-th
//! match holds, what its text is) is one call into `scraper`. The answer is a
//! function of the document's source text and of the question, and each one
//! has a name below that the parsers' contracts speak of.
use vstd::prelude::*;
use scraper::{Html, Selector};
use crate::text::opt_chars;

verus! {

#[verifier::external_type_specification]
#[verifier::external_body]
pub struct ExHtml(Html);

#[verifier::external_type_specification]
#[verifier::external_body]
pub struct ExSelector(Selector);

/// Whether `scraper::Selector::parse` accepts the selector text `sel`.
pub uninterp spec fn css_parses(sel: Seq<char>) -> bool;

/// The number of elements of the HTML document `src` that match `sel`.
pub uninterp spec fn html_match_count(src: Seq<char>, sel: Seq<char>) -> nat;

/// The value of attribute `name` on the `k`-th element of `src` that matches
/// `sel` (`None` if there is no such element or it lacks the attribute).
pub uninterp spec fn html_match_attr(src: Seq<char>, sel: Seq<char>, k: nat, name: Seq<char>) -> Option<Seq<char>>;

/// The first descendant text node of the `k`-th element of `src` that matches
/// `sel` (`None` if there is no such element or it has no text node).
pub uninterp spec fn html_match_first_text(src: Seq<char>, sel: Seq<char>, k: nat) -> Option<Seq<char>>;

/// Within the `k`-th element of `src` matching `sel`, the first descendant
/// matching `inner`: `None` if there is none (or no `k`-th element), else
/// `Some` of its first descendant text node.
pub uninterp spec fn html_inner_first_text(src: Seq<char>, sel: Seq<char>, k: nat, inner: Seq<char>) -> Option<Option<Seq<char>>>;

/// Within the `k`-th element of `src` matching `sel`, the first descendant
/// matching `inner`: `None` if there is none (or no `k`-th element), else
/// `Some` of all its descendant text, concatenated.
pub uninterp spec fn html_inner_all_text(src: Seq<char>, sel: Seq<char>, k: nat, inner: Seq<char>) -> Option<Seq<char>>;

/// Within the `k`-th element of `src` matching `sel`, the first descendant
/// matching `inner`: `None` if there is none (or no `k`-th element), else
/// `Some` of the value of its attribute `name`.
pub uninterp spec fn html_inner_attr(src: Seq<char>, sel: Seq<char>, k: nat, inner: Seq<char>, name: Seq<char>) -> Option<Option<Seq<char>>>;

/// A parsed HTML document together with the text it was parsed from.
pub struct Page {
    html: Html,
    source: String,
}

/// A parsed CSS selector together with its text.
pub struct Css {
    sel: Selector,
    text: String,
}

impl Page {
    /// The text the document was parsed from.
    pub closed spec fn source(&self) -> Seq<char> {
        self.source@
    }

    /// `scraper::Html::parse_document`, which never fails.
    #[verifier::external_body]
    pub(crate) fn parse(html: &str) -> (res: Page)
        ensures
            res.source() == html@,
    {
        Page { html: Html::parse_document(html), source: html.to_string() }
    }

    /// `Html::select(css).count()`: the number of matching elements.
    #[verifier::external_body]
    pub(crate) fn count(&self, css: &Css) -> (res: usize)
        ensures
            res as nat == html_match_count(self.source(), css.text()),
    {
        self.html.select(&css.sel).count()
    }

    /// `Html::select(css).nth(k)`, then `ElementRef::attr(name)`.
    #[verifier::external_body]
    pub(crate) fn attr_of(&self, css: &Css, k: usize, name: &str) -> (res: Option<String>)
        ensures
            opt_chars(res) == html_match_attr(self.source(), css.text(), k as nat, name@),
    {
        match self.html.select(&css.sel).nth(k) {
            Some(e) => e.attr(name).map(|a| a.to_string()),
            None => None,
        }
    }

    /// `Html::select(css).nth(k)`, then `ElementRef::text().next()`.
    #[verifier::external_body]
    pub(crate) fn first_text_of(&self, css: &Css, k: usize) -> (res: Option<String>)
        ensures
            opt_chars(res) == html_match_first_text(self.source(), css.text(), k as nat),
    {
        match self.html.select(&css.sel).nth(k) {
            Some(e) => e.text().next().map(|t| t.to_string()),
            None => None,
        }
    }

    /// The `k`-th match of `css`, then `ElementRef::select(inner).next()`, then
    /// the first descendant text node of that element.
    #[verifier::external_body]
    pub(crate) fn inner_first_text(&self, css: &Css, k: usize, inner: &Css) -> (res: Option<Option<String>>)
        ensures
            (match res {
                Some(t) => html_inner_first_text(self.source(), css.text(), k as nat, inner.text()) == Some(opt_chars(t)),
                None => html_inner_first_text(self.source(), css.text(), k as nat, inner.text()) is None,
            }),
    {
        match self.html.select(&css.sel).nth(k) {
            Some(e) => e.select(&inner.sel).next().map(|i| i.text().next().map(|t| t.to_string())),
            None => None,
        }
    }

    /// The `k`-th match of `css`, then `ElementRef::select(inner).next()`, then
    /// all descendant text of that element, concatenated.
    #[verifier::external_body]
    pub(crate) fn inner_all_text(&self, css: &Css, k: usize, inner: &Css) -> (res: Option<String>)
        ensures
            opt_chars(res) == html_inner_all_text(self.source(), css.text(), k as nat, inner.text()),
    {
        match self.html.select(&css.sel).nth(k) {
            Some(e) => e.select(&inner.sel).next().map(|i| i.text().collect::<String>()),
            None => None,
        }
    }

    /// The `k`-th match of `css`, then `ElementRef::select(inner).next()`, then
    /// the value of attribute `name` on that element.
    #[verifier::external_body]
    pub(crate) fn inner_attr(&self, css: &Css, k: usize, inner: &Css, name: &str) -> (res: Option<Option<String>>)
        ensures
            (match res {
                Some(a) => html_inner_attr(self.source(), css.text(), k as nat, inner.text(), name@) == Some(opt_chars(a)),
                None => html_inner_attr(self.source(), css.text(), k as nat, inner.text(), name@) is None,
            }),
    {
        match self.html.select(&css.sel).nth(k) {
            Some(e) => e.select(&inner.sel).next().map(|i| i.attr(name).map(|a| a.to_string())),
            None => None,
        }
    }
}

impl Css {
    /// The selector's text.
    pub closed spec fn text(&self) -> Seq<char> {
        self.text@
    }

    /// `scraper::Selector::parse`.
    #[verifier::external_body]
    pub(crate) fn parse(text: &str) -> (res: Option<Css>)
        ensures
            res is Some <==> css_parses(text@),
            res matches Some(c) ==> c.text() == text@,
    {
        match Selector::parse(text) {
            Ok(sel) => Some(Css { sel, text: text.to_string() }),
            Err(_) => None,
        }
    }
}

} // verus!
