//! What the logic reads of an HTML page, as plain values. The page is parsed
//! and queried by the `scraper` crate (an HTML5 parser and a CSS selector
//! engine); this module hands back the text and attribute values of the
//! elements that a selector matches, in document order.

use vstd::prelude::*;

verus! {

/// An element found inside a matched element: one of its attributes and its text.
pub struct MemberElement {
    pub attr: Option<String>,
    pub text: String,
}

/// A matched element: its text, and the elements matched inside it.
pub struct ElementGroup {
    pub text: String,
    pub members: Vec<MemberElement>,
}

/// A member element as plain values: (attribute value, text).
pub type MemberView = (Option<Seq<char>>, Seq<char>);

/// A group as plain values: (text, members).
pub type GroupView = (Seq<char>, Seq<MemberView>);

impl DeepView for MemberElement {
    type V = MemberView;

    open spec fn deep_view(&self) -> MemberView {
        (self.attr.deep_view(), self.text@)
    }
}

impl DeepView for ElementGroup {
    type V = GroupView;

    open spec fn deep_view(&self) -> GroupView {
        (self.text@, self.members.deep_view())
    }
}

/// The text of every element of the HTML document `html` that the CSS
/// selector `selector` matches, in document order; `None` when the selector
/// does not parse.
pub uninterp spec fn html_select_texts(html: Seq<char>, selector: Seq<char>) -> Option<
    Seq<Seq<char>>,
>;

/// The value of attribute `attr` of every element of `html` that `selector`
/// matches, in document order (`None` for an element without it); `None` when
/// the selector does not parse.
pub uninterp spec fn html_select_attrs(html: Seq<char>, selector: Seq<char>, attr: Seq<char>) -> Option<
    Seq<Option<Seq<char>>>,
>;

/// For every element of `html` that `outer` matches, in document order: its
/// text, and for every element inside it that `inner` matches, in document
/// order, the value of its attribute `attr` and its text; `None` when a
/// selector does not parse.
pub uninterp spec fn html_select_groups(
    html: Seq<char>,
    outer: Seq<char>,
    inner: Seq<char>,
    attr: Seq<char>,
) -> Option<Seq<GroupView>>;

/// Parses `html` with `scraper::Html::parse_document`, matches `selector`
/// (`scraper::Selector::parse`, `Html::select`) and collects each element's
/// text (`ElementRef::text`). The contract claims only that the result is
/// `html_select_texts` of the arguments, that is, that the crate computes the
/// same answer from the same inputs.
#[verifier::external_body]
pub(crate) fn select_texts(html: &str, selector: &str) -> (r: Option<Vec<String>>)
    ensures
        r.deep_view() == html_select_texts(html@, selector@),
{
    let sel = scraper::Selector::parse(selector).ok()?;
    let doc = scraper::Html::parse_document(html);
    Some(doc.select(&sel).map(|e| e.text().collect()).collect())
}

/// Parses `html` with `scraper::Html::parse_document`, matches `selector` and
/// reads attribute `attr` of each element (`Element::attr`). The contract
/// claims only that the result is `html_select_attrs` of the arguments.
#[verifier::external_body]
pub(crate) fn select_attrs(html: &str, selector: &str, attr: &str) -> (r: Option<Vec<Option<String>>>)
    ensures
        r.deep_view() == html_select_attrs(html@, selector@, attr@),
{
    let sel = scraper::Selector::parse(selector).ok()?;
    let doc = scraper::Html::parse_document(html);
    Some(doc.select(&sel).map(|e| e.value().attr(attr).map(|a| a.to_string())).collect())
}

/// Parses `html` with `scraper::Html::parse_document`, matches `outer`, and
/// inside each match matches `inner` (`ElementRef::select`), reading texts and
/// attribute `attr`. The contract claims only that the result is
/// `html_select_groups` of the arguments.
#[verifier::external_body]
pub(crate) fn select_groups(html: &str, outer: &str, inner: &str, attr: &str) -> (r: Option<
    Vec<ElementGroup>,
>)
    ensures
        r.deep_view() == html_select_groups(html@, outer@, inner@, attr@),
{
    let outer_sel = scraper::Selector::parse(outer).ok()?;
    let inner_sel = scraper::Selector::parse(inner).ok()?;
    let doc = scraper::Html::parse_document(html);
    Some(doc.select(&outer_sel).map(|e| ElementGroup {
        text: e.text().collect(),
        members: e.select(&inner_sel).map(|m| MemberElement {
            attr: m.value().attr(attr).map(|a| a.to_string()),
            text: m.text().collect(),
        }).collect(),
    }).collect())
}

} // verus!
