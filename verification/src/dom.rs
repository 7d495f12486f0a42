//! Reading parsed HTML documents (through the `scraper` crate) as plain values.

use vstd::prelude::*;

verus! {

/// The first element matching a selector, as plain values: the value of the asked-for
/// attribute, its text, and its inner HTML.
pub type FirstMatchView = (Option<Seq<char>>, Seq<char>, Seq<char>);

/// The first element matching a selector.
pub struct FirstMatch {
    /// The value of the asked-for attribute, if the element has it.
    pub attr: Option<String>,
    /// All text inside the element, concatenated.
    pub text: String,
    /// The serialized content of the element.
    pub inner_html: String,
}

impl FirstMatch {
    pub open spec fn view(&self) -> FirstMatchView {
        (self.attr.deep_view(), self.text@, self.inner_html@)
    }
}

/// What `scraper` gives for the first element matching `selector` in the document
/// parsed from `html` (`Html::parse_document`, `Selector::parse`, `Html::select`):
/// `None` when nothing matches or the selector does not parse.
pub uninterp spec fn first_match_of(html: Seq<char>, selector: Seq<char>, attr: Seq<char>) -> Option<
    FirstMatchView,
>;

/// Parses `html` as a document and reads the first element matching `selector`: the
/// value of its attribute `attr` (`ElementRef::attr`), its text (`ElementRef::text`,
/// concatenated) and its inner HTML (`ElementRef::inner_html`). The contract claims only
/// that the result is a function of the arguments.
#[verifier::external_body]
pub(crate) fn select_first(html: &str, selector: &str, attr: &str) -> (r: Option<FirstMatch>)
    ensures
        match r {
            Some(m) => first_match_of(html@, selector@, attr@) == Some(m.view()),
            None => first_match_of(html@, selector@, attr@) is None,
        },
{
    let doc = scraper::Html::parse_document(html);
    let sel = scraper::Selector::parse(selector).ok()?;
    let e = doc.select(&sel).next()?;
    Some(FirstMatch {
        attr: e.attr(attr).map(|v| v.to_string()),
        text: e.text().collect(),
        inner_html: e.inner_html(),
    })
}

/// What `scraper` serializes as the content of the root element of the document parsed
/// from `html`.
pub uninterp spec fn root_inner_html_of(html: Seq<char>) -> Seq<char>;

/// Parses `html` as a document and serializes the content of its root element
/// (`Html::root_element`, `ElementRef::inner_html`). The contract claims only that the
/// result is a function of `html`.
#[verifier::external_body]
pub(crate) fn root_inner_html(html: &str) -> (r: String)
    ensures
        r@ == root_inner_html_of(html@),
{
    scraper::Html::parse_document(html).root_element().inner_html()
}

/// One element, as plain values: tag name, `class` and `id` attributes, text, the texts
/// of the descendants matching the inner selector, and inner HTML.
pub type ElementView = (Seq<char>, Option<Seq<char>>, Option<Seq<char>>, Seq<char>, Seq<Seq<char>>, Seq<char>);

/// One element matching a selector.
pub struct ElementInfo {
    pub name: String,
    pub class: Option<String>,
    pub id: Option<String>,
    pub text: String,
    /// The texts of the descendants matching the inner selector, in document order.
    pub inner_texts: Vec<String>,
    pub inner_html: String,
}

impl ElementInfo {
    pub open spec fn view(&self) -> ElementView {
        (
            self.name@,
            self.class.deep_view(),
            self.id.deep_view(),
            self.text@,
            self.inner_texts.deep_view(),
            self.inner_html@,
        )
    }
}

impl DeepView for ElementInfo {
    type V = ElementView;

    open spec fn deep_view(&self) -> ElementView {
        self.view()
    }
}

/// What `scraper` gives for every element matching `selector` in the document parsed
/// from `html`, in document order, with the texts of their descendants matching `inner`:
/// empty when either selector does not parse.
pub uninterp spec fn elements_of(html: Seq<char>, selector: Seq<char>, inner: Seq<char>) -> Seq<
    ElementView,
>;

/// Parses `html` as a document and reads every element matching `selector`: its tag
/// name, its `class` and `id` attributes, its text, the texts of its descendants matching
/// `inner` (`ElementRef::select`) and its inner HTML. The contract claims only that the
/// result is a function of the arguments.
#[verifier::external_body]
pub(crate) fn select_elements(html: &str, selector: &str, inner: &str) -> (r: Vec<ElementInfo>)
    ensures
        r.deep_view() == elements_of(html@, selector@, inner@),
{
    let doc = scraper::Html::parse_document(html);
    let (Ok(sel), Ok(inner_sel)) = (scraper::Selector::parse(selector), scraper::Selector::parse(inner)) else {
        return Vec::new();
    };
    doc.select(&sel).map(|e| ElementInfo {
        name: e.value().name().to_string(),
        class: e.attr("class").map(|v| v.to_string()),
        id: e.attr("id").map(|v| v.to_string()),
        text: e.text().collect(),
        inner_texts: e.select(&inner_sel).map(|d| d.text().collect()).collect(),
        inner_html: e.inner_html(),
    }).collect()
}

/// The first descendant matching the inner selector, as plain values: the value of the
/// asked-for attribute and its text.
pub type NestedView = Option<(Option<Seq<char>>, Seq<char>)>;

/// What `scraper` gives, for every element matching `outer` in the document parsed from
/// `html`, of its first descendant matching `inner`: empty when either selector does not
/// parse.
pub uninterp spec fn nested_first_of(
    html: Seq<char>,
    outer: Seq<char>,
    inner: Seq<char>,
    attr: Seq<char>,
) -> Seq<NestedView>;

/// Parses `html` as a document and, for every element matching `outer`, reads the first
/// descendant matching `inner`: the value of its attribute `attr` and its text. The
/// contract claims only that the result is a function of the arguments.
#[verifier::external_body]
pub(crate) fn select_nested_first(html: &str, outer: &str, inner: &str, attr: &str) -> (r: Vec<
    Option<(Option<String>, String)>,
>)
    ensures
        r.deep_view() == nested_first_of(html@, outer@, inner@, attr@),
{
    let doc = scraper::Html::parse_document(html);
    let (Ok(o), Ok(i)) = (scraper::Selector::parse(outer), scraper::Selector::parse(inner)) else {
        return Vec::new();
    };
    doc.select(&o).map(|e| {
        e.select(&i).next().map(|d| (d.attr(attr).map(|v| v.to_string()), d.text().collect()))
    }).collect()
}

} // verus!
