//! HTML element selection, through the `scraper` crate, as plain values.
use vstd::prelude::*;

verus! {

/// What is read of one selected element: its tag name, its text (all
/// descendant text nodes joined), its inner HTML, and the value of one
/// requested attribute.
#[derive(Debug)]
pub struct ElementData {
    pub name: String,
    pub text: String,
    pub inner_html: String,
    pub attr: Option<String>,
}

/// An attribute value as text.
pub open spec fn opt_text(o: Option<String>) -> Option<Seq<char>> {
    match o {
        Some(s) => Some(s@),
        None => None,
    }
}

/// The plain view of an element: (name, text, inner HTML, attribute).
pub open spec fn element_view(e: ElementData) -> (Seq<char>, Seq<char>, Seq<char>, Option<Seq<char>>) {
    (e.name@, e.text@, e.inner_html@, opt_text(e.attr))
}

/// The plain views of a list of elements.
pub open spec fn element_views(v: Seq<ElementData>) -> Seq<(Seq<char>, Seq<char>, Seq<char>, Option<Seq<char>>)> {
    v.map_values(|e: ElementData| element_view(e))
}

/// The elements that a CSS selector picks in a document parsed with
/// `scraper::Html::parse_document`, in document order, each with the
/// named attribute; `None` where the selector does not parse.
pub uninterp spec fn html_selection(html: Seq<char>, selector: Seq<char>, attr: Seq<char>) -> Option<
    Seq<(Seq<char>, Seq<char>, Seq<char>, Option<Seq<char>>)>,
>;

/// The elements that `selector` picks inside the first element that
/// `scope` picks in the parsed document; `Some(None)` where `scope` picks
/// nothing, `None` where a selector does not parse.
pub uninterp spec fn html_selection_in_first(
    html: Seq<char>,
    scope: Seq<char>,
    selector: Seq<char>,
    attr: Seq<char>,
) -> Option<Option<Seq<(Seq<char>, Seq<char>, Seq<char>, Option<Seq<char>>)>>>;

/// Parses `html` with `scraper::Html::parse_document`, parses `selector`
/// with `scraper::Selector::parse` and reads every selected element.
/// Claimed: the result is the named selection of these arguments.
#[verifier::external_body]
pub(crate) fn select_elements(html: &str, selector: &str, attr: &str) -> (r: Option<Vec<ElementData>>)
    ensures
        match r {
            Some(v) => html_selection(html@, selector@, attr@) == Some(element_views(v@)),
            None => html_selection(html@, selector@, attr@) is None,
        },
{
    let sel = match scraper::Selector::parse(selector) { Ok(s) => s, Err(_) => return None };
    let doc = scraper::Html::parse_document(html);
    let mut out = Vec::new();
    for e in doc.select(&sel) {
        let v = e.value();
        let attr = v.attr(attr).map(String::from);
        out.push(ElementData { name: v.name().to_string(), text: e.text().collect(), inner_html: e.inner_html(), attr });
    }
    Some(out)
}

/// Like `select_elements`, but selecting (with `scraper::ElementRef::select`)
/// inside the first element that `scope` picks. Claimed: the result is the
/// named selection of these arguments.
#[verifier::external_body]
pub(crate) fn select_in_first(html: &str, scope: &str, selector: &str, attr: &str) -> (r: Option<Option<Vec<ElementData>>>)
    ensures
        match r {
            Some(Some(v)) => html_selection_in_first(html@, scope@, selector@, attr@) == Some(Some(element_views(v@))),
            Some(None) => html_selection_in_first(html@, scope@, selector@, attr@) == Some(None::<Seq<(Seq<char>, Seq<char>, Seq<char>, Option<Seq<char>>)>>),
            None => html_selection_in_first(html@, scope@, selector@, attr@) is None,
        },
{
    let (outer, inner) = match (scraper::Selector::parse(scope), scraper::Selector::parse(selector)) { (Ok(a), Ok(b)) => (a, b), _ => return None };
    let doc = scraper::Html::parse_document(html);
    let first = match doc.select(&outer).next() { Some(f) => f, None => return Some(None) };
    let mut out = Vec::new();
    for e in first.select(&inner) {
        let v = e.value();
        let attr = v.attr(attr).map(String::from);
        out.push(ElementData { name: v.name().to_string(), text: e.text().collect(), inner_html: e.inner_html(), attr });
    }
    Some(Some(out))
}

} // verus!
