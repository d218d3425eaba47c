use vstd::prelude::*;

verus! {

/// What CSS selection names for the count element: the inner HTML of the
/// first element of `body`, parsed as an HTML document, that matches
/// `selector`; `None` when nothing matches or the selector text is itself
/// invalid. A function of the two texts alone.
pub uninterp spec fn selected_text(body: Seq<char>, selector: Seq<char>) -> Option<Seq<char>>;

/// What CSS selection names for the repository anchors: the values of
/// attribute `attr` on the elements of `body` that match `selector`, in
/// document order, elements without the attribute left out; empty when the
/// selector text is invalid. A function of the three texts alone.
pub uninterp spec fn selected_attrs(body: Seq<char>, selector: Seq<char>, attr: Seq<char>) -> Seq<
    Seq<char>,
>;

/// Relies on scraper's `Html::parse_document`, `Selector::parse`,
/// `Html::select` and `ElementRef::inner_html`: parsing and selection are
/// deterministic, matches come in document order, so the first match's inner
/// HTML is a function of the document and selector texts alone.
#[verifier::external_body]
pub fn select_first_inner_html(body: &str, selector: &str) -> (r: Option<String>)
    ensures
        r is Some <==> selected_text(body@, selector@) is Some,
        r matches Some(t) ==> selected_text(body@, selector@) == Some(t@),
{
    let document = scraper::Html::parse_document(body);
    let parsed = match scraper::Selector::parse(selector) {
        Ok(parsed) => parsed,
        Err(_) => return None,
    };
    document.select(&parsed).next().map(|element| element.inner_html())
}

/// Relies on scraper's `Html::parse_document`, `Selector::parse`,
/// `Html::select` and `ElementRef::attr`: the matched elements and their
/// attribute values are a deterministic function of the three texts, in
/// document order.
#[verifier::external_body]
pub fn select_attr_values(body: &str, selector: &str, attr: &str) -> (r: Vec<String>)
    ensures
        crate::seq_views(r@) == selected_attrs(body@, selector@, attr@),
{
    let document = scraper::Html::parse_document(body);
    let parsed = match scraper::Selector::parse(selector) {
        Ok(parsed) => parsed,
        Err(_) => return Vec::new(),
    };
    document.select(&parsed).filter_map(|element| element.attr(attr).map(String::from)).collect()
}

} // verus!
