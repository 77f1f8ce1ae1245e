//! The image sources that a document references: the `src` values of its
//! `img` elements, in the depth-first pre-order of the parsed tree,
//! duplicates kept.

use scraper::{Html, Selector};
use vstd::prelude::*;

verus! {

/// The fixed selector of a query failed to compile.
#[derive(Clone, Copy, Debug, PartialEq, Eq)]
pub struct SelectorSyntaxError;

/// The selector for image elements that carry a source.
pub open spec fn image_selector() -> Seq<char> {
    "img[src]"@
}

/// The attribute that holds an image's source.
pub open spec fn source_attribute() -> Seq<char> {
    "src"@
}

/// Whether scraper accepts `expr` as a selector group.
pub uninterp spec fn is_selector_group(expr: Seq<char>) -> bool;

/// For each element below the root element of the document `html` that the
/// selector `selector` matches, in the order in which scraper's `select`
/// on the root element yields them (a depth-first pre-order walk of the
/// parsed tree), the value of its attribute `name`, or `None` where it has
/// no such attribute.
pub uninterp spec fn selected_values(
    html: Seq<char>,
    selector: Seq<char>,
    name: Seq<char>,
) -> Seq<Option<Seq<char>>>;

/// The values that are present, in their order.
pub open spec fn present(values: Seq<Option<Seq<char>>>) -> Seq<Seq<char>> {
    values.filter_map(|v: Option<Seq<char>>| v)
}

/// Calls `Selector::parse` of scraper and reports whether it returned
/// `Ok`; [`is_selector_group`] names the answer.
#[verifier::external_body]
fn selector_parses(expr: &str) -> (ok: bool)
    ensures
        ok == is_selector_group(expr@),
{
    Selector::parse(expr).is_ok()
}

/// Parses `html` with `Html::parse_document` of scraper, which recovers
/// from malformed markup and does not fail, takes the tree's root element
/// with `Html::root_element` (the tree builder makes one where the markup
/// has none), walks what lies below it with `ElementRef::select` for the
/// selector that `Selector::parse` makes of `selector`, and reads
/// `ElementRef::attr` for `name` on each match. The result is a function of
/// the three texts, which [`selected_values`] names. The selector must
/// parse.
#[verifier::external_body]
fn select_attribute(html: &str, selector: &str, name: &str) -> (values: Vec<Option<String>>)
    requires
        is_selector_group(selector@),
    ensures
        values.deep_view() == selected_values(html@, selector@, name@),
{
    let selector = Selector::parse(selector).unwrap();
    let document = Html::parse_document(html);
    let root = document.root_element();
    root.select(&selector).map(|element| element.attr(name).map(String::from)).collect()
}

/// Collects the attribute values that are present, skipping the elements
/// that lack the attribute: none of them leaves a placeholder.
pub fn present_values(values: &Vec<Option<String>>) -> (out: Vec<String>)
    ensures
        out.deep_view() == present(values.deep_view()),
{
    let mut out: Vec<String> = Vec::new();
    let ghost all = values.deep_view();
    let ghost pick = |v: Option<Seq<char>>| v;
    let mut i: usize = 0;
    while i < values.len()
        invariant
            i <= values.len(),
            all == values.deep_view(),
            pick == |v: Option<Seq<char>>| v,
            out.deep_view() == all.take(i as int).filter_map(pick),
        decreases values.len() - i,
    {
        let ghost before = out.deep_view();
        proof {
            all.lemma_filter_map_take_succ(pick, i as int);
        }
        match &values[i] {
            Some(value) => {
                out.push(value.clone());
                assert(out.deep_view() =~= before + seq![value@]);
            },
            None => {},
        }
        i += 1;
    }
    assert(all.take(i as int) == all);
    out
}

/// The sources of the images that `html` references: one entry for each
/// `img` element that carries a `src` attribute, in the order of the
/// tree walk, duplicates kept. Fails only if the fixed selector does not
/// compile.
pub fn extract_images(html: &str) -> (r: Result<Vec<String>, SelectorSyntaxError>)
    ensures
        r is Ok == is_selector_group(image_selector()),
        r matches Ok(urls) ==> urls.deep_view() == present(
            selected_values(html@, image_selector(), source_attribute()),
        ),
{
    if !selector_parses("img[src]") {
        return Err(SelectorSyntaxError);
    }
    let values = select_attribute(html, "img[src]", "src");
    Ok(present_values(&values))
}

/// The present values are as many as the entries that hold one: an entry
/// without a value contributes nothing.
pub proof fn law_one_entry_per_present_value(values: Seq<Option<Seq<char>>>)
    ensures
        present(values).len() == values.filter(|v: Option<Seq<char>>| v is Some).len(),
    decreases values.len(),
{
    reveal(Seq::filter);
    if values.len() > 0 {
        law_one_entry_per_present_value(values.drop_last());
    }
}

/// A value that is present stays, and follows all that came before it:
/// appending an entry appends its value, or nothing where it has none.
pub proof fn law_present_keeps_order(values: Seq<Option<Seq<char>>>, entry: Option<Seq<char>>)
    ensures
        present(values.push(entry)) == match entry {
            Some(v) => present(values).push(v),
            None => present(values),
        },
{
    assert(values.push(entry).drop_last() == values);
    match entry {
        Some(v) => {
            assert(present(values) + seq![v] =~= present(values).push(v));
        },
        None => {},
    }
}

} // verus!
