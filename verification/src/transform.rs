//! The streaming rewrite: an ordered pipeline of rules, each a selector
//! paired with what is done to the elements it matches, and the fixed
//! pipeline that reduces a document to one slide.

use crate::element::{
    attribute_of, get_attribute, handled, is_handled, is_removed, mark_handled, plain_name, remove,
    same_attribute, set_attribute,
};
use crate::index::{index_of_text, parse_index};
use lol_html::errors::RewritingError;
use lol_html::html_content::Element;
use lol_html::{rewrite_str, ElementContentHandlers, RewriteStrSettings, Selector};
use std::borrow::Cow;
use vstd::prelude::*;
use vstd::utf8::{encode_utf8, is_ascii_chars};

verus! {

/// What is done to one matched element.
#[derive(Debug)]
pub enum Directive {
    /// Drop the element and its entire subtree from the output.
    Remove,
    /// Overwrite the named attribute, creating it if absent.
    SetAttribute(String, String),
    /// Leave the element as it is.
    NoOp,
}

/// The kinds of rule in the pipeline.
#[derive(Clone, Copy, Debug, PartialEq, Eq)]
pub enum Handler {
    /// A slide container stays only if its index is the given one.
    Slide(u32),
    /// Presentation-only chrome is always dropped.
    Chrome,
    /// The body is forced to a fixed style.
    Body,
}

/// The attribute that carries a slide container's index.
pub open spec fn index_attribute() -> Seq<char> {
    "data-freya-index"@
}

/// The attribute that the body rule overwrites.
pub open spec fn style_attribute() -> Seq<char> {
    "style"@
}

/// The style that the body is forced to.
pub open spec fn body_style() -> Seq<char> {
    "display: block; overflow: auto"@
}

/// The index that an attribute value denotes, if it denotes one.
pub open spec fn index_of_value(value: Seq<char>) -> Option<u32> {
    index_of_text(encode_utf8(value))
}

/// Whether a slide container whose index attribute is `index` (absent where
/// `None`) is dropped when slide `target` is wanted: it is, unless it has no
/// index attribute or its index is `target`.
pub open spec fn drops_slide(index: Option<Seq<char>>, target: u32) -> bool {
    match index {
        None => false,
        Some(v) => index_of_value(v) != Some(target),
    }
}

/// Whether a rule of kind `handler` drops an element whose index attribute
/// is `index`.
pub open spec fn drops(handler: Handler, index: Option<Seq<char>>) -> bool {
    match handler {
        Handler::Slide(target) => drops_slide(index, target),
        Handler::Chrome => true,
        Handler::Body => false,
    }
}

/// The attribute that a rule of kind `handler` sets on an element it acts
/// on, as name and value, whatever the element carried before: the body
/// rule sets the style to the forced one, the other rules set nothing.
pub open spec fn sets(handler: Handler) -> Option<(Seq<char>, Seq<char>)> {
    match handler {
        Handler::Body => Some((style_attribute(), body_style())),
        _ => None,
    }
}

/// The view of an optional attribute value.
pub open spec fn value_view(value: Option<String>) -> Option<Seq<char>> {
    match value {
        None => None,
        Some(s) => Some(s@),
    }
}

/// Decides what a rule of kind `handler` does to an element whose index
/// attribute is `index`.
pub fn directive_for(handler: Handler, index: &Option<String>) -> (d: Directive)
    ensures
        drops(handler, value_view(*index)) <==> d is Remove,
        sets(handler) is Some <==> d is SetAttribute,
        d matches Directive::SetAttribute(name, value) ==> sets(handler) == Some((name@, value@)),
{
    match handler {
        Handler::Slide(target) => match index {
            None => Directive::NoOp,
            Some(text) => {
                if parse_index(text.as_str()) == Some(target) {
                    Directive::NoOp
                } else {
                    Directive::Remove
                }
            },
        },
        Handler::Chrome => Directive::Remove,
        Handler::Body => Directive::SetAttribute(
            "style".to_owned(),
            "display: block; overflow: auto".to_owned(),
        ),
    }
}

/// Carries a directive out on an element. Returns whether it took effect:
/// only setting an attribute can fail, on a name that no attribute may have.
/// What setting did to the attributes is stated for an ASCII name, and the
/// value that reads back for an ASCII value.
pub fn apply_directive(el: &mut Element, directive: &Directive) -> (done: bool)
    ensures
        is_handled(*final(el)) == is_handled(*old(el)),
        match *directive {
            Directive::Remove => {
                &&& done
                &&& is_removed(*final(el))
                &&& forall|n: Seq<char>| #[trigger]
                    attribute_of(*final(el), n) == attribute_of(*old(el), n)
            },
            Directive::SetAttribute(name, value) => {
                &&& is_removed(*final(el)) == is_removed(*old(el))
                &&& plain_name(name@) ==> done
                &&& done && is_ascii_chars(name@) && is_ascii_chars(value@) ==> attribute_of(
                    *final(el),
                    name@,
                ) == Some(value@)
                &&& done && is_ascii_chars(name@) ==> forall|n: Seq<char>|
                    !same_attribute(n, name@) ==> #[trigger] attribute_of(*final(el), n)
                        == attribute_of(*old(el), n)
                &&& !done ==> forall|n: Seq<char>| #[trigger]
                    attribute_of(*final(el), n) == attribute_of(*old(el), n)
            },
            Directive::NoOp => {
                &&& done
                &&& is_removed(*final(el)) == is_removed(*old(el))
                &&& forall|n: Seq<char>| #[trigger]
                    attribute_of(*final(el), n) == attribute_of(*old(el), n)
            },
        },
{
    match directive {
        Directive::Remove => {
            remove(el);
            true
        },
        Directive::SetAttribute(name, value) => set_attribute(el, name.as_str(), value.as_str()),
        Directive::NoOp => true,
    }
}

/// The style attribute's name is a plain one, and the forced style is ASCII.
proof fn lemma_style_is_plain()
    ensures
        plain_name(style_attribute()),
        is_ascii_chars(style_attribute()),
        is_ascii_chars(body_style()),
{
    reveal_strlit("style");
    reveal_strlit("display: block; overflow: auto");
}

/// Applies a rule of kind `handler` to an element that its selector
/// matched. Only the first rule to reach an element acts on it: it marks
/// the element as handled, and every later rule leaves it alone. Acting, a
/// slide rule drops the container unless it has no index or the wanted one,
/// a chrome rule drops the element, and the body rule puts the forced style
/// in place of any style the element had. No other attribute changes.
pub fn apply_handler(el: &mut Element, handler: Handler)
    ensures
        is_handled(*final(el)),
        is_removed(*final(el)) == (is_removed(*old(el)) || !is_handled(*old(el)) && drops(
            handler,
            attribute_of(*old(el), index_attribute()),
        )),
        !is_handled(*old(el)) ==> (sets(handler) matches Some(set) ==> attribute_of(
            *final(el),
            set.0,
        ) == Some(set.1)),
        forall|n: Seq<char>|
            !(!is_handled(*old(el)) && (sets(handler) matches Some(set) && same_attribute(n, set.0)))
                ==> #[trigger] attribute_of(*final(el), n) == attribute_of(*old(el), n),
{
    if handled(el) {
        return;
    }
    mark_handled(el);
    let index = get_attribute(el, "data-freya-index");
    let directive = directive_for(handler, &index);
    proof {
        lemma_style_is_plain();
    }
    apply_directive(el, &directive);
}

/// One step of a pipeline: a selector expression and what is done to the
/// elements that it matches.
#[derive(Debug)]
pub struct TransformRule {
    pub selector: String,
    pub handler: Handler,
}

/// Why a rewrite gave no output.
#[derive(Clone, Copy, Debug, PartialEq, Eq)]
pub enum RewriteError {
    /// A selector expression of the pipeline is not a selector.
    SelectorSyntax,
    /// The rewriter gave the document up.
    Rewriting,
}

/// A pipeline as plain values: each rule's selector expression and kind.
pub open spec fn rules_view(rules: Seq<TransformRule>) -> Seq<(Seq<char>, Handler)> {
    rules.map_values(|rule: TransformRule| (rule.selector@, rule.handler))
}

/// Whether every selector expression of the pipeline is a selector.
pub open spec fn all_selectors(rules: Seq<(Seq<char>, Handler)>) -> bool {
    forall|i: int| 0 <= i < rules.len() ==> is_selector(#[trigger] rules[i].0)
}

/// The pipeline that reduces a document to slide `slide`, in order: the
/// index check on slide containers, the three kinds of chrome, the body.
pub open spec fn single_slide_rules(slide: u32) -> Seq<(Seq<char>, Handler)> {
    seq![
        ("[data-freya-id=\"slide\"]"@, Handler::Slide(slide)),
        ("[data-freya-id=\"loading\"]"@, Handler::Chrome),
        ("[data-freya-id=\"list:container\"]"@, Handler::Chrome),
        ("[data-freya-id=\"presenter:container\"]"@, Handler::Chrome),
        ("body"@, Handler::Body),
    ]
}

/// The error type of lol_html's rewriter.
#[verifier::external_type_specification]
#[verifier::external_body]
pub struct ExRewritingError(RewritingError);

/// Whether lol_html accepts `expr` as a selector.
pub uninterp spec fn is_selector(expr: Seq<char>) -> bool;

/// The document that lol_html's rewriter makes of `html` when it hands each
/// element to [`apply_handler`] once for every rule whose selector matches
/// it, in the pipeline's order and with the rule's kind, or `None` where
/// the rewriter gives up.
pub uninterp spec fn rewritten(html: Seq<char>, rules: Seq<(Seq<char>, Handler)>) -> Option<
    Seq<char>,
>;

/// Parses `expr` with the `FromStr` impl of lol_html's `Selector` and
/// reports whether that succeeded; [`is_selector`] names the answer.
#[verifier::external_body]
fn selector_compiles(expr: &str) -> (ok: bool)
    ensures
        ok == is_selector(expr@),
{
    expr.parse::<Selector>().is_ok()
}

/// Calls `rewrite_str` of lol_html with one element handler per rule, in
/// the pipeline's order; each handler is a call of [`apply_handler`]. The
/// result is a function of the document and the rules, which [`rewritten`]
/// names. Every selector must compile.
#[verifier::external_body]
fn rewrite_elements(html: &str, rules: &Vec<TransformRule>) -> (r: Result<String, RewritingError>)
    requires
        all_selectors(rules_view(rules@)),
    ensures
        r matches Ok(out) ==> rewritten(html@, rules_view(rules@)) == Some(out@),
        r is Err ==> rewritten(html@, rules_view(rules@)) is None,
{
    let element_content_handlers = rules.iter().map(|rule| (
        Cow::Owned(rule.selector.parse::<Selector>().unwrap()),
        ElementContentHandlers::default().element(move |el: &mut Element| Ok(apply_handler(el, rule.handler))),
    )).collect();
    rewrite_str(html, RewriteStrSettings { element_content_handlers, ..RewriteStrSettings::default() })
}

/// What a rewrite returns for a pipeline and the rewriter's output.
pub open spec fn rewrite_outcome(
    rules: Seq<(Seq<char>, Handler)>,
    output: Option<Seq<char>>,
) -> Result<Seq<char>, RewriteError> {
    if !all_selectors(rules) {
        Err(RewriteError::SelectorSyntax)
    } else {
        match output {
            Some(out) => Ok(out),
            None => Err(RewriteError::Rewriting),
        }
    }
}

/// The view of a rewrite's result.
pub open spec fn outcome_view(r: Result<String, RewriteError>) -> Result<Seq<char>, RewriteError> {
    match r {
        Ok(out) => Ok(out@),
        Err(e) => Err(e),
    }
}

/// Whether every selector expression of the pipeline is a selector.
pub fn pipeline_compiles(rules: &Vec<TransformRule>) -> (ok: bool)
    ensures
        ok == all_selectors(rules_view(rules@)),
{
    let mut i: usize = 0;
    while i < rules.len()
        invariant
            i <= rules.len(),
            forall|j: int| 0 <= j < i ==> is_selector(#[trigger] rules_view(rules@)[j].0),
        decreases rules.len() - i,
    {
        if !selector_compiles(rules[i].selector.as_str()) {
            assert(!is_selector(rules_view(rules@)[i as int].0));
            return false;
        }
        i += 1;
    }
    true
}

/// Rewrites `html` in one forward pass under the pipeline `rules`: on each
/// element the first rule whose selector matches acts, and no other. Fails
/// with `SelectorSyntax` exactly when some selector expression is not a
/// selector, and with `Rewriting` exactly when the rewriter gives up.
pub fn rewrite(html: &str, rules: &Vec<TransformRule>) -> (r: Result<String, RewriteError>)
    ensures
        outcome_view(r) == rewrite_outcome(
            rules_view(rules@),
            rewritten(html@, rules_view(rules@)),
        ),
{
    if !pipeline_compiles(rules) {
        return Err(RewriteError::SelectorSyntax);
    }
    match rewrite_elements(html, rules) {
        Ok(out) => Ok(out),
        Err(_) => Err(RewriteError::Rewriting),
    }
}

/// Builds the pipeline that reduces a document to slide `slide`.
pub fn single_slide_pipeline(slide: u32) -> (rules: Vec<TransformRule>)
    ensures
        rules_view(rules@) == single_slide_rules(slide),
{
    let mut rules: Vec<TransformRule> = Vec::new();
    rules.push(
        TransformRule {
            selector: "[data-freya-id=\"slide\"]".to_owned(),
            handler: Handler::Slide(slide),
        },
    );
    rules.push(
        TransformRule {
            selector: "[data-freya-id=\"loading\"]".to_owned(),
            handler: Handler::Chrome,
        },
    );
    rules.push(
        TransformRule {
            selector: "[data-freya-id=\"list:container\"]".to_owned(),
            handler: Handler::Chrome,
        },
    );
    rules.push(
        TransformRule {
            selector: "[data-freya-id=\"presenter:container\"]".to_owned(),
            handler: Handler::Chrome,
        },
    );
    rules.push(TransformRule { selector: "body".to_owned(), handler: Handler::Body });
    assert(rules_view(rules@) =~= single_slide_rules(slide));
    rules
}

/// Reduces a document to the slide with index `slide`: every other indexed
/// slide container is dropped with all it holds, so is the chrome, and the
/// body is forced to the fixed style.
pub fn single_slide(html: &str, slide: u32) -> (r: Result<String, RewriteError>)
    ensures
        outcome_view(r) == rewrite_outcome(
            single_slide_rules(slide),
            rewritten(html@, single_slide_rules(slide)),
        ),
{
    let rules = single_slide_pipeline(slide);
    rewrite(html, &rules)
}

/// The pipeline for slide `k` begins with the slide rule for `k`. Of slide
/// containers whose index attributes denote 0, 1, 2 and so on in turn, a
/// wanted slide `k` that is among them is the one container that stays
/// under that rule: the container at position `k` is kept and every other
/// is dropped.
pub proof fn law_wanted_slide_alone_stays(indices: Seq<Seq<char>>, k: u32)
    requires
        forall|i: int|
            0 <= i < indices.len() ==> (#[trigger] index_of_value(indices[i]) matches Some(v) && v
                == i),
        k < indices.len(),
    ensures
        single_slide_rules(k)[0] == ("[data-freya-id=\"slide\"]"@, Handler::Slide(k)),
        !drops(single_slide_rules(k)[0].1, Some(indices[k as int])),
        forall|i: int|
            0 <= i < indices.len() && i != k ==> drops(
                single_slide_rules(k)[0].1,
                Some(#[trigger] indices[i]),
            ),
{
    assert(index_of_value(indices[k as int]) is Some);
    assert forall|i: int| 0 <= i < indices.len() && i != k implies drops(
        single_slide_rules(k)[0].1,
        Some(#[trigger] indices[i]),
    ) by {
        assert(index_of_value(indices[i]) is Some);
    }
}

/// The pipeline for slide `k` begins with the slide rule for `k`. Of slide
/// containers whose index attributes denote 0, 1, 2 and so on in turn, none
/// stays under that rule when the wanted slide `k` is not among them.
pub proof fn law_no_slide_stays_out_of_range(indices: Seq<Seq<char>>, k: u32)
    requires
        forall|i: int|
            0 <= i < indices.len() ==> (#[trigger] index_of_value(indices[i]) matches Some(v) && v
                == i),
        k >= indices.len(),
    ensures
        single_slide_rules(k)[0] == ("[data-freya-id=\"slide\"]"@, Handler::Slide(k)),
        forall|i: int|
            0 <= i < indices.len() ==> drops(
                single_slide_rules(k)[0].1,
                Some(#[trigger] indices[i]),
            ),
{
    assert forall|i: int| 0 <= i < indices.len() implies drops(
        single_slide_rules(k)[0].1,
        Some(#[trigger] indices[i]),
    ) by {
        assert(index_of_value(indices[i]) is Some);
    }
}

/// Chrome never stays, whatever slide is wanted: the pipeline pairs the
/// loading indicator, the list container and the presenter container each
/// with a rule that drops every element it acts on and sets nothing.
pub proof fn law_chrome_is_dropped(slide: u32, index: Option<Seq<char>>)
    ensures
        single_slide_rules(slide)[1] == ("[data-freya-id=\"loading\"]"@, Handler::Chrome),
        single_slide_rules(slide)[2] == ("[data-freya-id=\"list:container\"]"@, Handler::Chrome),
        single_slide_rules(slide)[3] == (
            "[data-freya-id=\"presenter:container\"]"@,
            Handler::Chrome,
        ),
        drops(Handler::Chrome, index),
        sets(Handler::Chrome) is None,
{
}

/// The body's style is forced, whatever slide is wanted and whatever style
/// the body had: the pipeline ends with the body rule, which never drops
/// the element it acts on and sets its style attribute to exactly the
/// forced style, a value that depends on nothing the element carries.
pub proof fn law_body_style_is_forced(slide: u32, index: Option<Seq<char>>)
    ensures
        single_slide_rules(slide).len() == 5,
        single_slide_rules(slide)[4] == ("body"@, Handler::Body),
        !drops(single_slide_rules(slide)[4].1, index),
        sets(single_slide_rules(slide)[4].1) == Some(
            ("style"@, "display: block; overflow: auto"@),
        ),
{
}

} // verus!
