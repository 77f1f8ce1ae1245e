use html_utils::transform::{apply_directive, apply_handler, Directive, Handler};
use lol_html::html_content::Element;
use lol_html::{rewrite_str, ElementContentHandlers, RewriteStrSettings};
use std::borrow::Cow;
use std::cell::RefCell;

fn on_elements<F: FnMut(&mut Element)>(html: &str, selector: &str, mut f: F) -> String {
    let handlers = vec![(
        Cow::Owned(selector.parse().unwrap()),
        ElementContentHandlers::default().element(|el: &mut Element| {
            f(el);
            Ok(())
        }),
    )];
    rewrite_str(
        html,
        RewriteStrSettings { element_content_handlers: handlers, ..RewriteStrSettings::default() },
    )
    .unwrap()
}

#[test]
fn apply_directive_remove_drops_the_subtree() {
    let out = on_elements("<a><b><i>x</i></b><u>y</u></a>", "b", |el| {
        assert!(apply_directive(el, &Directive::Remove));
        assert!(el.removed());
    });
    assert_eq!(out, "<a><u>y</u></a>");
}

#[test]
fn apply_directive_set_attribute_overwrites() {
    let directive = Directive::SetAttribute("Class".to_string(), "new".to_string());
    let out = on_elements("<p id=\"1\" class=\"old\" lang=\"en\">x</p><p>y</p>", "p", |el| {
        assert!(apply_directive(el, &directive));
        assert_eq!(el.get_attribute("class"), Some("new".to_string()));
        assert!(!el.removed());
    });
    assert_eq!(out, "<p id=\"1\" class=\"new\" lang=\"en\">x</p><p class=\"new\">y</p>");
}

#[test]
fn apply_directive_set_attribute_fails_on_a_forbidden_name() {
    let directive = Directive::SetAttribute("a b".to_string(), "v".to_string());
    let empty = Directive::SetAttribute(String::new(), "v".to_string());
    let out = on_elements("<p id=\"1\">x</p>", "p", |el| {
        assert!(!apply_directive(el, &directive));
        assert!(!apply_directive(el, &empty));
    });
    assert_eq!(out, "<p id=\"1\">x</p>");
}

#[test]
fn apply_directive_no_op_changes_nothing() {
    let out = on_elements("<p id=\"1\">x</p>", "p", |el| {
        assert!(apply_directive(el, &Directive::NoOp));
        assert!(!el.removed());
    });
    assert_eq!(out, "<p id=\"1\">x</p>");
}

#[test]
fn apply_handler_slide_compares_the_index() {
    let html = "<i data-freya-index=\"3\">a</i><i data-freya-index=\"4\">b</i><i>c</i><i data-freya-index=\"x\">d</i>";
    let seen = RefCell::new(Vec::new());
    let out = on_elements(html, "i", |el| {
        apply_handler(el, Handler::Slide(4));
        seen.borrow_mut().push(el.removed());
    });
    assert_eq!(out, "<i data-freya-index=\"4\">b</i><i>c</i>");
    assert_eq!(seen.into_inner(), vec![true, false, false, true]);
}

#[test]
fn apply_handler_body_forces_the_style() {
    let out = on_elements("<p STYLE=\"x\" id=\"k\">a</p>", "p", |el| {
        apply_handler(el, Handler::Body);
        assert_eq!(el.get_attribute("style"), Some("display: block; overflow: auto".to_string()));
    });
    assert_eq!(out, "<p STYLE=\"display: block; overflow: auto\" id=\"k\">a</p>");
}

#[test]
fn apply_handler_chrome_removes() {
    let out = on_elements("<p>a</p><b data-freya-index=\"0\">z</b>", "*", |el| {
        apply_handler(el, Handler::Chrome);
        assert!(el.removed());
    });
    assert_eq!(out, "");
}

#[test]
fn apply_handler_acts_once_per_element() {
    let out = on_elements("<p>a</p>", "p", |el| {
        apply_handler(el, Handler::Slide(1));
        apply_handler(el, Handler::Chrome);
        assert!(!el.removed());
        apply_handler(el, Handler::Body);
        assert_eq!(el.get_attribute("style"), None);
    });
    assert_eq!(out, "<p>a</p>");
}

#[test]
fn apply_directive_leaves_later_rules_free_to_act() {
    let out = on_elements("<p>a</p>", "p", |el| {
        assert!(apply_directive(el, &Directive::NoOp));
        apply_handler(el, Handler::Chrome);
        assert!(el.removed());
    });
    assert_eq!(out, "");
}

#[test]
fn apply_directive_set_attribute_with_an_upper_case_name() {
    let directive = Directive::SetAttribute("LANG".to_string(), "de".to_string());
    let out = on_elements("<p lang=\"en\" id=\"1\">x</p>", "p", |el| {
        assert!(apply_directive(el, &directive));
        assert_eq!(el.get_attribute("LANG"), Some("de".to_string()));
        assert_eq!(el.get_attribute("lang"), Some("de".to_string()));
        assert_eq!(el.get_attribute("id"), Some("1".to_string()));
    });
    assert_eq!(out, "<p lang=\"de\" id=\"1\">x</p>");
}
