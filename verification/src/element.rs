//! The element that a streaming rewrite hands to a rule: its attributes,
//! whether it has been dropped from the output, and whether a rule has
//! already dealt with it.

use lol_html::html_content::{Element, UserData};
use vstd::prelude::*;
use vstd::utf8::is_ascii_chars;

verus! {

/// An element of the token stream, as the rewriter presents it at its
/// opening tag. Its contents are known only through [`attribute_of`],
/// [`is_removed`] and [`is_handled`].
#[verifier::external_type_specification]
#[verifier::external_body]
pub struct ExElement<'r, 't>(Element<'r, 't>);

/// The value that the element carries for the attribute `name`, if it
/// carries one. Attribute names are matched without regard to ASCII case.
pub uninterp spec fn attribute_of(el: Element, name: Seq<char>) -> Option<Seq<char>>;

/// Whether the element, with its whole subtree, is excluded from the output.
pub uninterp spec fn is_removed(el: Element) -> bool;

/// Whether the element carries the mark [`Handled`] as its user data: a rule
/// has dealt with it, and no later rule of the pipeline acts on it.
pub uninterp spec fn is_handled(el: Element) -> bool;

/// The mark that the first rule to match an element leaves on it.
#[derive(Clone, Copy, Debug)]
pub struct Handled;

/// The lower-case form of an ASCII letter; any other character unchanged.
pub open spec fn lower_char(c: char) -> char {
    if 'A' <= c <= 'Z' {
        ((c as u8) + 32) as char
    } else {
        c
    }
}

/// A name with its ASCII letters in lower case: the form under which an
/// element's attributes are looked up.
pub open spec fn ascii_lower(s: Seq<char>) -> Seq<char> {
    Seq::new(s.len(), |i: int| lower_char(s[i]))
}

/// Whether two attribute names denote the same attribute.
pub open spec fn same_attribute(a: Seq<char>, b: Seq<char>) -> bool {
    ascii_lower(a) == ascii_lower(b)
}

/// Calls `Element::get_attribute` of lol_html, which returns the value of
/// the first attribute whose name equals `name` in lower case, or `None`
/// where the element has no such attribute. The contract gives that value
/// its name, [`attribute_of`], and claims nothing of what it is.
#[verifier::external_body]
pub(crate) fn get_attribute(el: &Element, name: &str) -> (r: Option<String>)
    ensures
        r is Some == attribute_of(*el, name@) is Some,
        r matches Some(v) ==> attribute_of(*el, name@) == Some(v@),
{
    el.get_attribute(name)
}

/// Calls `Element::remove` of lol_html, which marks the start tag, the
/// content and the end tag of the element as removed. The contract claims
/// that the element then counts as removed and that its attributes are
/// what they were.
#[verifier::external_body]
pub(crate) fn remove(el: &mut Element)
    ensures
        is_removed(*final(el)),
        is_handled(*final(el)) == is_handled(*old(el)),
        forall|n: Seq<char>| #[trigger] attribute_of(*final(el), n) == attribute_of(*old(el), n),
{
    el.remove()
}

/// Calls `UserData::user_data` of lol_html on the element and reports
/// whether the data is the mark [`Handled`]; [`is_handled`] names the
/// answer.
#[verifier::external_body]
pub(crate) fn handled(el: &Element) -> (r: bool)
    ensures
        r == is_handled(*el),
{
    el.user_data().is::<Handled>()
}

/// Calls `UserData::set_user_data` of lol_html, which replaces the
/// element's user data, with the mark [`Handled`]. The contract claims that
/// the element then carries the mark and is otherwise as it was.
#[verifier::external_body]
pub(crate) fn mark_handled(el: &mut Element)
    ensures
        is_handled(*final(el)),
        is_removed(*final(el)) == is_removed(*old(el)),
        forall|n: Seq<char>| #[trigger] attribute_of(*final(el), n) == attribute_of(*old(el), n),
{
    el.set_user_data(Handled)
}

/// Whether `c` may not stand in an attribute name.
pub open spec fn forbidden_in_name(c: char) -> bool {
    c == ' ' || c == '\n' || c == '\r' || c == '\t' || c == '\x0C' || c == '/' || c == '>' || c
        == '='
}

/// Whether `name` is a non-empty ASCII name without a forbidden character.
pub open spec fn plain_name(name: Seq<char>) -> bool {
    &&& name.len() > 0
    &&& forall|i: int|
        0 <= i < name.len() ==> '\0' <= #[trigger] name[i] <= '\u{7f}' && !forbidden_in_name(name[i])
}

/// Calls `Element::set_attribute` of lol_html and reports whether it
/// returned `Ok`. The source shows failure only for a name that is empty,
/// holds a forbidden character or cannot be encoded, so the call is claimed
/// to succeed on a plain name; on failure nothing has changed. What a
/// success did to the attributes is claimed only for an ASCII name: the
/// first attribute of that name (in lower case) has the new value, or a new
/// attribute was appended, and every other attribute is as before. A name
/// that is not ASCII may read back as another name, so nothing is claimed
/// of the attributes then. The new value is claimed to read back unchanged
/// only where it is ASCII too, which holds under every encoding that the
/// rewriter supports. The removal mark and the user data are never
/// touched.
#[verifier::external_body]
pub(crate) fn set_attribute(el: &mut Element, name: &str, value: &str) -> (r: bool)
    ensures
        plain_name(name@) ==> r,
        r && is_ascii_chars(name@) && is_ascii_chars(value@) ==> attribute_of(*final(el), name@)
            == Some(value@),
        r && is_ascii_chars(name@) ==> forall|n: Seq<char>|
            !same_attribute(n, name@) ==> #[trigger] attribute_of(*final(el), n) == attribute_of(
                *old(el),
                n,
            ),
        !r ==> forall|n: Seq<char>| #[trigger]
            attribute_of(*final(el), n) == attribute_of(*old(el), n),
        is_removed(*final(el)) == is_removed(*old(el)),
        is_handled(*final(el)) == is_handled(*old(el)),
{
    el.set_attribute(name, value).is_ok()
}

} // verus!
