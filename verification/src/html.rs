//! The element-by-element pass over a fragment, which `lol_html` makes, and
//! the handful of its operations that the rules use on an element, each
//! with what it does to the element.

use crate::rewrite::{apply_rule, handler_views, Handler, RuleView, Upstream};
use lol_html::html_content::{ContentType, Element};
use crate::text::view_of;
use vstd::prelude::*;

verus! {

#[verifier::external_type_specification]
#[verifier::external_body]
pub struct ExElement<'r, 't>(Element<'r, 't>);

/// The fragment that `lol_html` writes when it walks `html` once and, at
/// each element that the selector of a handler matches, lets the rule of
/// that handler act on it, handler by handler in their order, on a
/// gateway to the site at the domain `upstream`. `None` where a selector
/// is none, or where `lol_html` gives the fragment up.
pub uninterp spec fn rewritten(
    html: Seq<char>,
    handlers: Seq<(Seq<char>, RuleView)>,
    upstream: Seq<char>,
) -> Option<Seq<char>>;

/// `lol_html::rewrite_str` with one element handler for each of
/// `handlers`: its selector parsed by `Selector::from_str`, its rule
/// applied by `apply_rule`.
#[verifier::external_body]
pub(crate) fn rewrite_elements(html: &str, handlers: &Vec<Handler>, upstream: &Upstream) -> (r:
    Option<String>)
    ensures
        view_of(r) == rewritten(html@, handler_views(handlers@), upstream@),
{
    let mut registered = Vec::new();
    for handler in handlers.iter() {
        let selector = handler.selector.parse::<lol_html::Selector>().ok()?;
        let run = lol_html::ElementContentHandlers::default().element(
            move |element: &mut Element| {
                apply_rule(element, &handler.rule, upstream);
                Ok(())
            },
        );
        registered.push((std::borrow::Cow::Owned(selector), run));
    }
    let settings = lol_html::Settings { element_content_handlers: registered, ..Default::default() };
    lol_html::rewrite_str(html, settings).ok()
}

/// What an element shows of itself, and what has been asked of it so far.
/// Markup is held as the bytes that go into the fragment.
pub struct ElementView {
    /// The name of the encoding that the fragment is read and written in.
    pub coding: Seq<char>,
    /// The element can have content: it is no void element, and its start
    /// tag does not close it.
    pub open: bool,
    /// The attributes: under each name, in lower case, the value that
    /// `Element::get_attribute` gives for it, which is that of the first
    /// attribute of that name.
    pub attributes: Map<Seq<char>, Seq<char>>,
    /// The markup to go in front of the start tag.
    pub before_start: Seq<u8>,
    /// The markup to go in place of the start tag, where that is taken out.
    pub replacement: Seq<u8>,
    /// The start tag is taken out.
    pub start_removed: bool,
    /// The markup to go behind the start tag.
    pub after_start: Seq<u8>,
    /// The content between the tags is taken out.
    pub content_removed: bool,
    /// The markup to go in front of the end tag.
    pub before_end: Seq<u8>,
    /// The end tag is taken out.
    pub end_removed: bool,
    /// The markup to go behind the end tag.
    pub after_end: Seq<u8>,
}

/// How the element stands now.
pub uninterp spec fn state_of(element: Element) -> ElementView;

/// The bytes that `lol_html` queues for `markup` in a fragment in the
/// encoding `coding`: `markup` as that encoding writes it.
pub uninterp spec fn written(coding: Seq<char>, markup: Seq<char>) -> Seq<u8>;

/// The value that an element of a fragment in the encoding `coding` gives
/// back for an attribute that was given `value`: `lol_html` holds the value
/// as the encoding writes it and gives it back as the encoding reads that.
pub uninterp spec fn kept(coding: Seq<char>, value: Seq<char>) -> Seq<char>;

/// A name made of small letters and hyphens. `lol_html` compares and takes
/// such a name as it is: it is its own lower case, and holds nothing that
/// an attribute name may not hold.
pub open spec fn plain_name(name: Seq<char>) -> bool {
    name.len() > 0 && forall|i: int|
        0 <= i < name.len() ==> (('a' <= #[trigger] name[i] && name[i] <= 'z') || name[i] == '-')
}

/// The value under `name`, if there is one.
pub open spec fn value_of(attributes: Map<Seq<char>, Seq<char>>, name: Seq<char>) -> Option<
    Seq<char>,
> {
    if attributes.contains_key(name) {
        Some(attributes[name])
    } else {
        None
    }
}

/// The element with `value` under the attribute `name`.
pub open spec fn with_attribute(
    state: ElementView,
    name: Seq<char>,
    value: Seq<char>,
) -> ElementView {
    ElementView { attributes: state.attributes.insert(name, value), ..state }
}

/// The element with `markup` queued in front of it, behind what is queued
/// there already.
pub open spec fn put_before(state: ElementView, markup: Seq<u8>) -> ElementView {
    ElementView { before_start: state.before_start + markup, ..state }
}

/// The element with `markup` queued behind it, in front of what is queued
/// there already: behind its end tag, or behind its start tag where it
/// has no content.
pub open spec fn put_after(state: ElementView, markup: Seq<u8>) -> ElementView {
    if state.open {
        ElementView { after_end: markup + state.after_end, ..state }
    } else {
        ElementView { after_start: markup + state.after_start, ..state }
    }
}

/// The element with `markup` queued at the start of its content, in front
/// of what is queued there already. An element without content stays as
/// it is.
pub open spec fn put_first(state: ElementView, markup: Seq<u8>) -> ElementView {
    if state.open {
        ElementView { after_start: markup + state.after_start, ..state }
    } else {
        state
    }
}

/// The element with `markup` queued at the end of its content, behind
/// what is queued there already. An element without content stays as it
/// is.
pub open spec fn put_last(state: ElementView, markup: Seq<u8>) -> ElementView {
    if state.open {
        ElementView { before_end: state.before_end + markup, ..state }
    } else {
        state
    }
}

/// The element taken out: its start tag, and where it has content, also
/// the content, what was queued inside it, and its end tag.
pub open spec fn taken_out(state: ElementView) -> ElementView {
    if state.open {
        ElementView {
            start_removed: true,
            after_start: Seq::empty(),
            content_removed: true,
            before_end: Seq::empty(),
            end_removed: true,
            ..state
        }
    } else {
        ElementView { start_removed: true, ..state }
    }
}

/// The element taken out, with `markup` to go in its place.
pub open spec fn put_instead(state: ElementView, markup: Seq<u8>) -> ElementView {
    ElementView { replacement: markup, ..taken_out(state) }
}

/// `Element::get_attribute`: the value of the first attribute whose name,
/// in lower case, is `name` in lower case, if the element has one. The
/// contract speaks of plain names, which are their own lower case.
#[verifier::external_body]
pub(crate) fn attribute(element: &Element<'_, '_>, name: &str) -> (r: Option<String>)
    ensures
        plain_name(name@) ==> view_of(r) == value_of(state_of(*element).attributes, name@),
{
    element.get_attribute(name)
}

/// `Element::set_attribute`: gives the first attribute whose name, in
/// lower case, is `name` in lower case the value, and adds the attribute
/// where the element has none of that name. It refuses to add a name that
/// is empty or holds a character that no attribute name holds, which a
/// plain name does not; the result tells whether it took the name.
/// Nothing else about the element changes.
#[verifier::external_body]
pub(crate) fn set_attribute(element: &mut Element<'_, '_>, name: &str, value: &str) -> (r: bool)
    ensures
        plain_name(name@) ==> r && state_of(*final(element)) == with_attribute(
            state_of(*old(element)),
            name@,
            kept(state_of(*old(element)).coding, value@),
        ),
{
    element.set_attribute(name, value).is_ok()
}

/// `Element::before` with `ContentType::Html`: queues markup in front of
/// the element.
#[verifier::external_body]
pub(crate) fn insert_before(element: &mut Element<'_, '_>, markup: &str)
    ensures
        state_of(*final(element)) == put_before(
            state_of(*old(element)),
            written(state_of(*old(element)).coding, markup@),
        ),
{
    element.before(markup, ContentType::Html)
}

/// `Element::after` with `ContentType::Html`: queues markup behind the
/// element.
#[verifier::external_body]
pub(crate) fn insert_after(element: &mut Element<'_, '_>, markup: &str)
    ensures
        state_of(*final(element)) == put_after(
            state_of(*old(element)),
            written(state_of(*old(element)).coding, markup@),
        ),
{
    element.after(markup, ContentType::Html)
}

/// `Element::prepend` with `ContentType::Html`: queues markup at the start
/// of the element's content.
#[verifier::external_body]
pub(crate) fn prepend(element: &mut Element<'_, '_>, markup: &str)
    ensures
        state_of(*final(element)) == put_first(
            state_of(*old(element)),
            written(state_of(*old(element)).coding, markup@),
        ),
{
    element.prepend(markup, ContentType::Html)
}

/// `Element::append` with `ContentType::Html`: queues markup at the end of
/// the element's content.
#[verifier::external_body]
pub(crate) fn append(element: &mut Element<'_, '_>, markup: &str)
    ensures
        state_of(*final(element)) == put_last(
            state_of(*old(element)),
            written(state_of(*old(element)).coding, markup@),
        ),
{
    element.append(markup, ContentType::Html)
}

/// `Element::replace` with `ContentType::Html`: takes the element and its
/// content out and queues markup to go in its place.
#[verifier::external_body]
pub(crate) fn replace(element: &mut Element<'_, '_>, markup: &str)
    ensures
        state_of(*final(element)) == put_instead(
            state_of(*old(element)),
            written(state_of(*old(element)).coding, markup@),
        ),
{
    element.replace(markup, ContentType::Html)
}

/// `Element::remove`: takes the element and its content out.
#[verifier::external_body]
pub(crate) fn remove(element: &mut Element<'_, '_>)
    ensures
        state_of(*final(element)) == taken_out(state_of(*old(element))),
{
    element.remove()
}

} // verus!
