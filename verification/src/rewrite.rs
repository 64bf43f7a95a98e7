//! The rules of the second stage of rendering: what each of them does to an
//! element, decided from the attributes that the element has, and how the
//! element stands once the rule has acted on it.

use crate::html::{
    append, attribute, insert_after, insert_before, kept, plain_name, prepend, put_after,
    put_before, put_first, put_instead, put_last, remove, replace, set_attribute, state_of,
    taken_out, value_of, with_attribute, written, ElementView,
};
use crate::pattern::{escape, escaped, first_match_in, Captured, CapturedView, Pattern};
use crate::text::{
    chars_of, has_words, holds_words, lemma_words_are_held_behind,
    lemma_words_are_held_in_front, lemma_words_hold_themselves, matches_at, same_text,
    stands_at, text_of, view_of,
};
use lol_html::html_content::Element;
use vstd::prelude::*;
use vstd::string::StringExecFns;

verus! {

/// What a rule does to the elements it is registered for.
#[derive(Debug, Clone)]
pub enum Rule {
    /// Adds the classes to those that the element has.
    Style(String),
    /// Takes the element out, content and all.
    Drop,
    /// Points an anchor that leads upstream to where it should lead here.
    Anchor,
    /// Makes an image inside a figure load lazily from its best source,
    /// and wraps it in a link to its full-size source.
    FigureImage,
    /// Puts a small image in place of an anchor that stands for a sticker.
    Sticker,
    /// Puts an image in place of an anchor that stands for a picture in a
    /// comment.
    CommentImage,
    /// Lays an anchor out as a card: its text in a box, its preview image
    /// beside it.
    LinkCard,
}

pub enum RuleView {
    Style(Seq<char>),
    Drop,
    Anchor,
    FigureImage,
    Sticker,
    CommentImage,
    LinkCard,
}

impl View for Rule {
    type V = RuleView;

    open spec fn view(&self) -> RuleView {
        match self {
            Rule::Style(classes) => RuleView::Style(classes@),
            Rule::Drop => RuleView::Drop,
            Rule::Anchor => RuleView::Anchor,
            Rule::FigureImage => RuleView::FigureImage,
            Rule::Sticker => RuleView::Sticker,
            Rule::CommentImage => RuleView::CommentImage,
            Rule::LinkCard => RuleView::LinkCard,
        }
    }
}

/// A rule and the selector of the elements it is for.
#[derive(Debug, Clone)]
pub struct Handler {
    pub selector: String,
    pub rule: Rule,
}

/// The handlers as pairs of selector and rule.
pub open spec fn handler_views(handlers: Seq<Handler>) -> Seq<(Seq<char>, RuleView)> {
    handlers.map_values(|h: Handler| (h.selector@, h.rule@))
}

/// One change to an element.
#[derive(Debug, Clone)]
pub enum Edit {
    /// Gives the attribute `name` the value `value`.
    SetAttribute { name: String, value: String },
    /// Puts markup in front of the element.
    Before(String),
    /// Puts markup behind the element.
    After(String),
    /// Puts markup at the start of the element's content.
    Prepend(String),
    /// Puts markup at the end of the element's content.
    Append(String),
    /// Puts markup in place of the element.
    Replace(String),
    /// Takes the element out.
    Remove,
}

pub enum EditView {
    SetAttribute { name: Seq<char>, value: Seq<char> },
    Before(Seq<char>),
    After(Seq<char>),
    Prepend(Seq<char>),
    Append(Seq<char>),
    Replace(Seq<char>),
    Remove,
}

impl View for Edit {
    type V = EditView;

    open spec fn view(&self) -> EditView {
        match self {
            Edit::SetAttribute { name, value } => EditView::SetAttribute {
                name: name@,
                value: value@,
            },
            Edit::Before(markup) => EditView::Before(markup@),
            Edit::After(markup) => EditView::After(markup@),
            Edit::Prepend(markup) => EditView::Prepend(markup@),
            Edit::Append(markup) => EditView::Append(markup@),
            Edit::Replace(markup) => EditView::Replace(markup@),
            Edit::Remove => EditView::Remove,
        }
    }
}

/// The changes of a plan, in order.
pub open spec fn edit_views(edits: Seq<Edit>) -> Seq<EditView> {
    edits.map_values(|e: Edit| e@)
}

/// The change that gives the attribute `name` the value `value`.
pub open spec fn set(name: Seq<char>, value: Seq<char>) -> EditView {
    EditView::SetAttribute { name, value }
}

fn set_edit(name: &str, value: String) -> (r: Edit)
    ensures
        r@ == set(name@, value@),
{
    Edit::SetAttribute { name: String::from_str(name), value }
}

/// The style of a link that leads out of the upstream site.
pub const OUTBOUND_LINK: &'static str = "border-b-1 border-gray-400";

/// The style of a link that leads to a page of this gateway.
pub const LOCAL_LINK: &'static str = "text-blue-600 underline";

/// The style of a link card.
pub const LINK_CARD: &'static str =
    "flex w-96 max-w-full p-4 bg-gray-100 rounded my-4 mx-auto no-underline cursor-pointer line-clamp-2";

/// The classes of an element once `extra` is added: behind those it has,
/// after a space, and alone where it has none. An element that holds the
/// classes already keeps what it has.
pub open spec fn classes_with(current: Option<Seq<char>>, extra: Seq<char>) -> Seq<char> {
    match current {
        Some(c) => if holds_words(c, extra) {
            c
        } else if c.len() == 0 {
            extra
        } else {
            c + " "@ + extra
        },
        None => extra,
    }
}

/// What `Style` does to an element whose `class` is `class`: nothing
/// where the element holds the classes already, so that the rule adds
/// them once however often it acts.
pub open spec fn style_plan(class: Option<Seq<char>>, extra: Seq<char>) -> Seq<EditView> {
    if class matches Some(c) && holds_words(c, extra) {
        Seq::empty()
    } else {
        seq![set("class"@, classes_with(class, extra))]
    }
}

/// Plans `Style`: the element keeps its classes and gains `extra`, unless
/// it holds them already.
pub fn style_edits(class: Option<String>, extra: &str) -> (r: Vec<Edit>)
    ensures
        edit_views(r@) == style_plan(view_of(class), extra@),
{
    let mut edits: Vec<Edit> = Vec::new();
    let value = match class {
        Some(current) => {
            if has_words(current.as_str(), extra) {
                assert(edit_views(edits@) =~= style_plan(view_of(class), extra@));
                return edits;
            }
            if current.as_str().is_empty() {
                String::from_str(extra)
            } else {
                let mut all = current;
                all.append(" ");
                all.append(extra);
                all
            }
        },
        None => String::from_str(extra),
    };
    edits.push(set_edit("class", value));
    assert(edit_views(edits@) =~= style_plan(view_of(class), extra@));
    edits
}

/// The classes of an element once `extra` is added hold `extra`.
pub proof fn lemma_classes_hold(class: Option<Seq<char>>, extra: Seq<char>)
    ensures
        holds_words(classes_with(class, extra), extra),
{
    reveal_strlit(" ");
    assert(" "@ =~= seq![' ']);
    lemma_words_hold_themselves(extra);
    match class {
        Some(c) => {
            if !holds_words(c, extra) {
                lemma_words_are_held_behind(c, extra);
            }
        },
        None => {},
    }
}

/// Once `Style` has acted on an element, it plans nothing more for it.
pub proof fn lemma_style_acts_once(class: Option<Seq<char>>, extra: Seq<char>)
    ensures
        style_plan(Some(classes_with(class, extra)), extra) == Seq::<EditView>::empty(),
{
    lemma_classes_hold(class, extra);
}

/// The pattern of an address on the upstream site: from its start the
/// scheme, a host under the domain `upstream`, which is taken to the
/// letter, and behind the first slash the path, which is all the rest.
pub open spec fn link_pattern(upstream: Seq<char>) -> Seq<char> {
    "(?s)^https?://([^/]*?)\\."@ + escaped(upstream) + "/(.*)"@
}

/// The upstream site: its domain, and the pattern of its addresses,
/// compiled once.
#[derive(Debug)]
pub struct Upstream {
    domain: String,
    links: Pattern,
}

impl View for Upstream {
    type V = Seq<char>;

    /// The domain of the site.
    closed spec fn view(&self) -> Seq<char> {
        self.domain@
    }
}

impl Upstream {
    /// The pattern is that of the domain.
    #[verifier::type_invariant]
    spec fn pattern_fits(self) -> bool {
        self.links@ == link_pattern(self.domain@)
    }

    /// The site at `domain`.
    pub fn new(domain: &str) -> (r: Upstream)
        ensures
            r@ == domain@,
    {
        let mut pattern = String::from_str("(?s)^https?://([^/]*?)\\.");
        let literal = escape(domain);
        pattern.append(literal.as_str());
        pattern.append("/(.*)");
        Upstream { domain: String::from_str(domain), links: Pattern::new(pattern.as_str()) }
    }

    /// The domain of the site.
    pub fn domain(&self) -> (r: &str)
        ensures
            r@ == self@,
    {
        self.domain.as_str()
    }

    /// The pattern of an address on the site.
    pub fn link_pattern(&self) -> (r: &str)
        ensures
            r@ == link_pattern(self@),
    {
        proof {
            use_type_invariant(self);
        }
        self.links.source()
    }
}

/// The host and the path that a match of the link pattern captured.
pub open spec fn link_parts(found: Option<CapturedView>) -> Option<(Seq<char>, Seq<char>)> {
    match found {
        Some(c) => if c.groups.len() > 2 && c.groups[1] is Some && c.groups[2] is Some {
            Some((c.groups[1]->0, c.groups[2]->0))
        } else {
            None
        },
        None => None,
    }
}

/// The address is one of the upstream redirector, which wraps the address
/// it leads to.
pub open spec fn is_outbound(found: Option<CapturedView>) -> bool {
    link_parts(found) matches Some(parts) && parts.0 == "link"@
}

/// The parameter `target` is named in `path` at `at`: behind a `?` or an
/// `&`, and with its `=`.
pub open spec fn names_target(path: Seq<char>, at: int) -> bool {
    at >= 1 && (path[at - 1] == '?' || path[at - 1] == '&') && stands_at(path, "target="@, at)
}

/// The first place at or behind `from` where `path` names the parameter
/// `target`.
pub open spec fn target_from(path: Seq<char>, from: int) -> Option<int>
    decreases path.len() - from,
{
    if from >= path.len() {
        None
    } else if names_target(path, from) {
        Some(from)
    } else {
        target_from(path, from + 1)
    }
}

/// Where the value that begins at `from` ends: in front of the next `&`
/// or `#`, and at the end of `path` where there is none.
pub open spec fn value_end(path: Seq<char>, from: int) -> int
    decreases path.len() - from,
{
    if from >= path.len() {
        path.len() as int
    } else if path[from] == '&' || path[from] == '#' {
        from
    } else {
        value_end(path, from + 1)
    }
}

/// The wrapped address as the redirector carries it, still encoded: the
/// value of the first parameter `target` of `path`, if it has one.
pub open spec fn wrapped_target(path: Seq<char>) -> Option<Seq<char>> {
    match target_from(path, 1) {
        Some(at) => Some(
            path.subrange(at + "target="@.len(), value_end(path, at + "target="@.len())),
        ),
        None => None,
    }
}

/// Takes the value of the parameter `target` out of the path of an
/// address of the redirector.
pub fn wrapped_in(path: &str) -> (r: Option<String>)
    ensures
        view_of(r) == wrapped_target(path@),
{
    let chars = chars_of(path);
    let name = chars_of("target=");
    proof {
        reveal_strlit("target=");
    }
    let mut at: usize = 1;
    while at < chars.len()
        invariant
            1 <= at,
            chars@ == path@,
            name@ == "target="@,
            name.len() == 7,
            target_from(chars@, at as int) == target_from(chars@, 1),
        decreases chars.len() - at,
    {
        if (chars[at - 1] == '?' || chars[at - 1] == '&') && matches_at(&chars, &name, at) {
            let start = at + name.len();
            let mut end: usize = start;
            while end < chars.len() && chars[end] != '&' && chars[end] != '#'
                invariant
                    start <= end <= chars.len(),
                    value_end(chars@, end as int) == value_end(chars@, start as int),
                decreases chars.len() - end,
            {
                end += 1;
            }
            return Some(text_of(&chars, start, end));
        }
        at += 1;
    }
    None
}

/// An anchor after rewriting: where it leads, and the style it gets if it
/// gets one.
#[derive(Debug, Clone)]
pub struct Link {
    pub href: String,
    pub class: Option<String>,
}

pub struct LinkView {
    pub href: Seq<char>,
    pub class: Option<Seq<char>>,
}

impl View for Link {
    type V = LinkView;

    open spec fn view(&self) -> LinkView {
        LinkView { href: self.href@, class: view_of(self.class) }
    }
}

/// The anchor for `href`, given what the link pattern found in it and, for
/// an address of the redirector, the address it wraps (`None` where that
/// could not be decoded).
///
/// An address of the redirector leads to the address it wraps; any other
/// upstream address leads to the same path here; in both, what stood
/// around the match stays around it. An address that is not upstream, and
/// an address of the redirector that wraps none or one that cannot be
/// decoded, stays as it is.
pub open spec fn link_given(
    href: Seq<char>,
    found: Option<CapturedView>,
    target: Option<Seq<char>>,
) -> LinkView {
    match link_parts(found) {
        Some(parts) => if parts.0 == "link"@ {
            match target {
                Some(t) => LinkView {
                    href: found->0.before + t + found->0.after,
                    class: Some(OUTBOUND_LINK@),
                },
                None => LinkView { href, class: None },
            }
        } else {
            LinkView {
                href: found->0.before + "/"@ + parts.1 + found->0.after,
                class: Some(LOCAL_LINK@),
            }
        },
        None => LinkView { href, class: None },
    }
}

/// What decoding the percent-escapes of `text` gives, as `urlencoding`
/// does it: `None` where the decoded bytes are no UTF-8.
pub uninterp spec fn percent_decoded(text: Seq<char>) -> Option<Seq<char>>;

/// `urlencoding::decode`: the text with its percent-escapes decoded.
#[verifier::external_body]
fn percent_decode(text: &str) -> (r: Option<String>)
    ensures
        view_of(r) == percent_decoded(text@),
{
    urlencoding::decode(text).ok().map(|decoded| decoded.into_owned())
}

/// The address that an address of the redirector wraps.
pub open spec fn target_of(found: Option<CapturedView>) -> Option<Seq<char>> {
    match link_parts(found) {
        Some(parts) => if is_outbound(found) {
            match wrapped_target(parts.1) {
                Some(wrapped) => percent_decoded(wrapped),
                None => None,
            }
        } else {
            None
        },
        None => None,
    }
}

/// The anchor for `href` on a gateway to `upstream`.
pub open spec fn link_of(href: Seq<char>, upstream: Seq<char>) -> LinkView {
    let found = first_match_in(link_pattern(upstream), href);
    link_given(href, found, target_of(found))
}

/// The views of the groups of a match.
proof fn lemma_groups(c: Captured)
    ensures
        c@.groups.len() == c.groups@.len(),
        forall|i: int|
            0 <= i < c.groups@.len() ==> #[trigger] c@.groups[i] == view_of(c.groups@[i]),
{
}

/// Rewrites an anchor from what the link pattern found in its address
/// and from the address that the redirector wraps.
pub fn link_from(href: &str, found: &Option<Captured>, target: &Option<String>) -> (r: Link)
    ensures
        r@ == link_given(href@, view_of(*found), view_of(*target)),
{
    let unchanged = Link { href: String::from_str(href), class: None };
    match found {
        Some(c) => {
            proof {
                lemma_groups(*c);
            }
            if c.groups.len() > 2 {
                match (&c.groups[1], &c.groups[2]) {
                    (Some(host), Some(path)) => {
                        if same_text(host.as_str(), "link") {
                            match target {
                                Some(t) => {
                                    let mut to = c.before.clone();
                                    to.append(t.as_str());
                                    to.append(c.after.as_str());
                                    Link { href: to, class: Some(String::from_str(OUTBOUND_LINK)) }
                                },
                                None => unchanged,
                            }
                        } else {
                            let mut to = c.before.clone();
                            to.append("/");
                            to.append(path.as_str());
                            to.append(c.after.as_str());
                            Link { href: to, class: Some(String::from_str(LOCAL_LINK)) }
                        }
                    },
                    _ => unchanged,
                }
            } else {
                unchanged
            }
        },
        None => unchanged,
    }
}

/// Decodes the address that an address of the redirector wraps.
fn target_in(found: &Option<Captured>) -> (r: Option<String>)
    ensures
        view_of(r) == target_of(view_of(*found)),
{
    match found {
        Some(c) => {
            proof {
                lemma_groups(*c);
            }
            if c.groups.len() > 2 {
                match (&c.groups[1], &c.groups[2]) {
                    (Some(host), Some(path)) => {
                        if same_text(host.as_str(), "link") {
                            match wrapped_in(path.as_str()) {
                                Some(wrapped) => percent_decode(wrapped.as_str()),
                                None => None,
                            }
                        } else {
                            None
                        }
                    },
                    _ => None,
                }
            } else {
                None
            }
        },
        None => None,
    }
}

/// Rewrites the address of an anchor: an address of the upstream
/// redirector becomes the address it wraps, any other upstream address
/// becomes the same path on this gateway, and every other address stays.
pub fn rewrite_link(href: &str, upstream: &Upstream) -> (r: Link)
    ensures
        r@ == link_of(href@, upstream@),
{
    proof {
        use_type_invariant(upstream);
    }
    let found = upstream.links.first_match(href);
    let target = target_in(&found);
    link_from(href, &found, &target)
}

/// What `Anchor` does to an anchor whose `class` is `class`: it adds the
/// style to the classes, where the anchor gets one, and then sets the
/// address.
pub open spec fn anchor_plan(link: LinkView, class: Option<Seq<char>>) -> Seq<EditView> {
    match link.class {
        Some(style) => seq![set("class"@, classes_with(class, style)), set("href"@, link.href)],
        None => seq![set("href"@, link.href)],
    }
}

/// The classes of an element with `extra` added.
fn add_classes(class: Option<String>, extra: &str) -> (r: String)
    ensures
        r@ == classes_with(view_of(class), extra@),
{
    match class {
        Some(current) => {
            if has_words(current.as_str(), extra) {
                current
            } else if current.as_str().is_empty() {
                String::from_str(extra)
            } else {
                let mut all = current;
                all.append(" ");
                all.append(extra);
                all
            }
        },
        None => String::from_str(extra),
    }
}

/// Plans `Anchor` for a rewritten anchor and the classes it has.
pub fn anchor_edits(link: Link, class: Option<String>) -> (r: Vec<Edit>)
    ensures
        edit_views(r@) == anchor_plan(link@, view_of(class)),
{
    let mut edits: Vec<Edit> = Vec::new();
    match link.class {
        Some(style) => {
            edits.push(set_edit("class", add_classes(class, style.as_str())));
            edits.push(set_edit("href", link.href));
            assert(edit_views(edits@) =~= anchor_plan(link@, view_of(class)));
        },
        None => {
            edits.push(set_edit("href", link.href));
            assert(edit_views(edits@) =~= anchor_plan(link@, view_of(class)));
        },
    }
    edits
}

/// The full-size source of an image: its `data-originalsrc`, else its
/// `data-original`.
pub open spec fn full_source(original: Option<Seq<char>>, generic: Option<Seq<char>>) -> Option<
    Seq<char>,
> {
    if original is Some {
        original
    } else {
        generic
    }
}

/// The source that an image shows: its `data-actualsrc`, else its
/// full-size source, else the `src` it has, else none at all.
pub open spec fn shown_source(
    src: Option<Seq<char>>,
    actual: Option<Seq<char>>,
    original: Option<Seq<char>>,
    generic: Option<Seq<char>>,
) -> Seq<char> {
    match actual {
        Some(a) => a,
        None => match full_source(original, generic) {
            Some(f) => f,
            None => match src {
                Some(s) => s,
                None => Seq::empty(),
            },
        },
    }
}

/// The source that an image links to: its full-size source, else the one
/// it shows.
pub open spec fn linked_source(
    src: Option<Seq<char>>,
    actual: Option<Seq<char>>,
    original: Option<Seq<char>>,
    generic: Option<Seq<char>>,
) -> Seq<char> {
    match full_source(original, generic) {
        Some(f) => f,
        None => shown_source(src, actual, original, generic),
    }
}

/// The image is as `FigureImage` leaves one: it loads lazily, and it
/// shows the source that the rule would give it.
pub open spec fn image_is_ready(
    loading: Option<Seq<char>>,
    src: Option<Seq<char>>,
    actual: Option<Seq<char>>,
    original: Option<Seq<char>>,
    generic: Option<Seq<char>>,
) -> bool {
    loading == Some("lazy"@) && src == Some(shown_source(src, actual, original, generic))
}

/// What `FigureImage` does to an image with these attributes: it makes
/// the image load lazily, adds the class that centres it, gives it the
/// source to show, and wraps it in a link to its full-size source. It
/// does nothing to an image that is as the rule leaves one, so that the
/// rule wraps an image once however often it acts.
pub open spec fn figure_image_plan(
    loading: Option<Seq<char>>,
    src: Option<Seq<char>>,
    class: Option<Seq<char>>,
    actual: Option<Seq<char>>,
    original: Option<Seq<char>>,
    generic: Option<Seq<char>>,
) -> Seq<EditView> {
    if image_is_ready(loading, src, actual, original, generic) {
        Seq::empty()
    } else {
        seq![
            set("loading"@, "lazy"@),
            set("class"@, classes_with(class, "mx-auto"@)),
            set("src"@, shown_source(src, actual, original, generic)),
            EditView::Before(
                "<a target=\"_blank\" href=\""@ + linked_source(src, actual, original, generic)
                    + "\">"@,
            ),
            EditView::After("</a>"@),
        ]
    }
}

/// Plans `FigureImage` from the image's `loading`, `src`, `class`,
/// `data-actualsrc`, `data-originalsrc` and `data-original`.
pub fn figure_image_edits(
    loading: Option<String>,
    src: Option<String>,
    class: Option<String>,
    actual: Option<String>,
    original: Option<String>,
    generic: Option<String>,
) -> (r: Vec<Edit>)
    ensures
        edit_views(r@) == figure_image_plan(
            view_of(loading),
            view_of(src),
            view_of(class),
            view_of(actual),
            view_of(original),
            view_of(generic),
        ),
{
    let full = match original {
        Some(o) => Some(o),
        None => generic,
    };
    let (shown, linked) = match (actual, full) {
        (Some(a), Some(f)) => (a, f),
        (Some(a), None) => {
            let l = a.clone();
            (a, l)
        },
        (None, Some(f)) => {
            let s = f.clone();
            (s, f)
        },
        (None, None) => match &src {
            Some(s) => (s.clone(), s.clone()),
            None => (String::new(), String::new()),
        },
    };
    let mut edits: Vec<Edit> = Vec::new();
    let lazy = match &loading {
        Some(l) => same_text(l.as_str(), "lazy"),
        None => false,
    };
    let shows = match &src {
        Some(s) => same_text(s.as_str(), shown.as_str()),
        None => false,
    };
    if lazy && shows {
        assert(edit_views(edits@) =~= Seq::<EditView>::empty());
        return edits;
    }
    let mut open = String::from_str("<a target=\"_blank\" href=\"");
    open.append(linked.as_str());
    open.append("\">");
    edits.push(set_edit("loading", String::from_str("lazy")));
    edits.push(set_edit("class", add_classes(class, "mx-auto")));
    edits.push(set_edit("src", shown));
    edits.push(Edit::Before(open));
    edits.push(Edit::After(String::from_str("</a>")));
    assert(edit_views(edits@) =~= figure_image_plan(
        view_of(loading),
        view_of(src),
        view_of(class),
        view_of(actual),
        view_of(original),
        view_of(generic),
    ));
    edits
}

/// Once `FigureImage` has acted on an image, it plans nothing more for
/// it: the image then loads lazily and shows the source that the rule
/// gave it.
pub proof fn lemma_image_is_wrapped_once(
    src: Option<Seq<char>>,
    class: Option<Seq<char>>,
    actual: Option<Seq<char>>,
    original: Option<Seq<char>>,
    generic: Option<Seq<char>>,
)
    ensures
        figure_image_plan(
            Some("lazy"@),
            Some(shown_source(src, actual, original, generic)),
            class,
            actual,
            original,
            generic,
        ) == Seq::<EditView>::empty(),
{
}

/// The width that a sticker gets.
pub const STICKER_WIDTH: &'static str = "width=\"80\"";

/// The width that a picture in a comment gets.
pub const PICTURE_WIDTH: &'static str = "max-width=\"100%\"";

/// The image that stands in place of an anchor to `href`: it loads
/// lazily from that address and has the given width.
pub open spec fn inline_image(href: Option<Seq<char>>, width: Seq<char>) -> Seq<char> {
    let source = match href {
        Some(h) => h,
        None => Seq::empty(),
    };
    "<img loading=\"lazy\" src=\""@ + source + "\" "@ + width + " />"@
}

/// What `Sticker` and `CommentImage` do to an anchor to `href`.
pub open spec fn inline_image_plan(href: Option<Seq<char>>, width: Seq<char>) -> Seq<EditView> {
    seq![EditView::Replace(inline_image(href, width))]
}

/// Plans `Sticker` and `CommentImage`: an image of the given width takes
/// the place of the anchor.
pub fn inline_image_edits(href: Option<String>, width: &str) -> (r: Vec<Edit>)
    ensures
        edit_views(r@) == inline_image_plan(view_of(href), width@),
{
    let mut image = String::from_str("<img loading=\"lazy\" src=\"");
    match &href {
        Some(h) => image.append(h.as_str()),
        None => {
            assert(image@ + Seq::<char>::empty() =~= image@);
        },
    }
    image.append("\" ");
    image.append(width);
    image.append(" />");
    let mut edits: Vec<Edit> = Vec::new();
    edits.push(Edit::Replace(image));
    assert(edit_views(edits@) =~= inline_image_plan(view_of(href), width@));
    edits
}

/// What ends the text box of a link card: the box's end, and behind it
/// the preview image where the card has one.
pub open spec fn card_end(preview: Option<Seq<char>>) -> Seq<char> {
    match preview {
        Some(p) => "</div><img class=\"w-16 h-16 object-cover rounded ml-1\" loading=\"lazy\" src=\""@
            + p + "\" />"@,
        None => "</div>"@,
    }
}

/// The anchor is laid out as a card already: it opens in a new context
/// and holds the classes of a card.
pub open spec fn card_is_ready(target: Option<Seq<char>>, class: Option<Seq<char>>) -> bool {
    target == Some("_blank"@) && (class matches Some(c) && holds_words(c, LINK_CARD@))
}

/// What `LinkCard` does to an anchor with this `target`, this `class`
/// and the `data-image` `preview`: it makes the anchor open in a new
/// context, adds the classes of a card, and puts a box around its text and
/// the preview image behind that. It does nothing to an anchor that is
/// laid out as a card already, so that the rule lays a card out once
/// however often it acts.
pub open spec fn link_card_plan(
    target: Option<Seq<char>>,
    class: Option<Seq<char>>,
    preview: Option<Seq<char>>,
) -> Seq<EditView> {
    if card_is_ready(target, class) {
        Seq::empty()
    } else {
        seq![
            set("target"@, "_blank"@),
            set("class"@, classes_with(class, LINK_CARD@)),
            EditView::Prepend("<div class=\"mr-auto text-sm text-gray-800\"> "@),
            EditView::Append(card_end(preview)),
        ]
    }
}

/// Plans `LinkCard` from the anchor's `target`, `class` and `data-image`.
pub fn link_card_edits(
    target: Option<String>,
    class: Option<String>,
    preview: Option<String>,
) -> (r: Vec<Edit>)
    ensures
        edit_views(r@) == link_card_plan(view_of(target), view_of(class), view_of(preview)),
{
    let mut edits: Vec<Edit> = Vec::new();
    let opens = match &target {
        Some(t) => same_text(t.as_str(), "_blank"),
        None => false,
    };
    let styled = match &class {
        Some(c) => has_words(c.as_str(), LINK_CARD),
        None => false,
    };
    if opens && styled {
        assert(edit_views(edits@) =~= Seq::<EditView>::empty());
        return edits;
    }
    let end = match &preview {
        Some(p) => {
            let mut end = String::from_str(
                "</div><img class=\"w-16 h-16 object-cover rounded ml-1\" loading=\"lazy\" src=\"",
            );
            end.append(p.as_str());
            end.append("\" />");
            end
        },
        None => String::from_str("</div>"),
    };
    edits.push(set_edit("target", String::from_str("_blank")));
    edits.push(set_edit("class", add_classes(class, LINK_CARD)));
    edits.push(Edit::Prepend(String::from_str("<div class=\"mr-auto text-sm text-gray-800\"> ")));
    edits.push(Edit::Append(end));
    assert(edit_views(edits@) =~= link_card_plan(
        view_of(target),
        view_of(class),
        view_of(preview),
    ));
    edits
}

/// Once `LinkCard` has acted on an anchor, it plans nothing more for it,
/// whatever classes the anchor has gained behind those of the card since.
pub proof fn lemma_card_is_laid_out_once(gained: Seq<char>, preview: Option<Seq<char>>)
    ensures
        link_card_plan(Some("_blank"@), Some(LINK_CARD@), preview) == Seq::<EditView>::empty(),
        link_card_plan(Some("_blank"@), Some(LINK_CARD@ + " "@ + gained), preview) == Seq::<
            EditView,
        >::empty(),
{
    reveal_strlit(" ");
    assert(" "@ =~= seq![' ']);
    lemma_words_hold_themselves(LINK_CARD@);
    lemma_words_are_held_in_front(LINK_CARD@, gained);
}

/// Makes one change to the element.
fn perform(element: &mut Element<'_, '_>, edit: &Edit)
    ensures
        plain_edit(edit@) ==> state_of(*final(element)) == effect(
            edit@,
            state_of(*old(element)),
        ),
{
    match edit {
        Edit::SetAttribute { name, value } => {
            set_attribute(element, name.as_str(), value.as_str());
        },
        Edit::Before(markup) => insert_before(element, markup.as_str()),
        Edit::After(markup) => insert_after(element, markup.as_str()),
        Edit::Prepend(markup) => prepend(element, markup.as_str()),
        Edit::Append(markup) => append(element, markup.as_str()),
        Edit::Replace(markup) => replace(element, markup.as_str()),
        Edit::Remove => remove(element),
    }
}

/// Makes the changes of a plan to the element, in order.
fn carry_out(element: &mut Element<'_, '_>, edits: &Vec<Edit>)
    ensures
        plain_plan(edit_views(edits@)) ==> state_of(*final(element)) == carried_out(
            edit_views(edits@),
            state_of(*old(element)),
        ),
{
    let ghost start = state_of(*element);
    let ghost plan = edit_views(edits@);
    let mut i: usize = 0;
    proof {
        assert(plan.take(0) =~= Seq::<EditView>::empty());
    }
    while i < edits.len()
        invariant
            i <= edits.len(),
            plan == edit_views(edits@),
            plain_plan(plan) ==> state_of(*element) == carried_out(plan.take(i as int), start),
        decreases edits.len() - i,
    {
        proof {
            let now = plan.take(i as int + 1);
            assert(now.drop_last() =~= plan.take(i as int));
            assert(now.last() == edits@[i as int]@);
            if plain_plan(plan) {
                assert(plain_edit(plan[i as int]));
            }
        }
        perform(element, &edits[i]);
        i += 1;
    }
    proof {
        assert(plan.take(edits.len() as int) =~= plan);
    }
}

/// Lets `rule` act on the element: reads the attributes that the rule
/// goes by, plans the changes, and makes them.
pub(crate) fn apply_rule(element: &mut Element<'_, '_>, rule: &Rule, upstream: &Upstream)
    ensures
        state_of(*final(element)) == carried_out(
            plan_of(rule@, state_of(*old(element)).attributes, upstream@),
            state_of(*old(element)),
        ),
{
    proof {
        lemma_names_are_plain();
        lemma_plan_is_plain(rule@, state_of(*element).attributes, upstream@);
    }
    let edits = match rule {
        Rule::Style(classes) => style_edits(attribute(element, "class"), classes.as_str()),
        Rule::Drop => {
            let mut edits: Vec<Edit> = Vec::new();
            edits.push(Edit::Remove);
            assert(edit_views(edits@) =~= seq![EditView::Remove]);
            edits
        },
        Rule::Anchor => {
            let href = match attribute(element, "href") {
                Some(h) => h,
                None => String::new(),
            };
            let class = attribute(element, "class");
            anchor_edits(rewrite_link(href.as_str(), upstream), class)
        },
        Rule::FigureImage => figure_image_edits(
            attribute(element, "loading"),
            attribute(element, "src"),
            attribute(element, "class"),
            attribute(element, "data-actualsrc"),
            attribute(element, "data-originalsrc"),
            attribute(element, "data-original"),
        ),
        Rule::Sticker => inline_image_edits(attribute(element, "href"), STICKER_WIDTH),
        Rule::CommentImage => inline_image_edits(attribute(element, "href"), PICTURE_WIDTH),
        Rule::LinkCard => link_card_edits(
            attribute(element, "target"),
            attribute(element, "class"),
            attribute(element, "data-image"),
        ),
    };
    carry_out(element, &edits);
}

/// The change names only attributes that `lol_html` takes as they are
/// written.
pub open spec fn plain_edit(edit: EditView) -> bool {
    edit matches EditView::SetAttribute { name, .. } ==> plain_name(name)
}

/// Every change of the plan is plain.
pub open spec fn plain_plan(edits: Seq<EditView>) -> bool {
    forall|i: int| 0 <= i < edits.len() ==> plain_edit(#[trigger] edits[i])
}

/// The element after one change.
pub open spec fn effect(edit: EditView, state: ElementView) -> ElementView {
    match edit {
        EditView::SetAttribute { name, value } => with_attribute(
            state,
            name,
            kept(state.coding, value),
        ),
        EditView::Before(markup) => put_before(state, written(state.coding, markup)),
        EditView::After(markup) => put_after(state, written(state.coding, markup)),
        EditView::Prepend(markup) => put_first(state, written(state.coding, markup)),
        EditView::Append(markup) => put_last(state, written(state.coding, markup)),
        EditView::Replace(markup) => put_instead(state, written(state.coding, markup)),
        EditView::Remove => taken_out(state),
    }
}

/// The element after the changes of a plan, made in order.
pub open spec fn carried_out(edits: Seq<EditView>, state: ElementView) -> ElementView
    decreases edits.len(),
{
    if edits.len() == 0 {
        state
    } else {
        effect(edits.last(), carried_out(edits.drop_last(), state))
    }
}

/// The address that an anchor has: its `href`, and none at all where it
/// has no such attribute.
pub open spec fn address_of(attributes: Map<Seq<char>, Seq<char>>) -> Seq<char> {
    match value_of(attributes, "href"@) {
        Some(href) => href,
        None => Seq::empty(),
    }
}

/// What `rule` does to an element with these attributes, on a gateway to
/// the site at the domain `upstream`.
pub open spec fn plan_of(
    rule: RuleView,
    attributes: Map<Seq<char>, Seq<char>>,
    upstream: Seq<char>,
) -> Seq<EditView> {
    match rule {
        RuleView::Style(classes) => style_plan(value_of(attributes, "class"@), classes),
        RuleView::Drop => seq![EditView::Remove],
        RuleView::Anchor => anchor_plan(
            link_of(address_of(attributes), upstream),
            value_of(attributes, "class"@),
        ),
        RuleView::FigureImage => figure_image_plan(
            value_of(attributes, "loading"@),
            value_of(attributes, "src"@),
            value_of(attributes, "class"@),
            value_of(attributes, "data-actualsrc"@),
            value_of(attributes, "data-originalsrc"@),
            value_of(attributes, "data-original"@),
        ),
        RuleView::Sticker => inline_image_plan(value_of(attributes, "href"@), STICKER_WIDTH@),
        RuleView::CommentImage => inline_image_plan(
            value_of(attributes, "href"@),
            PICTURE_WIDTH@,
        ),
        RuleView::LinkCard => link_card_plan(
            value_of(attributes, "target"@),
            value_of(attributes, "class"@),
            value_of(attributes, "data-image"@),
        ),
    }
}

/// The encoding gives back every attribute value of the plan as the plan
/// sets it.
pub open spec fn given_back(coding: Seq<char>, edits: Seq<EditView>) -> bool {
    forall|i: int|
        0 <= i < edits.len() ==> (#[trigger] edits[i] matches EditView::SetAttribute {
            value,
            ..
        } ==> kept(coding, value) == value)
}

/// A rule that adds to an element does so once: when `Style`,
/// `FigureImage` or `LinkCard` has acted on an element, it plans nothing
/// for the element as it then stands. This holds where the encoding of
/// the fragment gives the values that the rule set back as they were set.
pub proof fn lemma_rule_acts_once(rule: RuleView, state: ElementView, upstream: Seq<char>)
    requires
        rule is Style || rule is FigureImage || rule is LinkCard,
        given_back(state.coding, plan_of(rule, state.attributes, upstream)),
    ensures
        plan_of(
            rule,
            carried_out(plan_of(rule, state.attributes, upstream), state).attributes,
            upstream,
        ) == Seq::<EditView>::empty(),
{
    let plan = plan_of(rule, state.attributes, upstream);
    let after = carried_out(plan, state);
    lemma_names_differ();
    if plan.len() == 0 {
        assert(after == state);
    } else {
        match rule {
            RuleView::Style(classes) => {
                let class = value_of(state.attributes, "class"@);
                assert(plan.drop_last() =~= Seq::<EditView>::empty());
                assert(carried_out(plan.drop_last(), state) == state);
                assert(plan.last() == set("class"@, classes_with(class, classes)));
                assert(kept(state.coding, classes_with(class, classes)) == classes_with(
                    class,
                    classes,
                )) by {
                    assert(plan[0] == plan.last());
                }
                assert(value_of(after.attributes, "class"@) == Some(classes_with(class, classes)));
                lemma_style_acts_once(class, classes);
            },
            RuleView::FigureImage => {
                let actual = value_of(state.attributes, "data-actualsrc"@);
                let original = value_of(state.attributes, "data-originalsrc"@);
                let generic = value_of(state.attributes, "data-original"@);
                let src = value_of(state.attributes, "src"@);
                let shown = shown_source(src, actual, original, generic);
                assert(shown_source(Some(shown), actual, original, generic) == shown);
                let p4 = plan.drop_last();
                let p3 = p4.drop_last();
                let p2 = p3.drop_last();
                let p1 = p2.drop_last();
                assert(p1.drop_last() =~= Seq::<EditView>::empty());
                assert(plan[0] == set("loading"@, "lazy"@));
                assert(plan[2] == set("src"@, shown));
                assert(kept(state.coding, "lazy"@) == "lazy"@);
                assert(kept(state.coding, shown) == shown);
                let s0 = carried_out(p1.drop_last(), state);
                assert(s0 == state);
                let s1 = carried_out(p1, state);
                assert(p1.last() == plan[0]);
                assert(s1 == effect(plan[0], s0));
                let s2 = carried_out(p2, state);
                assert(p2.last() == plan[1]);
                assert(s2 == effect(plan[1], s1));
                let s3 = carried_out(p3, state);
                assert(p3.last() == plan[2]);
                assert(s3 == effect(plan[2], s2));
                let s4 = carried_out(p4, state);
                assert(p4.last() == plan[3]);
                assert(s4 == effect(plan[3], s3));
                assert(plan.last() == plan[4]);
                assert(after == effect(plan[4], s4));
                assert(after.attributes == s3.attributes);
                assert(value_of(after.attributes, "loading"@) == Some("lazy"@));
                assert(value_of(after.attributes, "src"@) == Some(shown));
                assert(value_of(after.attributes, "data-actualsrc"@) == actual);
                assert(value_of(after.attributes, "data-originalsrc"@) == original);
                assert(value_of(after.attributes, "data-original"@) == generic);
            },
            RuleView::LinkCard => {
                let p3 = plan.drop_last();
                let p2 = p3.drop_last();
                let p1 = p2.drop_last();
                assert(p1.drop_last() =~= Seq::<EditView>::empty());
                let class = value_of(state.attributes, "class"@);
                let classes = classes_with(class, LINK_CARD@);
                assert(plan[0] == set("target"@, "_blank"@));
                assert(plan[1] == set("class"@, classes));
                assert(kept(state.coding, "_blank"@) == "_blank"@);
                assert(kept(state.coding, classes) == classes);
                let s0 = carried_out(p1.drop_last(), state);
                assert(s0 == state);
                let s1 = carried_out(p1, state);
                assert(p1.last() == plan[0]);
                assert(s1 == effect(plan[0], s0));
                let s2 = carried_out(p2, state);
                assert(p2.last() == plan[1]);
                assert(s2 == effect(plan[1], s1));
                let s3 = carried_out(p3, state);
                assert(p3.last() == plan[2]);
                assert(s3 == effect(plan[2], s2));
                assert(plan.last() == plan[3]);
                assert(after == effect(plan[3], s3));
                assert(after.attributes == s2.attributes);
                assert(value_of(after.attributes, "target"@) == Some("_blank"@));
                assert(value_of(after.attributes, "class"@) == Some(classes));
                lemma_classes_hold(class, LINK_CARD@);
            },
            _ => {},
        }
    }
}

/// The names of the attributes that the rules go by differ from one
/// another.
proof fn lemma_names_differ()
    ensures
        "loading"@ != "class"@,
        "loading"@ != "src"@,
        "class"@ != "src"@,
        "target"@ != "class"@,
        "data-actualsrc"@ != "loading"@,
        "data-actualsrc"@ != "class"@,
        "data-actualsrc"@ != "src"@,
        "data-originalsrc"@ != "loading"@,
        "data-originalsrc"@ != "class"@,
        "data-originalsrc"@ != "src"@,
        "data-original"@ != "loading"@,
        "data-original"@ != "class"@,
        "data-original"@ != "src"@,
{
    reveal_strlit("class");
    reveal_strlit("src");
    reveal_strlit("loading");
    reveal_strlit("target");
    reveal_strlit("data-actualsrc");
    reveal_strlit("data-originalsrc");
    reveal_strlit("data-original");
    assert("loading"@[0] == 'l' && "class"@[0] == 'c' && "src"@[0] == 's');
}

/// The names of the attributes that the rules read and write are plain.
pub proof fn lemma_names_are_plain()
    ensures
        plain_name("class"@),
        plain_name("href"@),
        plain_name("src"@),
        plain_name("loading"@),
        plain_name("target"@),
        plain_name("data-actualsrc"@),
        plain_name("data-originalsrc"@),
        plain_name("data-original"@),
        plain_name("data-image"@),
{
    reveal_strlit("class");
    reveal_strlit("href");
    reveal_strlit("src");
    reveal_strlit("loading");
    reveal_strlit("target");
    reveal_strlit("data-actualsrc");
    reveal_strlit("data-originalsrc");
    reveal_strlit("data-original");
    reveal_strlit("data-image");
}

/// Every plan of a rule is plain.
pub proof fn lemma_plan_is_plain(
    rule: RuleView,
    attributes: Map<Seq<char>, Seq<char>>,
    upstream: Seq<char>,
)
    ensures
        plain_plan(plan_of(rule, attributes, upstream)),
{
    lemma_names_are_plain();
}

/// The rules of the second stage with their selectors, in the order in
/// which they act on an element.
pub open spec fn rules() -> Seq<(Seq<char>, RuleView)> {
    seq![
        ("*"@, RuleView::Style("mt-2 break-all"@)),
        (".invisible"@, RuleView::Style("hidden"@)),
        ("em"@, RuleView::Style("text-red-400 not-italic"@)),
        ("pre"@, RuleView::Style("p-2 bg-gray-200 overflow-auto"@)),
        ("blockquote"@, RuleView::Style("pl-4 border-l-4 text-gray-500"@)),
        ("hr"@, RuleView::Style("!my-12 w-1/2 mx-auto"@)),
        ("ol"@, RuleView::Style("list-decimal pl-4"@)),
        ("h2"@, RuleView::Style("text-lg font-bold"@)),
        ("h3"@, RuleView::Style("text-base"@)),
        ("figure"@, RuleView::Style("!my-6 flex flex-col-reverse"@)),
        ("figcaption"@, RuleView::Style("text-sm text-gray-400 text-center"@)),
        ("figure > noscript"@, RuleView::Drop),
        ("a[href]"@, RuleView::Anchor),
        ("figure img"@, RuleView::FigureImage),
        ("a[class=\"comment_sticker\"]"@, RuleView::Sticker),
        ("a[class=\"comment_img\"]"@, RuleView::CommentImage),
        ("a[data-draft-type=\"link-card\"]"@, RuleView::LinkCard),
    ]
}

fn handler(selector: &str, rule: Rule) -> (r: Handler)
    ensures
        r.selector@ == selector@,
        r.rule@ == rule@,
{
    Handler { selector: String::from_str(selector), rule }
}

fn style(selector: &str, classes: &str) -> (r: Handler)
    ensures
        r.selector@ == selector@,
        r.rule@ == RuleView::Style(classes@),
{
    Handler { selector: String::from_str(selector), rule: Rule::Style(String::from_str(classes)) }
}

/// The rules of the second stage.
pub fn rule_set() -> (r: Vec<Handler>)
    ensures
        handler_views(r@) == rules(),
{
    let mut set: Vec<Handler> = Vec::new();
    set.push(style("*", "mt-2 break-all"));
    set.push(style(".invisible", "hidden"));
    set.push(style("em", "text-red-400 not-italic"));
    set.push(style("pre", "p-2 bg-gray-200 overflow-auto"));
    set.push(style("blockquote", "pl-4 border-l-4 text-gray-500"));
    set.push(style("hr", "!my-12 w-1/2 mx-auto"));
    set.push(style("ol", "list-decimal pl-4"));
    set.push(style("h2", "text-lg font-bold"));
    set.push(style("h3", "text-base"));
    set.push(style("figure", "!my-6 flex flex-col-reverse"));
    set.push(style("figcaption", "text-sm text-gray-400 text-center"));
    set.push(handler("figure > noscript", Rule::Drop));
    set.push(handler("a[href]", Rule::Anchor));
    set.push(handler("figure img", Rule::FigureImage));
    set.push(handler("a[class=\"comment_sticker\"]", Rule::Sticker));
    set.push(handler("a[class=\"comment_img\"]", Rule::CommentImage));
    set.push(handler("a[data-draft-type=\"link-card\"]", Rule::LinkCard));
    assert(handler_views(set@) =~= rules());
    set
}

} // verus!
