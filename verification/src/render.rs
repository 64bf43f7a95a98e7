//! Rendering a rich-text fragment: short codes first, then the rules on
//! its elements, the images of the codes among them.

use crate::emoji::{substitute_emoji, with_emoji, EmojiTable};
use crate::html::{rewrite_elements, rewritten};
use crate::rewrite::{rule_set, rules, Upstream};
use vstd::prelude::*;

verus! {

/// What rendering goes by: the emoji table, and the upstream site, by
/// whose domain links are told apart. Both hold their pattern ready, so a
/// site is set up once and then used for every fragment.
#[derive(Debug)]
pub struct Site {
    pub emoji: EmojiTable,
    pub upstream: Upstream,
}

/// The fragment after the second stage, given what the pass over its
/// elements wrote: that, and the fragment as it was where the pass gave
/// none.
pub open spec fn settled(staged: Seq<char>, passed: Option<Seq<char>>) -> Seq<char> {
    match passed {
        Some(fragment) => fragment,
        None => staged,
    }
}

/// The rendered fragment: the first stage puts the images in, the second
/// passes the rules over every element. Where the second stage gives no
/// fragment, the outcome of the first stands.
pub open spec fn rendering(
    html: Seq<char>,
    table: Seq<(Seq<char>, Seq<char>)>,
    upstream: Seq<char>,
) -> Seq<char> {
    let staged = with_emoji(html, table);
    settled(staged, rewritten(staged, rules(), upstream))
}

/// Settles on the outcome of the second stage, or falls back on the first.
pub fn settle(staged: String, passed: Option<String>) -> (r: String)
    ensures
        r@ == settled(
            staged@,
            match passed {
                Some(fragment) => Some(fragment@),
                None => None,
            },
        ),
{
    match passed {
        Some(fragment) => fragment,
        None => staged,
    }
}

/// Renders a rich-text fragment for display. This never fails: a
/// fragment that cannot be passed through the rules comes back with its
/// short codes replaced and nothing else done to it.
pub fn render_html(html: &str, site: &Site) -> (r: String)
    ensures
        r@ == rendering(html@, site.emoji@, site.upstream@),
{
    let staged = substitute_emoji(html, &site.emoji);
    let handlers = rule_set();
    let passed = rewrite_elements(staged.as_str(), &handlers, &site.upstream);
    settle(staged, passed)
}

} // verus!
