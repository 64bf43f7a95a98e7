//! Searching a text for a regular expression. The search itself is the
//! `regex` crate's; what it found comes back as plain strings.

use crate::text::view_of;
use vstd::prelude::*;
use vstd::string::StringExecFns;

verus! {

/// The first place where a pattern matches a text.
#[derive(Debug, Clone)]
pub struct Captured {
    /// The text in front of the match.
    pub before: String,
    /// What each group of the pattern captured; group 0 is the whole match.
    pub groups: Vec<Option<String>>,
    /// The text behind the match.
    pub after: String,
}

pub struct CapturedView {
    pub before: Seq<char>,
    pub groups: Seq<Option<Seq<char>>>,
    pub after: Seq<char>,
}

impl View for Captured {
    type V = CapturedView;

    open spec fn view(&self) -> CapturedView {
        CapturedView {
            before: self.before@,
            groups: self.groups@.map_values(
                |g: Option<String>|
                    match g {
                        Some(t) => Some(t@),
                        None => None,
                    },
            ),
            after: self.after@,
        }
    }
}

/// A stretch of a text that a pattern either matched as a whole or did not
/// touch.
#[derive(Debug, Clone)]
pub struct Piece {
    pub text: String,
    pub matched: bool,
}

/// The stretches of `pieces` with their marks.
pub open spec fn piece_views(pieces: Seq<Piece>) -> Seq<(Seq<char>, bool)> {
    pieces.map_values(|p: Piece| (p.text@, p.matched))
}

/// The stretches put back together.
pub open spec fn joined(pieces: Seq<(Seq<char>, bool)>) -> Seq<char>
    decreases pieces.len(),
{
    if pieces.len() == 0 {
        Seq::empty()
    } else {
        joined(pieces.drop_last()) + pieces.last().0
    }
}

#[verifier::external_type_specification]
#[verifier::external_body]
pub struct ExRegex(regex::Regex);

/// `compiled` is what `Regex::new` makes of `source`.
pub uninterp spec fn compiled_from(compiled: regex::Regex, source: Seq<char>) -> bool;

/// `regex` takes `text` for a regular expression.
pub uninterp spec fn is_pattern(text: Seq<char>) -> bool;

/// The leftmost match in `text` that what `Regex::new` makes of `pattern`
/// finds, if it finds any.
pub uninterp spec fn leftmost_match(pattern: Seq<char>, text: Seq<char>) -> Option<CapturedView>;

/// `text` cut at the successive matches that what `Regex::new` makes of
/// `pattern` finds.
pub uninterp spec fn cut_at(pattern: Seq<char>, text: Seq<char>) -> Seq<(Seq<char>, bool)>;

/// `text` written as a pattern that matches `text` and nothing else, as
/// `regex::escape` writes it.
pub uninterp spec fn escaped(text: Seq<char>) -> Seq<char>;

/// `regex::escape`: the text with every character that means something in
/// a pattern escaped.
#[verifier::external_body]
pub(crate) fn escape(text: &str) -> (r: String)
    ensures
        r@ == escaped(text@),
{
    regex::escape(text)
}

/// The leftmost match of `pattern` in `text`: `None` where `pattern` is no
/// regular expression or matches nowhere.
pub open spec fn first_match_in(pattern: Seq<char>, text: Seq<char>) -> Option<CapturedView> {
    if is_pattern(pattern) {
        leftmost_match(pattern, text)
    } else {
        None
    }
}

/// `text` cut at the successive matches of `pattern`: `None` where
/// `pattern` is no regular expression.
pub open spec fn cut_at_matches(pattern: Seq<char>, text: Seq<char>) -> Option<
    Seq<(Seq<char>, bool)>,
> {
    if is_pattern(pattern) {
        Some(cut_at(pattern, text))
    } else {
        None
    }
}

/// `Regex::new`: the compiled expression, where `regex` takes the text
/// for one.
#[verifier::external_body]
fn compile(source: &str) -> (r: Option<regex::Regex>)
    ensures
        r is Some <==> is_pattern(source@),
        r matches Some(compiled) ==> compiled_from(compiled, source@),
{
    regex::Regex::new(source).ok()
}

/// `Regex::captures`: the text around the leftmost match and the text of
/// each capture group.
#[verifier::external_body]
fn captures(compiled: &regex::Regex, text: &str) -> (r: Option<Captured>)
    ensures
        forall|source: Seq<char>| #[trigger]
            compiled_from(*compiled, source) ==> view_of(r) == leftmost_match(source, text@),
{
    let found = compiled.captures(text)?;
    let whole = found.get(0)?;
    Some(
        Captured {
            before: text[..whole.start()].to_string(),
            groups: found.iter().map(|g| g.map(|m| m.as_str().to_string())).collect(),
            after: text[whole.end()..].to_string(),
        },
    )
}

/// `Regex::find_iter`: the matches in order, each between the stretches
/// of `text` that lie around it. The stretches are consecutive slices of
/// `text`, so together they spell it.
#[verifier::external_body]
fn cut(compiled: &regex::Regex, text: &str) -> (r: Vec<Piece>)
    ensures
        forall|source: Seq<char>| #[trigger]
            compiled_from(*compiled, source) ==> piece_views(r@) == cut_at(source, text@),
        joined(piece_views(r@)) == text@,
{
    let mut pieces = Vec::new();
    let mut at: usize = 0;
    for m in compiled.find_iter(text) {
        pieces.push(Piece { text: text[at..m.start()].to_string(), matched: false });
        pieces.push(Piece { text: m.as_str().to_string(), matched: true });
        at = m.end();
    }
    pieces.push(Piece { text: text[at..].to_string(), matched: false });
    pieces
}

/// A pattern, compiled once and searched for many times. A text that is
/// no regular expression makes a pattern that matches nothing.
#[derive(Debug)]
pub struct Pattern {
    source: String,
    compiled: Option<regex::Regex>,
}

impl View for Pattern {
    type V = Seq<char>;

    /// The text of the pattern.
    closed spec fn view(&self) -> Seq<char> {
        self.source@
    }
}

impl Pattern {
    /// What is compiled is the text of the pattern, and it is there
    /// whenever the text can be compiled.
    #[verifier::type_invariant]
    spec fn compiled_from_source(self) -> bool {
        match self.compiled {
            Some(compiled) => is_pattern(self.source@) && compiled_from(compiled, self.source@),
            None => !is_pattern(self.source@),
        }
    }

    /// Compiles `source`.
    pub fn new(source: &str) -> (r: Pattern)
        ensures
            r@ == source@,
    {
        Pattern { source: String::from_str(source), compiled: compile(source) }
    }

    /// The text of the pattern.
    pub fn source(&self) -> (r: &str)
        ensures
            r@ == self@,
    {
        self.source.as_str()
    }

    /// Finds the leftmost match of the pattern in `text`.
    pub fn first_match(&self, text: &str) -> (r: Option<Captured>)
        ensures
            view_of(r) == first_match_in(self@, text@),
    {
        proof {
            use_type_invariant(self);
        }
        match &self.compiled {
            Some(compiled) => captures(compiled, text),
            None => None,
        }
    }

    /// Cuts `text` at the successive matches of the pattern. The pieces
    /// spell `text`.
    pub fn split(&self, text: &str) -> (r: Option<Vec<Piece>>)
        ensures
            match r {
                Some(pieces) => cut_at_matches(self@, text@) == Some(piece_views(pieces@))
                    && joined(piece_views(pieces@)) == text@,
                None => cut_at_matches(self@, text@) is None,
            },
    {
        proof {
            use_type_invariant(self);
        }
        match &self.compiled {
            Some(compiled) => Some(cut(compiled, text)),
            None => None,
        }
    }
}

} // verus!
