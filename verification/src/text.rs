//! Strings as sequences of characters: the few operations the rest of the
//! library builds on.

use vstd::prelude::*;
use vstd::std_specs::iter::IteratorSpec;
use vstd::string::StringSliceAdditionalSpecFns;
use vstd::utf8::{decode_utf8, encode_utf8, encode_utf8_decode_utf8};

verus! {

broadcast use vstd::string::group_string_axioms;

/// The view of a value that may be missing.
pub open spec fn view_of<T: View>(value: Option<T>) -> Option<T::V> {
    match value {
        Some(v) => Some(v@),
        None => None,
    }
}

/// `String::push` appends one character.
pub assume_specification[ String::push ](text: &mut String, c: char)
    ensures
        final(text)@ == old(text)@.push(c),
;

/// Tells whether two strings hold the same characters. They do exactly
/// when they hold the same bytes.
pub(crate) fn same_text(a: &str, b: &str) -> (r: bool)
    ensures
        r == (a@ == b@),
{
    let x = a.as_bytes();
    let y = b.as_bytes();
    proof {
        encode_utf8_decode_utf8(a@);
        encode_utf8_decode_utf8(b@);
    }
    if x.len() != y.len() {
        return false;
    }
    let mut i: usize = 0;
    while i < x.len()
        invariant
            i <= x.len(),
            x.len() == y.len(),
            x@ == encode_utf8(a@),
            y@ == encode_utf8(b@),
            forall|k: int| 0 <= k < i ==> x@[k] == y@[k],
        decreases x.len() - i,
    {
        if x[i] != y[i] {
            assert(x@[i as int] != y@[i as int]);
            return false;
        }
        i += 1;
    }
    assert(x@ =~= y@);
    assert(a@ == decode_utf8(x@) && b@ == decode_utf8(y@));
    true
}

/// The characters of `text`, in order.
pub fn chars_of(text: &str) -> (r: Vec<char>)
    ensures
        r@ == text@,
{
    let mut out: Vec<char> = Vec::new();
    for c in it: text.chars()
        invariant
            out@ == it.seq().take(it.index()),
            it.seq() == text@,
    {
        out.push(c);
    }
    out
}

/// The string made of `chars[from..to]`.
pub fn text_of(chars: &Vec<char>, from: usize, to: usize) -> (r: String)
    requires
        from <= to <= chars.len(),
    ensures
        r@ == chars@.subrange(from as int, to as int),
{
    let mut out = String::new();
    let mut i: usize = from;
    while i < to
        invariant
            from <= i <= to <= chars.len(),
            out@ == chars@.subrange(from as int, i as int),
        decreases to - i,
    {
        out.push(chars[i]);
        i += 1;
    }
    out
}

/// `pattern` stands in `text` at `at`.
pub open spec fn stands_at(text: Seq<char>, pattern: Seq<char>, at: int) -> bool {
    0 <= at && at + pattern.len() <= text.len() && text.subrange(at, at + pattern.len())
        == pattern
}

/// Tells whether `pattern` stands in `text` at `at`.
pub fn matches_at(text: &Vec<char>, pattern: &Vec<char>, at: usize) -> (r: bool)
    requires
        at <= text.len(),
    ensures
        r == stands_at(text@, pattern@, at as int),
{
    if pattern.len() > text.len() - at {
        return false;
    }
    let mut k: usize = 0;
    while k < pattern.len()
        invariant
            k <= pattern.len(),
            at + pattern.len() <= text.len(),
            forall|j: int| 0 <= j < k ==> text@[at + j] == pattern@[j],
        decreases pattern.len() - k,
    {
        if text[at + k] != pattern[k] {
            proof {
                assert(text@.subrange(at as int, at + pattern.len())[k as int] == text@[at + k]);
            }
            return false;
        }
        k += 1;
    }
    proof {
        assert(text@.subrange(at as int, at + pattern.len()) =~= pattern@);
    }
    true
}

/// `words` stand in `text` at `at` as whole words: with a space or an end
/// of `text` on either side.
pub open spec fn stands_alone(text: Seq<char>, words: Seq<char>, at: int) -> bool {
    &&& stands_at(text, words, at)
    &&& (at == 0 || text[at - 1] == ' ')
    &&& (at + words.len() == text.len() || text[at + words.len()] == ' ')
}

/// `text` holds `words` somewhere as whole words.
pub open spec fn holds_words(text: Seq<char>, words: Seq<char>) -> bool {
    exists|at: int| stands_alone(text, words, at)
}

/// A text holds itself as whole words.
pub proof fn lemma_words_hold_themselves(words: Seq<char>)
    ensures
        holds_words(words, words),
{
    assert(words.subrange(0, words.len() as int) =~= words);
    assert(stands_alone(words, words, 0));
}

/// Words with more behind them, after a space, are held as whole words.
pub proof fn lemma_words_are_held_in_front(words: Seq<char>, rest: Seq<char>)
    ensures
        holds_words(words + seq![' '] + rest, words),
{
    let text = words + seq![' '] + rest;
    assert(text.subrange(0, words.len() as int) =~= words);
    assert(text[words.len() as int] == ' ');
    assert(stands_alone(text, words, 0));
}

/// Words behind others, after a space, are held as whole words.
pub proof fn lemma_words_are_held_behind(front: Seq<char>, words: Seq<char>)
    ensures
        holds_words(front + seq![' '] + words, words),
{
    let text = front + seq![' '] + words;
    let at: int = front.len() as int + 1;
    assert(text.subrange(at, at + words.len()) =~= words);
    assert(text[at - 1] == ' ');
    assert(stands_alone(text, words, at));
}

/// Tells whether `words` stand in `text` at `at` as whole words.
pub fn alone_at(text: &Vec<char>, words: &Vec<char>, at: usize) -> (r: bool)
    requires
        at <= text.len(),
    ensures
        r == stands_alone(text@, words@, at as int),
{
    matches_at(text, words, at) && (at == 0 || text[at - 1] == ' ') && (at + words.len()
        == text.len() || text[at + words.len()] == ' ')
}

/// Tells whether `text` holds `words` somewhere as whole words.
pub fn has_words(text: &str, words: &str) -> (r: bool)
    ensures
        r == holds_words(text@, words@),
{
    let t = chars_of(text);
    let w = chars_of(words);
    if w.len() > t.len() {
        assert forall|k: int| !stands_alone(t@, w@, k) by {}
        return false;
    }
    let last = t.len() - w.len();
    let mut at: usize = 0;
    while at < last
        invariant
            at <= last,
            last == t.len() - w.len(),
            t@ == text@,
            w@ == words@,
            forall|k: int| 0 <= k < at ==> !stands_alone(t@, w@, k),
        decreases last - at,
    {
        if alone_at(&t, &w, at) {
            return true;
        }
        at += 1;
    }
    if alone_at(&t, &w, last) {
        return true;
    }
    assert forall|k: int| !stands_alone(t@, w@, k) by {}
    false
}

} // verus!
