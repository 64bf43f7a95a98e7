//! The first stage of rendering: bracketed short codes become inline images.

use crate::pattern::{cut_at_matches, escape, escaped, joined, piece_views, Pattern, Piece};
use crate::text::{chars_of, same_text, text_of, view_of};
use vstd::prelude::*;
use vstd::string::StringExecFns;

verus! {

/// One row of the emoji table: a short code, written without its
/// brackets, and the address of its image.
#[derive(Debug, Clone)]
pub struct Emoji {
    pub code: String,
    pub url: String,
}

/// The rows of a table as pairs of code and address.
pub open spec fn emoji_views(table: Seq<Emoji>) -> Seq<(Seq<char>, Seq<char>)> {
    table.map_values(|e: Emoji| (e.code@, e.url@))
}

/// The address that the first row for `code` gives.
pub open spec fn url_of(table: Seq<(Seq<char>, Seq<char>)>, code: Seq<char>) -> Option<Seq<char>>
    decreases table.len(),
{
    if table.len() == 0 {
        None
    } else if table[0].0 == code {
        Some(table[0].1)
    } else {
        url_of(table.skip(1), code)
    }
}

/// The alternative that matches `code`, and nothing but it, in its
/// brackets.
pub open spec fn alternative(code: Seq<char>) -> Seq<char> {
    "(\\["@ + escaped(code) + "\\])"@
}

/// The pattern that matches any code of the table in its brackets: one
/// alternative for each row, in the order of the rows.
pub open spec fn pattern_for(table: Seq<(Seq<char>, Seq<char>)>) -> Seq<char>
    decreases table.len(),
{
    if table.len() == 0 {
        Seq::empty()
    } else if table.len() == 1 {
        alternative(table[0].0)
    } else {
        pattern_for(table.drop_last()) + "|"@ + alternative(table.last().0)
    }
}

/// The stretch is a code in its brackets.
pub open spec fn bracketed(matched: Seq<char>) -> bool {
    matched.len() >= 2 && matched[0] == '[' && matched.last() == ']'
}

/// What a matched stretch names: what stands between its brackets.
pub open spec fn code_in(matched: Seq<char>) -> Seq<char> {
    matched.subrange(1, matched.len() - 1)
}

/// The inline image for the address `url`.
pub open spec fn image_for(url: Seq<char>) -> Seq<char> {
    "<img class=\"w-5 h-5 !my-0 mx-1 inline-block align-text-bottom\" src=\""@ + url
        + "\"></img>"@
}

/// What stands in place of a matched stretch: the image of the code in
/// its brackets. A stretch that is no code in brackets, or whose code the
/// table has no row for, stays as it is.
pub open spec fn replacement(matched: Seq<char>, table: Seq<(Seq<char>, Seq<char>)>) -> Seq<char> {
    if bracketed(matched) {
        match url_of(table, code_in(matched)) {
            Some(url) => image_for(url),
            None => matched,
        }
    } else {
        matched
    }
}

/// The text that the pieces give: each matched piece replaced, each other
/// piece as it is, in order.
pub open spec fn rendered(
    pieces: Seq<(Seq<char>, bool)>,
    table: Seq<(Seq<char>, Seq<char>)>,
) -> Seq<char>
    decreases pieces.len(),
{
    if pieces.len() == 0 {
        Seq::empty()
    } else {
        rendered(pieces.drop_last(), table) + (if pieces.last().1 {
            replacement(pieces.last().0, table)
        } else {
            pieces.last().0
        })
    }
}

/// The text after the first stage: cut at the codes of the table and put
/// together again with the images in their place; unchanged where the
/// table gives no usable pattern.
pub open spec fn with_emoji(html: Seq<char>, table: Seq<(Seq<char>, Seq<char>)>) -> Seq<char> {
    match cut_at_matches(pattern_for(table), html) {
        Some(pieces) => rendered(pieces, table),
        None => html,
    }
}

/// None of the pieces was matched.
pub open spec fn none_matched(pieces: Seq<(Seq<char>, bool)>) -> bool {
    forall|i: int| 0 <= i < pieces.len() ==> !(#[trigger] pieces[i]).1
}

/// No stretch of the cut text was matched. A text that could not be cut
/// counts as untouched.
pub open spec fn untouched(cut: Option<Seq<(Seq<char>, bool)>>) -> bool {
    match cut {
        Some(pieces) => none_matched(pieces),
        None => true,
    }
}

/// The first row of a code is the one that counts: the table gives its
/// address, whatever rows for the same code come behind it.
pub proof fn lemma_first_row_counts(table: Seq<(Seq<char>, Seq<char>)>, i: int)
    requires
        0 <= i < table.len(),
        forall|k: int| 0 <= k < i ==> (#[trigger] table[k]).0 != table[i].0,
    ensures
        url_of(table, table[i].0) == Some(table[i].1),
    decreases i,
{
    if i > 0 {
        let rest = table.skip(1);
        assert(table[0].0 != table[i].0);
        assert(rest[i - 1] == table[i]);
        assert forall|k: int| 0 <= k < i - 1 implies (#[trigger] rest[k]).0 != rest[i - 1].0 by {
            assert(rest[k] == table[k + 1]);
        }
        lemma_first_row_counts(rest, i - 1);
    }
}

/// A code that no row has gets no address.
pub proof fn lemma_unknown_code_has_no_address(table: Seq<(Seq<char>, Seq<char>)>, code: Seq<char>)
    requires
        forall|k: int| 0 <= k < table.len() ==> (#[trigger] table[k]).0 != code,
    ensures
        url_of(table, code) is None,
    decreases table.len(),
{
    if table.len() > 0 {
        let rest = table.skip(1);
        assert(table[0].0 != code);
        assert forall|k: int| 0 <= k < rest.len() implies (#[trigger] rest[k]).0 != code by {
            assert(rest[k] == table[k + 1]);
        }
        lemma_unknown_code_has_no_address(rest, code);
    }
}

/// Text in which nothing matched comes through unchanged.
pub proof fn lemma_unmatched_text_stays(
    pieces: Seq<(Seq<char>, bool)>,
    table: Seq<(Seq<char>, Seq<char>)>,
)
    requires
        none_matched(pieces),
    ensures
        rendered(pieces, table) == joined(pieces),
    decreases pieces.len(),
{
    if pieces.len() > 0 {
        assert(pieces.last() == pieces[pieces.len() - 1]);
        assert forall|i: int| 0 <= i < pieces.drop_last().len() implies !(
        #[trigger] pieces.drop_last()[i]).1 by {
            assert(pieces.drop_last()[i] == pieces[i]);
        }
        lemma_unmatched_text_stays(pieces.drop_last(), table);
    }
}

/// A code of the table, matched in its brackets, becomes the image of its
/// row.
pub proof fn lemma_known_code_becomes_image(
    code: Seq<char>,
    url: Seq<char>,
    table: Seq<(Seq<char>, Seq<char>)>,
)
    requires
        url_of(table, code) == Some(url),
    ensures
        replacement(seq!['['] + code + seq![']'], table) == image_for(url),
{
    let matched = seq!['['] + code + seq![']'];
    assert(code_in(matched) =~= code);
}

/// A code that the table has no row for stays as it is, brackets and all,
/// even where it is matched.
pub proof fn lemma_unknown_code_stays(code: Seq<char>, table: Seq<(Seq<char>, Seq<char>)>)
    requires
        url_of(table, code) is None,
    ensures
        replacement(seq!['['] + code + seq![']'], table) == seq!['['] + code + seq![']'],
{
    let matched = seq!['['] + code + seq![']'];
    assert(code_in(matched) =~= code);
}

/// Where a text is cut into what stands in front of a code of the table in
/// its brackets, the code, and what stands behind it, the image of the
/// code's row takes the place of the code and the rest stays as it is.
pub proof fn lemma_code_between_texts(
    front: Seq<char>,
    code: Seq<char>,
    url: Seq<char>,
    behind: Seq<char>,
    table: Seq<(Seq<char>, Seq<char>)>,
)
    requires
        url_of(table, code) == Some(url),
    ensures
        rendered(
            seq![(front, false), (seq!['['] + code + seq![']'], true), (behind, false)],
            table,
        ) == front + image_for(url) + behind,
{
    let matched = seq!['['] + code + seq![']'];
    let pieces = seq![(front, false), (matched, true), (behind, false)];
    lemma_known_code_becomes_image(code, url, table);
    let two = pieces.drop_last();
    let one = two.drop_last();
    assert(one.drop_last() =~= Seq::empty());
    assert(rendered(one.drop_last(), table) =~= Seq::<char>::empty());
    assert(rendered(one, table) =~= front);
    assert(rendered(two, table) =~= front + image_for(url));
}

/// Builds the pattern that matches any code of the table in its brackets.
pub fn emoji_pattern(table: &Vec<Emoji>) -> (r: String)
    ensures
        r@ == pattern_for(emoji_views(table@)),
{
    let mut out = String::new();
    let mut i: usize = 0;
    proof {
        assert(emoji_views(table@).take(0) =~= Seq::empty());
    }
    while i < table.len()
        invariant
            i <= table.len(),
            out@ == pattern_for(emoji_views(table@).take(i as int)),
        decreases table.len() - i,
    {
        proof {
            let now = emoji_views(table@).take(i as int + 1);
            assert(now.drop_last() =~= emoji_views(table@).take(i as int));
            assert(now.last() == (table@[i as int].code@, table@[i as int].url@));
        }
        let ghost before = out@;
        if i > 0 {
            out.append("|");
        }
        out.append("(\\[");
        let code = escape(table[i].code.as_str());
        out.append(code.as_str());
        out.append("\\])");
        proof {
            let code = table@[i as int].code@;
            if i > 0 {
                assert(out@ =~= before + "|"@ + alternative(code));
            } else {
                assert(before =~= Seq::<char>::empty());
                assert(out@ =~= alternative(code));
            }
        }
        i += 1;
    }
    proof {
        assert(emoji_views(table@).take(table.len() as int) =~= emoji_views(table@));
    }
    out
}

/// Looks a code up in the table.
pub fn emoji_url<'a>(table: &'a Vec<Emoji>, code: &str) -> (r: Option<&'a String>)
    ensures
        match r {
            Some(url) => url_of(emoji_views(table@), code@) == Some(url@),
            None => url_of(emoji_views(table@), code@) is None,
        },
{
    let mut i: usize = 0;
    proof {
        assert(emoji_views(table@).skip(0) =~= emoji_views(table@));
    }
    while i < table.len()
        invariant
            i <= table.len(),
            url_of(emoji_views(table@).skip(i as int), code@) == url_of(
                emoji_views(table@),
                code@,
            ),
        decreases table.len() - i,
    {
        proof {
            let rest = emoji_views(table@).skip(i as int);
            assert(rest[0] == (table@[i as int].code@, table@[i as int].url@));
            assert(rest.skip(1) =~= emoji_views(table@).skip(i as int + 1));
        }
        if same_text(table[i].code.as_str(), code) {
            return Some(&table[i].url);
        }
        i += 1;
    }
    None
}

/// What stands in place of a matched stretch.
pub fn replacement_for(matched: &str, table: &Vec<Emoji>) -> (r: String)
    ensures
        r@ == replacement(matched@, emoji_views(table@)),
{
    let chars = chars_of(matched);
    let n = chars.len();
    if n >= 2 && chars[0] == '[' && chars[n - 1] == ']' {
        let code = text_of(&chars, 1, n - 1);
        match emoji_url(table, code.as_str()) {
            Some(url) => {
                let mut out = String::from_str(
                    "<img class=\"w-5 h-5 !my-0 mx-1 inline-block align-text-bottom\" src=\"",
                );
                out.append(url.as_str());
                out.append("\"></img>");
                out
            },
            None => String::from_str(matched),
        }
    } else {
        String::from_str(matched)
    }
}

/// Puts the pieces of a text together again, each matched piece replaced
/// by the image of its code.
pub fn render_pieces(pieces: &Vec<Piece>, table: &Vec<Emoji>) -> (r: String)
    ensures
        r@ == rendered(piece_views(pieces@), emoji_views(table@)),
{
    let mut out = String::new();
    let mut i: usize = 0;
    proof {
        assert(piece_views(pieces@).take(0) =~= Seq::empty());
    }
    while i < pieces.len()
        invariant
            i <= pieces.len(),
            out@ == rendered(piece_views(pieces@).take(i as int), emoji_views(table@)),
        decreases pieces.len() - i,
    {
        proof {
            let now = piece_views(pieces@).take(i as int + 1);
            assert(now.drop_last() =~= piece_views(pieces@).take(i as int));
            assert(now.last() == (pieces@[i as int].text@, pieces@[i as int].matched));
        }
        if pieces[i].matched {
            let image = replacement_for(pieces[i].text.as_str(), table);
            out.append(image.as_str());
        } else {
            out.append(pieces[i].text.as_str());
        }
        i += 1;
    }
    proof {
        assert(piece_views(pieces@).take(pieces.len() as int) =~= piece_views(pieces@));
    }
    out
}

/// An emoji table made ready for use: its rows, and the pattern of their
/// codes, compiled once. Where several rows have the same code, the first
/// of them counts.
#[derive(Debug)]
pub struct EmojiTable {
    rows: Vec<Emoji>,
    codes: Pattern,
}

impl View for EmojiTable {
    type V = Seq<(Seq<char>, Seq<char>)>;

    /// The rows of the table, as pairs of code and address.
    closed spec fn view(&self) -> Seq<(Seq<char>, Seq<char>)> {
        emoji_views(self.rows@)
    }
}

impl EmojiTable {
    /// The pattern is that of the rows.
    #[verifier::type_invariant]
    spec fn pattern_fits(self) -> bool {
        self.codes@ == pattern_for(emoji_views(self.rows@))
    }

    /// Makes a table of the given rows, in their order. A code that has
    /// several rows gets the address of the first of them.
    pub fn new(rows: Vec<Emoji>) -> (r: EmojiTable)
        ensures
            r@ == emoji_views(rows@),
    {
        let source = emoji_pattern(&rows);
        let codes = Pattern::new(source.as_str());
        EmojiTable { rows, codes }
    }

    /// The rows of the table.
    pub fn rows(&self) -> (r: &Vec<Emoji>)
        ensures
            emoji_views(r@) == self@,
    {
        &self.rows
    }

    /// The address that the table gives for a code.
    pub fn address(&self, code: &str) -> (r: Option<&String>)
        ensures
            view_of(r) == url_of(self@, code@),
    {
        emoji_url(&self.rows, code)
    }
}

/// The first stage of rendering: every code of the table that stands in
/// `html` in its brackets gives way to its image; all other text, codes
/// that the table does not know among it, stays as it is.
pub fn substitute_emoji(html: &str, table: &EmojiTable) -> (r: String)
    ensures
        r@ == with_emoji(html@, table@),
        untouched(cut_at_matches(pattern_for(table@), html@)) ==> r@ == html@,
{
    proof {
        use_type_invariant(table);
    }
    match table.codes.split(html) {
        Some(pieces) => {
            proof {
                if untouched(Some(piece_views(pieces@))) {
                    lemma_unmatched_text_stays(piece_views(pieces@), table@);
                }
            }
            render_pieces(&pieces, &table.rows)
        },
        None => String::from_str(html),
    }
}

} // verus!
