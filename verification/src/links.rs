//! The addresses of this gateway's own pages: where an entry, a question,
//! a thread of comments and the neighbouring page of a listing are found.

use crate::text::{same_text, view_of};
use crate::types::{
    Comment, CommentView, Paging, PagingView, Question, QuestionView, TimelineItem,
    TimelineItemView,
};
use vstd::prelude::*;
use vstd::string::StringExecFns;

verus! {

/// What `http` reads out of an address: `None` where it is no URI, else
/// the query of the URI, if it has one.
pub uninterp spec fn query_of(address: Seq<char>) -> Option<Option<Seq<char>>>;

/// `Uri::from_str` and `Uri::query`: the query of the address.
#[verifier::external_body]
fn address_query(address: &str) -> (r: Option<Option<String>>)
    ensures
        match r {
            Some(query) => query_of(address@) == Some(view_of(query)),
            None => query_of(address@) is None,
        },
{
    address.parse::<http::Uri>().ok().map(|uri| uri.query().map(|q| q.to_string()))
}

/// The address of a page of the listing at `path`, given what was read
/// out of the upstream address of that page: the path with the upstream
/// query, and the bare path where the upstream address was no URI.
pub open spec fn page_address(path: Seq<char>, query: Option<Option<Seq<char>>>) -> Seq<char> {
    match query {
        Some(q) => path + "?"@ + (match q {
            Some(q) => q,
            None => Seq::empty(),
        }),
        None => path,
    }
}

/// Composes the address of a page of the listing at `path`.
pub fn page_link(path: &str, query: &Option<Option<String>>) -> (r: String)
    ensures
        r@ == page_address(
            path@,
            match *query {
                Some(q) => Some(view_of(q)),
                None => None,
            },
        ),
{
    let mut link = String::from_str(path);
    match query {
        Some(q) => {
            link.append("?");
            match q {
                Some(q) => link.append(q.as_str()),
                None => {
                    assert(link@ + Seq::<char>::empty() =~= link@);
                },
            }
        },
        None => {},
    }
    link
}

/// The address here of the page that upstream has at `href`: the listing
/// `path` with the query of `href`.
pub fn paging_href(href: &str, path: &str) -> (r: String)
    ensures
        r@ == page_address(path@, query_of(href@)),
{
    let query = address_query(href);
    page_link(path, &query)
}

/// A neighbouring page is offered only where upstream said outright that
/// this page is not the last in that direction: a flag that is missing
/// offers nothing.
pub open spec fn offered(at_edge: Option<bool>) -> bool {
    at_edge == Some(false)
}

/// The address of the previous page of the listing at `path`, if one is
/// offered.
pub open spec fn previous_address(paging: PagingView, path: Seq<char>) -> Option<Seq<char>> {
    if offered(paging.is_start) {
        Some(page_address(path, query_of(paging.previous)))
    } else {
        None
    }
}

/// The address of the next page of the listing at `path`, if one is
/// offered.
pub open spec fn next_address(paging: PagingView, path: Seq<char>) -> Option<Seq<char>> {
    if offered(paging.is_end) {
        Some(page_address(path, query_of(paging.next)))
    } else {
        None
    }
}

/// The link to the previous page, where there is one to offer.
pub fn previous_href(paging: &Paging, path: &str) -> (r: Option<String>)
    ensures
        view_of(r) == previous_address(paging@, path@),
{
    match paging.is_start {
        Some(false) => Some(paging_href(paging.previous.as_str(), path)),
        _ => None,
    }
}

/// The link to the next page, where there is one to offer.
pub fn next_href(paging: &Paging, path: &str) -> (r: Option<String>)
    ensures
        view_of(r) == next_address(paging@, path@),
{
    match paging.is_end {
        Some(false) => Some(paging_href(paging.next.as_str(), path)),
        _ => None,
    }
}

/// Where the two links of an entry in a listing lead.
#[derive(Debug, Clone)]
pub struct EntryLinks {
    /// From its text: to the entry itself.
    pub body: String,
    /// From its title: to the question of an answer, else to the entry.
    pub title: String,
}

pub struct EntryLinksView {
    pub body: Seq<char>,
    pub title: Seq<char>,
}

impl View for EntryLinks {
    type V = EntryLinksView;

    open spec fn view(&self) -> EntryLinksView {
        EntryLinksView { body: self.body@, title: self.title@ }
    }
}

/// The links of an entry. An answer is found under its question, so an
/// answer that came without its question has no links; anything else is
/// found as an article.
pub open spec fn links_of(item: TimelineItemView) -> Option<EntryLinksView> {
    if item.type_ == "answer"@ {
        match item.question {
            Some(q) => Some(
                EntryLinksView {
                    body: "/question/"@ + q.id + "/answer/"@ + item.id,
                    title: "/question/"@ + q.id,
                },
            ),
            None => None,
        }
    } else {
        Some(EntryLinksView { body: "/p/"@ + item.id, title: "/p/"@ + item.id })
    }
}

/// Composes the links of an entry.
pub fn entry_links(item: &TimelineItem) -> (r: Option<EntryLinks>)
    ensures
        view_of(r) == links_of(item@),
{
    if same_text(item.type_.as_str(), "answer") {
        match &item.question {
            Some(q) => {
                let mut title = String::from_str("/question/");
                title.append(q.id.as_str());
                let mut body = title.clone();
                body.append("/answer/");
                body.append(item.id.as_str());
                Some(EntryLinks { body, title })
            },
            None => None,
        }
    } else {
        let mut body = String::from_str("/p/");
        body.append(item.id.as_str());
        let title = body.clone();
        Some(EntryLinks { body, title })
    }
}

/// The address of the comments on an entry.
pub open spec fn entry_comments(item: TimelineItemView) -> Seq<char> {
    "/comment/root/"@ + item.id + (if item.type_ == "article"@ {
        "?type=articles"@
    } else {
        Seq::empty()
    })
}

/// Composes the address of the comments on an entry.
pub fn comments_href(item: &TimelineItem) -> (r: String)
    ensures
        r@ == entry_comments(item@),
{
    let mut link = String::from_str("/comment/root/");
    link.append(item.id.as_str());
    if same_text(item.type_.as_str(), "article") {
        link.append("?type=articles");
    } else {
        assert(link@ + Seq::<char>::empty() =~= link@);
    }
    link
}

/// The address of a question.
pub open spec fn question_address(question: QuestionView) -> Seq<char> {
    "/question/"@ + question.id
}

/// Composes the address of a question.
pub fn question_href(question: &Question) -> (r: String)
    ensures
        r@ == question_address(question@),
{
    let mut link = String::from_str("/question/");
    link.append(question.id.as_str());
    link
}

/// The address of the comments on a question.
pub open spec fn question_comments(question: QuestionView) -> Seq<char> {
    "/comment/root/"@ + question.id + "?type=questions"@
}

/// Composes the address of the comments on a question.
pub fn question_comments_href(question: &Question) -> (r: String)
    ensures
        r@ == question_comments(question@),
{
    let mut link = String::from_str("/comment/root/");
    link.append(question.id.as_str());
    link.append("?type=questions");
    link
}

/// The address of all replies to a comment. It is offered where more are
/// asked for and upstream reports more than the two that it embeds.
pub open spec fn replies_address(comment: CommentView, show_more: bool) -> Option<Seq<char>> {
    if show_more && comment.child_comment_count > 2 {
        Some("/comment/child/"@ + comment.id)
    } else {
        None
    }
}

/// The link to all replies to a comment, where there is one to offer.
pub fn replies_href(comment: &Comment, show_more: bool) -> (r: Option<String>)
    ensures
        view_of(r) == replies_address(comment@, show_more),
{
    if show_more && comment.child_comment_count > 2 {
        let mut link = String::from_str("/comment/child/");
        link.append(comment.id.as_str());
        Some(link)
    } else {
        None
    }
}

/// Composes the address of a search for `query`.
pub fn search_href(query: &str) -> (r: String)
    ensures
        r@ == "/search?q="@ + query@,
{
    let mut link = String::from_str("/search?q=");
    link.append(query);
    link
}

} // verus!
