//! What of a record is shown: which of its texts, which picture, which
//! rendition of its video, and the day of a timestamp.

use crate::decode::as_text;
use crate::fields::{member_of, member_or_null};
use crate::json::{lemma_values_of, values_of, Json, JsonValue};
use crate::text::{same_text, view_of};
use crate::types::{Attachment, AttachmentView, TimelineItem, TimelineItemView};
use std::fmt::Write;
use vstd::prelude::*;

verus! {

/// The text of an entry shown in full: its content, else its excerpt,
/// else nothing.
pub open spec fn full_text(item: TimelineItemView) -> Seq<char> {
    match item.content {
        Some(t) => t,
        None => match item.excerpt {
            Some(t) => t,
            None => Seq::empty(),
        },
    }
}

/// The text of an entry shown in a listing: its excerpt, else its content,
/// else nothing.
pub open spec fn short_text(item: TimelineItemView) -> Seq<char> {
    match item.excerpt {
        Some(t) => t,
        None => match item.content {
            Some(t) => t,
            None => Seq::empty(),
        },
    }
}

/// The title of an entry: its own, else that of its question, else none.
pub open spec fn title_of(item: TimelineItemView) -> Seq<char> {
    match item.title {
        Some(t) => t,
        None => match item.question {
            Some(q) => q.title,
            None => Seq::empty(),
        },
    }
}

/// The first element of an array; `null` for anything else.
pub open spec fn first_of(value: JsonValue) -> JsonValue {
    match value {
        JsonValue::Array(items) => if items.len() > 0 {
            items[0]
        } else {
            JsonValue::Null
        },
        _ => JsonValue::Null,
    }
}

/// The picture that the payload of an entry names among what it carries
/// besides its fields: the address of the first of its thumbnails.
pub open spec fn carried_thumbnail(ext: JsonValue) -> Option<Seq<char>> {
    as_text(
        member_or_null(
            first_of(member_or_null(member_or_null(ext, "thumbnail_info"@), "thumbnails"@)),
            "url"@,
        ),
    )
}

/// The picture of an entry: the one its payload carries, else its
/// `thumbnail`.
pub open spec fn thumbnail_of(item: TimelineItemView) -> Option<Seq<char>> {
    match carried_thumbnail(item.ext) {
        Some(url) => Some(url),
        None => item.thumbnail,
    }
}

fn text_or_empty<'a>(first: &'a Option<String>, second: &'a Option<String>) -> (r: &'a str)
    ensures
        r@ == match *first {
            Some(t) => t@,
            None => match *second {
                Some(t) => t@,
                None => Seq::empty(),
            },
        },
{
    match first {
        Some(t) => t.as_str(),
        None => match second {
            Some(t) => t.as_str(),
            None => {
                proof {
                    reveal_strlit("");
                    assert(""@ =~= Seq::<char>::empty());
                }
                ""
            },
        },
    }
}

/// The text of an entry shown in full.
pub fn answer_text(item: &TimelineItem) -> (r: &str)
    ensures
        r@ == full_text(item@),
{
    text_or_empty(&item.content, &item.excerpt)
}

/// The text of an entry shown in a listing.
pub fn summary_text(item: &TimelineItem) -> (r: &str)
    ensures
        r@ == short_text(item@),
{
    text_or_empty(&item.excerpt, &item.content)
}

/// The title of an entry.
pub fn entry_title(item: &TimelineItem) -> (r: &str)
    ensures
        r@ == title_of(item@),
{
    match &item.title {
        Some(t) => t.as_str(),
        None => match &item.question {
            Some(q) => q.title.as_str(),
            None => {
                proof {
                    reveal_strlit("");
                    assert(""@ =~= Seq::<char>::empty());
                }
                ""
            },
        },
    }
}

fn first_item(value: &Json) -> (r: Option<&Json>)
    ensures
        match r {
            Some(v) => first_of(value@) == v@,
            None => first_of(value@) is Null,
        },
{
    match value {
        Json::Array(items) => {
            proof {
                lemma_values_of(items@);
            }
            if items.len() > 0 {
                Some(&items[0])
            } else {
                None
            }
        },
        _ => None,
    }
}

/// The picture of an entry.
pub fn entry_thumbnail(item: &TimelineItem) -> (r: Option<&str>)
    ensures
        match r {
            Some(url) => thumbnail_of(item@) == Some(url@),
            None => thumbnail_of(item@) is None,
        },
{
    let carried = match member_of(&item.ext, "thumbnail_info") {
        Some(info) => match member_of(info, "thumbnails") {
            Some(list) => match first_item(list) {
                Some(first) => match member_of(first, "url") {
                    Some(Json::Text(url)) => Some(url.as_str()),
                    _ => None,
                },
                None => None,
            },
            None => None,
        },
        None => None,
    };
    match carried {
        Some(url) => Some(url),
        None => match &item.thumbnail {
            Some(t) => Some(t.as_str()),
            None => None,
        },
    }
}

/// What is shown for an attachment.
#[derive(Debug, Clone)]
pub enum Attached {
    /// The entry has no attachment.
    Nothing,
    /// A video, with the renditions to play and to link to.
    Video {
        title: String,
        play_count: u32,
        poster: String,
        play: Option<String>,
        link: Option<String>,
    },
    /// An attachment of a kind that is not shown; the kind is given.
    Unsupported(String),
}

pub enum AttachedView {
    Nothing,
    Video {
        title: Seq<char>,
        play_count: nat,
        poster: Seq<char>,
        play: Option<Seq<char>>,
        link: Option<Seq<char>>,
    },
    Unsupported(Seq<char>),
}

impl View for Attached {
    type V = AttachedView;

    open spec fn view(&self) -> AttachedView {
        match self {
            Attached::Nothing => AttachedView::Nothing,
            Attached::Video { title, play_count, poster, play, link } => AttachedView::Video {
                title: title@,
                play_count: *play_count as nat,
                poster: poster@,
                play: view_of(*play),
                link: view_of(*link),
            },
            Attached::Unsupported(kind) => AttachedView::Unsupported(kind@),
        }
    }
}

/// The rendition that is played: the standard one, else the low one.
pub open spec fn played(video: AttachmentView) -> Option<Seq<char>> {
    let list = video.video.video_info.playlist;
    match list.sd {
        Some(sd) => Some(sd.url),
        None => match list.ld {
            Some(ld) => Some(ld.url),
            None => None,
        },
    }
}

/// The rendition that is linked to: the high one, else the one played.
pub open spec fn linked(video: AttachmentView) -> Option<Seq<char>> {
    match video.video.video_info.playlist.hd {
        Some(hd) => Some(hd.url),
        None => played(video),
    }
}

/// What is shown for the attachment of an entry: a video where its kind
/// is `video`, and nothing but its kind otherwise.
pub open spec fn shown_for(attachment: Option<AttachmentView>) -> AttachedView {
    match attachment {
        None => AttachedView::Nothing,
        Some(a) => if a.type_ == "video"@ {
            AttachedView::Video {
                title: a.video.title,
                play_count: a.video.play_count,
                poster: a.video.video_info.thumbnail,
                play: played(a),
                link: linked(a),
            }
        } else {
            AttachedView::Unsupported(a.type_)
        },
    }
}

/// Decides what is shown for the attachment of an entry.
pub fn attached(attachment: &Option<Attachment>) -> (r: Attached)
    ensures
        r@ == shown_for(view_of(*attachment)),
{
    match attachment {
        None => Attached::Nothing,
        Some(a) => {
            if same_text(a.type_.as_str(), "video") {
                let list = &a.video.video_info.playlist;
                let play = match &list.sd {
                    Some(sd) => Some(sd.url.clone()),
                    None => match &list.ld {
                        Some(ld) => Some(ld.url.clone()),
                        None => None,
                    },
                };
                let link = match &list.hd {
                    Some(hd) => Some(hd.url.clone()),
                    None => play.clone(),
                };
                Attached::Video {
                    title: a.video.title.clone(),
                    play_count: a.video.play_count,
                    poster: a.video.video_info.thumbnail.clone(),
                    play,
                    link,
                }
            } else {
                Attached::Unsupported(a.type_.clone())
            }
        },
    }
}

/// The queries of the elements of a group, in order: of each element its
/// `query`, where that is a string.
pub open spec fn queries_in(items: Seq<JsonValue>) -> Seq<Seq<char>>
    decreases items.len(),
{
    if items.len() == 0 {
        Seq::empty()
    } else {
        let before = queries_in(items.drop_last());
        match as_text(member_or_null(items.last(), "query"@)) {
            Some(q) => before.push(q),
            None => before,
        }
    }
}

/// The queries of a group of related queries; none where the group is no
/// array.
pub open spec fn related(group: JsonValue) -> Seq<Seq<char>> {
    match group {
        JsonValue::Array(items) => queries_in(items),
        _ => Seq::empty(),
    }
}

/// Reads the queries out of a group of related queries.
pub fn related_queries(group: &Json) -> (r: Vec<String>)
    ensures
        r@.map_values(|q: String| q@) == related(group@),
{
    let mut out: Vec<String> = Vec::new();
    let ghost view = |q: String| q@;
    match group {
        Json::Array(items) => {
            let mut i: usize = 0;
            proof {
                assert(items@.take(0) =~= Seq::<Json>::empty());
                assert(out@.map_values(view) =~= Seq::empty());
            }
            while i < items.len()
                invariant
                    i <= items.len(),
                    view == (|q: String| q@),
                    out@.map_values(view) == queries_in(values_of(items@.take(i as int))),
                decreases items.len() - i,
            {
                proof {
                    let now = items@.take(i as int + 1);
                    assert(now.drop_last() =~= items@.take(i as int));
                    assert(now.last() == items@[i as int]);
                    assert(values_of(now) == values_of(now.drop_last()).push(now.last()@));
                    assert(values_of(now).drop_last() =~= values_of(now.drop_last()));
                }
                match member_of(&items[i], "query") {
                    Some(Json::Text(q)) => {
                        let ghost before = out@;
                        out.push(q.clone());
                        assert(out@.map_values(view) =~= before.map_values(view).push(q@));
                    },
                    _ => {},
                }
                i += 1;
            }
            proof {
                assert(items@.take(items.len() as int) =~= items@);
            }
        },
        _ => {
            assert(out@.map_values(view) =~= Seq::empty());
        },
    }
    out
}

/// The way a day is written: year, month and day of the month.
pub const DAY: &'static str = "%Y-%m-%d";

/// A timestamp, in seconds since the Unix epoch, written by `chrono` in a
/// format of its own notation, both in UTC: `None` where `chrono` has no
/// date for the timestamp or cannot write the format.
pub uninterp spec fn written_time(seconds: int, format: Seq<char>) -> Option<Seq<char>>;

/// `DateTime::from_timestamp` and `DateTime::format`.
#[verifier::external_body]
fn write_time(seconds: i64, format: &str) -> (r: Option<String>)
    ensures
        view_of(r) == written_time(seconds as int, format@),
{
    let moment = chrono::DateTime::from_timestamp(seconds, 0)?;
    let mut text = String::new();
    write!(text, "{}", moment.format(format)).ok()?;
    Some(text)
}

/// The day of a timestamp, where `chrono` has a date for it.
pub fn day_of(seconds: i64) -> (r: Option<String>)
    ensures
        view_of(r) == written_time(seconds as int, DAY@),
{
    match write_time(seconds, DAY) {
        Some(_) => Some(time(seconds)),
        None => None,
    }
}

/// The day of a timestamp that `chrono` has a date for.
pub fn time(seconds: i64) -> (r: String)
    requires
        written_time(seconds as int, DAY@) is Some,
    ensures
        Some(r@) == written_time(seconds as int, DAY@),
{
    match write_time(seconds, DAY) {
        Some(day) => day,
        None => String::new(),
    }
}

} // verus!
