//! The records that upstream payloads are decoded into, each with its
//! mathematical view and the rule by which a JSON value becomes one.
//!
//! A record is decoded from a JSON object. A field that the object lacks
//! takes its default; a field that is there must have the right shape, or
//! the whole record is refused. Members that no field answers to are ignored.
//! Where a field has several names, at most one of them may be present.

use crate::decode::{
    at, i64_field, int_at, int_view, lenient_text_at, lenient_text_field, optional_flag_at,
    optional_flag_field, optional_i64_field, optional_int_at, optional_outcome,
    optional_record_at, optional_text_at, optional_text_field, outcome, record_at, text_at,
    text_field, u32_field, u64_field, under, under_index, DecodeError, StepView,
};
use crate::fields::{find, lemma_found_is_smaller, lookup, residual, Found};
use crate::json::{entries_of, lemma_values_of, values_of, Json, JsonValue, Member};
use crate::text::{same_text, view_of};
use vstd::prelude::*;

verus! {

/// Where a page stands within its listing. A flag that upstream did not
/// send is unknown, which is not the same as `false`.
#[derive(Debug, Clone)]
pub struct Paging {
    pub is_end: Option<bool>,
    pub is_start: Option<bool>,
    pub next: String,
    pub previous: String,
    pub totals: u32,
}

pub struct PagingView {
    pub is_end: Option<bool>,
    pub is_start: Option<bool>,
    pub next: Seq<char>,
    pub previous: Seq<char>,
    pub totals: nat,
}

impl PagingView {
    /// The zeroed paging: no flags, no links, no total.
    pub open spec fn empty() -> PagingView {
        PagingView {
            is_end: None,
            is_start: None,
            next: Seq::empty(),
            previous: Seq::empty(),
            totals: 0,
        }
    }
}

impl View for Paging {
    type V = PagingView;

    open spec fn view(&self) -> PagingView {
        PagingView {
            is_end: self.is_end,
            is_start: self.is_start,
            next: self.next@,
            previous: self.previous@,
            totals: self.totals as nat,
        }
    }
}

impl Default for Paging {
    fn default() -> (r: Paging)
        ensures
            r@ == PagingView::empty(),
    {
        Paging {
            is_end: None,
            is_start: None,
            next: String::new(),
            previous: String::new(),
            totals: 0,
        }
    }
}

impl Paging {
    /// The paging that `value` describes, or `None` where it describes none.
    pub open spec fn decoded(value: JsonValue) -> Result<PagingView, Seq<StepView>> {
        match value {
            JsonValue::Object(e) => {
                let is_end = optional_flag_at(e, "is_end"@, "is_end"@, "is_end"@);
                let is_start = optional_flag_at(e, "is_start"@, "is_start"@, "is_start"@);
                let next = text_at(e, "next"@, "next"@, "next"@);
                let previous = text_at(e, "previous"@, "previous"@, "previous"@);
                let totals = int_at(e, "totals"@, "totals"@, "totals"@, 0, u32::MAX as int);
                if is_end is Err {
                    Err(is_end->Err_0)
                } else if is_start is Err {
                    Err(is_start->Err_0)
                } else if next is Err {
                    Err(next->Err_0)
                } else if previous is Err {
                    Err(previous->Err_0)
                } else if totals is Err {
                    Err(totals->Err_0)
                } else {
                    Ok(
                        PagingView {
                            is_end: is_end->Ok_0,
                            is_start: is_start->Ok_0,
                            next: next->Ok_0,
                            previous: previous->Ok_0,
                            totals: totals->Ok_0 as nat,
                        },
                    )
                }
            },
            _ => Err(Seq::empty()),
        }
    }

    /// Decodes a paging object.
    pub fn from_json(value: &Json) -> (r: Result<Paging, DecodeError>)
        ensures
            outcome(r) == Paging::decoded(value@),
    {
        match value {
            Json::Object(members) => {
                let is_end = optional_flag_field(members, "is_end", "is_end", "is_end")?;
                let is_start = optional_flag_field(members, "is_start", "is_start", "is_start")?;
                let next = text_field(members, "next", "next", "next")?;
                let previous = text_field(members, "previous", "previous", "previous")?;
                let totals = u32_field(members, "totals", "totals", "totals")?;
                Ok(Paging { is_end, is_start, next, previous, totals })
            },
            _ => Err(DecodeError::here()),
        }
    }
}

/// A question.
#[derive(Debug, Clone)]
pub struct Question {
    pub id: String,
    pub title: String,
    pub detail: String,
    pub answer_count: u64,
    pub comment_count: u64,
    pub voteup_count: u64,
}

pub struct QuestionView {
    pub id: Seq<char>,
    pub title: Seq<char>,
    pub detail: Seq<char>,
    pub answer_count: nat,
    pub comment_count: nat,
    pub voteup_count: nat,
}

impl QuestionView {
    /// The blank question.
    pub open spec fn empty() -> QuestionView {
        QuestionView {
            id: Seq::empty(),
            title: Seq::empty(),
            detail: Seq::empty(),
            answer_count: 0,
            comment_count: 0,
            voteup_count: 0,
        }
    }
}

impl View for Question {
    type V = QuestionView;

    open spec fn view(&self) -> QuestionView {
        QuestionView {
            id: self.id@,
            title: self.title@,
            detail: self.detail@,
            answer_count: self.answer_count as nat,
            comment_count: self.comment_count as nat,
            voteup_count: self.voteup_count as nat,
        }
    }
}

impl Default for Question {
    fn default() -> (r: Question)
        ensures
            r@ == QuestionView::empty(),
    {
        Question {
            id: String::new(),
            title: String::new(),
            detail: String::new(),
            answer_count: 0,
            comment_count: 0,
            voteup_count: 0,
        }
    }
}

impl Question {
    /// The question that `value` describes. The identifier may come as a
    /// string or as a number; the title also answers to `name`.
    pub open spec fn decoded(value: JsonValue) -> Result<QuestionView, Seq<StepView>> {
        match value {
            JsonValue::Object(e) => {
                let id = lenient_text_at(e, "id"@, "id"@, "id"@);
                let title = text_at(e, "title"@, "name"@, "name"@);
                let detail = text_at(e, "detail"@, "detail"@, "detail"@);
                let answers = int_at(
                    e,
                    "answer_count"@,
                    "answerCount"@,
                    "answerCount"@,
                    0,
                    u64::MAX as int,
                );
                let comments = int_at(
                    e,
                    "comment_count"@,
                    "commentCount"@,
                    "commentCount"@,
                    0,
                    u64::MAX as int,
                );
                let votes = int_at(
                    e,
                    "voteup_count"@,
                    "voteupCount"@,
                    "voteupCount"@,
                    0,
                    u64::MAX as int,
                );
                if id is Err {
                    Err(id->Err_0)
                } else if title is Err {
                    Err(title->Err_0)
                } else if detail is Err {
                    Err(detail->Err_0)
                } else if answers is Err {
                    Err(answers->Err_0)
                } else if comments is Err {
                    Err(comments->Err_0)
                } else if votes is Err {
                    Err(votes->Err_0)
                } else {
                    Ok(
                        QuestionView {
                            id: id->Ok_0,
                            title: title->Ok_0,
                            detail: detail->Ok_0,
                            answer_count: answers->Ok_0 as nat,
                            comment_count: comments->Ok_0 as nat,
                            voteup_count: votes->Ok_0 as nat,
                        },
                    )
                }
            },
            _ => Err(Seq::empty()),
        }
    }

    /// Decodes a question object.
    pub fn from_json(value: &Json) -> (r: Result<Question, DecodeError>)
        ensures
            outcome(r) == Question::decoded(value@),
    {
        match value {
            Json::Object(members) => {
                let id = lenient_text_field(members, "id", "id", "id")?;
                let title = text_field(members, "title", "name", "name")?;
                let detail = text_field(members, "detail", "detail", "detail")?;
                let answer_count = u64_field(
                    members,
                    "answer_count",
                    "answerCount",
                    "answerCount",
                )?;
                let comment_count = u64_field(
                    members,
                    "comment_count",
                    "commentCount",
                    "commentCount",
                )?;
                let voteup_count = u64_field(
                    members,
                    "voteup_count",
                    "voteupCount",
                    "voteupCount",
                )?;
                Ok(Question { id, title, detail, answer_count, comment_count, voteup_count })
            },
            _ => Err(DecodeError::here()),
        }
    }
}

/// Who wrote an entry.
#[derive(Debug)]
pub struct Author {
    pub avatar_url: String,
    pub name: String,
    pub headline: String,
}

pub struct AuthorView {
    pub avatar_url: Seq<char>,
    pub name: Seq<char>,
    pub headline: Seq<char>,
}

impl AuthorView {
    /// The blank author.
    pub open spec fn empty() -> AuthorView {
        AuthorView { avatar_url: Seq::empty(), name: Seq::empty(), headline: Seq::empty() }
    }
}

impl View for Author {
    type V = AuthorView;

    open spec fn view(&self) -> AuthorView {
        AuthorView { avatar_url: self.avatar_url@, name: self.name@, headline: self.headline@ }
    }
}

impl Clone for Author {
    fn clone(&self) -> (r: Author)
        ensures
            r@ == self@,
    {
        Author {
            avatar_url: self.avatar_url.clone(),
            name: self.name.clone(),
            headline: self.headline.clone(),
        }
    }
}

impl Default for Author {
    fn default() -> (r: Author)
        ensures
            r@ == AuthorView::empty(),
    {
        Author { avatar_url: String::new(), name: String::new(), headline: String::new() }
    }
}

impl Author {
    /// The author that `value` describes.
    pub open spec fn decoded(value: JsonValue) -> Result<AuthorView, Seq<StepView>> {
        match value {
            JsonValue::Object(e) => {
                let avatar = text_at(e, "avatar_url"@, "avatarUrl"@, "avatarUrl"@);
                let name = text_at(e, "name"@, "name"@, "name"@);
                let headline = text_at(e, "headline"@, "headline"@, "headline"@);
                if avatar is Err {
                    Err(avatar->Err_0)
                } else if name is Err {
                    Err(name->Err_0)
                } else if headline is Err {
                    Err(headline->Err_0)
                } else {
                    Ok(
                        AuthorView {
                            avatar_url: avatar->Ok_0,
                            name: name->Ok_0,
                            headline: headline->Ok_0,
                        },
                    )
                }
            },
            _ => Err(Seq::empty()),
        }
    }

    /// Decodes an author object.
    pub fn from_json(value: &Json) -> (r: Result<Author, DecodeError>)
        ensures
            outcome(r) == Author::decoded(value@),
    {
        match value {
            Json::Object(members) => {
                let avatar_url = text_field(members, "avatar_url", "avatarUrl", "avatarUrl")?;
                let name = text_field(members, "name", "name", "name")?;
                let headline = text_field(members, "headline", "headline", "headline")?;
                Ok(Author { avatar_url, name, headline })
            },
            _ => Err(DecodeError::here()),
        }
    }
}

/// One rendition of a video.
#[derive(Debug, Clone)]
pub struct VideoUrl {
    pub url: String,
}

pub struct VideoUrlView {
    pub url: Seq<char>,
}

impl View for VideoUrl {
    type V = VideoUrlView;

    open spec fn view(&self) -> VideoUrlView {
        VideoUrlView { url: self.url@ }
    }
}

impl Default for VideoUrl {
    fn default() -> (r: VideoUrl)
        ensures
            r@ == (VideoUrlView { url: Seq::empty() }),
    {
        VideoUrl { url: String::new() }
    }
}

impl VideoUrl {
    /// The rendition that `value` describes.
    pub open spec fn decoded(value: JsonValue) -> Result<VideoUrlView, Seq<StepView>> {
        match value {
            JsonValue::Object(e) => match text_at(e, "url"@, "url"@, "url"@) {
                Ok(url) => Ok(VideoUrlView { url }),
                Err(path) => Err(path),
            },
            _ => Err(Seq::empty()),
        }
    }

    /// Decodes a rendition object.
    pub fn from_json(value: &Json) -> (r: Result<VideoUrl, DecodeError>)
        ensures
            outcome(r) == VideoUrl::decoded(value@),
    {
        match value {
            Json::Object(members) => {
                let url = text_field(members, "url", "url", "url")?;
                Ok(VideoUrl { url })
            },
            _ => Err(DecodeError::here()),
        }
    }

    /// Reads the optional rendition filed under `name`.
    fn field(members: &Vec<Member>, name: &str) -> (r: Result<Option<VideoUrl>, DecodeError>)
        ensures
            optional_outcome(r) == optional_record_at(
                lookup(entries_of(members@), name@, name@, name@),
                name@,
                |v: JsonValue| VideoUrl::decoded(v),
            ),
    {
        match find(members, name, name, name) {
            Found::Absent => Ok(None),
            Found::Once(v) => match v {
                Json::Null => Ok(None),
                _ => match VideoUrl::from_json(v) {
                    Ok(record) => Ok(Some(record)),
                    Err(e) => Err(e.within(name)),
                },
            },
            Found::Repeated(_) => Err(DecodeError::at_field(name)),
        }
    }
}

/// The renditions of a video, by quality.
#[derive(Debug, Clone)]
pub struct VideoUrls {
    pub ld: Option<VideoUrl>,
    pub sd: Option<VideoUrl>,
    pub hd: Option<VideoUrl>,
}

pub struct VideoUrlsView {
    pub ld: Option<VideoUrlView>,
    pub sd: Option<VideoUrlView>,
    pub hd: Option<VideoUrlView>,
}

impl VideoUrlsView {
    /// No rendition at all.
    pub open spec fn empty() -> VideoUrlsView {
        VideoUrlsView { ld: None, sd: None, hd: None }
    }
}

impl View for VideoUrls {
    type V = VideoUrlsView;

    open spec fn view(&self) -> VideoUrlsView {
        VideoUrlsView { ld: view_of(self.ld), sd: view_of(self.sd), hd: view_of(self.hd) }
    }
}

impl Default for VideoUrls {
    fn default() -> (r: VideoUrls)
        ensures
            r@ == VideoUrlsView::empty(),
    {
        VideoUrls { ld: None, sd: None, hd: None }
    }
}

impl VideoUrls {
    /// The renditions that `value` describes.
    pub open spec fn decoded(value: JsonValue) -> Result<VideoUrlsView, Seq<StepView>> {
        match value {
            JsonValue::Object(e) => {
                let ld = optional_record_at(
                    lookup(e, "ld"@, "ld"@, "ld"@),
                    "ld"@,
                    |v: JsonValue| VideoUrl::decoded(v),
                );
                let sd = optional_record_at(
                    lookup(e, "sd"@, "sd"@, "sd"@),
                    "sd"@,
                    |v: JsonValue| VideoUrl::decoded(v),
                );
                let hd = optional_record_at(
                    lookup(e, "hd"@, "hd"@, "hd"@),
                    "hd"@,
                    |v: JsonValue| VideoUrl::decoded(v),
                );
                if ld is Err {
                    Err(ld->Err_0)
                } else if sd is Err {
                    Err(sd->Err_0)
                } else if hd is Err {
                    Err(hd->Err_0)
                } else {
                    Ok(VideoUrlsView { ld: ld->Ok_0, sd: sd->Ok_0, hd: hd->Ok_0 })
                }
            },
            _ => Err(Seq::empty()),
        }
    }

    /// Decodes a playlist object.
    pub fn from_json(value: &Json) -> (r: Result<VideoUrls, DecodeError>)
        ensures
            outcome(r) == VideoUrls::decoded(value@),
    {
        match value {
            Json::Object(members) => {
                let ld = VideoUrl::field(members, "ld")?;
                let sd = VideoUrl::field(members, "sd")?;
                let hd = VideoUrl::field(members, "hd")?;
                Ok(VideoUrls { ld, sd, hd })
            },
            _ => Err(DecodeError::here()),
        }
    }
}

/// A video's poster and renditions.
#[derive(Debug, Clone)]
pub struct VideoInfo {
    pub thumbnail: String,
    pub playlist: VideoUrls,
}

pub struct VideoInfoView {
    pub thumbnail: Seq<char>,
    pub playlist: VideoUrlsView,
}

impl VideoInfoView {
    /// No poster, no rendition.
    pub open spec fn empty() -> VideoInfoView {
        VideoInfoView { thumbnail: Seq::empty(), playlist: VideoUrlsView::empty() }
    }
}

impl View for VideoInfo {
    type V = VideoInfoView;

    open spec fn view(&self) -> VideoInfoView {
        VideoInfoView { thumbnail: self.thumbnail@, playlist: self.playlist@ }
    }
}

impl Default for VideoInfo {
    fn default() -> (r: VideoInfo)
        ensures
            r@ == VideoInfoView::empty(),
    {
        VideoInfo { thumbnail: String::new(), playlist: VideoUrls::default() }
    }
}

impl VideoInfo {
    /// The video details that `value` describes.
    pub open spec fn decoded(value: JsonValue) -> Result<VideoInfoView, Seq<StepView>> {
        match value {
            JsonValue::Object(e) => {
                let thumbnail = text_at(e, "thumbnail"@, "thumbnail"@, "thumbnail"@);
                let playlist = record_at(
                    lookup(e, "playlist"@, "playlist"@, "playlist"@),
                    "playlist"@,
                    VideoUrlsView::empty(),
                    |v: JsonValue| VideoUrls::decoded(v),
                );
                if thumbnail is Err {
                    Err(thumbnail->Err_0)
                } else if playlist is Err {
                    Err(playlist->Err_0)
                } else {
                    Ok(VideoInfoView { thumbnail: thumbnail->Ok_0, playlist: playlist->Ok_0 })
                }
            },
            _ => Err(Seq::empty()),
        }
    }

    /// Decodes a video details object.
    pub fn from_json(value: &Json) -> (r: Result<VideoInfo, DecodeError>)
        ensures
            outcome(r) == VideoInfo::decoded(value@),
    {
        match value {
            Json::Object(members) => {
                let thumbnail = text_field(members, "thumbnail", "thumbnail", "thumbnail")?;
                let playlist = match find(members, "playlist", "playlist", "playlist") {

                    Found::Absent => VideoUrls::default(),

                    Found::Once(v) => match VideoUrls::from_json(v) {

                        Ok(record) => record,

                        Err(e) => { return Err(e.within("playlist")); },

                    },

                    Found::Repeated(_) => { return Err(DecodeError::at_field("playlist")); },

                };
                Ok(VideoInfo { thumbnail, playlist })
            },
            _ => Err(DecodeError::here()),
        }
    }
}

/// The video attached to an entry.
#[derive(Debug, Clone)]
pub struct AttachmentVideo {
    pub title: String,
    pub play_count: u32,
    pub video_info: VideoInfo,
}

pub struct AttachmentVideoView {
    pub title: Seq<char>,
    pub play_count: nat,
    pub video_info: VideoInfoView,
}

impl AttachmentVideoView {
    /// The blank video.
    pub open spec fn empty() -> AttachmentVideoView {
        AttachmentVideoView {
            title: Seq::empty(),
            play_count: 0,
            video_info: VideoInfoView::empty(),
        }
    }
}

impl View for AttachmentVideo {
    type V = AttachmentVideoView;

    open spec fn view(&self) -> AttachmentVideoView {
        AttachmentVideoView {
            title: self.title@,
            play_count: self.play_count as nat,
            video_info: self.video_info@,
        }
    }
}

impl Default for AttachmentVideo {
    fn default() -> (r: AttachmentVideo)
        ensures
            r@ == AttachmentVideoView::empty(),
    {
        AttachmentVideo { title: String::new(), play_count: 0, video_info: VideoInfo::default() }
    }
}

impl AttachmentVideo {
    /// The attached video that `value` describes.
    pub open spec fn decoded(value: JsonValue) -> Result<AttachmentVideoView, Seq<StepView>> {
        match value {
            JsonValue::Object(e) => {
                let title = text_at(e, "title"@, "title"@, "title"@);
                let plays = int_at(
                    e,
                    "play_count"@,
                    "playCount"@,
                    "playCount"@,
                    0,
                    u32::MAX as int,
                );
                let info = record_at(
                    lookup(e, "video_info"@, "videoInfo"@, "videoInfo"@),
                    "video_info"@,
                    VideoInfoView::empty(),
                    |v: JsonValue| VideoInfo::decoded(v),
                );
                if title is Err {
                    Err(title->Err_0)
                } else if plays is Err {
                    Err(plays->Err_0)
                } else if info is Err {
                    Err(info->Err_0)
                } else {
                    Ok(
                        AttachmentVideoView {
                            title: title->Ok_0,
                            play_count: plays->Ok_0 as nat,
                            video_info: info->Ok_0,
                        },
                    )
                }
            },
            _ => Err(Seq::empty()),
        }
    }

    /// Decodes an attached video object.
    pub fn from_json(value: &Json) -> (r: Result<AttachmentVideo, DecodeError>)
        ensures
            outcome(r) == AttachmentVideo::decoded(value@),
    {
        match value {
            Json::Object(members) => {
                let title = text_field(members, "title", "title", "title")?;
                let play_count = u32_field(members, "play_count", "playCount", "playCount")?;
                let video_info = match find(members, "video_info", "videoInfo", "videoInfo") {

                    Found::Absent => VideoInfo::default(),

                    Found::Once(v) => match VideoInfo::from_json(v) {

                        Ok(record) => record,

                        Err(e) => { return Err(e.within("video_info")); },

                    },

                    Found::Repeated(_) => { return Err(DecodeError::at_field("video_info")); },

                };
                Ok(AttachmentVideo { title, play_count, video_info })
            },
            _ => Err(DecodeError::here()),
        }
    }
}

/// What is attached to an entry: its kind, and the video where the kind
/// is `video`.
#[derive(Debug, Clone)]
pub struct Attachment {
    pub type_: String,
    pub video: AttachmentVideo,
}

pub struct AttachmentView {
    pub type_: Seq<char>,
    pub video: AttachmentVideoView,
}

impl AttachmentView {
    /// The blank attachment.
    pub open spec fn empty() -> AttachmentView {
        AttachmentView { type_: Seq::empty(), video: AttachmentVideoView::empty() }
    }
}

impl View for Attachment {
    type V = AttachmentView;

    open spec fn view(&self) -> AttachmentView {
        AttachmentView { type_: self.type_@, video: self.video@ }
    }
}

impl Default for Attachment {
    fn default() -> (r: Attachment)
        ensures
            r@ == AttachmentView::empty(),
    {
        Attachment { type_: String::new(), video: AttachmentVideo::default() }
    }
}

impl Attachment {
    /// The attachment that `value` describes.
    pub open spec fn decoded(value: JsonValue) -> Result<AttachmentView, Seq<StepView>> {
        match value {
            JsonValue::Object(e) => {
                let kind = text_at(e, "type"@, "type"@, "type"@);
                let video = record_at(
                    lookup(e, "video"@, "video"@, "video"@),
                    "video"@,
                    AttachmentVideoView::empty(),
                    |v: JsonValue| AttachmentVideo::decoded(v),
                );
                if kind is Err {
                    Err(kind->Err_0)
                } else if video is Err {
                    Err(video->Err_0)
                } else {
                    Ok(AttachmentView { type_: kind->Ok_0, video: video->Ok_0 })
                }
            },
            _ => Err(Seq::empty()),
        }
    }

    /// Decodes an attachment object.
    pub fn from_json(value: &Json) -> (r: Result<Attachment, DecodeError>)
        ensures
            outcome(r) == Attachment::decoded(value@),
    {
        match value {
            Json::Object(members) => {
                let type_ = text_field(members, "type", "type", "type")?;
                let video = match find(members, "video", "video", "video") {

                    Found::Absent => AttachmentVideo::default(),

                    Found::Once(v) => match AttachmentVideo::from_json(v) {

                        Ok(record) => record,

                        Err(e) => { return Err(e.within("video")); },

                    },

                    Found::Repeated(_) => { return Err(DecodeError::at_field("video")); },

                };
                Ok(Attachment { type_, video })
            },
            _ => Err(DecodeError::here()),
        }
    }
}

/// One entry of a feed: an answer or an article, with what came with it.
#[derive(Debug, Clone)]
pub struct TimelineItem {
    pub id: String,
    pub type_: String,
    pub url: String,
    pub image_url: String,
    pub thumbnail: Option<String>,
    pub excerpt: Option<String>,
    pub content: Option<String>,
    pub title: Option<String>,
    pub question: Option<Question>,
    pub author: Option<Author>,
    pub attachment: Option<Attachment>,
    pub created_time: Option<i64>,
    pub updated_time: Option<i64>,
    pub voteup_count: u64,
    pub comment_count: u64,
    /// The members of the payload that no field above answers to, kept as
    /// they came.
    pub ext: Json,
}

pub struct TimelineItemView {
    pub id: Seq<char>,
    pub type_: Seq<char>,
    pub url: Seq<char>,
    pub image_url: Seq<char>,
    pub thumbnail: Option<Seq<char>>,
    pub excerpt: Option<Seq<char>>,
    pub content: Option<Seq<char>>,
    pub title: Option<Seq<char>>,
    pub question: Option<QuestionView>,
    pub author: Option<AuthorView>,
    pub attachment: Option<AttachmentView>,
    pub created_time: Option<int>,
    pub updated_time: Option<int>,
    pub voteup_count: nat,
    pub comment_count: nat,
    pub ext: JsonValue,
}

impl TimelineItemView {
    /// The blank entry, which keeps nothing aside.
    pub open spec fn empty() -> TimelineItemView {
        TimelineItemView {
            id: Seq::empty(),
            type_: Seq::empty(),
            url: Seq::empty(),
            image_url: Seq::empty(),
            thumbnail: None,
            excerpt: None,
            content: None,
            title: None,
            question: None,
            author: None,
            attachment: None,
            created_time: None,
            updated_time: None,
            voteup_count: 0,
            comment_count: 0,
            ext: JsonValue::Null,
        }
    }
}

impl View for TimelineItem {
    type V = TimelineItemView;

    open spec fn view(&self) -> TimelineItemView {
        TimelineItemView {
            id: self.id@,
            type_: self.type_@,
            url: self.url@,
            image_url: self.image_url@,
            thumbnail: view_of(self.thumbnail),
            excerpt: view_of(self.excerpt),
            content: view_of(self.content),
            title: view_of(self.title),
            question: view_of(self.question),
            author: view_of(self.author),
            attachment: view_of(self.attachment),
            created_time: int_view(self.created_time),
            updated_time: int_view(self.updated_time),
            voteup_count: self.voteup_count as nat,
            comment_count: self.comment_count as nat,
            ext: self.ext@,
        }
    }
}

impl Default for TimelineItem {
    fn default() -> (r: TimelineItem)
        ensures
            r@ == TimelineItemView::empty(),
    {
        TimelineItem {
            id: String::new(),
            type_: String::new(),
            url: String::new(),
            image_url: String::new(),
            thumbnail: None,
            excerpt: None,
            content: None,
            title: None,
            question: None,
            author: None,
            attachment: None,
            created_time: None,
            updated_time: None,
            voteup_count: 0,
            comment_count: 0,
            ext: Json::Null,
        }
    }
}

/// Reads the optional question filed under `name`.
fn question_field(members: &Vec<Member>, name: &str) -> (r: Result<Option<Question>, DecodeError>)
    ensures
        optional_outcome(r) == optional_record_at(
            lookup(entries_of(members@), name@, name@, name@),
            name@,
            |v: JsonValue| Question::decoded(v),
        ),
{
    match find(members, name, name, name) {
        Found::Absent => Ok(None),
        Found::Once(v) => match v {
            Json::Null => Ok(None),
            _ => match Question::from_json(v) {
                Ok(record) => Ok(Some(record)),
                Err(e) => Err(e.within(name)),
            },
        },
        Found::Repeated(_) => Err(DecodeError::at_field(name)),
    }
}

/// Reads the optional author filed under `name`.
fn author_field(members: &Vec<Member>, name: &str) -> (r: Result<Option<Author>, DecodeError>)
    ensures
        optional_outcome(r) == optional_record_at(
            lookup(entries_of(members@), name@, name@, name@),
            name@,
            |v: JsonValue| Author::decoded(v),
        ),
{
    match find(members, name, name, name) {
        Found::Absent => Ok(None),
        Found::Once(v) => match v {
            Json::Null => Ok(None),
            _ => match Author::from_json(v) {
                Ok(record) => Ok(Some(record)),
                Err(e) => Err(e.within(name)),
            },
        },
        Found::Repeated(_) => Err(DecodeError::at_field(name)),
    }
}

/// Reads the optional attachment filed under `name`.
fn attachment_field(members: &Vec<Member>, name: &str) -> (r: Result<
    Option<Attachment>,
    DecodeError,
>)
    ensures
        optional_outcome(r) == optional_record_at(
            lookup(entries_of(members@), name@, name@, name@),
            name@,
            |v: JsonValue| Attachment::decoded(v),
        ),
{
    match find(members, name, name, name) {
        Found::Absent => Ok(None),
        Found::Once(v) => match v {
            Json::Null => Ok(None),
            _ => match Attachment::from_json(v) {
                Ok(record) => Ok(Some(record)),
                Err(e) => Err(e.within(name)),
            },
        },
        Found::Repeated(_) => Err(DecodeError::at_field(name)),
    }
}

/// What kind of entry a feed entry is.
#[derive(Debug, Clone, Copy, PartialEq, Eq, Structural)]
pub enum Kind {
    Answer,
    Article,
    /// Any kind that listings do not show.
    Unsupported,
}

impl TimelineItem {
    /// The kind that the discriminator `type_` stands for.
    pub open spec fn kind_of(type_: Seq<char>) -> Kind {
        if type_ == "answer"@ {
            Kind::Answer
        } else if type_ == "article"@ {
            Kind::Article
        } else {
            Kind::Unsupported
        }
    }

    /// The kind of the entry.
    pub fn kind(&self) -> (r: Kind)
        ensures
            r == TimelineItem::kind_of(self.type_@),
    {
        if same_text(self.type_.as_str(), "answer") {
            Kind::Answer
        } else if same_text(self.type_.as_str(), "article") {
            Kind::Article
        } else {
            Kind::Unsupported
        }
    }

    /// `name` is one of the names that a field of an entry answers to.
    pub open spec fn is_field(name: Seq<char>) -> bool {
        name == "id"@ || name == "type"@ || name == "url"@ || name == "image_url"@ || name
            == "imageUrl"@ || name == "thumbnail"@ || name == "excerpt"@ || name == "content"@
            || name == "title"@ || name == "question"@ || name == "author"@ || name
            == "attachment"@ || name == "created_time"@ || name == "createdTime"@ || name
            == "updated_time"@ || name == "updatedTime"@ || name == "updated"@ || name
            == "voteup_count"@ || name == "voteupCount"@ || name == "comment_count"@ || name
            == "commentCount"@
    }

    fn names_field(name: &str) -> (r: bool)
        ensures
            r == TimelineItem::is_field(name@),
    {
        same_text(name, "id") || same_text(name, "type") || same_text(name, "url") || same_text(
            name,
            "image_url",
        ) || same_text(name, "imageUrl") || same_text(name, "thumbnail") || same_text(
            name,
            "excerpt",
        ) || same_text(name, "content") || same_text(name, "title") || same_text(
            name,
            "question",
        ) || same_text(name, "author") || same_text(name, "attachment") || same_text(
            name,
            "created_time",
        ) || same_text(name, "createdTime") || same_text(name, "updated_time") || same_text(
            name,
            "updatedTime",
        ) || same_text(name, "updated") || same_text(name, "voteup_count") || same_text(
            name,
            "voteupCount",
        ) || same_text(name, "comment_count") || same_text(name, "commentCount")
    }

    /// Copies out the members that no field answers to.
    fn left_over(members: &Vec<Member>) -> (r: Vec<Member>)
        ensures
            entries_of(r@) == residual(
                entries_of(members@),
                |n: Seq<char>| TimelineItem::is_field(n),
            ),
    {
        let ghost known = |n: Seq<char>| TimelineItem::is_field(n);
        let mut out: Vec<Member> = Vec::new();
        let mut i: usize = 0;
        proof {
            assert(members@.take(0) =~= Seq::<Member>::empty());
        }
        while i < members.len()
            invariant
                i <= members.len(),
                known == (|n: Seq<char>| TimelineItem::is_field(n)),
                entries_of(out@) == residual(entries_of(members@.take(i as int)), known),
            decreases members.len() - i,
        {
            proof {
                let now = members@.take(i as int + 1);
                assert(now.drop_last() =~= members@.take(i as int));
                assert(now.last() == members@[i as int]);
                assert(entries_of(now) == entries_of(now.drop_last()).push(
                    (now.last().name@, now.last().value@),
                ));
                assert(entries_of(now).drop_last() =~= entries_of(now.drop_last()));
            }
            if !TimelineItem::names_field(members[i].name.as_str()) {
                let ghost before = out@;
                out.push(members[i].clone());
                proof {
                    assert(out@.drop_last() =~= before);
                    assert(entries_of(out@) == entries_of(out@.drop_last()).push(
                        (out@.last().name@, out@.last().value@),
                    ));
                }
            }
            i += 1;
        }
        proof {
            assert(members@.take(members.len() as int) =~= members@);
        }
        out
    }

    /// The entry that `value` describes. The identifier may come as a
    /// string or as a number; what no field answers to is kept in `ext`.
    pub open spec fn decoded(value: JsonValue) -> Result<TimelineItemView, Seq<StepView>> {
        match value {
            JsonValue::Object(e) => {
                let id = lenient_text_at(e, "id"@, "id"@, "id"@);
                let kind = text_at(e, "type"@, "type"@, "type"@);
                let url = text_at(e, "url"@, "url"@, "url"@);
                let image = text_at(e, "image_url"@, "imageUrl"@, "imageUrl"@);
                let thumbnail = optional_text_at(e, "thumbnail"@, "thumbnail"@, "thumbnail"@);
                let excerpt = optional_text_at(e, "excerpt"@, "excerpt"@, "excerpt"@);
                let content = optional_text_at(e, "content"@, "content"@, "content"@);
                let title = optional_text_at(e, "title"@, "title"@, "title"@);
                let question = optional_record_at(
                    lookup(e, "question"@, "question"@, "question"@),
                    "question"@,
                    |v: JsonValue| Question::decoded(v),
                );
                let author = optional_record_at(
                    lookup(e, "author"@, "author"@, "author"@),
                    "author"@,
                    |v: JsonValue| Author::decoded(v),
                );
                let attachment = optional_record_at(
                    lookup(e, "attachment"@, "attachment"@, "attachment"@),
                    "attachment"@,
                    |v: JsonValue| Attachment::decoded(v),
                );
                let created = optional_int_at(
                    e,
                    "created_time"@,
                    "createdTime"@,
                    "createdTime"@,
                    i64::MIN as int,
                    i64::MAX as int,
                );
                let updated = optional_int_at(
                    e,
                    "updated_time"@,
                    "updatedTime"@,
                    "updated"@,
                    i64::MIN as int,
                    i64::MAX as int,
                );
                let votes = int_at(
                    e,
                    "voteup_count"@,
                    "voteupCount"@,
                    "voteupCount"@,
                    0,
                    u64::MAX as int,
                );
                let comments = int_at(
                    e,
                    "comment_count"@,
                    "commentCount"@,
                    "commentCount"@,
                    0,
                    u64::MAX as int,
                );
                if id is Err {
                    Err(id->Err_0)
                } else if kind is Err {
                    Err(kind->Err_0)
                } else if url is Err {
                    Err(url->Err_0)
                } else if image is Err {
                    Err(image->Err_0)
                } else if thumbnail is Err {
                    Err(thumbnail->Err_0)
                } else if excerpt is Err {
                    Err(excerpt->Err_0)
                } else if content is Err {
                    Err(content->Err_0)
                } else if title is Err {
                    Err(title->Err_0)
                } else if question is Err {
                    Err(question->Err_0)
                } else if author is Err {
                    Err(author->Err_0)
                } else if attachment is Err {
                    Err(attachment->Err_0)
                } else if created is Err {
                    Err(created->Err_0)
                } else if updated is Err {
                    Err(updated->Err_0)
                } else if votes is Err {
                    Err(votes->Err_0)
                } else if comments is Err {
                    Err(comments->Err_0)
                } else {
                    Ok(
                        TimelineItemView {
                            id: id->Ok_0,
                            type_: kind->Ok_0,
                            url: url->Ok_0,
                            image_url: image->Ok_0,
                            thumbnail: thumbnail->Ok_0,
                            excerpt: excerpt->Ok_0,
                            content: content->Ok_0,
                            title: title->Ok_0,
                            question: question->Ok_0,
                            author: author->Ok_0,
                            attachment: attachment->Ok_0,
                            created_time: created->Ok_0,
                            updated_time: updated->Ok_0,
                            voteup_count: votes->Ok_0 as nat,
                            comment_count: comments->Ok_0 as nat,
                            ext: JsonValue::Object(
                                residual(e, |n: Seq<char>| TimelineItem::is_field(n)),
                            ),
                        },
                    )
                }
            },
            _ => Err(Seq::empty()),
        }
    }

    /// Decodes a feed entry.
    pub fn from_json(value: &Json) -> (r: Result<TimelineItem, DecodeError>)
        ensures
            outcome(r) == TimelineItem::decoded(value@),
    {
        match value {
            Json::Object(members) => {
                let id = lenient_text_field(members, "id", "id", "id")?;
                let type_ = text_field(members, "type", "type", "type")?;
                let url = text_field(members, "url", "url", "url")?;
                let image_url = text_field(members, "image_url", "imageUrl", "imageUrl")?;
                let thumbnail = optional_text_field(
                    members,
                    "thumbnail",
                    "thumbnail",
                    "thumbnail",
                )?;
                let excerpt = optional_text_field(members, "excerpt", "excerpt", "excerpt")?;
                let content = optional_text_field(members, "content", "content", "content")?;
                let title = optional_text_field(members, "title", "title", "title")?;
                let question = question_field(members, "question")?;
                let author = author_field(members, "author")?;
                let attachment = attachment_field(members, "attachment")?;
                let created_time = optional_i64_field(
                    members,
                    "created_time",
                    "createdTime",
                    "createdTime",
                )?;
                let updated_time = optional_i64_field(
                    members,
                    "updated_time",
                    "updatedTime",
                    "updated",
                )?;
                let voteup_count = u64_field(
                    members,
                    "voteup_count",
                    "voteupCount",
                    "voteupCount",
                )?;
                let comment_count = u64_field(
                    members,
                    "comment_count",
                    "commentCount",
                    "commentCount",
                )?;
                let ext = Json::Object(TimelineItem::left_over(members));
                Ok(
                    TimelineItem {
                        id,
                        type_,
                        url,
                        image_url,
                        thumbnail,
                        excerpt,
                        content,
                        title,
                        question,
                        author,
                        attachment,
                        created_time,
                        updated_time,
                        voteup_count,
                        comment_count,
                        ext,
                    },
                )
            },
            _ => Err(DecodeError::here()),
        }
    }
}

/// A comment with the replies that came embedded in it. Upstream may report
/// more replies in `child_comment_count` than it embeds in `child_comments`.
#[derive(Debug)]
pub struct Comment {
    pub id: String,
    pub author: Author,
    pub reply_to_author: Option<Author>,
    pub content: String,
    pub created_time: i64,
    pub like_count: u32,
    pub dislike_count: u32,
    pub child_comments: Vec<Comment>,
    pub child_comment_count: u32,
}

pub struct CommentView {
    pub id: Seq<char>,
    pub author: AuthorView,
    pub reply_to_author: Option<AuthorView>,
    pub content: Seq<char>,
    pub created_time: int,
    pub like_count: nat,
    pub dislike_count: nat,
    pub child_comments: Seq<CommentView>,
    pub child_comment_count: nat,
}

impl CommentView {
    /// The blank comment.
    pub open spec fn empty() -> CommentView {
        CommentView {
            id: Seq::empty(),
            author: AuthorView::empty(),
            reply_to_author: None,
            content: Seq::empty(),
            created_time: 0,
            like_count: 0,
            dislike_count: 0,
            child_comments: Seq::empty(),
            child_comment_count: 0,
        }
    }
}

/// The views of a sequence of comments, in order.
pub open spec fn comment_views(comments: Seq<Comment>) -> Seq<CommentView>
    decreases comments,
{
    if comments.len() == 0 {
        Seq::empty()
    } else {
        comment_views(comments.drop_last()).push(comments.last().view())
    }
}

impl View for Comment {
    type V = CommentView;

    open spec fn view(&self) -> CommentView
        decreases self,
    {
        CommentView {
            id: self.id@,
            author: self.author@,
            reply_to_author: view_of(self.reply_to_author),
            content: self.content@,
            created_time: self.created_time as int,
            like_count: self.like_count as nat,
            dislike_count: self.dislike_count as nat,
            child_comments: comment_views(self.child_comments@),
            child_comment_count: self.child_comment_count as nat,
        }
    }
}

/// `comment_views` keeps the length and views each comment in place.
pub proof fn lemma_comment_views(comments: Seq<Comment>)
    ensures
        comment_views(comments).len() == comments.len(),
        forall|i: int|
            0 <= i < comments.len() ==> #[trigger] comment_views(comments)[i] == comments[i]@,
    decreases comments.len(),
{
    if comments.len() > 0 {
        lemma_comment_views(comments.drop_last());
        assert(comment_views(comments) == comment_views(comments.drop_last()).push(
            comments.last()@,
        ));
    }
}

/// A deep copy of each comment of `comments`.
fn duplicate_comments(comments: &Vec<Comment>) -> (r: Vec<Comment>)
    ensures
        comment_views(r@) == comment_views(comments@),
    decreases comments,
{
    let mut out: Vec<Comment> = Vec::new();
    let mut i: usize = 0;
    while i < comments.len()
        invariant
            i <= comments.len(),
            out.len() == i,
            forall|k: int| 0 <= k < i ==> out@[k]@ == comments@[k]@,
        decreases comments.len() - i,
    {
        let copy = comments[i].duplicate();
        out.push(copy);
        i += 1;
    }
    proof {
        lemma_comment_views(out@);
        lemma_comment_views(comments@);
        assert(comment_views(out@) =~= comment_views(comments@));
    }
    out
}

impl Clone for Comment {
    fn clone(&self) -> (r: Comment)
        ensures
            r@ == self@,
    {
        self.duplicate()
    }
}

impl Default for Comment {
    fn default() -> (r: Comment)
        ensures
            r@ == CommentView::empty(),
    {
        let r = Comment {
            id: String::new(),
            author: Author::default(),
            reply_to_author: None,
            content: String::new(),
            created_time: 0,
            like_count: 0,
            dislike_count: 0,
            child_comments: Vec::new(),
            child_comment_count: 0,
        };
        assert(comment_views(r.child_comments@) =~= Seq::empty());
        r
    }
}

/// The comments that the elements of `items` describe, in the order of
/// `items`. Where some element describes none, the first such element
/// leads the path of the failure.
pub open spec fn decoded_comments(items: Seq<JsonValue>) -> Result<
    Seq<CommentView>,
    Seq<StepView>,
>
    decreases items,
{
    if items.len() == 0 {
        Ok(Seq::empty())
    } else {
        match decoded_comments(items.drop_last()) {
            Ok(before) => match Comment::decoded(items.last()) {
                Ok(last) => Ok(before.push(last)),
                Err(path) => Err(under_index((items.len() - 1) as nat, path)),
            },
            Err(path) => Err(path),
        }
    }
}

/// The field that embeds the replies: an array of comments, empty where
/// the object has none.
pub open spec fn replies_at(entries: Seq<(Seq<char>, JsonValue)>) -> Result<
    Seq<CommentView>,
    Seq<StepView>,
>
    decreases entries,
{
    match lookup(entries, "child_comments"@, "child_comments"@, "child_comments"@) {
        Found::Absent => Ok(Seq::empty()),
        Found::Once(v) => match v {
            JsonValue::Array(items) => {
                proof {
                    lemma_found_is_smaller(
                        entries,
                        "child_comments"@,
                        "child_comments"@,
                        "child_comments"@,
                    );
                }
                match decoded_comments(items) {
                    Ok(replies) => Ok(replies),
                    Err(path) => Err(under("child_comments"@, path)),
                }
            },
            _ => Err(at("child_comments"@)),
        },
        Found::Repeated(_) => Err(at("child_comments"@)),
    }
}

/// Decoding keeps the order of the replies: where a list of elements
/// decodes, there is one comment for each element, in the element's place.
pub proof fn lemma_replies_keep_their_order(items: Seq<JsonValue>)
    requires
        decoded_comments(items) is Ok,
    ensures
        decoded_comments(items)->Ok_0.len() == items.len(),
        forall|i: int|
            0 <= i < items.len() ==> Comment::decoded(items[i]) == Ok::<
                CommentView,
                Seq<StepView>,
            >(#[trigger] decoded_comments(items)->Ok_0[i]),
    decreases items.len(),
{
    if items.len() > 0 {
        lemma_replies_keep_their_order(items.drop_last());
        assert(items.last() == items[items.len() - 1]);
        assert forall|i: int| 0 <= i < items.len() implies Comment::decoded(items[i]) == Ok::<
            CommentView,
            Seq<StepView>,
        >(#[trigger] decoded_comments(items)->Ok_0[i]) by {
            if i < items.len() - 1 {
                assert(items.drop_last()[i] == items[i]);
            }
        }
    }
}

/// A list fails at its first element that describes no comment, and with
/// the path of that element's failure behind the element's index.
pub proof fn lemma_first_failure_is_reported(items: Seq<JsonValue>, k: int)
    requires
        0 <= k < items.len(),
        Comment::decoded(items[k]) is Err,
        forall|i: int| 0 <= i < k ==> (#[trigger] Comment::decoded(items[i])) is Ok,
    ensures
        decoded_comments(items) == Err::<Seq<CommentView>, Seq<StepView>>(
            under_index(k as nat, Comment::decoded(items[k])->Err_0),
        ),
    decreases items.len(),
{
    let front = items.drop_last();
    assert(items.last() == items[items.len() - 1]);
    if k == items.len() - 1 {
        assert forall|i: int| 0 <= i < front.len() implies (#[trigger] Comment::decoded(
            front[i],
        )) is Ok by {
            assert(front[i] == items[i]);
        }
        lemma_all_decode(front);
    } else {
        assert(front[k] == items[k]);
        assert forall|i: int| 0 <= i < k implies (#[trigger] Comment::decoded(front[i])) is Ok by {
            assert(front[i] == items[i]);
        }
        lemma_first_failure_is_reported(front, k);
    }
}

/// A list whose elements all describe a comment decodes.
pub proof fn lemma_all_decode(items: Seq<JsonValue>)
    requires
        forall|i: int| 0 <= i < items.len() ==> (#[trigger] Comment::decoded(items[i])) is Ok,
    ensures
        decoded_comments(items) is Ok,
    decreases items.len(),
{
    if items.len() > 0 {
        let front = items.drop_last();
        assert forall|i: int| 0 <= i < front.len() implies (#[trigger] Comment::decoded(
            front[i],
        )) is Ok by {
            assert(front[i] == items[i]);
        }
        lemma_all_decode(front);
        assert(items.last() == items[items.len() - 1]);
        assert(Comment::decoded(items[items.len() - 1]) is Ok);
    }
}

/// The replies of a decoded comment are the elements of its
/// `child_comments` in upstream order, and its `child_comment_count` is
/// the number upstream reported, whether or not the two agree.
pub proof fn lemma_comment_replies(entries: Seq<(Seq<char>, JsonValue)>, items: Seq<JsonValue>)
    requires
        Comment::decoded(JsonValue::Object(entries)) is Ok,
        lookup(entries, "child_comments"@, "child_comments"@, "child_comments"@) == Found::Once(
            JsonValue::Array(items),
        ),
    ensures
        ({
            let comment = Comment::decoded(JsonValue::Object(entries))->Ok_0;
            &&& comment.child_comments.len() == items.len()
            &&& forall|i: int|
                0 <= i < items.len() ==> Comment::decoded(items[i]) == Ok::<
                    CommentView,
                    Seq<StepView>,
                >(#[trigger] comment.child_comments[i])
            &&& Ok::<int, Seq<StepView>>(comment.child_comment_count as int) == int_at(
                entries,
                "child_comment_count"@,
                "child_comment_count"@,
                "child_comment_count"@,
                0,
                u32::MAX as int,
            )
        }),
{
    assert(replies_at(entries) == decoded_comments(items));
    lemma_replies_keep_their_order(items);
}

/// The view of what decoding a list of comments came to.
pub open spec fn list_outcome(r: Result<Vec<Comment>, DecodeError>) -> Result<
    Seq<CommentView>,
    Seq<StepView>,
> {
    match r {
        Ok(comments) => Ok(comment_views(comments@)),
        Err(e) => Err(e@),
    }
}

/// Decodes each element of `items` as a comment, in order.
pub fn comments_from(items: &Vec<Json>) -> (r: Result<Vec<Comment>, DecodeError>)
    ensures
        list_outcome(r) == decoded_comments(values_of(items@)),
    decreases items,
{
    let mut out: Vec<Comment> = Vec::new();
    let mut i: usize = 0;
    proof {
        assert(items@.take(0) =~= Seq::<Json>::empty());
    }
    while i < items.len()
        invariant
            i <= items.len(),
            decoded_comments(values_of(items@.take(i as int))) == Ok::<
                Seq<CommentView>,
                Seq<StepView>,
            >(comment_views(out@)),
        decreases items.len() - i,
    {
        proof {
            let now = items@.take(i as int + 1);
            assert(now.drop_last() =~= items@.take(i as int));
            assert(now.last() == items@[i as int]);
            assert(values_of(now) == values_of(now.drop_last()).push(now.last()@));
            assert(values_of(now).drop_last() =~= values_of(now.drop_last()));
            lemma_values_of(now);
        }
        match Comment::from_json(&items[i]) {
            Ok(comment) => {
                let ghost before = out@;
                out.push(comment);
                proof {
                    assert(out@.drop_last() =~= before);
                    assert(comment_views(out@) == comment_views(out@.drop_last()).push(
                        out@.last()@,
                    ));
                }
            },
            Err(e) => {
                proof {
                    lemma_values_of(items@);
                    lemma_values_of(items@.take(i as int + 1));
                    assert(values_of(items@).take(i as int + 1) =~= values_of(
                        items@.take(i as int + 1),
                    ));
                    lemma_comments_fail_for_good(values_of(items@), i as int + 1);
                }
                return Err(e.within_element(i));
            },
        }
        i += 1;
    }
    proof {
        assert(items@.take(items.len() as int) =~= items@);
    }
    Ok(out)
}

/// The comments that `value` lists: those of its elements where it is an
/// array of comments.
pub open spec fn listed_comments(value: JsonValue) -> Result<Seq<CommentView>, Seq<StepView>> {
    match value {
        JsonValue::Array(items) => decoded_comments(items),
        _ => Err(Seq::empty()),
    }
}

/// Decodes a list of comments.
pub fn comment_list(value: &Json) -> (r: Result<Vec<Comment>, DecodeError>)
    ensures
        list_outcome(r) == listed_comments(value@),
{
    match value {
        Json::Array(items) => comments_from(items),
        _ => Err(DecodeError::here()),
    }
}

/// Once a prefix of `items` fails to decode, the whole fails the same way.
pub proof fn lemma_comments_fail_for_good(items: Seq<JsonValue>, n: int)
    requires
        0 <= n <= items.len(),
        decoded_comments(items.take(n)) is Err,
    ensures
        decoded_comments(items) == decoded_comments(items.take(n)),
    decreases items.len() - n,
{
    if n < items.len() {
        assert(items.take(n + 1).drop_last() =~= items.take(n));
        lemma_comments_fail_for_good(items, n + 1);
    } else {
        assert(items.take(n) =~= items);
    }
}

impl Comment {
    /// A deep copy of the comment.
    pub fn duplicate(&self) -> (r: Comment)
        ensures
            r@ == self@,
        decreases self,
    {
        let reply_to_author = match &self.reply_to_author {
            Some(a) => Some(a.clone()),
            None => None,
        };
        Comment {
            id: self.id.clone(),
            author: self.author.clone(),
            reply_to_author,
            content: self.content.clone(),
            created_time: self.created_time,
            like_count: self.like_count,
            dislike_count: self.dislike_count,
            child_comments: duplicate_comments(&self.child_comments),
            child_comment_count: self.child_comment_count,
        }
    }

    /// The comment that `value` describes, replies included.
    pub open spec fn decoded(value: JsonValue) -> Result<CommentView, Seq<StepView>>
        decreases value,
    {
        match value {
            JsonValue::Object(e) => {
                let id = text_at(e, "id"@, "id"@, "id"@);
                let author = record_at(
                    lookup(e, "author"@, "author"@, "author"@),
                    "author"@,
                    AuthorView::empty(),
                    |v: JsonValue| Author::decoded(v),
                );
                let reply_to = optional_record_at(
                    lookup(e, "reply_to_author"@, "reply_to_author"@, "reply_to_author"@),
                    "reply_to_author"@,
                    |v: JsonValue| Author::decoded(v),
                );
                let content = text_at(e, "content"@, "content"@, "content"@);
                let created = int_at(
                    e,
                    "created_time"@,
                    "createdTime"@,
                    "createdTime"@,
                    i64::MIN as int,
                    i64::MAX as int,
                );
                let likes = int_at(
                    e,
                    "like_count"@,
                    "like_count"@,
                    "like_count"@,
                    0,
                    u32::MAX as int,
                );
                let dislikes = int_at(
                    e,
                    "dislike_count"@,
                    "dislike_count"@,
                    "dislike_count"@,
                    0,
                    u32::MAX as int,
                );
                let replies = replies_at(e);
                let reply_count = int_at(
                    e,
                    "child_comment_count"@,
                    "child_comment_count"@,
                    "child_comment_count"@,
                    0,
                    u32::MAX as int,
                );
                if id is Err {
                    Err(id->Err_0)
                } else if author is Err {
                    Err(author->Err_0)
                } else if reply_to is Err {
                    Err(reply_to->Err_0)
                } else if content is Err {
                    Err(content->Err_0)
                } else if created is Err {
                    Err(created->Err_0)
                } else if likes is Err {
                    Err(likes->Err_0)
                } else if dislikes is Err {
                    Err(dislikes->Err_0)
                } else if replies is Err {
                    Err(replies->Err_0)
                } else if reply_count is Err {
                    Err(reply_count->Err_0)
                } else {
                    Ok(
                        CommentView {
                            id: id->Ok_0,
                            author: author->Ok_0,
                            reply_to_author: reply_to->Ok_0,
                            content: content->Ok_0,
                            created_time: created->Ok_0,
                            like_count: likes->Ok_0 as nat,
                            dislike_count: dislikes->Ok_0 as nat,
                            child_comments: replies->Ok_0,
                            child_comment_count: reply_count->Ok_0 as nat,
                        },
                    )
                }
            },
            _ => Err(Seq::empty()),
        }
    }

    /// Decodes a comment object.
    pub fn from_json(value: &Json) -> (r: Result<Comment, DecodeError>)
        ensures
            outcome(r) == Comment::decoded(value@),
        decreases value,
    {
        match value {
            Json::Object(members) => {
                let id = text_field(members, "id", "id", "id")?;
                let author = match find(members, "author", "author", "author") {

                    Found::Absent => Author::default(),

                    Found::Once(v) => match Author::from_json(v) {

                        Ok(record) => record,

                        Err(e) => { return Err(e.within("author")); },

                    },

                    Found::Repeated(_) => { return Err(DecodeError::at_field("author")); },

                };
                let reply_to_author = author_field(members, "reply_to_author")?;
                let content = text_field(members, "content", "content", "content")?;
                let created_time = i64_field(
                    members,
                    "created_time",
                    "createdTime",
                    "createdTime",
                )?;
                let like_count = u32_field(members, "like_count", "like_count", "like_count")?;
                let dislike_count = u32_field(
                    members,
                    "dislike_count",
                    "dislike_count",
                    "dislike_count",
                )?;
                let child_comments = match find(
                    members,
                    "child_comments",
                    "child_comments",
                    "child_comments",
                ) {
                    Found::Absent => Vec::new(),
                    Found::Once(v) => match v {
                        Json::Array(items) => match comments_from(items) {
                            Ok(replies) => replies,
                            Err(e) => { return Err(e.within("child_comments")); },
                        },
                        _ => { return Err(DecodeError::at_field("child_comments")); },
                    },
                    Found::Repeated(_) => { return Err(DecodeError::at_field("child_comments")); },
                };
                let child_comment_count = u32_field(
                    members,
                    "child_comment_count",
                    "child_comment_count",
                    "child_comment_count",
                )?;
                proof {
                    assert(comment_views(Seq::<Comment>::empty()) =~= Seq::empty());
                }
                Ok(
                    Comment {
                        id,
                        author,
                        reply_to_author,
                        content,
                        created_time,
                        like_count,
                        dislike_count,
                        child_comments,
                        child_comment_count,
                    },
                )
            },
            _ => Err(DecodeError::here()),
        }
    }
}

/// One element of a search listing.
#[derive(Debug, Clone)]
pub enum SearchItem {
    /// An element that is neither of the two below.
    Unknown,
    /// A group of related queries, passed on as it came.
    RelevantQuery(Json),
    /// An answer or an article.
    SearchResult(TimelineItem),
}

pub enum SearchItemView {
    Unknown,
    RelevantQuery(JsonValue),
    SearchResult(TimelineItemView),
}

impl View for SearchItem {
    type V = SearchItemView;

    open spec fn view(&self) -> SearchItemView {
        match self {
            SearchItem::Unknown => SearchItemView::Unknown,
            SearchItem::RelevantQuery(q) => SearchItemView::RelevantQuery(q@),
            SearchItem::SearchResult(item) => SearchItemView::SearchResult(item@),
        }
    }
}

impl Default for SearchItem {
    fn default() -> (r: SearchItem)
        ensures
            r@ == SearchItemView::Unknown,
    {
        SearchItem::Unknown
    }
}

/// One page of a listing: its entries in upstream order, and where the
/// page stands.
#[derive(Debug, Clone)]
pub struct ApiResults<T> {
    pub data: Vec<T>,
    pub paging: Paging,
}

impl<T> Default for ApiResults<T> {
    fn default() -> (r: ApiResults<T>)
        ensures
            r.data@ == Seq::<T>::empty(),
            r.paging@ == PagingView::empty(),
    {
        ApiResults { data: Vec::new(), paging: Paging::default() }
    }
}

/// A record that can be decoded from a JSON value.
pub trait FromJson: View + Sized {
    /// The record that `value` describes, or the path to the first part
    /// of `value` that has the wrong shape for it.
    spec fn described_by(value: JsonValue) -> Result<Self::V, Seq<StepView>>;

    /// `null` describes no record.
    proof fn lemma_null_describes_nothing()
        ensures
            Self::described_by(JsonValue::Null) is Err,
    ;

    /// Decodes `value`.
    fn decode(value: &Json) -> (r: Result<Self, DecodeError>)
        ensures
            outcome(r) == Self::described_by(value@),
    ;
}

impl FromJson for Paging {
    open spec fn described_by(value: JsonValue) -> Result<PagingView, Seq<StepView>> {
        Paging::decoded(value)
    }

    proof fn lemma_null_describes_nothing() {
    }

    fn decode(value: &Json) -> (r: Result<Paging, DecodeError>) {
        Paging::from_json(value)
    }
}

impl FromJson for Question {
    open spec fn described_by(value: JsonValue) -> Result<QuestionView, Seq<StepView>> {
        Question::decoded(value)
    }

    proof fn lemma_null_describes_nothing() {
    }

    fn decode(value: &Json) -> (r: Result<Question, DecodeError>) {
        Question::from_json(value)
    }
}

impl FromJson for TimelineItem {
    open spec fn described_by(value: JsonValue) -> Result<TimelineItemView, Seq<StepView>> {
        TimelineItem::decoded(value)
    }

    proof fn lemma_null_describes_nothing() {
    }

    fn decode(value: &Json) -> (r: Result<TimelineItem, DecodeError>) {
        TimelineItem::from_json(value)
    }
}

impl FromJson for Comment {
    open spec fn described_by(value: JsonValue) -> Result<CommentView, Seq<StepView>> {
        Comment::decoded(value)
    }

    proof fn lemma_null_describes_nothing() {
    }

    fn decode(value: &Json) -> (r: Result<Comment, DecodeError>) {
        Comment::from_json(value)
    }
}

} // verus!
