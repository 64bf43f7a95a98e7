use light_zhihu::display::{
    answer_text, attached, day_of, entry_thumbnail, entry_title, related_queries, summary_text,
    time, Attached,
};
use light_zhihu::json::Json;
use light_zhihu::links::{
    comments_href, entry_links, next_href, page_link, paging_href, previous_href,
    question_comments_href, question_href, replies_href, search_href,
};
use light_zhihu::types::{Comment, Paging, Question, TimelineItem};

fn doc(text: &str) -> Json {
    Json::parse(text).expect("valid JSON")
}

fn item(text: &str) -> TimelineItem {
    TimelineItem::from_json(&doc(text)).expect("an entry")
}

#[test]
fn paging_href_carries_the_upstream_query() {
    assert_eq!(
        paging_href("https://www.example.com/api/v4/questions/1/feeds?cursor=abc&limit=5", "/question/1"),
        "/question/1?cursor=abc&limit=5"
    );
    assert_eq!(paging_href("https://www.example.com/api", "/search"), "/search?");
    assert_eq!(paging_href("/feeds?offset=10", "/q"), "/q?offset=10");
}

#[test]
fn paging_href_of_no_address_is_the_bare_path() {
    assert_eq!(paging_href("", "/question/1"), "/question/1");
    assert_eq!(paging_href("not a uri", "/p"), "/p");
}

#[test]
fn page_link_tells_no_query_from_no_address() {
    assert_eq!(page_link("/p", &None), "/p");
    assert_eq!(page_link("/p", &Some(None)), "/p?");
    assert_eq!(page_link("/p", &Some(Some("a=1".to_string()))), "/p?a=1");
}

#[test]
fn link_to_a_neighbouring_page_needs_an_explicit_false() {
    let paging = |start: Option<bool>, end: Option<bool>| Paging {
        is_start: start,
        is_end: end,
        previous: "https://u.example.com/l?page=1".to_string(),
        next: "https://u.example.com/l?page=3".to_string(),
        totals: 0,
    };
    let p = paging(Some(false), Some(false));
    assert_eq!(previous_href(&p, "/l").as_deref(), Some("/l?page=1"));
    assert_eq!(next_href(&p, "/l").as_deref(), Some("/l?page=3"));
    let p = paging(Some(true), Some(true));
    assert_eq!(previous_href(&p, "/l"), None);
    assert_eq!(next_href(&p, "/l"), None);
    let p = paging(None, None);
    assert_eq!(previous_href(&p, "/l"), None);
    assert_eq!(next_href(&p, "/l"), None);
    let p = paging(None, Some(false));
    assert_eq!(previous_href(&p, "/l"), None);
    assert_eq!(next_href(&p, "/l").as_deref(), Some("/l?page=3"));
}

#[test]
fn answer_is_linked_under_its_question() {
    let links = entry_links(&item(r#"{"id": 7, "type": "answer", "question": {"id": 3}}"#)).unwrap();
    assert_eq!(links.body, "/question/3/answer/7");
    assert_eq!(links.title, "/question/3");
    assert!(entry_links(&item(r#"{"id": 7, "type": "answer"}"#)).is_none());
}

#[test]
fn anything_but_an_answer_is_linked_as_an_article() {
    let links = entry_links(&item(r#"{"id": 9, "type": "article", "question": {"id": 3}}"#)).unwrap();
    assert_eq!(links.body, "/p/9");
    assert_eq!(links.title, "/p/9");
    let links = entry_links(&item(r#"{"id": "x"}"#)).unwrap();
    assert_eq!(links.body, "/p/x");
}

#[test]
fn comment_links_name_the_kind_of_their_subject() {
    assert_eq!(comments_href(&item(r#"{"id": 7, "type": "answer"}"#)), "/comment/root/7");
    assert_eq!(
        comments_href(&item(r#"{"id": 7, "type": "article"}"#)),
        "/comment/root/7?type=articles"
    );
    let q = Question::from_json(&doc(r#"{"id": 12}"#)).unwrap();
    assert_eq!(question_comments_href(&q), "/comment/root/12?type=questions");
    assert_eq!(question_href(&q), "/question/12");
    assert_eq!(search_href("rust verus"), "/search?q=rust verus");
}

#[test]
fn replies_are_linked_when_more_than_two_are_reported() {
    let c = |n: u32| Comment::from_json(&doc(&format!(r#"{{"id": "c9", "child_comment_count": {}}}"#, n))).unwrap();
    assert_eq!(replies_href(&c(3), true).as_deref(), Some("/comment/child/c9"));
    assert_eq!(replies_href(&c(2), true), None);
    assert_eq!(replies_href(&c(0), true), None);
    assert_eq!(replies_href(&c(3), false), None);
}

#[test]
fn shown_texts_fall_back_on_each_other() {
    let both = item(r#"{"content": "C", "excerpt": "E", "title": "T", "question": {"title": "Q"}}"#);
    assert_eq!(answer_text(&both), "C");
    assert_eq!(summary_text(&both), "E");
    assert_eq!(entry_title(&both), "T");
    let one = item(r#"{"excerpt": "E", "question": {"title": "Q"}}"#);
    assert_eq!(answer_text(&one), "E");
    assert_eq!(summary_text(&one), "E");
    assert_eq!(entry_title(&one), "Q");
    let other = item(r#"{"content": "C"}"#);
    assert_eq!(answer_text(&other), "C");
    assert_eq!(summary_text(&other), "C");
    assert_eq!(entry_title(&other), "");
    let none = item(r#"{}"#);
    assert_eq!(answer_text(&none), "");
    assert_eq!(summary_text(&none), "");
}

#[test]
fn thumbnail_prefers_what_the_payload_carries() {
    let carried = item(
        r#"{"thumbnail": "t.png", "thumbnail_info": {"thumbnails": [{"url": "first.png"}, {"url": "second.png"}]}}"#,
    );
    assert_eq!(entry_thumbnail(&carried), Some("first.png"));
    assert_eq!(entry_thumbnail(&item(r#"{"thumbnail": "t.png"}"#)), Some("t.png"));
    assert_eq!(
        entry_thumbnail(&item(r#"{"thumbnail": "t.png", "thumbnail_info": {"thumbnails": []}}"#)),
        Some("t.png")
    );
    assert_eq!(
        entry_thumbnail(&item(r#"{"thumbnail_info": {"thumbnails": [{"url": 5}]}}"#)),
        None
    );
    assert_eq!(entry_thumbnail(&item(r#"{}"#)), None);
    assert_eq!(entry_thumbnail(&TimelineItem::default()), None);
}

#[test]
fn video_attachment_picks_its_renditions() {
    let shown = |text: &str| attached(&item(text).attachment);
    match shown(
        r#"{"attachment": {"type": "video", "video": {"title": "V", "playCount": 12,
            "videoInfo": {"thumbnail": "p.png", "playlist": {"ld": {"url": "l"}, "sd": {"url": "s"}, "hd": {"url": "h"}}}}}}"#,
    ) {
        Attached::Video { title, play_count, poster, play, link } => {
            assert_eq!(title, "V");
            assert_eq!(play_count, 12);
            assert_eq!(poster, "p.png");
            assert_eq!(play.as_deref(), Some("s"));
            assert_eq!(link.as_deref(), Some("h"));
        }
        _ => panic!("a video"),
    }
    match shown(r#"{"attachment": {"type": "video", "video": {"video_info": {"playlist": {"ld": {"url": "l"}}}}}}"#) {
        Attached::Video { play, link, .. } => {
            assert_eq!(play.as_deref(), Some("l"));
            assert_eq!(link.as_deref(), Some("l"));
        }
        _ => panic!("a video"),
    }
    match shown(r#"{"attachment": {"type": "video"}}"#) {
        Attached::Video { title, play_count, play, link, .. } => {
            assert_eq!(title, "");
            assert_eq!(play_count, 0);
            assert_eq!(play, None);
            assert_eq!(link, None);
        }
        _ => panic!("a video"),
    }
}

#[test]
fn other_attachments_are_named_and_not_shown() {
    assert!(matches!(attached(&item(r#"{}"#).attachment), Attached::Nothing));
    assert!(matches!(attached(&item(r#"{"attachment": null}"#).attachment), Attached::Nothing));
    assert!(matches!(
        attached(&item(r#"{"attachment": {"type": "poll"}}"#).attachment),
        Attached::Unsupported(kind) if kind == "poll"
    ));
}

#[test]
fn related_queries_come_in_order() {
    assert_eq!(
        related_queries(&doc(r#"[{"query": "a"}, {"query": 5}, {"other": "x"}, 3, {"query": "b"}]"#)),
        vec!["a".to_string(), "b".to_string()]
    );
    assert!(related_queries(&doc(r#"{"query": "a"}"#)).is_empty());
    assert!(related_queries(&Json::Null).is_empty());
}

#[test]
fn time_writes_the_day_in_utc() {
    assert_eq!(time(0), "1970-01-01");
    assert_eq!(time(1673495514), "2023-01-12");
    assert_eq!(time(86399), "1970-01-01");
    assert_eq!(time(86400), "1970-01-02");
    assert_eq!(time(-1), "1969-12-31");
    assert_eq!(day_of(951782400).as_deref(), Some("2000-02-29"));
}

#[test]
fn day_of_a_timestamp_out_of_range_is_none() {
    assert_eq!(day_of(i64::MAX), None);
    assert_eq!(day_of(i64::MIN), None);
}
