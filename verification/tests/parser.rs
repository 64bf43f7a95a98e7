use light_zhihu::decode::{DecodeError, Step};
use light_zhihu::json::Json;
use light_zhihu::parser::{
    block_text, decode_entity, entity_of, judge, parse_entity_data, parse_inital_data,
    parse_search, parse_timeline, read_feed, read_search, Rejection, StateBlocks,
};
use light_zhihu::pattern::Captured;
use light_zhihu::types::{comment_list, Comment, Paging, Question, SearchItem, TimelineItem};

fn doc(text: &str) -> Json {
    Json::parse(text).expect("valid JSON")
}

#[test]
fn empty_data_gives_an_empty_page_with_decoded_paging() {
    let page = parse_timeline(&doc(
        r#"{"data": [], "paging": {"is_end": false, "next": "https://x/api?offset=5", "totals": 7}}"#,
    ));
    assert!(page.data.is_empty());
    assert_eq!(page.paging.is_end, Some(false));
    assert_eq!(page.paging.is_start, None);
    assert_eq!(page.paging.next, "https://x/api?offset=5");
    assert_eq!(page.paging.previous, "");
    assert_eq!(page.paging.totals, 7);
}

#[test]
fn empty_data_without_paging_gives_the_zeroed_paging() {
    let page = parse_timeline(&doc(r#"{"data": []}"#));
    assert!(page.data.is_empty());
    assert_eq!(page.paging.is_end, None);
    assert_eq!(page.paging.is_start, None);
    assert_eq!(page.paging.next, "");
    assert_eq!(page.paging.previous, "");
    assert_eq!(page.paging.totals, 0);
}

#[test]
fn invalid_paging_gives_the_zeroed_paging() {
    let page = parse_timeline(&doc(r#"{"data": [], "paging": {"totals": "many"}}"#));
    assert_eq!(page.paging.totals, 0);
    assert_eq!(page.paging.is_end, None);
    let page = parse_timeline(&doc(r#"{"data": [], "paging": 3}"#));
    assert_eq!(page.paging.totals, 0);
}

#[test]
fn a_value_that_is_no_object_gives_an_empty_page() {
    for text in ["null", "3", "\"x\"", "[1, 2]", "true"] {
        let page = parse_timeline(&doc(text));
        assert!(page.data.is_empty());
        assert_eq!(page.paging.totals, 0);
        let page = parse_search(&doc(text));
        assert!(page.data.is_empty());
    }
}

#[test]
fn one_malformed_element_among_three_is_left_out() {
    let page = parse_timeline(&doc(
        r#"{"data": [
            {"target": {"id": 1, "type": "answer"}},
            {"target": {"id": 2, "type": "answer", "voteup_count": "a lot"}},
            {"target": {"id": 3, "type": "article"}}
        ]}"#,
    ));
    assert_eq!(page.data.len(), 2);
    assert_eq!(page.data[0].id, "1");
    assert_eq!(page.data[1].id, "3");
}

#[test]
fn an_element_without_target_is_left_out() {
    let page = parse_timeline(&doc(
        r#"{"data": [{"other": 1}, 5, {"target": {"id": 9, "type": "answer"}}]}"#,
    ));
    assert_eq!(page.data.len(), 1);
    assert_eq!(page.data[0].id, "9");
}

#[test]
fn a_kind_outside_the_allow_list_is_left_out() {
    let page = parse_timeline(&doc(
        r#"{"data": [
            {"target": {"id": 1, "type": "pin", "url": "u", "voteup_count": 3}},
            {"target": {"id": 2, "type": "answer"}},
            {"target": {"id": 3}},
            {"target": {"id": 4, "type": "Answer"}}
        ]}"#,
    ));
    assert_eq!(page.data.len(), 1);
    assert_eq!(page.data[0].id, "2");
    assert_eq!(page.data[0].type_, "answer");
}

#[test]
fn id_as_number_and_as_string_normalise_alike() {
    let a = TimelineItem::from_json(&doc(r#"{"id": 123, "type": "answer"}"#)).unwrap();
    let b = TimelineItem::from_json(&doc(r#"{"id": "123", "type": "answer"}"#)).unwrap();
    assert_eq!(a.id, "123");
    assert_eq!(b.id, "123");
    let q = Question::from_json(&doc(r#"{"id": 123}"#)).unwrap();
    assert_eq!(q.id, "123");
}

#[test]
fn id_takes_every_scalar() {
    let id = |text: &str| TimelineItem::from_json(&doc(text)).ok().map(|item| item.id);
    assert_eq!(id(r#"{"id": 0}"#), Some("0".to_string()));
    assert_eq!(id(r#"{"id": 18446744073709551615}"#), Some("18446744073709551615".to_string()));
    assert_eq!(id(r#"{"id": -42}"#), Some("-42".to_string()));
    assert_eq!(
        id(r#"{"id": -9223372036854775808}"#),
        Some("-9223372036854775808".to_string())
    );
    assert_eq!(id(r#"{"id": true}"#), Some("true".to_string()));
    assert_eq!(id(r#"{"id": false}"#), Some("false".to_string()));
    assert_eq!(id(r#"{"id": null}"#), Some(String::new()));
    assert_eq!(id(r#"{"id": 1.5}"#), Some("1.5".to_string()));
    assert_eq!(id(r#"{"id": 1.0}"#), Some("1".to_string()));
    assert_eq!(id(r#"{"id": -0.25}"#), Some("-0.25".to_string()));
    assert_eq!(id(r#"{"id": 1e21}"#), Some("1000000000000000000000".to_string()));
    assert_eq!(id(r#"{"id": 18446744073709551616}"#), Some("18446744073709552000".to_string()));
    assert_eq!(id(r#"{}"#), Some(String::new()));
    assert_eq!(id(r#"{"id": [1]}"#), None);
    assert_eq!(id(r#"{"id": {"a": 1}}"#), None);
}

#[test]
fn entry_fields_answer_to_their_aliases() {
    let item = TimelineItem::from_json(&doc(
        r#"{"id": "7", "type": "article", "url": "u", "imageUrl": "img", "thumbnail": "t",
            "excerpt": "e", "content": "c", "title": "T",
            "question": {"id": 5, "name": "Q", "answerCount": 2, "commentCount": 3, "voteupCount": 4},
            "author": {"avatarUrl": "a.png", "name": "N", "headline": "H"},
            "createdTime": 10, "updated": 20, "voteupCount": 30, "commentCount": 40,
            "extra": [1, 2], "thumbnail_info": {"thumbnails": [{"url": "x"}]}}"#,
    ))
    .unwrap();
    assert_eq!(item.id, "7");
    assert_eq!(item.type_, "article");
    assert_eq!(item.url, "u");
    assert_eq!(item.image_url, "img");
    assert_eq!(item.thumbnail.as_deref(), Some("t"));
    assert_eq!(item.excerpt.as_deref(), Some("e"));
    assert_eq!(item.content.as_deref(), Some("c"));
    assert_eq!(item.title.as_deref(), Some("T"));
    let q = item.question.unwrap();
    assert_eq!(
        (q.id.as_str(), q.title.as_str(), q.answer_count, q.comment_count, q.voteup_count),
        ("5", "Q", 2, 3, 4)
    );
    let a = item.author.unwrap();
    assert_eq!((a.avatar_url.as_str(), a.name.as_str(), a.headline.as_str()), ("a.png", "N", "H"));
    assert_eq!(item.created_time, Some(10));
    assert_eq!(item.updated_time, Some(20));
    assert_eq!(item.voteup_count, 30);
    assert_eq!(item.comment_count, 40);
    match item.ext {
        Json::Object(members) => {
            let names: Vec<&str> = members.iter().map(|m| m.name.as_str()).collect();
            assert_eq!(names, vec!["extra", "thumbnail_info"]);
        }
        _ => panic!("ext is an object"),
    }
}

#[test]
fn a_field_given_under_two_names_refuses_the_record() {
    assert!(TimelineItem::from_json(&doc(r#"{"voteup_count": 1, "voteupCount": 1}"#)).is_err());
    assert!(Question::from_json(&doc(r#"{"title": "a", "name": "b"}"#)).is_err());
}

#[test]
fn a_field_of_the_wrong_shape_refuses_the_record() {
    assert!(Question::from_json(&doc(r#"{"title": 5}"#)).is_err());
    assert!(Question::from_json(&doc(r#"{"title": null}"#)).is_err());
    assert!(Question::from_json(&doc(r#"{"answer_count": -1}"#)).is_err());
    assert!(Question::from_json(&doc(r#"{"answer_count": 1.0}"#)).is_err());
    assert!(Question::from_json(&doc(r#"[]"#)).is_err());
    assert!(Question::from_json(&doc(r#"null"#)).is_err());
    assert!(TimelineItem::from_json(&doc(r#"{"created_time": 9223372036854775808}"#)).is_err());
    assert!(TimelineItem::from_json(&doc(r#"{"author": 5}"#)).is_err());
    assert!(TimelineItem::from_json(&doc(r#"{"author": null, "title": null}"#)).is_ok());
    assert!(Comment::from_json(&doc(r#"{"like_count": 4294967296}"#)).is_err());
    assert!(Comment::from_json(&doc(r#"{"like_count": 4294967295}"#)).is_ok());
    assert!(Comment::from_json(&doc(r#"{"author": null}"#)).is_err());
}

#[test]
fn search_keeps_queries_and_allowed_results_in_order() {
    let page = parse_search(&doc(
        r#"{"data": [
            {"type": "search_result", "object": {"id": 1, "type": "answer"}},
            {"type": "relevant_query", "query_list": [{"query": "a"}, {"query": "b"}]},
            {"type": "hot_timing", "object": {"id": 2, "type": "answer"}},
            {"type": "search_result", "object": {"id": 3, "type": "pin"}},
            {"type": "search_result", "object": {"id": 4, "type": "article", "voteup_count": []}},
            {"type": "search_result", "object": {"id": 5, "type": "article"}},
            {"type": "relevant_query"}
        ], "paging": {"is_end": true, "is_start": false}}"#,
    ));
    assert_eq!(page.data.len(), 4);
    assert!(matches!(&page.data[0], SearchItem::SearchResult(item) if item.id == "1"));
    match &page.data[1] {
        SearchItem::RelevantQuery(Json::Array(queries)) => assert_eq!(queries.len(), 2),
        _ => panic!("a group of queries"),
    }
    assert!(matches!(&page.data[2], SearchItem::SearchResult(item) if item.id == "5"));
    assert!(matches!(&page.data[3], SearchItem::RelevantQuery(Json::Null)));
    assert_eq!(page.paging.is_end, Some(true));
    assert_eq!(page.paging.is_start, Some(false));
}

const PAGE: &str = r#"<html><head><script id="js-initialData" type="text/json">{"initialState":{"entities":{"questions":{"42":{"id":42,"title":"Why?","detail":"<p>d</p>","answerCount":3,"commentCount":1,"voteupCount":9}},"answers":{}}}}</script></head></html>"#;

#[test]
fn entity_without_a_state_block_is_none() {
    let q: Option<Question> = parse_entity_data("<html><script>{}</script></html>", "questions", "42");
    assert!(q.is_none());
    assert!(parse_inital_data("<html></html>").is_none());
    assert!(parse_inital_data("").is_none());
}

#[test]
fn entity_with_a_missing_path_is_none() {
    let q: Option<Question> = parse_entity_data(PAGE, "questions", "43");
    assert!(q.is_none());
    let q: Option<Question> = parse_entity_data(PAGE, "articles", "42");
    assert!(q.is_none());
    let q: Option<Question> = parse_entity_data(PAGE, "answers", "42");
    assert!(q.is_none());
}

#[test]
fn entity_on_a_valid_path_matches_the_nested_json() {
    let q: Question = parse_entity_data(PAGE, "questions", "42").unwrap();
    assert_eq!(q.id, "42");
    assert_eq!(q.title, "Why?");
    assert_eq!(q.detail, "<p>d</p>");
    assert_eq!(q.answer_count, 3);
    assert_eq!(q.comment_count, 1);
    assert_eq!(q.voteup_count, 9);
}

#[test]
fn state_block_with_broken_json_is_none() {
    let html = r#"<script id="js-initialData" type="text/json">{"initialState":</script>"#;
    assert!(parse_inital_data(html).is_none());
    let q: Option<Question> = parse_entity_data(html, "questions", "42");
    assert!(q.is_none());
}

#[test]
fn state_block_holding_null_is_none() {
    let html = r#"<script id="js-initialData" type="text/json">null</script>"#;
    assert!(parse_inital_data(html).is_none());
}

#[test]
fn state_block_may_span_lines() {
    let html = "<script id=\"js-initialData\" type=\"text/json\">{\"a\":\n1}</script>";
    match parse_inital_data(html) {
        Some(Json::Object(members)) => {
            assert_eq!(members.len(), 1);
            assert_eq!(members[0].name, "a");
            assert!(matches!(members[0].value, Json::Unsigned(1)));
        }
        _ => panic!("an object"),
    }
    let html = "<html>\n<script id=\"js-initialData\" type=\"text/json\">\n{\"initialState\": {\"entities\":\n {\"questions\": {\"7\": {\"id\": 7,\n \"title\": \"T\"}}}}}\n</script>\n<script>x</script></html>";
    let q: Question = parse_entity_data(html, "questions", "7").unwrap();
    assert_eq!(q.id, "7");
    assert_eq!(q.title, "T");
}

#[test]
fn initial_data_is_the_document_of_the_first_block() {
    let html = r#"x<script id="js-initialData" type="text/json">{"a":1}</script>y<script id="js-initialData" type="text/json">{"b":2}</script>"#;
    match parse_inital_data(html) {
        Some(Json::Object(members)) => {
            assert_eq!(members.len(), 1);
            assert_eq!(members[0].name, "a");
        }
        _ => panic!("an object"),
    }
}

#[test]
fn comment_keeps_the_order_of_its_replies() {
    let c = Comment::from_json(&doc(
        r#"{"id": "c1", "content": "top", "createdTime": 5, "like_count": 1,
            "author": {"name": "A"}, "reply_to_author": {"name": "B"},
            "child_comment_count": 5,
            "child_comments": [
                {"id": "z", "child_comments": [{"id": "z1"}, {"id": "z0"}]},
                {"id": "a"},
                {"id": "m"}
            ]}"#,
    ))
    .unwrap();
    assert_eq!(c.id, "c1");
    assert_eq!(c.content, "top");
    assert_eq!(c.created_time, 5);
    assert_eq!(c.like_count, 1);
    assert_eq!(c.dislike_count, 0);
    assert_eq!(c.author.name, "A");
    assert_eq!(c.reply_to_author.as_ref().unwrap().name, "B");
    assert_eq!(c.child_comment_count, 5);
    let ids: Vec<&str> = c.child_comments.iter().map(|r| r.id.as_str()).collect();
    assert_eq!(ids, vec!["z", "a", "m"]);
    let nested: Vec<&str> = c.child_comments[0].child_comments.iter().map(|r| r.id.as_str()).collect();
    assert_eq!(nested, vec!["z1", "z0"]);
}

#[test]
fn comment_with_a_malformed_reply_is_refused() {
    assert!(Comment::from_json(&doc(r#"{"id": "c", "child_comments": [{"id": "a"}, {"id": 3}]}"#)).is_err());
    assert!(Comment::from_json(&doc(r#"{"id": "c", "child_comments": {"id": "a"}}"#)).is_err());
    assert!(Comment::from_json(&doc(r#"{"id": 3}"#)).is_err());
}

fn field(name: &str) -> Step {
    Step::Field(name.to_string())
}

fn path_of<T>(r: Result<T, DecodeError>) -> Vec<Step> {
    match r {
        Ok(_) => panic!("decoded"),
        Err(e) => e.path,
    }
}

#[test]
fn failure_names_the_field_of_the_wrong_shape() {
    assert_eq!(path_of(Question::from_json(&doc(r#"{"title": 5}"#))), vec![field("title")]);
    assert_eq!(
        path_of(Question::from_json(&doc(r#"{"voteupCount": "x"}"#))),
        vec![field("voteup_count")]
    );
    assert_eq!(
        path_of(TimelineItem::from_json(&doc(r#"{"voteup_count": 1, "voteupCount": 1}"#))),
        vec![field("voteup_count")]
    );
    assert_eq!(path_of(Paging::from_json(&doc(r#"{"is_end": 0}"#))), vec![field("is_end")]);
}

#[test]
fn failure_of_the_value_itself_has_the_empty_path() {
    assert_eq!(path_of(Question::from_json(&doc("[]"))), Vec::new());
    assert_eq!(path_of(TimelineItem::from_json(&doc("null"))), Vec::new());
    assert_eq!(path_of(comment_list(&doc("{}"))), Vec::new());
}

#[test]
fn failure_is_the_first_in_the_order_of_the_fields() {
    assert_eq!(
        path_of(Question::from_json(&doc(r#"{"voteup_count": "x", "detail": 1, "title": 2}"#))),
        vec![field("title")]
    );
}

#[test]
fn failure_inside_a_record_is_led_by_its_field() {
    assert_eq!(
        path_of(TimelineItem::from_json(&doc(r#"{"author": {"name": 3}}"#))),
        vec![field("author"), field("name")]
    );
    assert_eq!(
        path_of(TimelineItem::from_json(&doc(
            r#"{"attachment": {"type": "video", "video": {"videoInfo": {"playlist": {"hd": {"url": 1}}}}}}"#
        ))),
        vec![field("attachment"), field("video"), field("video_info"), field("playlist"), field("hd"), field("url")]
    );
    assert_eq!(
        path_of(TimelineItem::from_json(&doc(r#"{"question": 5}"#))),
        vec![field("question")]
    );
}

#[test]
fn failure_inside_a_list_is_led_by_the_first_failing_index() {
    let r = Comment::from_json(&doc(
        r#"{"id": "c", "child_comments": [{"id": "a"}, {"id": 3}, {"id": 4}]}"#,
    ));
    assert_eq!(path_of(r), vec![field("child_comments"), Step::Index(1), field("id")]);
    let r = Comment::from_json(&doc(
        r#"{"id": "c", "child_comments": [{"id": "a", "child_comments": [{"id": "b"}, 7]}]}"#,
    ));
    assert_eq!(
        path_of(r),
        vec![field("child_comments"), Step::Index(0), field("child_comments"), Step::Index(1)]
    );
    assert_eq!(
        path_of(comment_list(&doc(r#"[{"id": "a"}, {"like_count": -1}]"#))),
        vec![Step::Index(1), field("like_count")]
    );
}

#[test]
fn failure_is_written_as_a_dotted_path() {
    let text = |r: Result<Comment, DecodeError>| r.unwrap_err().to_text();
    assert_eq!(text(Comment::from_json(&doc("3"))), ".");
    assert_eq!(text(Comment::from_json(&doc(r#"{"id": 3}"#))), "id");
    assert_eq!(text(Comment::from_json(&doc(r#"{"author": {"name": 3}}"#))), "author.name");
    assert_eq!(
        text(Comment::from_json(&doc(
            r#"{"child_comments": [{}, {}, {}, {}, {}, {}, {}, {}, {}, {}, {}, {}, {"author": {"headline": 1}}]}"#
        ))),
        "child_comments[12].author.headline"
    );
    let list = comment_list(&doc(r#"[{"id": 0}]"#)).unwrap_err();
    assert_eq!(list.to_text(), "[0].id");
}

#[test]
fn comment_list_decodes_in_order() {
    let list = comment_list(&doc(r#"[{"id": "b"}, {"id": "a"}]"#)).unwrap();
    let ids: Vec<&str> = list.iter().map(|c| c.id.as_str()).collect();
    assert_eq!(ids, vec!["b", "a"]);
    assert!(comment_list(&doc("[]")).unwrap().is_empty());
}

#[test]
fn feed_accounts_for_what_it_leaves_out() {
    let report = read_feed(&doc(
        r#"{"data": [
            {"target": {"id": 1, "type": "answer"}},
            {"target": {"id": 2, "type": "pin"}},
            {"target": {"id": 3, "type": "answer", "author": {"name": []}}},
            7,
            {"target": {"id": 5, "type": "article"}}
        ], "paging": {"totals": 5}}"#,
    ));
    let ids: Vec<&str> = report.page.data.iter().map(|i| i.id.as_str()).collect();
    assert_eq!(ids, vec!["1", "5"]);
    assert_eq!(report.page.paging.totals, 5);
    assert_eq!(report.rejected.len(), 3);
    assert_eq!(report.rejected[0].index, 1);
    assert!(matches!(&report.rejected[0].cause, Rejection::Unsupported(kind) if kind == "pin"));
    assert_eq!(report.rejected[1].index, 2);
    assert!(matches!(
        &report.rejected[1].cause,
        Rejection::Malformed(e) if e.path == vec![field("author"), field("name")]
    ));
    assert_eq!(report.rejected[2].index, 3);
    assert!(matches!(&report.rejected[2].cause, Rejection::Malformed(e) if e.path.is_empty()));
}

#[test]
fn search_accounts_for_the_results_it_leaves_out() {
    let report = read_search(&doc(
        r#"{"data": [
            {"type": "other"},
            {"type": "search_result", "object": {"type": "video"}},
            {"type": "relevant_query", "query_list": []},
            {"type": "search_result"},
            {"type": "search_result", "object": {"id": 9, "type": "answer"}}
        ]}"#,
    ));
    assert_eq!(report.page.data.len(), 2);
    assert_eq!(report.rejected.len(), 2);
    assert_eq!(report.rejected[0].index, 1);
    assert!(matches!(&report.rejected[0].cause, Rejection::Unsupported(kind) if kind == "video"));
    assert_eq!(report.rejected[1].index, 3);
    assert!(matches!(&report.rejected[1].cause, Rejection::Malformed(e) if e.path.is_empty()));
}

#[test]
fn judge_takes_a_missing_payload_for_null() {
    assert!(matches!(judge(None), Err(Rejection::Malformed(e)) if e.path.is_empty()));
    assert!(matches!(judge(Some(&Json::Null)), Err(Rejection::Malformed(e)) if e.path.is_empty()));
    assert!(matches!(judge(Some(&doc(r#"{"type": "article"}"#))), Ok(item) if item.type_ == "article"));
    assert!(matches!(judge(Some(&doc(r#"{}"#))), Err(Rejection::Unsupported(kind)) if kind.is_empty()));
}

#[test]
fn entity_is_found_along_its_path() {
    let state = doc(r#"{"initialState": {"entities": {"answers": {"7": {"id": 7, "type": "answer"}}, "questions": null}}}"#);
    assert!(matches!(entity_of(&state, "answers", "7"), Some(Json::Object(_))));
    assert!(entity_of(&state, "answers", "8").is_none());
    assert!(entity_of(&state, "questions", "7").is_none());
    assert!(entity_of(&state, "articles", "7").is_none());
    assert!(entity_of(&Json::Null, "answers", "7").is_none());
    let item: TimelineItem = decode_entity(&state, "answers", "7").unwrap();
    assert_eq!(item.id, "7");
    let missing: Result<TimelineItem, DecodeError> = decode_entity(&state, "answers", "8");
    assert!(missing.unwrap_err().path.is_empty());
    let wrong: Result<Question, DecodeError> = decode_entity(
        &doc(r#"{"initialState": {"entities": {"questions": {"1": {"title": 1}}}}}"#),
        "questions",
        "1",
    );
    assert_eq!(wrong.unwrap_err().path, vec![field("title")]);
}

#[test]
fn one_reader_serves_many_pages() {
    let reader = StateBlocks::new();
    let q: Question = reader.entity_data(PAGE, "questions", "42").unwrap();
    assert_eq!(q.title, "Why?");
    assert!(reader.entity_data::<Question>(PAGE, "questions", "1").is_none());
    assert!(reader.initial_data("<p>nothing</p>").is_none());
    assert!(matches!(reader.initial_data(PAGE), Some(Json::Object(_))));
    assert_eq!(
        reader.text_in(r#"a<script id="js-initialData" type="text/json">[1]</script>b"#).as_deref(),
        Some("[1]")
    );
    assert_eq!(
        reader.text_in(r#"<script id="js-initialData" type="text/json"></script>"#).as_deref(),
        Some("")
    );
    assert_eq!(reader.text_in(r#"<script type="text/json">[1]</script>"#), None);
}

#[test]
fn block_text_is_the_first_group_of_the_match() {
    let found = |groups: Vec<Option<String>>| {
        Some(Captured { before: "b".to_string(), groups, after: "a".to_string() })
    };
    let s = |t: &str| Some(t.to_string());
    assert_eq!(block_text(found(vec![s("<x>y</x>"), s("y")])), s("y"));
    assert_eq!(block_text(found(vec![s("<x>y</x>"), s("y"), s("z")])), s("y"));
    assert_eq!(block_text(found(vec![s("whole"), None])), None);
    assert_eq!(block_text(found(vec![s("whole")])), None);
    assert_eq!(block_text(found(Vec::new())), None);
    assert_eq!(block_text(None), None);
}
