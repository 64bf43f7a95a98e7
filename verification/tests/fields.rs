use light_zhihu::decode::{
    push_decimal, read_i64, read_lenient_text, read_text, read_u32, read_u64, DecodeError, Step,
};
use light_zhihu::fields::{find, member_of, Found};
use light_zhihu::json::{Json, Member};
use light_zhihu::text::{alone_at, chars_of, has_words, matches_at, text_of};
use light_zhihu::types::{
    ApiResults, Attachment, Author, Comment, Kind, Paging, Question, SearchItem, TimelineItem,
};

fn member(name: &str, value: Json) -> Member {
    Member { name: name.to_string(), value }
}

#[test]
fn find_tells_absent_once_and_repeated_apart() {
    let members = vec![
        member("a", Json::Unsigned(1)),
        member("b", Json::Unsigned(2)),
        member("a", Json::Unsigned(3)),
        member("c", Json::Unsigned(4)),
    ];
    assert!(matches!(find(&members, "x", "y", "z"), Found::Absent));
    assert!(matches!(find(&members, "b", "b", "b"), Found::Once(Json::Unsigned(2))));
    assert!(matches!(find(&members, "x", "c", "x"), Found::Once(Json::Unsigned(4))));
    assert!(matches!(find(&members, "a", "a", "a"), Found::Repeated(Json::Unsigned(1))));
    assert!(matches!(find(&members, "c", "b", "x"), Found::Repeated(Json::Unsigned(2))));
    assert!(matches!(find(&Vec::new(), "a", "a", "a"), Found::Absent));
}

#[test]
fn member_of_gives_the_first_member_of_the_name() {
    let doc = Json::Object(vec![
        member("a", Json::Unsigned(1)),
        member("a", Json::Unsigned(3)),
        member("n", Json::Null),
    ]);
    assert!(matches!(member_of(&doc, "a"), Some(Json::Unsigned(1))));
    assert!(matches!(member_of(&doc, "n"), Some(Json::Null)));
    assert!(member_of(&doc, "b").is_none());
    assert!(member_of(&Json::Array(vec![doc]), "a").is_none());
    assert!(member_of(&Json::Null, "a").is_none());
}

#[test]
fn decimal_is_written_without_leading_zeros() {
    let written = |n: u64| {
        let mut out = String::from("n=");
        push_decimal(&mut out, n);
        out
    };
    assert_eq!(written(0), "n=0");
    assert_eq!(written(7), "n=7");
    assert_eq!(written(10), "n=10");
    assert_eq!(written(1234567890), "n=1234567890");
    assert_eq!(written(u64::MAX), "n=18446744073709551615");
}

#[test]
fn lenient_text_of_a_hand_built_non_negative_signed_number() {
    assert_eq!(read_lenient_text(&Json::Signed(5)), Some("5".to_string()));
    assert_eq!(read_lenient_text(&Json::Signed(0)), Some("0".to_string()));
    assert_eq!(read_lenient_text(&Json::Signed(i64::MAX)), Some("9223372036854775807".to_string()));
}

#[test]
fn text_helpers_work_by_character() {
    let chars = chars_of("[[é]]x");
    assert_eq!(chars, vec!['[', '[', 'é', ']', ']', 'x']);
    assert_eq!(text_of(&chars, 1, 4), "[é]");
    assert_eq!(text_of(&chars, 2, 2), "");
    assert!(matches_at(&chars, &chars_of("é]"), 2));
    assert!(!matches_at(&chars, &chars_of("é]"), 3));
    assert!(!matches_at(&chars, &chars_of("xy"), 5));
    assert!(matches_at(&chars, &Vec::new(), 6));
}

#[test]
fn kind_reads_the_discriminator() {
    let kind = |t: &str| TimelineItem { type_: t.to_string(), ..TimelineItem::default() }.kind();
    assert_eq!(kind("answer"), Kind::Answer);
    assert_eq!(kind("article"), Kind::Article);
    assert_eq!(kind("pin"), Kind::Unsupported);
    assert_eq!(kind(""), Kind::Unsupported);
    assert_eq!(kind("Answer"), Kind::Unsupported);
}

#[test]
fn defaults_are_blank() {
    let p = Paging::default();
    assert_eq!((p.is_end, p.is_start, p.next.as_str(), p.previous.as_str(), p.totals), (None, None, "", "", 0));
    let q = Question::default();
    assert_eq!((q.id.as_str(), q.title.as_str(), q.detail.as_str()), ("", "", ""));
    assert_eq!((q.answer_count, q.comment_count, q.voteup_count), (0, 0, 0));
    let a = Author::default();
    assert_eq!((a.avatar_url.as_str(), a.name.as_str(), a.headline.as_str()), ("", "", ""));
    let t = TimelineItem::default();
    assert_eq!(t.id, "");
    assert!(t.author.is_none() && t.question.is_none() && t.attachment.is_none());
    assert!(matches!(t.ext, Json::Null));
    let c = Comment::default();
    assert!(c.child_comments.is_empty());
    assert_eq!(c.child_comment_count, 0);
    let at = Attachment::default();
    assert_eq!(at.type_, "");
    assert!(at.video.video_info.playlist.sd.is_none());
    assert!(matches!(SearchItem::default(), SearchItem::Unknown));
    let page: ApiResults<TimelineItem> = ApiResults::default();
    assert!(page.data.is_empty());
    assert_eq!(page.paging.totals, 0);
}

#[test]
fn comment_clone_is_a_deep_copy() {
    let doc = Json::parse(r#"{"id": "c", "author": {"name": "A"}, "child_comments": [{"id": "r", "child_comments": [{"id": "rr"}]}]}"#).unwrap();
    let c = Comment::from_json(&doc).unwrap();
    let copy = c.clone();
    assert_eq!(format!("{:?}", copy), format!("{:?}", c));
    assert_eq!(copy.child_comments[0].child_comments[0].id, "rr");
}

#[test]
fn failure_paths_grow_from_the_inside_out() {
    assert!(DecodeError::here().path.is_empty());
    let inner = DecodeError::at_field("name");
    assert_eq!(inner.path, vec![Step::Field("name".to_string())]);
    let outer = inner.within_element(3).within("authors");
    assert_eq!(
        outer.path,
        vec![
            Step::Field("authors".to_string()),
            Step::Index(3),
            Step::Field("name".to_string())
        ]
    );
    assert_eq!(outer.to_text(), "authors[3].name");
    assert_eq!(DecodeError::here().within_element(0).to_text(), "[0]");
}

#[test]
fn whole_numbers_are_read_within_their_bounds() {
    assert_eq!(read_u64(&Json::Unsigned(u64::MAX)), Some(u64::MAX));
    assert_eq!(read_u64(&Json::Signed(7)), Some(7));
    assert_eq!(read_u64(&Json::Signed(-1)), None);
    assert_eq!(read_u64(&Json::Real("1.0".to_string())), None);
    assert_eq!(read_u64(&Json::Text("1".to_string())), None);
    assert_eq!(read_u32(&Json::Unsigned(4294967295)), Some(u32::MAX));
    assert_eq!(read_u32(&Json::Unsigned(4294967296)), None);
    assert_eq!(read_u32(&Json::Signed(-1)), None);
    assert_eq!(read_i64(&Json::Unsigned(9223372036854775807)), Some(i64::MAX));
    assert_eq!(read_i64(&Json::Unsigned(9223372036854775808)), None);
    assert_eq!(read_i64(&Json::Signed(i64::MIN)), Some(i64::MIN));
    assert_eq!(read_i64(&Json::Null), None);
    assert_eq!(read_text(&Json::Text("t".to_string())), Some("t".to_string()));
    assert_eq!(read_text(&Json::Null), None);
    assert_eq!(read_text(&Json::Unsigned(1)), None);
}

#[test]
fn words_are_held_only_as_whole_words() {
    assert!(has_words("a b c", "b"));
    assert!(has_words("a b c", "a b"));
    assert!(has_words("a b c", "b c"));
    assert!(has_words("a b c", "a b c"));
    assert!(!has_words("ab c", "b"));
    assert!(!has_words("a bc", "b"));
    assert!(!has_words("a b c", "a c"));
    assert!(!has_words("b", "a b"));
    assert!(has_words("", ""));
    assert!(has_words(" x", ""));
    assert!(!has_words("x", ""));
    assert!(!has_words("", "a"));
    let text = chars_of("ab cd");
    assert!(alone_at(&text, &chars_of("cd"), 3));
    assert!(alone_at(&text, &chars_of("ab"), 0));
    assert!(!alone_at(&text, &chars_of("b"), 1));
    assert!(!alone_at(&text, &chars_of("cd"), 2));
}

#[test]
fn lenient_text_of_a_number_that_is_not_whole() {
    assert_eq!(read_lenient_text(&Json::Real("2.50".to_string())), Some("2.5".to_string()));
    assert_eq!(read_lenient_text(&Json::Real("1e3".to_string())), Some("1000".to_string()));
    assert_eq!(read_lenient_text(&Json::Real("not a number".to_string())), None);
}
