use light_zhihu::emoji::{
    emoji_pattern, render_pieces, replacement_for, substitute_emoji, Emoji, EmojiTable,
};
use light_zhihu::pattern::{Captured, Pattern, Piece};
use light_zhihu::render::{render_html, settle, Site};
use light_zhihu::rewrite::{
    anchor_edits, figure_image_edits, inline_image_edits, link_card_edits, link_from,
    rewrite_link, rule_set, style_edits, wrapped_in, Edit, Link, Rule, Upstream,
};

fn table() -> Vec<Emoji> {
    vec![
        Emoji { code: "smile".to_string(), url: "https://pic.example.org/smile.png".to_string() },
        Emoji { code: "cry".to_string(), url: "https://pic.example.org/cry.png".to_string() },
    ]
}

fn site() -> Site {
    Site { emoji: EmojiTable::new(table()), upstream: Upstream::new("example.com") }
}

fn with_codes(html: &str, table: &Vec<Emoji>) -> String {
    substitute_emoji(html, &EmojiTable::new(table.clone()))
}

fn rewritten_link(href: &str) -> Link {
    rewrite_link(href, &Upstream::new("example.com"))
}

const SMILE: &str = r#"<img class="w-5 h-5 !my-0 mx-1 inline-block align-text-bottom" src="https://pic.example.org/smile.png"></img>"#;

fn set(name: &str, value: &str) -> String {
    format!("set {}={}", name, value)
}

fn shown(edits: &[Edit]) -> Vec<String> {
    edits
        .iter()
        .map(|edit| match edit {
            Edit::SetAttribute { name, value } => set(name, value),
            Edit::Before(m) => format!("before {}", m),
            Edit::After(m) => format!("after {}", m),
            Edit::Prepend(m) => format!("prepend {}", m),
            Edit::Append(m) => format!("append {}", m),
            Edit::Replace(m) => format!("replace {}", m),
            Edit::Remove => "remove".to_string(),
        })
        .collect()
}

#[test]
fn known_code_becomes_an_image_and_unknown_code_stays() {
    assert_eq!(with_codes("[smile]", &table()), SMILE);
    assert_eq!(with_codes("[not_a_real_code]", &table()), "[not_a_real_code]");
    assert_eq!(
        with_codes("a[smile]b[not_a_real_code]c[smile]", &table()),
        format!("a{}b[not_a_real_code]c{}", SMILE, SMILE)
    );
}

#[test]
fn emoji_pattern_has_one_alternative_for_each_row() {
    assert_eq!(emoji_pattern(&table()), r"(\[smile\])|(\[cry\])");
    assert_eq!(emoji_pattern(&table()[..1].to_vec()), r"(\[smile\])");
    assert_eq!(emoji_pattern(&Vec::new()), "");
}

#[test]
fn empty_table_leaves_the_text_alone() {
    assert_eq!(with_codes("a[smile]b", &Vec::new()), "a[smile]b");
    assert_eq!(with_codes("", &table()), "");
}

#[test]
fn replacement_of_a_stretch_without_a_row_is_the_stretch() {
    assert_eq!(replacement_for("[smile]", &table()), SMILE);
    assert_eq!(replacement_for("[nope]", &table()), "[nope]");
    assert_eq!(replacement_for("[[smile]]", &table()), "[[smile]]");
    assert_eq!(replacement_for("[]", &table()), "[]");
    assert_eq!(replacement_for("smile", &table()), "smile");
    assert_eq!(replacement_for("[smile", &table()), "[smile");
    assert_eq!(replacement_for("]", &table()), "]");
    assert_eq!(replacement_for("", &table()), "");
}

#[test]
fn codes_are_taken_to_the_letter() {
    let rows = vec![
        Emoji { code: "a.c".to_string(), url: "dot".to_string() },
        Emoji { code: "x+".to_string(), url: "plus".to_string() },
        Emoji { code: "[k]".to_string(), url: "nested".to_string() },
        Emoji { code: "(".to_string(), url: "open".to_string() },
    ];
    assert_eq!(emoji_pattern(&rows), r"(\[a\.c\])|(\[x\+\])|(\[\[k\]\])|(\[\(\])");
    let image = |url: &str| {
        format!(r#"<img class="w-5 h-5 !my-0 mx-1 inline-block align-text-bottom" src="{}"></img>"#, url)
    };
    assert_eq!(with_codes("[abc] [a.c]", &rows), format!("[abc] {}", image("dot")));
    assert_eq!(with_codes("[xx] [x+]", &rows), format!("[xx] {}", image("plus")));
    assert_eq!(with_codes("[[k]]", &rows), image("nested"));
    assert_eq!(with_codes("a[(]b", &rows), format!("a{}b", image("open")));
}

#[test]
fn pieces_are_put_together_in_order() {
    let pieces = vec![
        Piece { text: "x ".to_string(), matched: false },
        Piece { text: "[cry]".to_string(), matched: true },
        Piece { text: " [cry]".to_string(), matched: false },
    ];
    assert_eq!(
        render_pieces(&pieces, &table()),
        r#"x <img class="w-5 h-5 !my-0 mx-1 inline-block align-text-bottom" src="https://pic.example.org/cry.png"></img> [cry]"#
    );
}

#[test]
fn outbound_link_leads_to_the_wrapped_address() {
    let link = rewritten_link("https://link.example.com/?target=http%3A%2F%2Fexample.org");
    assert_eq!(link.href, "http://example.org");
    assert_eq!(link.class.as_deref(), Some("border-b-1 border-gray-400"));
}

#[test]
fn outbound_link_leads_to_the_value_of_its_target() {
    let to = |href: &str| rewritten_link(href).href;
    assert_eq!(
        to("https://link.example.com/?target=http%3A%2F%2Fexample.org%2Fa%3Fb%3D1&source=feed"),
        "http://example.org/a?b=1"
    );
    assert_eq!(
        to("https://link.example.com/?source=feed&target=https%3A//example.org/#top"),
        "https://example.org/"
    );
    assert_eq!(to("https://link.example.com/?target="), "");
    for href in [
        "https://link.example.com/",
        "https://link.example.com/?source=feed",
        "https://link.example.com/target=x",
        "https://link.example.com/?mytarget=x",
        "https://link.example.com/?target",
    ] {
        let link = rewritten_link(href);
        assert_eq!(link.href, href);
        assert_eq!(link.class, None);
    }
}

#[test]
fn wrapped_target_is_the_value_of_the_first_target() {
    let s = |t: &str| Some(t.to_string());
    assert_eq!(wrapped_in("?target=a"), s("a"));
    assert_eq!(wrapped_in("?target=a&target=b"), s("a"));
    assert_eq!(wrapped_in("?x=1&target=a%26b&y=2"), s("a%26b"));
    assert_eq!(wrapped_in("?target=a#f"), s("a"));
    assert_eq!(wrapped_in("p?target="), s(""));
    assert_eq!(wrapped_in("target=a"), None);
    assert_eq!(wrapped_in("?xtarget=a"), None);
    assert_eq!(wrapped_in("?target"), None);
    assert_eq!(wrapped_in(""), None);
}

#[test]
fn internal_link_leads_to_the_local_path() {
    let link = rewritten_link("https://www.example.com/question/1");
    assert_eq!(link.href, "/question/1");
    assert_eq!(link.class.as_deref(), Some("text-blue-600 underline"));
    let link = rewritten_link("http://zhuanlan.example.com/p/5?x=1#top");
    assert_eq!(link.href, "/p/5?x=1#top");
    let link = rewritten_link("https://a.b.example.com/");
    assert_eq!(link.href, "/");
    let link = rewritten_link("https://www.example.com/a\nb");
    assert_eq!(link.href, "/a\nb");
}

#[test]
fn foreign_link_stays_as_it_is() {
    for href in [
        "https://example.org/a",
        "/question/1",
        "",
        "mailto:a@example.com",
        "https://example.com/x",
        "https://wwwXexampleYcom/p/1",
        "https://www.exampleXcom/p/1",
        "https://other.org/a.example.com/x",
        "https://other.org/?u=https://www.example.com/x",
        "see https://www.example.com/a",
        "ftp://www.example.com/a",
        "https://www.example.com",
    ] {
        let link = rewritten_link(href);
        assert_eq!(link.href, href);
        assert_eq!(link.class, None);
    }
}

#[test]
fn outbound_link_that_does_not_decode_stays_as_it_is() {
    let href = "https://link.example.com/?target=%FF%FE";
    let link = rewritten_link(href);
    assert_eq!(link.href, href);
    assert_eq!(link.class, None);
}

#[test]
fn style_adds_to_the_classes_and_never_replaces_them() {
    assert_eq!(shown(&style_edits(None, "mt-2 break-all")), vec![set("class", "mt-2 break-all")]);
    assert_eq!(
        shown(&style_edits(Some("a b".to_string()), "hidden")),
        vec![set("class", "a b hidden")]
    );
    assert_eq!(shown(&style_edits(Some(String::new()), "x")), vec![set("class", "x")]);
}

#[test]
fn style_adds_its_classes_once() {
    let held = |class: &str, extra: &str| style_edits(Some(class.to_string()), extra).is_empty();
    assert!(held("mt-2 break-all", "mt-2 break-all"));
    assert!(held("x mt-2 break-all", "mt-2 break-all"));
    assert!(held("mt-2 break-all text-red-400 not-italic", "mt-2 break-all"));
    assert!(held("a mt-2 break-all b", "mt-2 break-all"));
    assert!(!held("mt-2 break-allx", "mt-2 break-all"));
    assert!(!held("xmt-2 break-all", "mt-2 break-all"));
    assert!(!held("break-all mt-2", "mt-2 break-all"));
    assert!(!held("mt-2", "mt-2 break-all"));
    assert!(!held("", "hidden"));
    assert_eq!(
        shown(&style_edits(Some("mt-2 break-allx".to_string()), "mt-2 break-all")),
        vec![set("class", "mt-2 break-allx mt-2 break-all")]
    );
}

#[test]
fn anchor_adds_the_style_before_it_sets_the_address() {
    let edits = anchor_edits(rewritten_link("https://www.example.com/p/1"), None);
    assert_eq!(shown(&edits), vec![set("class", "text-blue-600 underline"), set("href", "/p/1")]);
    let edits = anchor_edits(
        rewritten_link("https://www.example.com/p/1"),
        Some("x mt-2 break-all".to_string()),
    );
    assert_eq!(
        shown(&edits),
        vec![set("class", "x mt-2 break-all text-blue-600 underline"), set("href", "/p/1")]
    );
    let edits = anchor_edits(
        rewritten_link("https://www.example.com/p/1"),
        Some("text-blue-600 underline y".to_string()),
    );
    assert_eq!(
        shown(&edits),
        vec![set("class", "text-blue-600 underline y"), set("href", "/p/1")]
    );
    let edits = anchor_edits(rewritten_link("#top"), Some("x".to_string()));
    assert_eq!(shown(&edits), vec![set("href", "#top")]);
}

#[test]
fn figure_image_follows_the_chain_of_sources() {
    let s = |t: &str| Some(t.to_string());
    let plan = |a: Option<String>, o: Option<String>, g: Option<String>| {
        let edits = shown(&figure_image_edits(None, s("own.gif"), None, a, o, g));
        (edits[2].clone(), edits[3].clone())
    };
    let wrap = |to: &str| format!("before <a target=\"_blank\" href=\"{}\">", to);
    assert_eq!(plan(s("a"), s("o"), s("g")), (set("src", "a"), wrap("o")));
    assert_eq!(plan(s("a"), None, s("g")), (set("src", "a"), wrap("g")));
    assert_eq!(plan(s("a"), None, None), (set("src", "a"), wrap("a")));
    assert_eq!(plan(None, s("o"), s("g")), (set("src", "o"), wrap("o")));
    assert_eq!(plan(None, None, s("g")), (set("src", "g"), wrap("g")));
    assert_eq!(plan(None, None, None), (set("src", "own.gif"), wrap("own.gif")));
    let edits = shown(&figure_image_edits(None, None, s("x y"), s("a"), None, None));
    assert_eq!(edits[0], set("loading", "lazy"));
    assert_eq!(edits[1], set("class", "x y mx-auto"));
    assert_eq!(edits[4], "after </a>");
    assert_eq!(edits.len(), 5);
    let edits = shown(&figure_image_edits(None, None, None, None, None, None));
    assert_eq!(edits[1], set("class", "mx-auto"));
    assert_eq!(edits[2], set("src", ""));
    assert_eq!(edits[3], wrap(""));
}

#[test]
fn figure_image_that_is_ready_is_left_alone() {
    let s = |t: &str| Some(t.to_string());
    assert!(figure_image_edits(s("lazy"), s("a"), None, s("a"), s("o"), None).is_empty());
    assert!(figure_image_edits(s("lazy"), s("g"), s("c"), None, None, s("g")).is_empty());
    assert!(figure_image_edits(s("lazy"), s("own"), None, None, None, None).is_empty());
    assert_eq!(figure_image_edits(s("lazy"), s("o"), None, s("a"), s("o"), None).len(), 5);
    assert_eq!(figure_image_edits(s("eager"), s("a"), None, s("a"), None, None).len(), 5);
    assert_eq!(figure_image_edits(None, s("a"), None, s("a"), None, None).len(), 5);
    assert_eq!(figure_image_edits(s("lazy"), None, None, None, None, None).len(), 5);
}

#[test]
fn image_without_other_sources_keeps_its_own() {
    assert_eq!(
        render_html(r#"<figure><img src="own.jpg"></figure>"#, &site()),
        r#"<figure class="mt-2 break-all !my-6 flex flex-col-reverse"><a target="_blank" href="own.jpg"><img src="own.jpg" class="mt-2 break-all mx-auto" loading="lazy"></a></figure>"#
    );
}

#[test]
fn sticker_is_small_and_picture_is_bounded() {
    assert_eq!(
        shown(&inline_image_edits(Some("https://p/s.gif".to_string()), "width=\"80\"")),
        vec![r#"replace <img loading="lazy" src="https://p/s.gif" width="80" />"#.to_string()]
    );
    assert_eq!(
        shown(&inline_image_edits(Some("https://p/i.jpg".to_string()), "max-width=\"100%\"")),
        vec![r#"replace <img loading="lazy" src="https://p/i.jpg" max-width="100%" />"#.to_string()]
    );
    assert_eq!(
        shown(&inline_image_edits(None, "width=\"80\"")),
        vec![r#"replace <img loading="lazy" src="" width="80" />"#.to_string()]
    );
    assert_eq!(
        shown(&inline_image_edits(Some("https://p/#width#.gif".to_string()), "width=\"80\"")),
        vec![r#"replace <img loading="lazy" src="https://p/#width#.gif" width="80" />"#.to_string()]
    );
}

#[test]
fn link_card_gets_its_box_and_its_preview() {
    let card = "flex w-96 max-w-full p-4 bg-gray-100 rounded my-4 mx-auto no-underline cursor-pointer line-clamp-2";
    assert_eq!(
        shown(&link_card_edits(None, None, None)),
        vec![
            set("target", "_blank"),
            set("class", card),
            r#"prepend <div class="mr-auto text-sm text-gray-800"> "#.to_string(),
            "append </div>".to_string(),
        ]
    );
    let edits = shown(&link_card_edits(
        Some("_blank".to_string()),
        Some("x".to_string()),
        Some("p.png".to_string()),
    ));
    assert_eq!(edits[1], set("class", &format!("x {}", card)));
    assert_eq!(
        edits[3],
        r#"append </div><img class="w-16 h-16 object-cover rounded ml-1" loading="lazy" src="p.png" />"#
    );
}

#[test]
fn link_card_that_is_laid_out_is_left_alone() {
    let card = "flex w-96 max-w-full p-4 bg-gray-100 rounded my-4 mx-auto no-underline cursor-pointer line-clamp-2";
    let s = |t: &str| Some(t.to_string());
    assert!(link_card_edits(s("_blank"), s(card), None).is_empty());
    assert!(link_card_edits(s("_blank"), Some(format!("{} mt-2 break-all", card)), s("p")).is_empty());
    assert!(link_card_edits(s("_blank"), Some(format!("x {}", card)), None).is_empty());
    assert_eq!(link_card_edits(s("_self"), s(card), None).len(), 4);
    assert_eq!(link_card_edits(None, s(card), None).len(), 4);
    assert_eq!(link_card_edits(s("_blank"), Some(format!("{}x", card)), None).len(), 4);
    assert_eq!(link_card_edits(s("_blank"), None, None).len(), 4);
}

#[test]
fn rule_set_holds_the_rules_in_their_order() {
    let set = rule_set();
    let selectors: Vec<&str> = set.iter().map(|h| h.selector.as_str()).collect();
    assert_eq!(
        selectors,
        vec![
            "*", ".invisible", "em", "pre", "blockquote", "hr", "ol", "h2", "h3", "figure",
            "figcaption", "figure > noscript", "a[href]", "figure img",
            "a[class=\"comment_sticker\"]", "a[class=\"comment_img\"]",
            "a[data-draft-type=\"link-card\"]",
        ]
    );
    assert!(matches!(&set[0].rule, Rule::Style(c) if c == "mt-2 break-all"));
    assert!(matches!(&set[10].rule, Rule::Style(c) if c == "text-sm text-gray-400 text-center"));
    assert!(matches!(set[11].rule, Rule::Drop));
    assert!(matches!(set[12].rule, Rule::Anchor));
    assert!(matches!(set[13].rule, Rule::FigureImage));
    assert!(matches!(set[14].rule, Rule::Sticker));
    assert!(matches!(set[15].rule, Rule::CommentImage));
    assert!(matches!(set[16].rule, Rule::LinkCard));
}

#[test]
fn every_element_gains_the_baseline_classes() {
    assert_eq!(render_html("<p>hi</p>", &site()), r#"<p class="mt-2 break-all">hi</p>"#);
    assert_eq!(
        render_html(r#"<p class="x">hi</p>"#, &site()),
        r#"<p class="x mt-2 break-all">hi</p>"#
    );
    assert_eq!(render_html("plain text", &site()), "plain text");
    assert_eq!(render_html("", &site()), "");
}

#[test]
fn selected_elements_gain_their_classes() {
    assert_eq!(
        render_html("<em>x</em>", &site()),
        r#"<em class="mt-2 break-all text-red-400 not-italic">x</em>"#
    );
    assert_eq!(
        render_html(r#"<span class="invisible">x</span>"#, &site()),
        r#"<span class="invisible mt-2 break-all hidden">x</span>"#
    );
    assert_eq!(
        render_html("<h2>x</h2><hr>", &site()),
        r#"<h2 class="mt-2 break-all text-lg font-bold">x</h2><hr class="mt-2 break-all !my-12 w-1/2 mx-auto">"#
    );
    assert_eq!(
        render_html("<ol><li>x</li></ol>", &site()),
        r#"<ol class="mt-2 break-all list-decimal pl-4"><li class="mt-2 break-all">x</li></ol>"#
    );
}

#[test]
fn noscript_inside_a_figure_is_removed() {
    assert_eq!(
        render_html("<figure><noscript><img src=\"a\"></noscript><figcaption>c</figcaption></figure>", &site()),
        r#"<figure class="mt-2 break-all !my-6 flex flex-col-reverse"><figcaption class="mt-2 break-all text-sm text-gray-400 text-center">c</figcaption></figure>"#
    );
    assert_eq!(
        render_html("<noscript>x</noscript>", &site()),
        r#"<noscript class="mt-2 break-all">x</noscript>"#
    );
}

#[test]
fn anchors_are_rewritten_in_the_fragment() {
    assert_eq!(
        render_html(
            r#"<a href="https://link.example.com/?target=http%3A%2F%2Fexample.org">o</a>"#,
            &site()
        ),
        r#"<a href="http://example.org" class="mt-2 break-all border-b-1 border-gray-400">o</a>"#
    );
    assert_eq!(
        render_html(r#"<a href="https://www.example.com/question/1">q</a>"#, &site()),
        r#"<a href="/question/1" class="mt-2 break-all text-blue-600 underline">q</a>"#
    );
    assert_eq!(
        render_html(r#"<a href="https://other.org/x">q</a>"#, &site()),
        r#"<a href="https://other.org/x" class="mt-2 break-all">q</a>"#
    );
}

#[test]
fn image_in_a_figure_is_wrapped_in_a_link() {
    assert_eq!(
        render_html(
            r#"<figure><img src="t.gif" data-actualsrc="a.jpg" data-original="g.jpg"></figure>"#,
            &site()
        ),
        r#"<figure class="mt-2 break-all !my-6 flex flex-col-reverse"><a target="_blank" href="g.jpg"><img src="a.jpg" data-actualsrc="a.jpg" data-original="g.jpg" class="mt-2 break-all mx-auto" loading="lazy"></a></figure>"#
    );
}

#[test]
fn sticker_and_comment_image_replace_their_anchor() {
    assert_eq!(
        render_html(r#"<a class="comment_sticker" href="https://p.org/s.gif">[sticker]</a>"#, &site()),
        r#"<img loading="lazy" src="https://p.org/s.gif" width="80" />"#
    );
    assert_eq!(
        render_html(r#"x<a class="comment_img" href="https://p.org/i.jpg">see</a>y"#, &site()),
        r#"x<img loading="lazy" src="https://p.org/i.jpg" max-width="100%" />y"#
    );
}

#[test]
fn link_card_is_restructured() {
    assert_eq!(
        render_html(r#"<a data-draft-type="link-card" href="https://o.org/" data-image="p.png">T</a>"#, &site()),
        r#"<a data-draft-type="link-card" href="https://o.org/" data-image="p.png" class="mt-2 break-all flex w-96 max-w-full p-4 bg-gray-100 rounded my-4 mx-auto no-underline cursor-pointer line-clamp-2" target="_blank"><div class="mr-auto text-sm text-gray-800"> T</div><img class="w-16 h-16 object-cover rounded ml-1" loading="lazy" src="p.png" /></a>"#
    );
}

#[test]
fn emoji_images_are_styled_by_the_second_stage() {
    assert_eq!(
        render_html("a[smile]b", &site()),
        r#"a<img class="w-5 h-5 !my-0 mx-1 inline-block align-text-bottom mt-2 break-all" src="https://pic.example.org/smile.png"></img>b"#
    );
    assert_eq!(render_html("[not_a_real_code]", &site()), "[not_a_real_code]");
}

#[test]
fn rendering_its_own_output_keeps_the_structure() {
    let once = render_html(
        r#"<p>t[smile]</p><a href="https://www.example.com/question/1">q</a><figure><img data-original="g.jpg"></figure>"#,
        &site(),
    );
    let twice = render_html(&once, &site());
    for part in ["<p", "</p>", "<img", "<figure", "</figure>", "<a ", "</a>", "loading=\"lazy\""] {
        assert_eq!(twice.matches(part).count(), once.matches(part).count(), "{}", part);
    }
    assert_eq!(twice.matches("<img").count(), 2);
    assert_eq!(twice.matches("</a>").count(), 2);
    assert_eq!(twice.matches("href=\"/question/1\"").count(), 1);
    assert_eq!(twice.matches("text-blue-600 underline").count(), 1);
    assert_eq!(twice.matches("mx-auto").count(), 1);
    assert!(twice.contains("src=\"https://pic.example.org/smile.png\""));
    assert!(twice.contains("src=\"g.jpg\""));
    let thrice = render_html(&twice, &site());
    assert_eq!(thrice, twice);
}

#[test]
fn second_pass_wraps_a_figure_image_no_further() {
    let once = render_html(r#"<figure><img data-original="o.jpg"></figure>"#, &site());
    assert_eq!(
        once,
        r#"<figure class="mt-2 break-all !my-6 flex flex-col-reverse"><a target="_blank" href="o.jpg"><img data-original="o.jpg" class="mt-2 break-all mx-auto" loading="lazy" src="o.jpg"></a></figure>"#
    );
    let twice = render_html(&once, &site());
    assert_eq!(twice.matches("<a ").count(), 1);
    assert_eq!(twice.matches("</a>").count(), 1);
    assert_eq!(twice.matches("<img").count(), 1);
    assert_eq!(twice.matches("<figure").count(), 1);
    assert_eq!(
        twice,
        r#"<figure class="mt-2 break-all !my-6 flex flex-col-reverse"><a target="_blank" href="o.jpg" class="mt-2 break-all"><img data-original="o.jpg" class="mt-2 break-all mx-auto" loading="lazy" src="o.jpg"></a></figure>"#
    );
    assert_eq!(render_html(&twice, &site()), twice);
}

#[test]
fn second_pass_lays_a_link_card_out_no_further() {
    let once = render_html(
        r#"<a data-draft-type="link-card" href="https://o.org/" data-image="p.png">T</a>"#,
        &site(),
    );
    let twice = render_html(&once, &site());
    assert_eq!(twice.matches("<div").count(), 1);
    assert_eq!(twice.matches("</div>").count(), 1);
    assert_eq!(twice.matches("<img").count(), 1);
    assert_eq!(twice.matches("target=\"_blank\"").count(), 1);
    assert_eq!(twice.matches("flex w-96").count(), 1);
    assert_eq!(render_html(&twice, &site()), twice);
}

#[test]
fn second_pass_adds_no_class_again() {
    let once = render_html(r#"<em class="x">a</em><span class="invisible">b</span><hr>"#, &site());
    assert_eq!(render_html(&once, &site()), once);
    assert_eq!(once.matches("mt-2 break-all").count(), 3);
}

#[test]
fn code_between_texts_gives_way_to_its_image() {
    let out = render_html("hi [smile]!", &site());
    assert!(out.starts_with("hi "));
    assert!(out.ends_with("!"));
    assert!(!out.contains("[smile]"));
    assert_eq!(out.matches("<img").count(), 1);
    assert!(out.contains("src=\"https://pic.example.org/smile.png\""));
    assert_eq!(with_codes("hi [smile]!", &table()), format!("hi {}!", SMILE));
}

#[test]
fn first_row_of_a_code_counts() {
    let rows = vec![
        Emoji { code: "a".to_string(), url: "first".to_string() },
        Emoji { code: "b".to_string(), url: "other".to_string() },
        Emoji { code: "a".to_string(), url: "second".to_string() },
    ];
    let table = EmojiTable::new(rows);
    assert_eq!(table.address("a").map(|u| u.as_str()), Some("first"));
    assert_eq!(table.address("b").map(|u| u.as_str()), Some("other"));
    assert_eq!(table.address("c"), None);
    assert!(substitute_emoji("[a]", &table).contains("src=\"first\""));
}

#[test]
fn malformed_fragment_is_rendered_as_far_as_it_goes() {
    assert_eq!(render_html("<p>open", &site()), r#"<p class="mt-2 break-all">open"#);
    assert_eq!(render_html("a < b", &site()), "a < b");
    assert_eq!(render_html("</p>x", &site()), "</p>x");
}

#[test]
fn site_keeps_its_table_and_domain() {
    let site = site();
    assert_eq!(site.upstream.domain(), "example.com");
    assert_eq!(site.emoji.rows().len(), 2);
    assert_eq!(site.emoji.rows()[1].code, "cry");
}

#[test]
fn pattern_finds_the_leftmost_match_and_its_groups() {
    let pattern = Pattern::new("b(c+)(x)?");
    assert_eq!(pattern.source(), "b(c+)(x)?");
    let found = pattern.first_match("abccd bcx").unwrap();
    assert_eq!(found.before, "a");
    assert_eq!(found.after, "d bcx");
    assert_eq!(
        found.groups,
        vec![Some("bcc".to_string()), Some("cc".to_string()), None]
    );
    assert!(pattern.first_match("abd").is_none());
}

#[test]
fn pattern_cuts_a_text_at_its_matches() {
    let pieces = Pattern::new("[0-9]+").split("a12bc3").unwrap();
    let shown: Vec<(&str, bool)> = pieces.iter().map(|p| (p.text.as_str(), p.matched)).collect();
    assert_eq!(
        shown,
        vec![("a", false), ("12", true), ("bc", false), ("3", true), ("", false)]
    );
    let pieces = Pattern::new("x").split("abc").unwrap();
    assert_eq!(pieces.len(), 1);
    assert_eq!(pieces[0].text, "abc");
    assert!(!pieces[0].matched);
}

#[test]
fn text_that_is_no_pattern_matches_nothing() {
    let broken = Pattern::new("(");
    assert_eq!(broken.source(), "(");
    assert!(broken.first_match("(").is_none());
    assert!(broken.split("(").is_none());
}

#[test]
fn domain_is_taken_to_the_letter() {
    assert_eq!(
        Upstream::new("example.com").link_pattern(),
        r"(?s)^https?://([^/]*?)\.example\.com/(.*)"
    );
    assert_eq!(rewritten_link("https://wwwXexampleYcom/p/1").href, "https://wwwXexampleYcom/p/1");
    assert_eq!(rewrite_link("https://w.a(b/p", &Upstream::new("a(b")).href, "/p");
}

fn capture(before: &str, groups: &[Option<&str>], after: &str) -> Option<Captured> {
    Some(Captured {
        before: before.to_string(),
        groups: groups.iter().map(|g| g.map(|t| t.to_string())).collect(),
        after: after.to_string(),
    })
}

#[test]
fn link_is_made_from_what_the_pattern_found() {
    let whole = Some("https://www.example.com/p/1");
    let found = capture("<", &[whole, Some("www"), Some("p/1")], ">");
    let link = link_from("<https://www.example.com/p/1>", &found, &None);
    assert_eq!(link.href, "</p/1>");
    assert_eq!(link.class.as_deref(), Some("text-blue-600 underline"));

    let found = capture("", &[whole, Some("link"), Some("?target=x")], "");
    let link = link_from("h", &found, &Some("http://t".to_string()));
    assert_eq!(link.href, "http://t");
    assert_eq!(link.class.as_deref(), Some("border-b-1 border-gray-400"));
    let link = link_from("h", &found, &None);
    assert_eq!(link.href, "h");
    assert_eq!(link.class, None);

    let found = capture("", &[whole, Some("Link"), Some("x")], "");
    assert_eq!(link_from("h", &found, &Some("t".to_string())).href, "/x");
}

#[test]
fn link_stays_where_the_match_lacks_a_group() {
    for found in [
        None,
        capture("a", &[], "b"),
        capture("a", &[Some("w")], "b"),
        capture("a", &[Some("w"), Some("www")], "b"),
        capture("a", &[Some("w"), None, Some("p")], "b"),
        capture("a", &[Some("w"), Some("www"), None], "b"),
    ] {
        let link = link_from("kept", &found, &Some("t".to_string()));
        assert_eq!(link.href, "kept");
        assert_eq!(link.class, None);
    }
}

#[test]
fn settle_prefers_the_outcome_of_the_second_stage() {
    assert_eq!(settle("first".to_string(), Some("second".to_string())), "second");
    assert_eq!(settle("first".to_string(), None), "first");
}
