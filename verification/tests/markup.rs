use nickmass_com::markup::{chars_of, expand_youtube, opens_tag, write_embed};

fn embed(id: &str) -> String {
    format!(
        r#"
<div class="youtube-container">
    <a class="youtube-link" href="https://www.youtube.com/watch?v={video_id}" target="_blank" rel="noopener noreferrer" data-video-id="{video_id}">
        <img src="https://img.youtube.com/vi/{video_id}/hqdefault.jpg" alt="YouTube embedded video">
        <div class="youtube-play-button"></div>
    </a>
</div>"#,
        video_id = id
    )
}

#[test]
fn html_without_tags_is_kept() {
    for html in ["", "<p>hello</p>", "<youtube>", "youtube:abc>", "< youtube:abc>", "h\u{e9}llo \u{1f600}"] {
        assert_eq!(expand_youtube(html), html);
    }
}

#[test]
fn tag_gives_way_to_the_link() {
    assert_eq!(expand_youtube("<youtube:dQw4w9WgXcQ>"), embed("dQw4w9WgXcQ"));
    assert_eq!(
        expand_youtube("<p>a</p><youtube:abc><p>b</p>"),
        format!("<p>a</p>{}<p>b</p>", embed("abc"))
    );
}

#[test]
fn embed_is_written_as_the_page_needs_it() {
    let mut out = "x".to_string();
    write_embed(&mut out, "abc");
    assert_eq!(out, format!("x{}", embed("abc")));
    assert!(out.contains("href=\"https://www.youtube.com/watch?v=abc\""));
    assert!(out.contains("data-video-id=\"abc\""));
    assert!(out.contains("src=\"https://img.youtube.com/vi/abc/hqdefault.jpg\""));
    assert!(out.ends_with("</div>"));
}

#[test]
fn several_tags() {
    assert_eq!(
        expand_youtube("<youtube:a> and <youtube:b>"),
        format!("{} and {}", embed("a"), embed("b"))
    );
    assert_eq!(
        expand_youtube("<youtube:a><youtube:b>"),
        format!("{}{}", embed("a"), embed("b"))
    );
}

#[test]
fn empty_name() {
    assert_eq!(expand_youtube("<youtube:>"), embed(""));
}

#[test]
fn colon_in_a_name_is_dropped() {
    assert_eq!(expand_youtube("<youtube:a:b>"), embed("ab"));
    assert_eq!(expand_youtube("<youtube::>"), embed(""));
}

#[test]
fn tag_that_is_not_closed_runs_to_the_end() {
    assert_eq!(expand_youtube("<p>x</p><youtube:abc"), format!("<p>x</p>{}", embed("abc")));
    assert_eq!(expand_youtube("<youtube:abc</p>tail"), format!("{}tail", embed("abc</p")));
    assert_eq!(expand_youtube("<youtube:"), embed(""));
}

#[test]
fn tag_opening_inside_a_tag_is_part_of_the_name() {
    assert_eq!(expand_youtube("<youtube:a<youtube:b>"), embed("a<youtubeb"));
}

#[test]
fn name_may_hold_any_character() {
    assert_eq!(expand_youtube("<youtube:\u{e9}\u{1f600}>z"), format!("{}z", embed("\u{e9}\u{1f600}")));
}

#[test]
fn tag_after_text_that_is_not_ascii_is_looked_for_at_its_byte_offset() {
    let html = "\u{e9}<youtube:abc>";
    assert_eq!(expand_youtube(html), format!("\u{e9}<{}", embed("abc")));
    let twelve = "\u{e9}".repeat(12);
    let html = format!("{}<youtube:abc>", twelve);
    assert_eq!(expand_youtube(&html), format!("{}<youtube:abc{}", twelve, embed("")));
    let thirteen = "\u{e9}".repeat(13);
    let html = format!("{}<youtube:abc>", thirteen);
    assert_eq!(expand_youtube(&html), html);
}

#[test]
fn opens_tag_looks_at_the_bytes() {
    assert!(opens_tag(b"<youtube:abc>", 0));
    assert!(opens_tag(b"ab<youtube:", 2));
    assert!(!opens_tag(b"ab<youtube:", 1));
    assert!(!opens_tag(b"ab<youtube:", 3));
    assert!(!opens_tag(b"<youtube", 0));
    assert!(!opens_tag(b"", 0));
    assert!(!opens_tag(b"<youtube:", usize::MAX));
    assert!(!opens_tag(b"<YOUTUBE:", 0));
}

#[test]
fn chars_of_a_text() {
    assert_eq!(chars_of("a\u{e9}\u{1f600}"), vec!['a', '\u{e9}', '\u{1f600}']);
    assert_eq!(chars_of(""), Vec::<char>::new());
}
