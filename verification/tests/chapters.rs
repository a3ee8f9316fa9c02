use epub2txt::config::{RawTags, TagClass, Tags};
use epub2txt::markup::MarkupToken;
use epub2txt::process::chapter::{decode_reference, strip_leading_title, Chapter, Extraction};
use epub2txt::process::EpubError;

fn extract(markup: &str) -> Result<Chapter, EpubError> {
    Chapter::extract_chapter(markup.as_bytes(), &Tags::default())
}

#[test]
fn title_and_inline_text_are_extracted() {
    let chapter = extract("<h1>Title</h1><p>Hello <em>world</em>.</p>").unwrap();
    assert_eq!(chapter.title, "Title");
    assert_eq!(chapter.content, "Hello world.\n");
}

#[test]
fn an_unmatched_closing_tag_is_tolerated() {
    let chapter = extract("<p>text</div>").unwrap();
    assert_eq!(chapter.title, "");
    assert_eq!(chapter.content, "text\n");
}

#[test]
fn a_closing_tag_pops_whatever_is_open() {
    let chapter = extract("<html><p>one</span>two</p></html>").unwrap();
    assert_eq!(chapter.content, "one\n");
}

#[test]
fn a_closing_tag_without_an_open_tag_is_tolerated() {
    let chapter = extract("</p><p>a</p></p></div></em>").unwrap();
    assert_eq!(chapter.content, "\na\n\n\n");
}

#[test]
fn the_last_title_wins() {
    let chapter = extract("<title>First</title><h1>Second</h1>").unwrap();
    assert_eq!(chapter.title, "Second");
    assert_eq!(chapter.content, "");
}

#[test]
fn a_document_without_title_has_an_empty_title() {
    let chapter = extract("<html><body><p>a</p><p>b</p></body></html>").unwrap();
    assert_eq!(chapter.title, "");
    assert_eq!(chapter.content, "a\nb\n");
}

#[test]
fn a_self_closing_block_ends_a_line() {
    let chapter = extract("<p>one<br/>two</p>").unwrap();
    assert_eq!(chapter.content, "one\ntwo\n");
}

#[test]
fn text_outside_all_tags_is_dropped() {
    let chapter = extract("before<p>inside</p>after").unwrap();
    assert_eq!(chapter.content, "inside\n");
}

#[test]
fn text_of_an_unclassified_tag_is_dropped() {
    let chapter = extract("<p>kept<style>dropped</style></p>").unwrap();
    assert_eq!(chapter.content, "kept\n");
}

#[test]
fn text_is_not_trimmed() {
    let chapter = extract("<p>  two  spaces  </p>").unwrap();
    assert_eq!(chapter.content, "  two  spaces  \n");
}

#[test]
fn references_are_decoded_inside_their_text() {
    let chapter = extract("<h1>Q&amp;A</h1><p>1 &lt; 2 &#65;&#x42;</p>").unwrap();
    assert_eq!(chapter.title, "Q&A");
    assert_eq!(chapter.content, "1 < 2 AB\n");
}

#[test]
fn a_stray_ampersand_is_text() {
    let chapter = extract("<p>Tom & Jerry</p>").unwrap();
    assert_eq!(chapter.content, "Tom & Jerry\n");
}

#[test]
fn an_unknown_reference_rejects_the_chapter() {
    assert_eq!(extract("<p>a &nosuchthing; b</p>").unwrap_err(), EpubError::MalformedMarkup);
}

#[test]
fn an_unclosed_tag_rejects_the_chapter() {
    assert_eq!(extract("<p>text<").unwrap_err(), EpubError::MalformedMarkup);
}

#[test]
fn comments_are_passed_over() {
    let chapter = extract("<p>a<!-- note -->b</p>").unwrap();
    assert_eq!(chapter.content, "ab\n");
}

#[test]
fn an_empty_document_is_an_empty_chapter() {
    let chapter = extract("").unwrap();
    assert_eq!(chapter.title, "");
    assert_eq!(chapter.content, "");
}

#[test]
fn configured_tags_replace_the_defaults() {
    let tags = Tags::from(RawTags {
        title: vec!["h2".to_string()],
        block: vec!["para".to_string()],
        inline: vec![],
    });
    let chapter = Chapter::extract_chapter(b"<h1>no</h1><h2>yes</h2><para>x<em>y</em></para>", &tags)
        .unwrap();
    assert_eq!(chapter.title, "yes");
    assert_eq!(chapter.content, "x\n");
}

#[test]
fn default_tags_classify_by_name() {
    let tags = Tags::default();
    assert_eq!(tags.classify(b"h1"), TagClass::Title);
    assert_eq!(tags.classify(b"title"), TagClass::Title);
    for name in ["p", "div", "li", "ul", "section", "br"] {
        assert_eq!(tags.classify(name.as_bytes()), TagClass::Block);
        assert!(tags.is_block(name.as_bytes()));
    }
    for name in ["em", "span", "a", "strong", "code", "sub", "sup"] {
        assert_eq!(tags.classify(name.as_bytes()), TagClass::Inline);
        assert!(!tags.is_block(name.as_bytes()));
    }
    assert_eq!(tags.classify(b"style"), TagClass::Unclassified);
    assert_eq!(tags.classify(b"P"), TagClass::Unclassified);
}

#[test]
fn a_tag_in_two_sets_is_a_title_first() {
    let tags = Tags::from(RawTags {
        title: vec!["x".to_string()],
        block: vec!["x".to_string()],
        inline: vec!["x".to_string()],
    });
    assert_eq!(tags.classify(b"x"), TagClass::Title);
    assert!(tags.is_block(b"x"));
}

#[test]
fn the_reducer_works_token_by_token() {
    let tags = Tags::default();
    let mut state = Extraction::new();
    state.step(MarkupToken::Open { name: b"h1".to_vec(), attributes: vec![] }, &tags).unwrap();
    state.step(MarkupToken::Text { text: "A ".to_string() }, &tags).unwrap();
    state.step(MarkupToken::Reference { entity: "amp".to_string() }, &tags).unwrap();
    state.step(MarkupToken::Text { text: " B".to_string() }, &tags).unwrap();
    assert_eq!(state.title, "");
    state.step(MarkupToken::Close { name: b"h1".to_vec() }, &tags).unwrap();
    assert_eq!(state.title, "A & B");
    assert!(state.stack.is_empty());
    state.step(MarkupToken::Close { name: b"p".to_vec() }, &tags).unwrap();
    assert_eq!(state.content, "\n");
    state.step(MarkupToken::Open { name: b"span".to_vec(), attributes: vec![] }, &tags).unwrap();
    state.absorb_text("tail");
    let chapter = state.finish(&tags);
    assert_eq!(chapter.title, "A & B");
    assert_eq!(chapter.content, "\ntail");
}

#[test]
fn a_bad_reference_leaves_the_reducer_as_it_was() {
    let tags = Tags::default();
    let mut state = Extraction::new();
    state.open(b"p".to_vec(), &tags);
    state.absorb_text("x");
    let res = state.step(MarkupToken::Reference { entity: "bogus".to_string() }, &tags);
    assert_eq!(res, Err(EpubError::MalformedMarkup));
    assert_eq!(state.run, "x");
    assert!(state.in_run);
}

#[test]
fn references_decode_to_their_characters() {
    assert_eq!(decode_reference("amp"), Some("&".to_string()));
    assert_eq!(decode_reference("lt"), Some("<".to_string()));
    assert_eq!(decode_reference("#x4e2d"), Some("\u{4e2d}".to_string()));
    assert_eq!(decode_reference("bogus"), None);
    assert_eq!(decode_reference("#0"), None);
}

#[test]
fn the_text_of_a_chapter_file() {
    let chapter = Chapter { title: "T".to_string(), content: "T\nbody\n".to_string() };
    assert_eq!(chapter.file_text(), "T\n\nT\nbody\n\n");
    assert_eq!(chapter.combined_text("---"), "T\n\nT\nbody\n\n\n---\n\n");
    assert_eq!(chapter.combined_text(""), "T\n\nT\nbody\n\n\n\n\n");
    let shaped = chapter.without_title_line();
    assert_eq!(shaped.title, "T");
    assert_eq!(shaped.content, "body\n");
}

#[test]
fn strip_leading_title_removes_the_title_line() {
    assert_eq!(strip_leading_title("Title\nBody text", "Title"), "Body text");
}

#[test]
fn strip_leading_title_does_nothing_the_second_time() {
    let once = strip_leading_title("Title\nBody text", "Title");
    assert_eq!(strip_leading_title(&once, "Title"), once);
}

#[test]
fn strip_leading_title_leaves_later_occurrences() {
    assert_eq!(
        strip_leading_title("  Title \n The Title again", "Title"),
        "The Title again"
    );
    assert_eq!(strip_leading_title("Body with Title inside", "Title"), "Body with Title inside");
}

#[test]
fn strip_leading_title_matches_letter_for_letter() {
    assert_eq!(strip_leading_title("title\nBody", "Title"), "title\nBody");
    assert_eq!(strip_leading_title("  no match", "Title"), "  no match");
}

#[test]
fn strip_leading_title_removes_one_occurrence_only() {
    assert_eq!(strip_leading_title("TitleTitle rest", "Title"), "Title rest");
    assert_eq!(strip_leading_title("", "Title"), "");
    assert_eq!(strip_leading_title("Title", "Title"), "");
    assert_eq!(strip_leading_title("\u{3000}Title\u{a0}x", "Title"), "x");
}
