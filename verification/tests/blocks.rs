use notion::models::block::CodeLanguage;
use notion_markdown::block::{convert_block, BlockType, File, Icon};
use notion_markdown::layout::{convert_columns, join};
use notion_markdown::language::Code;
use notion_markdown::text::{Annotations, RichText};

fn plain(content: &str) -> RichText {
    RichText::Text {
        content: content.to_string(),
        annotations: Annotations { bold: false, italic: false, code: false },
    }
}

fn bold(content: &str) -> RichText {
    RichText::Text {
        content: content.to_string(),
        annotations: Annotations { bold: true, italic: false, code: false },
    }
}

fn fragment(block: BlockType) -> Option<String> {
    convert_block(&block)
}

fn some(text: &str) -> Option<String> {
    Some(text.to_string())
}

#[test]
fn headings_carry_their_level() {
    assert_eq!(fragment(BlockType::Heading1 { rich_text: vec![plain("Title")] }), some("# Title"));
    assert_eq!(fragment(BlockType::Heading2 { rich_text: vec![plain("Title")] }), some("## Title"));
    assert_eq!(
        fragment(BlockType::Heading3 { rich_text: vec![plain("Title")] }),
        some("### Title")
    );
}

#[test]
fn heading_without_text_keeps_marker_and_space() {
    assert_eq!(fragment(BlockType::Heading1 { rich_text: vec![] }), some("# "));
}

#[test]
fn paragraph_is_its_inline_text() {
    assert_eq!(
        fragment(BlockType::Paragraph { rich_text: vec![plain("one "), bold("two")] }),
        some("one **two**")
    );
}

#[test]
fn empty_paragraph_is_an_empty_fragment() {
    assert_eq!(fragment(BlockType::Paragraph { rich_text: vec![] }), some(""));
}

#[test]
fn code_block_is_fenced_with_language_tag() {
    let code = Code::new(CodeLanguage::Rust, vec![plain("fn main() {}")]).unwrap();
    assert_eq!(fragment(BlockType::Code { code }), some("```rust\nfn main() {}\n```"));
}

#[test]
fn code_language_tags_follow_their_serialised_names() {
    let cases = vec![
        (CodeLanguage::CPlusPlus, "c++"),
        (CodeLanguage::CSharp, "c#"),
        (CodeLanguage::FSharp, "f#"),
        (CodeLanguage::ObjectiveC, "objective-c"),
        (CodeLanguage::PlainText, "plain text"),
        (CodeLanguage::VbNet, "vb.net"),
        (CodeLanguage::VisualBasic, "visual basic"),
        (CodeLanguage::JavaCAndCPlusPlusAndCSharp, "java/c/c++/c#"),
        (CodeLanguage::Javascript, "javascript"),
        (CodeLanguage::C, "c"),
    ];
    for (language, tag) in cases {
        let code = Code::new(language, vec![plain("x")]).unwrap();
        assert_eq!(code.language_tag(), tag);
        assert_eq!(fragment(BlockType::Code { code }), Some(format!("```{}\nx\n```", tag)));
    }
}

#[test]
fn code_keeps_its_language_and_text() {
    let code = Code::new(CodeLanguage::Python, vec![plain("a"), bold("b")]).unwrap();
    assert_eq!(code.language(), &CodeLanguage::Python);
    assert_eq!(code.rich_text(), &vec![plain("a"), bold("b")]);
}

#[test]
fn every_language_has_a_tag() {
    assert!(Code::new(CodeLanguage::Abap, vec![]).is_some());
    assert!(Code::new(CodeLanguage::Yaml, vec![]).is_some());
    assert!(Code::new(CodeLanguage::Webassembly, vec![]).is_some());
}

#[test]
fn bulleted_list_item_has_star_marker() {
    assert_eq!(fragment(BlockType::BulletedListItem { rich_text: vec![plain("item")] }), some("* item"));
}

#[test]
fn numbered_list_item_is_always_numbered_one() {
    assert_eq!(fragment(BlockType::NumberedListItem { rich_text: vec![plain("first")] }), some("1. first"));
    assert_eq!(fragment(BlockType::NumberedListItem { rich_text: vec![plain("second")] }), some("1. second"));
}

#[test]
fn to_do_shows_its_box() {
    assert_eq!(
        fragment(BlockType::ToDo { rich_text: vec![plain("done")], checked: Some(true) }),
        some("[x] done")
    );
    assert_eq!(
        fragment(BlockType::ToDo { rich_text: vec![plain("open")], checked: Some(false) }),
        some("[ ] open")
    );
}

#[test]
fn to_do_without_flag_is_unchecked() {
    assert_eq!(fragment(BlockType::ToDo { rich_text: vec![plain("open")], checked: None }), some("[ ] open"));
}

#[test]
fn quote_has_angle_marker() {
    assert_eq!(fragment(BlockType::Quote { rich_text: vec![plain("said")] }), some("> said"));
}

#[test]
fn callout_with_emoji_shows_it() {
    assert_eq!(
        fragment(BlockType::Callout {
            rich_text: vec![plain("note")],
            icon: Some(Icon::Emoji { emoji: "💡".to_string() }),
        }),
        some("> 💡 note")
    );
}

#[test]
fn callout_without_emoji_keeps_the_space() {
    assert_eq!(fragment(BlockType::Callout { rich_text: vec![plain("note")], icon: None }), some(">  note"));
    assert_eq!(
        fragment(BlockType::Callout { rich_text: vec![plain("note")], icon: Some(Icon::File) }),
        some(">  note")
    );
    assert_eq!(
        fragment(BlockType::Callout { rich_text: vec![plain("note")], icon: Some(Icon::External) }),
        some(">  note")
    );
}

#[test]
fn external_image_is_an_img_tag() {
    assert_eq!(
        fragment(BlockType::Image { image: File::External { url: "http://x/y.png".to_string() } }),
        some("<img style=\"margin: 0 auto\" src=\"http://x/y.png\">")
    );
}

#[test]
fn hosted_image_renders_to_nothing() {
    assert_eq!(fragment(BlockType::Image { image: File::File }), None);
}

#[test]
fn external_video_is_a_video_tag() {
    assert_eq!(
        fragment(BlockType::Video { video: File::External { url: "http://x/v.mp4".to_string() } }),
        some("<video controls src=\"http://x/v.mp4\">")
    );
}

#[test]
fn hosted_video_renders_to_nothing() {
    assert_eq!(fragment(BlockType::Video { video: File::File }), None);
}

#[test]
fn divider_is_three_dashes() {
    assert_eq!(fragment(BlockType::Divider), some("---"));
}

#[test]
fn column_list_has_no_fragment_of_its_own() {
    assert_eq!(fragment(BlockType::ColumnList), None);
}

#[test]
fn silent_types_render_to_nothing() {
    let silent = vec![
        BlockType::Column,
        BlockType::Table,
        BlockType::Bookmark,
        BlockType::File,
        BlockType::Pdf,
        BlockType::TableOfContents,
        BlockType::ChildPage,
        BlockType::ChildDatabase,
        BlockType::SyncedBlock,
        BlockType::Template,
        BlockType::Toggle,
        BlockType::Breadcrumb,
        BlockType::Embed,
        BlockType::Equation,
        BlockType::LinkPreview,
        BlockType::TableRow,
        BlockType::LinkToPage,
        BlockType::Unsupported,
    ];
    assert_eq!(silent.len(), 18);
    for block in silent {
        assert_eq!(convert_block(&block), None);
    }
}

#[test]
fn join_puts_separator_between_parts_only() {
    assert_eq!(join(&vec![], "\n\n"), "");
    assert_eq!(join(&vec!["a".to_string()], "\n\n"), "a");
    assert_eq!(join(&vec!["a".to_string(), "b".to_string(), "c".to_string()], "\n\n"), "a\n\nb\n\nc");
    assert_eq!(join(&vec!["a".to_string(), "".to_string(), "c".to_string()], "-"), "a--c");
}

#[test]
fn columns_are_boxed_and_laid_out_in_a_row() {
    assert_eq!(convert_columns(&vec![]), "<div style=\"display: flex;\"></div>");
    assert_eq!(
        convert_columns(&vec!["X".to_string()]),
        "<div style=\"display: flex;\"><div style=\"margin: 0 16px\">X</div></div>"
    );
    assert_eq!(
        convert_columns(&vec!["X".to_string(), "Y".to_string()]),
        "<div style=\"display: flex;\"><div style=\"margin: 0 16px\">X</div>\n<div style=\"margin: 0 16px\">Y</div></div>"
    );
}
