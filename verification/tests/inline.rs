use notion_markdown::text::{convert_rich_text, convert_rich_texts, Annotations, RichText};

fn span(content: &str, bold: bool, italic: bool, code: bool) -> RichText {
    RichText::Text {
        content: content.to_string(),
        annotations: Annotations { bold, italic, code },
    }
}

#[test]
fn plain_span_is_unchanged() {
    assert_eq!(convert_rich_text(&span("hello world", false, false, false)), "hello world");
    assert_eq!(convert_rich_text(&span("", false, false, false)), "");
    assert_eq!(convert_rich_text(&span("a*b`c", false, false, false)), "a*b`c");
}

#[test]
fn bold_span() {
    assert_eq!(convert_rich_text(&span("x", true, false, false)), "**x**");
}

#[test]
fn italic_span() {
    assert_eq!(convert_rich_text(&span("x", false, true, false)), "*x*");
}

#[test]
fn code_span() {
    assert_eq!(convert_rich_text(&span("x", false, false, true)), "`x`");
}

#[test]
fn bold_and_code_nest_with_code_outermost() {
    assert_eq!(convert_rich_text(&span("content", true, false, true)), "`**content**`");
}

#[test]
fn bold_and_italic_nest_with_italic_outside() {
    assert_eq!(convert_rich_text(&span("x", true, true, false)), "***x***");
}

#[test]
fn italic_and_code_nest_with_code_outermost() {
    assert_eq!(convert_rich_text(&span("x", false, true, true)), "`*x*`");
}

#[test]
fn all_three_styles_nest_in_fixed_order() {
    assert_eq!(convert_rich_text(&span("x", true, true, true)), "`***x***`");
}

#[test]
fn styles_wrap_empty_content() {
    assert_eq!(convert_rich_text(&span("", true, false, true)), "`****`");
}

#[test]
fn mention_renders_to_nothing() {
    assert_eq!(convert_rich_text(&RichText::Mention), "");
}

#[test]
fn equation_renders_to_nothing() {
    assert_eq!(convert_rich_text(&RichText::Equation), "");
}

#[test]
fn spans_are_concatenated_without_separator() {
    let spans = vec![
        span("a ", false, false, false),
        span("b", true, false, false),
        RichText::Mention,
        span(" c", false, true, false),
        RichText::Equation,
        span("d", false, false, true),
    ];
    assert_eq!(convert_rich_texts(&spans), "a **b*** c*`d`");
}

#[test]
fn no_spans_give_empty_text() {
    assert_eq!(convert_rich_texts(&Vec::new()), "");
}

#[test]
fn non_ascii_content_is_kept() {
    assert_eq!(convert_rich_text(&span("héllo ☃", true, false, false)), "**héllo ☃**");
}
