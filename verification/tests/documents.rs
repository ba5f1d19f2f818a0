use notion_markdown::block::{Block, BlockType, File};
use notion_markdown::convert::{convert_blocks, Step};
use notion_markdown::text::{Annotations, RichText};
use notion_markdown::Error;

fn plain(content: &str) -> RichText {
    RichText::Text {
        content: content.to_string(),
        annotations: Annotations { bold: false, italic: false, code: false },
    }
}

fn block(id: &str, block: BlockType, has_children: bool) -> Block {
    Block { id: id.to_string(), block, has_children }
}

fn paragraph(id: &str, text: &str) -> Block {
    block(id, BlockType::Paragraph { rich_text: vec![plain(text)] }, false)
}

fn column_list(id: &str) -> Block {
    block(id, BlockType::ColumnList, true)
}

fn column(id: &str) -> Block {
    block(id, BlockType::Column, true)
}

/// Converts `blocks`, answering each request with the next of `answers`.
/// Gives the result and the blocks that were asked for, in order.
fn run(blocks: Vec<Block>, answers: Vec<Option<Vec<Block>>>) -> (Result<String, Error>, Vec<String>) {
    let mut asked = Vec::new();
    let mut answers = answers.into_iter();
    let mut step = convert_blocks(blocks);
    loop {
        match step {
            Step::Done(result) => {
                assert!(answers.next().is_none(), "an answer was left over");
                return (result, asked);
            }
            Step::Fetch { block_id, conversion } => {
                asked.push(block_id);
                let answer = answers.next().expect("a request was not answered");
                step = conversion.resume(answer);
            }
        }
    }
}

fn ids(names: &[&str]) -> Vec<String> {
    names.iter().map(|name| name.to_string()).collect()
}

#[test]
fn no_blocks_give_an_empty_document() {
    assert_eq!(run(vec![], vec![]), (Ok(String::new()), vec![]));
}

#[test]
fn two_paragraphs_are_separated_by_a_blank_line() {
    let blocks = vec![paragraph("1", "A"), paragraph("2", "B")];
    assert_eq!(run(blocks, vec![]), (Ok("A\n\nB".to_string()), vec![]));
}

#[test]
fn divider_alone() {
    let blocks = vec![block("1", BlockType::Divider, false)];
    assert_eq!(run(blocks, vec![]), (Ok("---".to_string()), vec![]));
}

#[test]
fn column_list_without_children_is_skipped_and_nothing_is_fetched() {
    let blocks = vec![block("list", BlockType::ColumnList, false)];
    assert_eq!(run(blocks, vec![]), (Ok(String::new()), vec![]));

    let blocks = vec![
        paragraph("1", "A"),
        block("list", BlockType::ColumnList, false),
        paragraph("2", "B"),
    ];
    assert_eq!(run(blocks, vec![]), (Ok("A\n\nB".to_string()), vec![]));
}

#[test]
fn column_list_with_two_columns() {
    let blocks = vec![column_list("list")];
    let answers = vec![
        Some(vec![column("left"), column("right")]),
        Some(vec![paragraph("x", "X")]),
        Some(vec![paragraph("y", "Y")]),
    ];
    let expected = "<div style=\"display: flex;\"><div style=\"margin: 0 16px\">X</div>\n<div style=\"margin: 0 16px\">Y</div></div>";
    assert_eq!(run(blocks, answers), (Ok(expected.to_string()), ids(&["list", "left", "right"])));
}

#[test]
fn external_image_in_a_document() {
    let blocks = vec![block(
        "1",
        BlockType::Image { image: File::External { url: "http://x/y.png".to_string() } },
        false,
    )];
    assert_eq!(
        run(blocks, vec![]),
        (Ok("<img style=\"margin: 0 auto\" src=\"http://x/y.png\">".to_string()), vec![])
    );
}

#[test]
fn hosted_image_leaves_no_blank_line() {
    let blocks = vec![
        paragraph("1", "A"),
        block("2", BlockType::Image { image: File::File }, false),
        paragraph("3", "B"),
    ];
    assert_eq!(run(blocks, vec![]), (Ok("A\n\nB".to_string()), vec![]));
}

#[test]
fn failed_fetch_of_columns_fails_the_conversion() {
    let blocks = vec![paragraph("1", "A"), column_list("list"), paragraph("2", "B")];
    assert_eq!(run(blocks, vec![None]), (Err(Error::FetchFailure), ids(&["list"])));
}

#[test]
fn failed_fetch_of_a_columns_children_fails_the_conversion() {
    let blocks = vec![column_list("list")];
    let answers = vec![
        Some(vec![column("left"), column("right")]),
        Some(vec![paragraph("x", "X")]),
        None,
    ];
    assert_eq!(run(blocks, answers), (Err(Error::FetchFailure), ids(&["list", "left", "right"])));
}

#[test]
fn failed_fetch_stops_further_requests() {
    let blocks = vec![column_list("first"), column_list("second")];
    let answers = vec![Some(vec![column("left"), column("right")]), None];
    assert_eq!(run(blocks, answers), (Err(Error::FetchFailure), ids(&["first", "left"])));
}

#[test]
fn silent_blocks_never_show() {
    let silent = || {
        vec![
            BlockType::Table,
            BlockType::Bookmark,
            BlockType::Toggle,
            BlockType::Unsupported,
            BlockType::Column,
            BlockType::ChildPage,
        ]
    };
    for kind in silent() {
        let blocks = vec![block("s", kind, true)];
        assert_eq!(run(blocks, vec![]), (Ok(String::new()), vec![]));
    }
    for kind in silent() {
        let blocks = vec![block("s", kind, false), paragraph("1", "A"), paragraph("2", "B")];
        assert_eq!(run(blocks, vec![]), (Ok("A\n\nB".to_string()), vec![]));
    }
    for kind in silent() {
        let blocks = vec![paragraph("1", "A"), block("s", kind, true), paragraph("2", "B")];
        assert_eq!(run(blocks, vec![]), (Ok("A\n\nB".to_string()), vec![]));
    }
    for kind in silent() {
        let blocks = vec![paragraph("1", "A"), paragraph("2", "B"), block("s", kind, false)];
        assert_eq!(run(blocks, vec![]), (Ok("A\n\nB".to_string()), vec![]));
    }
}

#[test]
fn empty_paragraph_still_counts_as_a_fragment() {
    let blocks = vec![paragraph("1", "A"), paragraph("2", ""), paragraph("3", "B")];
    assert_eq!(run(blocks, vec![]), (Ok("A\n\n\n\nB".to_string()), vec![]));
}

#[test]
fn column_list_without_columns_is_an_empty_row() {
    let blocks = vec![column_list("list")];
    assert_eq!(
        run(blocks, vec![Some(vec![])]),
        (Ok("<div style=\"display: flex;\"></div>".to_string()), ids(&["list"]))
    );
}

#[test]
fn column_with_several_blocks_joins_them_with_blank_lines() {
    let blocks = vec![column_list("list")];
    let answers = vec![
        Some(vec![column("only")]),
        Some(vec![
            paragraph("a", "A"),
            block("t", BlockType::Table, false),
            block("d", BlockType::Divider, false),
        ]),
    ];
    let expected = "<div style=\"display: flex;\"><div style=\"margin: 0 16px\">A\n\n---</div></div>";
    assert_eq!(run(blocks, answers), (Ok(expected.to_string()), ids(&["list", "only"])));
}

#[test]
fn empty_column_renders_to_an_empty_box() {
    let blocks = vec![column_list("list")];
    let answers = vec![Some(vec![column("a"), column("b")]), Some(vec![]), Some(vec![paragraph("y", "Y")])];
    let expected = "<div style=\"display: flex;\"><div style=\"margin: 0 16px\"></div>\n<div style=\"margin: 0 16px\">Y</div></div>";
    assert_eq!(run(blocks, answers), (Ok(expected.to_string()), ids(&["list", "a", "b"])));
}

#[test]
fn column_list_stands_between_its_siblings() {
    let blocks = vec![paragraph("1", "A"), column_list("list"), paragraph("2", "B")];
    let answers = vec![Some(vec![column("c")]), Some(vec![paragraph("x", "X")])];
    let expected = "A\n\n<div style=\"display: flex;\"><div style=\"margin: 0 16px\">X</div></div>\n\nB";
    assert_eq!(run(blocks, answers), (Ok(expected.to_string()), ids(&["list", "c"])));
}

#[test]
fn children_of_every_column_are_fetched_whatever_its_type() {
    let blocks = vec![column_list("list")];
    let answers = vec![
        Some(vec![paragraph("p", "ignored"), block("q", BlockType::Divider, false)]),
        Some(vec![paragraph("x", "X")]),
        Some(vec![paragraph("y", "Y")]),
    ];
    let expected = "<div style=\"display: flex;\"><div style=\"margin: 0 16px\">X</div>\n<div style=\"margin: 0 16px\">Y</div></div>";
    assert_eq!(run(blocks, answers), (Ok(expected.to_string()), ids(&["list", "p", "q"])));
}

#[test]
fn nested_column_lists_are_expanded_depth_first() {
    let blocks = vec![column_list("outer"), paragraph("end", "E")];
    let answers = vec![
        Some(vec![column("a"), column("b")]),
        Some(vec![paragraph("a1", "A"), column_list("inner")]),
        Some(vec![column("i")]),
        Some(vec![paragraph("i1", "I")]),
        Some(vec![paragraph("b1", "B")]),
    ];
    let inner = "<div style=\"display: flex;\"><div style=\"margin: 0 16px\">I</div></div>";
    let expected = format!(
        "<div style=\"display: flex;\"><div style=\"margin: 0 16px\">A\n\n{}</div>\n<div style=\"margin: 0 16px\">B</div></div>\n\nE",
        inner
    );
    assert_eq!(run(blocks, answers), (Ok(expected), ids(&["outer", "a", "inner", "i", "b"])));
}

#[test]
fn two_column_lists_are_expanded_in_order() {
    let blocks = vec![column_list("one"), column_list("two")];
    let answers = vec![
        Some(vec![column("a")]),
        Some(vec![paragraph("x", "X")]),
        Some(vec![column("b")]),
        Some(vec![paragraph("y", "Y")]),
    ];
    let expected = "<div style=\"display: flex;\"><div style=\"margin: 0 16px\">X</div></div>\n\n<div style=\"display: flex;\"><div style=\"margin: 0 16px\">Y</div></div>";
    assert_eq!(run(blocks, answers), (Ok(expected.to_string()), ids(&["one", "a", "two", "b"])));
}

#[test]
fn failure_inside_a_nested_column_list_fails_the_whole() {
    let blocks = vec![paragraph("1", "A"), column_list("outer")];
    let answers = vec![
        Some(vec![column("a")]),
        Some(vec![column_list("inner")]),
        Some(vec![column("i")]),
        None,
    ];
    assert_eq!(run(blocks, answers), (Err(Error::FetchFailure), ids(&["outer", "a", "inner", "i"])));
}

#[test]
fn conversion_asks_for_the_first_column_list_first() {
    let blocks = vec![paragraph("1", "A"), column_list("list")];
    match convert_blocks(blocks) {
        Step::Fetch { block_id, .. } => assert_eq!(block_id, "list"),
        Step::Done(_) => panic!("the column list was not expanded"),
    }
}

#[test]
fn other_blocks_with_children_are_not_expanded() {
    let blocks = vec![
        block("1", BlockType::Paragraph { rich_text: vec![plain("A")] }, true),
        block("2", BlockType::BulletedListItem { rich_text: vec![plain("B")] }, true),
        block("3", BlockType::Toggle, true),
    ];
    assert_eq!(run(blocks, vec![]), (Ok("A\n\n* B".to_string()), vec![]));
}
