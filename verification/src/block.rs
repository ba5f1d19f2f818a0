//! Content blocks and the fragment each renders to on its own.

use vstd::prelude::*;
use vstd::string::*;

use crate::language::{Code, CodeView};
use crate::text::{convert_rich_texts, inline_texts, RichText, RichTextView};

verus! {

/// The icon of a callout.
#[derive(Debug, Clone, PartialEq, Eq)]
pub enum Icon {
    /// An emoji, as text.
    Emoji { emoji: String },
    /// A file kept by the service.
    File,
    /// A file kept elsewhere.
    External,
}

/// The mathematical value of an [`Icon`].
pub enum IconView {
    Emoji { emoji: Seq<char> },
    File,
    External,
}

impl View for Icon {
    type V = IconView;

    open spec fn view(&self) -> IconView {
        match *self {
            Icon::Emoji { emoji } => IconView::Emoji { emoji: emoji@ },
            Icon::File => IconView::File,
            Icon::External => IconView::External,
        }
    }
}

impl DeepView for Icon {
    type V = IconView;

    open spec fn deep_view(&self) -> IconView {
        self@
    }
}

/// Where the media of an image or video block is kept.
#[derive(Debug, Clone, PartialEq, Eq)]
pub enum File {
    /// At a URL outside the service.
    External { url: String },
    /// In the storage of the service.
    File,
}

/// The mathematical value of a [`File`].
pub enum FileView {
    External { url: Seq<char> },
    File,
}

impl View for File {
    type V = FileView;

    open spec fn view(&self) -> FileView {
        match *self {
            File::External { url } => FileView::External { url: url@ },
            File::File => FileView::File,
        }
    }
}

impl DeepView for File {
    type V = FileView;

    open spec fn deep_view(&self) -> FileView {
        self@
    }
}

/// What a block is, with the content that rendering reads.
#[derive(Debug, PartialEq, Eq)]
pub enum BlockType {
    Heading1 { rich_text: Vec<RichText> },
    Heading2 { rich_text: Vec<RichText> },
    Heading3 { rich_text: Vec<RichText> },
    Paragraph { rich_text: Vec<RichText> },
    Code { code: Code },
    BulletedListItem { rich_text: Vec<RichText> },
    NumberedListItem { rich_text: Vec<RichText> },
    ToDo { rich_text: Vec<RichText>, checked: Option<bool> },
    Quote { rich_text: Vec<RichText> },
    Callout { rich_text: Vec<RichText>, icon: Option<Icon> },
    Image { image: File },
    Video { video: File },
    Divider,
    ColumnList,
    Column,
    Table,
    Bookmark,
    File,
    Pdf,
    TableOfContents,
    ChildPage,
    ChildDatabase,
    SyncedBlock,
    Template,
    Toggle,
    Breadcrumb,
    Embed,
    Equation,
    LinkPreview,
    TableRow,
    LinkToPage,
    Unsupported,
}

/// The mathematical value of a [`BlockType`].
pub enum BlockTypeView {
    Heading1 { rich_text: Seq<RichTextView> },
    Heading2 { rich_text: Seq<RichTextView> },
    Heading3 { rich_text: Seq<RichTextView> },
    Paragraph { rich_text: Seq<RichTextView> },
    Code { code: CodeView },
    BulletedListItem { rich_text: Seq<RichTextView> },
    NumberedListItem { rich_text: Seq<RichTextView> },
    ToDo { rich_text: Seq<RichTextView>, checked: Option<bool> },
    Quote { rich_text: Seq<RichTextView> },
    Callout { rich_text: Seq<RichTextView>, icon: Option<IconView> },
    Image { image: FileView },
    Video { video: FileView },
    Divider,
    ColumnList,
    Column,
    Table,
    Bookmark,
    File,
    Pdf,
    TableOfContents,
    ChildPage,
    ChildDatabase,
    SyncedBlock,
    Template,
    Toggle,
    Breadcrumb,
    Embed,
    Equation,
    LinkPreview,
    TableRow,
    LinkToPage,
    Unsupported,
}

impl View for BlockType {
    type V = BlockTypeView;

    open spec fn view(&self) -> BlockTypeView {
        match *self {
            BlockType::Heading1 { rich_text } => BlockTypeView::Heading1 {
                rich_text: rich_text.deep_view(),
            },
            BlockType::Heading2 { rich_text } => BlockTypeView::Heading2 {
                rich_text: rich_text.deep_view(),
            },
            BlockType::Heading3 { rich_text } => BlockTypeView::Heading3 {
                rich_text: rich_text.deep_view(),
            },
            BlockType::Paragraph { rich_text } => BlockTypeView::Paragraph {
                rich_text: rich_text.deep_view(),
            },
            BlockType::Code { code } => BlockTypeView::Code { code: code@ },
            BlockType::BulletedListItem { rich_text } => BlockTypeView::BulletedListItem {
                rich_text: rich_text.deep_view(),
            },
            BlockType::NumberedListItem { rich_text } => BlockTypeView::NumberedListItem {
                rich_text: rich_text.deep_view(),
            },
            BlockType::ToDo { rich_text, checked } => BlockTypeView::ToDo {
                rich_text: rich_text.deep_view(),
                checked,
            },
            BlockType::Quote { rich_text } => BlockTypeView::Quote {
                rich_text: rich_text.deep_view(),
            },
            BlockType::Callout { rich_text, icon } => BlockTypeView::Callout {
                rich_text: rich_text.deep_view(),
                icon: icon.deep_view(),
            },
            BlockType::Image { image } => BlockTypeView::Image { image: image@ },
            BlockType::Video { video } => BlockTypeView::Video { video: video@ },
            BlockType::Divider => BlockTypeView::Divider,
            BlockType::ColumnList => BlockTypeView::ColumnList,
            BlockType::Column => BlockTypeView::Column,
            BlockType::Table => BlockTypeView::Table,
            BlockType::Bookmark => BlockTypeView::Bookmark,
            BlockType::File => BlockTypeView::File,
            BlockType::Pdf => BlockTypeView::Pdf,
            BlockType::TableOfContents => BlockTypeView::TableOfContents,
            BlockType::ChildPage => BlockTypeView::ChildPage,
            BlockType::ChildDatabase => BlockTypeView::ChildDatabase,
            BlockType::SyncedBlock => BlockTypeView::SyncedBlock,
            BlockType::Template => BlockTypeView::Template,
            BlockType::Toggle => BlockTypeView::Toggle,
            BlockType::Breadcrumb => BlockTypeView::Breadcrumb,
            BlockType::Embed => BlockTypeView::Embed,
            BlockType::Equation => BlockTypeView::Equation,
            BlockType::LinkPreview => BlockTypeView::LinkPreview,
            BlockType::TableRow => BlockTypeView::TableRow,
            BlockType::LinkToPage => BlockTypeView::LinkToPage,
            BlockType::Unsupported => BlockTypeView::Unsupported,
        }
    }
}

impl DeepView for BlockType {
    type V = BlockTypeView;

    open spec fn deep_view(&self) -> BlockTypeView {
        self@
    }
}

/// One node of the content tree.
///
/// `has_children` says that the service holds children of the block. They
/// are not part of the value: they are fetched by `id`, and only for the
/// blocks whose rendering needs them.
#[derive(Debug, PartialEq, Eq)]
pub struct Block {
    pub id: String,
    pub block: BlockType,
    pub has_children: bool,
}

/// The mathematical value of a [`Block`].
pub struct BlockView {
    pub id: Seq<char>,
    pub block: BlockTypeView,
    pub has_children: bool,
}

impl View for Block {
    type V = BlockView;

    open spec fn view(&self) -> BlockView {
        BlockView { id: self.id@, block: self.block@, has_children: self.has_children }
    }
}

impl DeepView for Block {
    type V = BlockView;

    open spec fn deep_view(&self) -> BlockView {
        self@
    }
}

/// The text of a callout's icon: the emoji, or nothing for any other icon
/// and where there is none.
pub open spec fn icon_text(icon: Option<IconView>) -> Seq<char> {
    match icon {
        Some(IconView::Emoji { emoji }) => emoji,
        Some(IconView::File) => Seq::empty(),
        Some(IconView::External) => Seq::empty(),
        None => Seq::empty(),
    }
}

/// The box of a to-do item: ticked only where `checked` is `Some(true)`.
pub open spec fn check_box(checked: Option<bool>) -> Seq<char> {
    if checked == Some(true) {
        "[x] "@
    } else {
        "[ ] "@
    }
}

/// The HTML of a media block: `open`, the URL and `close` for media kept
/// outside the service, nothing for media that the service keeps.
pub open spec fn media_tag(open: Seq<char>, file: FileView, close: Seq<char>) -> Option<
    Seq<char>,
> {
    match file {
        FileView::External { url } => Some(open + url + close),
        FileView::File => None,
    }
}

/// The types of block that never render to anything, whatever they hold
/// and wherever they stand.
pub open spec fn silent(block: BlockTypeView) -> bool {
    match block {
        BlockTypeView::Column
        | BlockTypeView::Table
        | BlockTypeView::Bookmark
        | BlockTypeView::File
        | BlockTypeView::Pdf
        | BlockTypeView::TableOfContents
        | BlockTypeView::ChildPage
        | BlockTypeView::ChildDatabase
        | BlockTypeView::SyncedBlock
        | BlockTypeView::Template
        | BlockTypeView::Toggle
        | BlockTypeView::Breadcrumb
        | BlockTypeView::Embed
        | BlockTypeView::Equation
        | BlockTypeView::LinkPreview
        | BlockTypeView::TableRow
        | BlockTypeView::LinkToPage
        | BlockTypeView::Unsupported => true,
        _ => false,
    }
}

/// What a block of this type renders to without its children; `None` where
/// it contributes nothing to the document.
pub open spec fn plain_fragment(block: BlockTypeView) -> Option<Seq<char>> {
    match block {
        BlockTypeView::Heading1 { rich_text } => Some("# "@ + inline_texts(rich_text)),
        BlockTypeView::Heading2 { rich_text } => Some("## "@ + inline_texts(rich_text)),
        BlockTypeView::Heading3 { rich_text } => Some("### "@ + inline_texts(rich_text)),
        BlockTypeView::Paragraph { rich_text } => Some(inline_texts(rich_text)),
        BlockTypeView::Code { code } => Some(
            "```"@ + code.tag() + "\n"@ + inline_texts(code.rich_text) + "\n```"@,
        ),
        BlockTypeView::BulletedListItem { rich_text } => Some("* "@ + inline_texts(rich_text)),
        BlockTypeView::NumberedListItem { rich_text } => Some("1. "@ + inline_texts(rich_text)),
        BlockTypeView::ToDo { rich_text, checked } => Some(
            check_box(checked) + inline_texts(rich_text),
        ),
        BlockTypeView::Quote { rich_text } => Some("> "@ + inline_texts(rich_text)),
        BlockTypeView::Callout { rich_text, icon } => Some(
            "> "@ + icon_text(icon) + " "@ + inline_texts(rich_text),
        ),
        BlockTypeView::Image { image } => media_tag(
            "<img style=\"margin: 0 auto\" src=\""@,
            image,
            "\">"@,
        ),
        BlockTypeView::Video { video } => media_tag("<video controls src=\""@, video, "\">"@),
        BlockTypeView::Divider => Some("---"@),
        BlockTypeView::ColumnList => None,
        BlockTypeView::Column => None,
        BlockTypeView::Table => None,
        BlockTypeView::Bookmark => None,
        BlockTypeView::File => None,
        BlockTypeView::Pdf => None,
        BlockTypeView::TableOfContents => None,
        BlockTypeView::ChildPage => None,
        BlockTypeView::ChildDatabase => None,
        BlockTypeView::SyncedBlock => None,
        BlockTypeView::Template => None,
        BlockTypeView::Toggle => None,
        BlockTypeView::Breadcrumb => None,
        BlockTypeView::Embed => None,
        BlockTypeView::Equation => None,
        BlockTypeView::LinkPreview => None,
        BlockTypeView::TableRow => None,
        BlockTypeView::LinkToPage => None,
        BlockTypeView::Unsupported => None,
    }
}

/// `prefix` followed by the Markdown of `spans`.
fn prefixed(prefix: &str, spans: &Vec<RichText>) -> (out: String)
    ensures
        out@ == prefix@ + inline_texts(spans.deep_view()),
{
    let mut out = String::from_str(prefix);
    let content = convert_rich_texts(spans);
    out.append(content.as_str());
    out
}

/// The HTML tag of a media block.
fn media(open: &str, file: &File, close: &str) -> (out: Option<String>)
    ensures
        out.deep_view() == media_tag(open@, file@, close@),
{
    match file {
        File::External { url } => {
            let mut out = String::from_str(open);
            out.append(url.as_str());
            out.append(close);
            Some(out)
        },
        File::File => None,
    }
}

/// Renders a block of the type `block` without its children. `None` means
/// that the block adds nothing to the document.
///
/// A column list gives `None` here: whatever it renders to is made of its
/// children.
pub fn convert_block(block: &BlockType) -> (out: Option<String>)
    ensures
        out.deep_view() == plain_fragment(block@),
{
    match block {
        BlockType::Heading1 { rich_text } => Some(prefixed("# ", rich_text)),
        BlockType::Heading2 { rich_text } => Some(prefixed("## ", rich_text)),
        BlockType::Heading3 { rich_text } => Some(prefixed("### ", rich_text)),
        BlockType::Paragraph { rich_text } => Some(convert_rich_texts(rich_text)),
        BlockType::Code { code } => {
            let mut out = String::from_str("```");
            let language = code.language_tag();
            out.append(language.as_str());
            out.append("\n");
            let content = convert_rich_texts(code.rich_text());
            out.append(content.as_str());
            out.append("\n```");
            Some(out)
        },
        BlockType::BulletedListItem { rich_text } => Some(prefixed("* ", rich_text)),
        BlockType::NumberedListItem { rich_text } => Some(prefixed("1. ", rich_text)),
        BlockType::ToDo { rich_text, checked } => {
            let ticked = match checked {
                Some(flag) => *flag,
                None => false,
            };
            if ticked {
                Some(prefixed("[x] ", rich_text))
            } else {
                Some(prefixed("[ ] ", rich_text))
            }
        },
        BlockType::Quote { rich_text } => Some(prefixed("> ", rich_text)),
        BlockType::Callout { rich_text, icon } => {
            let mut out = String::from_str("> ");
            match icon {
                Some(Icon::Emoji { emoji }) => {
                    out.append(emoji.as_str());
                },
                Some(Icon::File) => {},
                Some(Icon::External) => {},
                None => {},
            }
            out.append(" ");
            let content = convert_rich_texts(rich_text);
            out.append(content.as_str());
            Some(out)
        },
        BlockType::Image { image } => media("<img style=\"margin: 0 auto\" src=\"", image, "\">"),
        BlockType::Video { video } => media("<video controls src=\"", video, "\">"),
        BlockType::Divider => Some(String::from_str("---")),
        BlockType::ColumnList => None,
        BlockType::Column => None,
        BlockType::Table => None,
        BlockType::Bookmark => None,
        BlockType::File => None,
        BlockType::Pdf => None,
        BlockType::TableOfContents => None,
        BlockType::ChildPage => None,
        BlockType::ChildDatabase => None,
        BlockType::SyncedBlock => None,
        BlockType::Template => None,
        BlockType::Toggle => None,
        BlockType::Breadcrumb => None,
        BlockType::Embed => None,
        BlockType::Equation => None,
        BlockType::LinkPreview => None,
        BlockType::TableRow => None,
        BlockType::LinkToPage => None,
        BlockType::Unsupported => None,
    }
}

} // verus!
