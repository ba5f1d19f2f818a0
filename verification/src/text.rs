//! Inline rich text and its Markdown form.

use vstd::prelude::*;
use vstd::string::*;

verus! {

/// The style flags of a span of text. Each flag stands alone: any
/// combination may be set.
#[derive(Debug, Clone, Copy, PartialEq, Eq)]
pub struct Annotations {
    pub bold: bool,
    pub italic: bool,
    pub code: bool,
}

/// One span of inline content.
#[derive(Debug, Clone, PartialEq, Eq)]
pub enum RichText {
    /// Plain characters with their style flags.
    Text { content: String, annotations: Annotations },
    /// A reference to a user, a page or a date. It has no Markdown form.
    Mention,
    /// An inline formula. It has no Markdown form.
    Equation,
}

/// The mathematical value of a [`RichText`].
pub enum RichTextView {
    Text { content: Seq<char>, annotations: Annotations },
    Mention,
    Equation,
}

impl View for RichText {
    type V = RichTextView;

    open spec fn view(&self) -> RichTextView {
        match *self {
            RichText::Text { content, annotations } => RichTextView::Text {
                content: content@,
                annotations,
            },
            RichText::Mention => RichTextView::Mention,
            RichText::Equation => RichTextView::Equation,
        }
    }
}

impl DeepView for RichText {
    type V = RichTextView;

    open spec fn deep_view(&self) -> RichTextView {
        self@
    }
}

/// `text` between two copies of `mark`.
pub open spec fn wrapped(mark: Seq<char>, text: Seq<char>) -> Seq<char> {
    mark + text + mark
}

/// `content` with the emphasis that `annotations` asks for: bold innermost,
/// then italic, then code outermost.
pub open spec fn emphasized(content: Seq<char>, annotations: Annotations) -> Seq<char> {
    let bold = if annotations.bold {
        wrapped("**"@, content)
    } else {
        content
    };
    let italic = if annotations.italic {
        wrapped("*"@, bold)
    } else {
        bold
    };
    if annotations.code {
        wrapped("`"@, italic)
    } else {
        italic
    }
}

/// The Markdown form of one span. Spans other than text have none and give
/// the empty string.
pub open spec fn inline_text(span: RichTextView) -> Seq<char> {
    match span {
        RichTextView::Text { content, annotations } => emphasized(content, annotations),
        RichTextView::Mention => Seq::empty(),
        RichTextView::Equation => Seq::empty(),
    }
}

/// The Markdown form of a run of spans: the forms of the spans, one after
/// the other with nothing between them.
pub open spec fn inline_texts(spans: Seq<RichTextView>) -> Seq<char>
    decreases spans.len(),
{
    if spans.len() == 0 {
        Seq::empty()
    } else {
        inline_texts(spans.drop_last()) + inline_text(spans.last())
    }
}

/// Puts `mark` before and after `text`.
fn wrap(mark: &str, text: String) -> (out: String)
    ensures
        out@ == wrapped(mark@, text@),
{
    let mut out = String::from_str(mark);
    out.append(text.as_str());
    out.append(mark);
    out
}

/// Renders one span of rich text as Markdown.
///
/// A span of text without any style comes out as it is. One that is bold
/// and code, and not italic, comes out as its content in `**`, and that in
/// backticks.
pub fn convert_rich_text(text: &RichText) -> (out: String)
    ensures
        out@ == inline_text(text@),
        text@ matches RichTextView::Text { content, annotations } ==> (!annotations.bold
            && !annotations.italic && !annotations.code ==> out@ == content),
        text@ matches RichTextView::Text { content, annotations } ==> (annotations.bold
            && !annotations.italic && annotations.code ==> out@ == "`"@ + ("**"@ + content
            + "**"@) + "`"@),
{
    match text {
        RichText::Text { content, annotations } => {
            let mut string = content.clone();
            if annotations.bold {
                string = wrap("**", string);
            }
            if annotations.italic {
                string = wrap("*", string);
            }
            if annotations.code {
                string = wrap("`", string);
            }
            string
        },
        _ => String::new(),
    }
}

/// Renders a run of spans as Markdown, in order and with no separator.
pub fn convert_rich_texts(spans: &Vec<RichText>) -> (out: String)
    ensures
        out@ == inline_texts(spans.deep_view()),
{
    let mut out = String::new();
    let mut i: usize = 0;
    while i < spans.len()
        invariant
            i <= spans.len(),
            out@ == inline_texts(spans.deep_view().take(i as int)),
        decreases spans.len() - i,
    {
        let piece = convert_rich_text(&spans[i]);
        proof {
            let done = spans.deep_view().take(i as int + 1);
            assert(done.drop_last() == spans.deep_view().take(i as int));
            assert(done.last() == spans[i as int]@);
        }
        out.append(piece.as_str());
        i = i + 1;
    }
    proof {
        assert(spans.deep_view().take(spans.len() as int) == spans.deep_view());
    }
    out
}

} // verus!
