//! The language of a code block and the tag it carries in a fence.

use notion::models::block::CodeLanguage;
use vstd::prelude::*;

use crate::text::{RichText, RichTextView};

verus! {

/// `notion::models::block::CodeLanguage`, the languages that the Notion
/// API knows for a code block. A value is carried through as it is:
/// nothing is claimed of what is inside.
#[verifier::external_type_specification]
#[verifier::external_body]
pub struct ExCodeLanguage(notion::models::block::CodeLanguage);

/// What `serde_variant::to_variant_name` returns for a code language: the
/// name under which the language is serialised, or `None` where it reports
/// that the value has no variant name.
pub uninterp spec fn variant_name(language: CodeLanguage) -> Option<Seq<char>>;

/// Calls `serde_variant::to_variant_name` on `language`. The call reads
/// nothing but its argument, so its result is the same for the same
/// language: `variant_name` stands for it. An error of the call comes back
/// as `None`.
#[verifier::external_body]
fn to_variant_name(language: &CodeLanguage) -> (name: Option<String>)
    ensures
        name.deep_view() == variant_name(*language),
{
    match serde_variant::to_variant_name(language) {
        Ok(name) => Some(name.to_string()),
        Err(_) => None,
    }
}

/// A block of source code: its text and the language it is written in.
///
/// Every value has a language whose tag is known, so rendering it cannot
/// fail.
#[derive(Debug, PartialEq, Eq)]
pub struct Code {
    language: CodeLanguage,
    rich_text: Vec<RichText>,
}

/// The mathematical value of a [`Code`]: its language and its spans.
pub struct CodeView {
    pub language: CodeLanguage,
    pub rich_text: Seq<RichTextView>,
}

impl CodeView {
    /// The tag that the fence of the block carries: the name of its
    /// language.
    pub open spec fn tag(self) -> Seq<char> {
        variant_name(self.language)->Some_0
    }
}

impl View for Code {
    type V = CodeView;

    closed spec fn view(&self) -> CodeView {
        CodeView { language: self.language, rich_text: self.rich_text.deep_view() }
    }
}

impl DeepView for Code {
    type V = CodeView;

    open spec fn deep_view(&self) -> CodeView {
        self@
    }
}

impl Code {
    #[verifier::type_invariant]
    spec fn tagged(self) -> bool {
        variant_name(self.language) is Some
    }

    /// A code block in `language` with the text `rich_text`; `None` where
    /// the language has no name to tag the fence with.
    pub fn new(language: CodeLanguage, rich_text: Vec<RichText>) -> (code: Option<Code>)
        ensures
            code is Some <==> variant_name(language) is Some,
            code matches Some(c) ==> c@ == (CodeView {
                language,
                rich_text: rich_text.deep_view(),
            }),
    {
        match to_variant_name(&language) {
            Some(_) => Some(Code { language, rich_text }),
            None => None,
        }
    }

    /// The language of the code.
    pub fn language(&self) -> (language: &CodeLanguage)
        ensures
            *language == self@.language,
    {
        &self.language
    }

    /// The tag of the language, as it stands after the opening fence.
    pub fn language_tag(&self) -> (tag: String)
        ensures
            variant_name(self@.language) == Some(tag@),
    {
        proof {
            use_type_invariant(self);
        }
        to_variant_name(&self.language).unwrap()
    }

    /// The spans of the code.
    pub fn rich_text(&self) -> (spans: &Vec<RichText>)
        ensures
            spans.deep_view() == self@.rich_text,
    {
        &self.rich_text
    }
}

} // verus!
