//! Conversion of a tree of content blocks into one Markdown document with
//! embedded HTML.
//!
//! A page is a sequence of [`Block`]s. Most blocks render on their own:
//! [`convert_block`] gives the fragment of one, and the fragments are
//! joined with a blank line between them. A column list is made of its
//! children, which are not part of the block but kept by the service that
//! the page comes from. So [`convert_blocks`] does not always return the
//! document. Where it meets a column list, it returns a [`Conversion`] that
//! names the block whose children it needs, and [`Conversion::resume`] goes
//! on once they are there:
//!
//! ```text
//! let mut step = convert_blocks(blocks);
//! loop {
//!     match step {
//!         Step::Done(result) => return result,
//!         Step::Fetch { block_id, conversion } => {
//!             step = conversion.resume(fetch(&block_id));
//!         }
//!     }
//! }
//! ```
//!
//! What the document is, for every sequence of answers, is said by
//! [`document::rendering`]; every step of a conversion is proved to be
//! where that rendering stands.

pub mod block;
pub mod convert;
pub mod document;
pub mod language;
pub mod laws;
pub mod layout;
mod resumption;
pub mod text;

pub use crate::block::{convert_block, Block, BlockType, File, Icon};
pub use crate::convert::{convert_blocks, Conversion, Step};
pub use crate::language::Code;
pub use crate::text::{convert_rich_text, convert_rich_texts, Annotations, RichText};

use vstd::prelude::*;

verus! {

/// Why a conversion did not produce a document.
#[derive(Debug, Clone, Copy, PartialEq, Eq)]
pub enum Error {
    /// The children of a block could not be fetched.
    FetchFailure,
}

} // verus!
