//! What a sequence of blocks renders to, given what the service answers when
//! it is asked for the children of a block.
//!
//! Only a column list that has children asks for anything: first for its
//! columns, then for the children of each column in turn. The answers are
//! taken in the order in which the requests are made, so a sequence of
//! answers decides the whole rendering.

use vstd::prelude::*;

use crate::block::{plain_fragment, BlockView};
use crate::layout::{column_list_html, joined};

verus! {

/// How far a rendering gets on the answers at hand.
pub enum Outcome<T> {
    /// It is complete: `value` came out, and the first `used` answers were
    /// taken.
    Done { value: T, used: nat },
    /// An answer taken on the way reported that the fetch failed.
    Failed,
    /// The answers ran out: the children of the block `id` are needed next.
    Waiting { id: Seq<char> },
}

/// The answers that are left once the first `used` were taken.
pub open spec fn unused(answers: Seq<Option<Seq<BlockView>>>, used: nat) -> Seq<
    Option<Seq<BlockView>>,
> {
    if used <= answers.len() {
        answers.skip(used as int)
    } else {
        Seq::empty()
    }
}

/// Whether rendering `block` asks for its children: only a column list
/// does, and only where it says that it has children.
pub open spec fn expands(block: BlockView) -> bool {
    block.block is ColumnList && block.has_children
}

/// The fragment as a list of fragments: one or none.
pub open spec fn listed(fragment: Option<Seq<char>>) -> Seq<Seq<char>> {
    match fragment {
        Some(text) => seq![text],
        None => Seq::empty(),
    }
}

/// The document that `blocks` render to: their fragments in order, with a
/// blank line between each two. Blocks without a fragment leave no trace.
pub open spec fn rendering(blocks: Seq<BlockView>, answers: Seq<Option<Seq<BlockView>>>) -> Outcome<
    Seq<char>,
>
    decreases answers.len(), 3int, 0int,
{
    match fragments(blocks, answers) {
        Outcome::Done { value, used } => Outcome::Done { value: joined(value, "\n\n"@), used },
        Outcome::Failed => Outcome::Failed,
        Outcome::Waiting { id } => Outcome::Waiting { id },
    }
}

/// The fragments of `blocks`, in order.
pub open spec fn fragments(blocks: Seq<BlockView>, answers: Seq<Option<Seq<BlockView>>>) -> Outcome<
    Seq<Seq<char>>,
>
    decreases answers.len(), 2int, blocks.len(),
{
    if blocks.len() == 0 {
        Outcome::Done { value: Seq::empty(), used: 0 }
    } else {
        match fragment(blocks.first(), answers) {
            Outcome::Done { value: head, used } => match fragments(
                blocks.drop_first(),
                unused(answers, used),
            ) {
                Outcome::Done { value: tail, used: more } => Outcome::Done {
                    value: listed(head) + tail,
                    used: used + more,
                },
                Outcome::Failed => Outcome::Failed,
                Outcome::Waiting { id } => Outcome::Waiting { id },
            },
            Outcome::Failed => Outcome::Failed,
            Outcome::Waiting { id } => Outcome::Waiting { id },
        }
    }
}

/// The fragment of one block. A column list with children takes one answer
/// for its columns, and then what its columns take.
pub open spec fn fragment(block: BlockView, answers: Seq<Option<Seq<BlockView>>>) -> Outcome<
    Option<Seq<char>>,
>
    decreases answers.len(), 1int, 0int,
{
    if !expands(block) {
        Outcome::Done { value: plain_fragment(block.block), used: 0 }
    } else if answers.len() == 0 {
        Outcome::Waiting { id: block.id }
    } else {
        match answers.first() {
            None => Outcome::Failed,
            Some(columns) => match column_contents(columns, answers.drop_first()) {
                Outcome::Done { value, used } => Outcome::Done {
                    value: Some(column_list_html(value)),
                    used: used + 1,
                },
                Outcome::Failed => Outcome::Failed,
                Outcome::Waiting { id } => Outcome::Waiting { id },
            },
        }
    }
}

/// What each of `columns` renders to, from left to right. Each column
/// takes one answer for its children, and then what rendering them takes.
pub open spec fn column_contents(
    columns: Seq<BlockView>,
    answers: Seq<Option<Seq<BlockView>>>,
) -> Outcome<Seq<Seq<char>>>
    decreases answers.len(), 4int, columns.len(),
{
    if columns.len() == 0 {
        Outcome::Done { value: Seq::empty(), used: 0 }
    } else if answers.len() == 0 {
        Outcome::Waiting { id: columns.first().id }
    } else {
        match answers.first() {
            None => Outcome::Failed,
            Some(children) => match rendering(children, answers.drop_first()) {
                Outcome::Done { value: first, used } => match column_contents(
                    columns.drop_first(),
                    unused(answers, used + 1),
                ) {
                    Outcome::Done { value: others, used: more } => Outcome::Done {
                        value: seq![first] + others,
                        used: used + 1 + more,
                    },
                    Outcome::Failed => Outcome::Failed,
                    Outcome::Waiting { id } => Outcome::Waiting { id },
                },
                Outcome::Failed => Outcome::Failed,
                Outcome::Waiting { id } => Outcome::Waiting { id },
            },
        }
    }
}

} // verus!
