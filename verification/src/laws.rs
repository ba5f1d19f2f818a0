//! What holds of every rendering.

use vstd::prelude::*;

use crate::block::{plain_fragment, silent, BlockView};
use crate::document::{
    column_contents, expands, fragment, fragments, listed, rendering, unused, Outcome,
};

verus! {

/// No blocks render to the empty document, and nothing is asked for.
pub proof fn lemma_empty_document(answers: Seq<Option<Seq<BlockView>>>)
    ensures
        rendering(Seq::empty(), answers) == (Outcome::Done { value: Seq::<char>::empty(), used: 0 }),
{
}

/// A column list that says it has no children has no fragment, and its
/// children are not asked for, whatever answers there are.
pub proof fn lemma_column_list_without_children(
    block: BlockView,
    answers: Seq<Option<Seq<BlockView>>>,
)
    requires
        block.block is ColumnList,
        !block.has_children,
    ensures
        fragment(block, answers) == (Outcome::Done { value: None::<Seq<char>>, used: 0 }),
{
}

/// Where no block is a column list with children, the rendering is
/// complete without taking any answer, and is the same whatever the
/// answers are.
pub proof fn lemma_nothing_asked(blocks: Seq<BlockView>, answers: Seq<Option<Seq<BlockView>>>)
    requires
        forall|i: int| 0 <= i < blocks.len() ==> !expands(#[trigger] blocks[i]),
    ensures
        rendering(blocks, answers) is Done,
        rendering(blocks, answers)->used == 0,
        rendering(blocks, answers) == rendering(blocks, Seq::empty()),
{
    lemma_fragments_without_requests(blocks, answers);
    lemma_fragments_without_requests(blocks, Seq::empty());
}

proof fn lemma_fragments_without_requests(
    blocks: Seq<BlockView>,
    answers: Seq<Option<Seq<BlockView>>>,
)
    requires
        forall|i: int| 0 <= i < blocks.len() ==> !expands(#[trigger] blocks[i]),
    ensures
        fragments(blocks, answers) is Done,
        fragments(blocks, answers)->used == 0,
        fragments(blocks, answers)->value == fragments(blocks, Seq::empty())->value,
    decreases blocks.len(),
{
    if blocks.len() > 0 {
        let none = Seq::<Option<Seq<BlockView>>>::empty();
        assert(!expands(blocks[0]));
        assert(fragment(blocks.first(), answers) == Outcome::Done {
            value: plain_fragment(blocks[0].block),
            used: 0,
        });
        assert(fragment(blocks.first(), none) == Outcome::Done {
            value: plain_fragment(blocks[0].block),
            used: 0,
        });
        assert(unused(answers, 0) =~= answers);
        assert(unused(none, 0) =~= none);
        assert forall|i: int| 0 <= i < blocks.drop_first().len() implies !expands(
            #[trigger] blocks.drop_first()[i],
        ) by {
            assert(blocks.drop_first()[i] == blocks[i + 1]);
        }
        lemma_fragments_without_requests(blocks.drop_first(), answers);
        lemma_fragments_without_requests(blocks.drop_first(), none);
    }
}

/// A block that has no fragment and asks for nothing leaves no trace: the
/// blocks render as they do without it.
pub proof fn lemma_block_without_fragment(
    blocks: Seq<BlockView>,
    at: int,
    answers: Seq<Option<Seq<BlockView>>>,
)
    requires
        0 <= at < blocks.len(),
        !expands(blocks[at]),
        plain_fragment(blocks[at].block) is None,
    ensures
        fragments(blocks.remove(at), answers) == fragments(blocks, answers),
        rendering(blocks.remove(at), answers) == rendering(blocks, answers),
    decreases at,
{
    if at == 0 {
        assert(blocks.remove(0) =~= blocks.drop_first());
        assert(unused(answers, 0) =~= answers);
        if let Outcome::Done { value: tail, used } = fragments(blocks.drop_first(), answers) {
            assert(Seq::<Seq<char>>::empty() + tail =~= tail);
        }
    } else {
        assert(blocks.remove(at).first() == blocks.first());
        assert(blocks.remove(at).drop_first() =~= blocks.drop_first().remove(at - 1));
        if let Outcome::Done { value, used } = fragment(blocks.first(), answers) {
            lemma_block_without_fragment(blocks.drop_first(), at - 1, unused(answers, used));
        }
    }
}

/// A block of a type that never renders to anything leaves no trace in
/// the document, wherever it stands and whatever else it holds.
pub proof fn lemma_silent_block(
    blocks: Seq<BlockView>,
    at: int,
    answers: Seq<Option<Seq<BlockView>>>,
)
    requires
        0 <= at < blocks.len(),
        silent(blocks[at].block),
    ensures
        plain_fragment(blocks[at].block) is None,
        fragment(blocks[at], answers) == (Outcome::Done { value: None::<Seq<char>>, used: 0 }),
        rendering(blocks.remove(at), answers) == rendering(blocks, answers),
{
    lemma_block_without_fragment(blocks, at, answers);
}

/// A column list that says it has no children leaves no trace in the
/// document.
pub proof fn lemma_column_list_without_children_leaves_no_trace(
    blocks: Seq<BlockView>,
    at: int,
    answers: Seq<Option<Seq<BlockView>>>,
)
    requires
        0 <= at < blocks.len(),
        blocks[at].block is ColumnList,
        !blocks[at].has_children,
    ensures
        rendering(blocks.remove(at), answers) == rendering(blocks, answers),
{
    lemma_block_without_fragment(blocks, at, answers);
}

/// The fragments of `blocks` after those of earlier blocks, which came to
/// `earlier` on `answers`: the blocks go on with the answers that are
/// left.
pub open spec fn followed_by(
    earlier: Outcome<Seq<Seq<char>>>,
    blocks: Seq<BlockView>,
    answers: Seq<Option<Seq<BlockView>>>,
) -> Outcome<Seq<Seq<char>>> {
    match earlier {
        Outcome::Done { value: before, used } => match fragments(blocks, unused(answers, used)) {
            Outcome::Done { value: after, used: more } => Outcome::Done {
                value: before + after,
                used: used + more,
            },
            Outcome::Failed => Outcome::Failed,
            Outcome::Waiting { id } => Outcome::Waiting { id },
        },
        Outcome::Failed => Outcome::Failed,
        Outcome::Waiting { id } => Outcome::Waiting { id },
    }
}

/// Blocks render in their order: the fragments of two sequences of
/// blocks, one after the other, are the fragments of the first, followed
/// by the fragments of the second on the answers that the first left.
pub proof fn lemma_fragments_in_order(
    first: Seq<BlockView>,
    second: Seq<BlockView>,
    answers: Seq<Option<Seq<BlockView>>>,
)
    ensures
        fragments(first + second, answers) == followed_by(
            fragments(first, answers),
            second,
            answers,
        ),
    decreases first.len(),
{
    if first.len() == 0 {
        assert(first + second =~= second);
        assert(unused(answers, 0) =~= answers);
        if let Outcome::Done { value: after, used: more } = fragments(second, answers) {
            assert(Seq::<Seq<char>>::empty() + after =~= after);
        }
    } else {
        let all = first + second;
        assert(all.first() == first.first());
        assert(all.drop_first() =~= first.drop_first() + second);
        if let Outcome::Done { value: head, used: taken } = fragment(first.first(), answers) {
            let left = unused(answers, taken);
            lemma_fragment_settled(first.first(), answers, Seq::empty());
            lemma_fragments_in_order(first.drop_first(), second, left);
            if let Outcome::Done { value: before, used } = fragments(first.drop_first(), left) {
                lemma_fragments_settled(first.drop_first(), left, Seq::empty());
                assert(unused(left, used) =~= unused(answers, taken + used));
                if let Outcome::Done { value: after, used: more } = fragments(
                    second,
                    unused(left, used),
                ) {
                    assert(listed(head) + (before + after) =~= (listed(head) + before) + after);
                }
            }
        }
    }
}

/// The first column list with children is the first block whose children
/// are asked for.
pub proof fn lemma_first_request(blocks: Seq<BlockView>, at: int)
    requires
        0 <= at < blocks.len(),
        expands(blocks[at]),
        forall|i: int| 0 <= i < at ==> !expands(#[trigger] blocks[i]),
    ensures
        rendering(blocks, Seq::empty()) == (Outcome::<Seq<char>>::Waiting { id: blocks[at].id }),
    decreases at,
{
    let none = Seq::<Option<Seq<BlockView>>>::empty();
    if at == 0 {
        assert(fragment(blocks.first(), none) == Outcome::<Option<Seq<char>>>::Waiting {
            id: blocks[0].id,
        });
    } else {
        assert(!expands(blocks[0]));
        assert(fragment(blocks.first(), none) == Outcome::Done {
            value: plain_fragment(blocks[0].block),
            used: 0,
        });
        assert(unused(none, 0) =~= none);
        assert forall|i: int| 0 <= i < at - 1 implies !expands(
            #[trigger] blocks.drop_first()[i],
        ) by {
            assert(blocks.drop_first()[i] == blocks[i + 1]);
        }
        lemma_first_request(blocks.drop_first(), at - 1);
    }
}

/// A rendering that is over takes no more answers than there are, and
/// comes to the same whatever answers follow.
pub proof fn lemma_later_answers_do_not_count(
    blocks: Seq<BlockView>,
    answers: Seq<Option<Seq<BlockView>>>,
    later: Seq<Option<Seq<BlockView>>>,
)
    requires
        !(rendering(blocks, answers) is Waiting),
    ensures
        rendering(blocks, answers + later) == rendering(blocks, answers),
        rendering(blocks, answers) is Done ==> rendering(blocks, answers)->used <= answers.len(),
    decreases answers.len(), 3int, 0int,
{
    lemma_fragments_settled(blocks, answers, later);
}

proof fn lemma_fragments_settled(
    blocks: Seq<BlockView>,
    answers: Seq<Option<Seq<BlockView>>>,
    later: Seq<Option<Seq<BlockView>>>,
)
    requires
        !(fragments(blocks, answers) is Waiting),
    ensures
        fragments(blocks, answers + later) == fragments(blocks, answers),
        fragments(blocks, answers) is Done ==> fragments(blocks, answers)->used <= answers.len(),
    decreases answers.len(), 2int, blocks.len(),
{
    if blocks.len() > 0 {
        lemma_fragment_settled(blocks.first(), answers, later);
        if let Outcome::Done { value, used } = fragment(blocks.first(), answers) {
            assert(unused(answers + later, used) =~= unused(answers, used) + later);
            lemma_fragments_settled(blocks.drop_first(), unused(answers, used), later);
        }
    }
}

proof fn lemma_fragment_settled(
    block: BlockView,
    answers: Seq<Option<Seq<BlockView>>>,
    later: Seq<Option<Seq<BlockView>>>,
)
    requires
        !(fragment(block, answers) is Waiting),
    ensures
        fragment(block, answers + later) == fragment(block, answers),
        fragment(block, answers) is Done ==> fragment(block, answers)->used <= answers.len(),
    decreases answers.len(), 1int, 0int,
{
    if expands(block) {
        assert(answers.len() > 0);
        assert((answers + later).first() == answers.first());
        assert((answers + later).drop_first() =~= answers.drop_first() + later);
        if let Some(columns) = answers.first() {
            lemma_columns_settled(columns, answers.drop_first(), later);
        }
    }
}

proof fn lemma_columns_settled(
    columns: Seq<BlockView>,
    answers: Seq<Option<Seq<BlockView>>>,
    later: Seq<Option<Seq<BlockView>>>,
)
    requires
        !(column_contents(columns, answers) is Waiting),
    ensures
        column_contents(columns, answers + later) == column_contents(columns, answers),
        column_contents(columns, answers) is Done ==> column_contents(columns, answers)->used
            <= answers.len(),
    decreases answers.len(), 4int, columns.len(),
{
    if columns.len() > 0 {
        assert(answers.len() > 0);
        assert((answers + later).first() == answers.first());
        assert((answers + later).drop_first() =~= answers.drop_first() + later);
        if let Some(children) = answers.first() {
            lemma_later_answers_do_not_count(children, answers.drop_first(), later);
            if let Outcome::Done { value, used } = rendering(children, answers.drop_first()) {
                assert(unused(answers + later, used + 1) =~= unused(answers, used + 1) + later);
                lemma_columns_settled(columns.drop_first(), unused(answers, used + 1), later);
            }
        }
    }
}

/// A rendering that waits for the children of a block fails when fetching
/// them fails.
pub proof fn lemma_failed_fetch(blocks: Seq<BlockView>, answers: Seq<Option<Seq<BlockView>>>)
    requires
        rendering(blocks, answers) is Waiting,
    ensures
        rendering(blocks, answers.push(None)) == Outcome::<Seq<char>>::Failed,
    decreases answers.len(), 3int, 0int,
{
    lemma_fragments_fail(blocks, answers);
}

proof fn lemma_fragments_fail(blocks: Seq<BlockView>, answers: Seq<Option<Seq<BlockView>>>)
    requires
        fragments(blocks, answers) is Waiting,
    ensures
        fragments(blocks, answers.push(None)) == Outcome::<Seq<Seq<char>>>::Failed,
    decreases answers.len(), 2int, blocks.len(),
{
    let failed = answers.push(None);
    assert(failed =~= answers + seq![None]);
    match fragment(blocks.first(), answers) {
        Outcome::Done { value, used } => {
            lemma_fragment_settled(blocks.first(), answers, seq![None]);
            assert(unused(failed, used) =~= unused(answers, used).push(None));
            lemma_fragments_fail(blocks.drop_first(), unused(answers, used));
        },
        Outcome::Failed => {},
        Outcome::Waiting { id } => {
            lemma_fragment_fails(blocks.first(), answers);
        },
    }
}

proof fn lemma_fragment_fails(block: BlockView, answers: Seq<Option<Seq<BlockView>>>)
    requires
        fragment(block, answers) is Waiting,
    ensures
        fragment(block, answers.push(None)) == Outcome::<Option<Seq<char>>>::Failed,
    decreases answers.len(), 1int, 0int,
{
    let failed = answers.push(None);
    if answers.len() > 0 {
        assert(failed.first() == answers.first());
        assert(failed.drop_first() =~= answers.drop_first().push(None));
        if let Some(columns) = answers.first() {
            lemma_columns_fail(columns, answers.drop_first());
        }
    }
}

proof fn lemma_columns_fail(columns: Seq<BlockView>, answers: Seq<Option<Seq<BlockView>>>)
    requires
        column_contents(columns, answers) is Waiting,
    ensures
        column_contents(columns, answers.push(None)) == Outcome::<Seq<Seq<char>>>::Failed,
    decreases answers.len(), 4int, columns.len(),
{
    let failed = answers.push(None);
    assert(failed =~= answers + seq![None]);
    if answers.len() > 0 {
        assert(failed.first() == answers.first());
        assert(failed.drop_first() =~= answers.drop_first().push(None));
        if let Some(children) = answers.first() {
            match rendering(children, answers.drop_first()) {
                Outcome::Done { value, used } => {
                    lemma_later_answers_do_not_count(children, answers.drop_first(), seq![None]);
                    assert(answers.drop_first().push(None) =~= answers.drop_first() + seq![None]);
                    assert(unused(failed, used + 1) =~= unused(answers, used + 1).push(None));
                    lemma_columns_fail(columns.drop_first(), unused(answers, used + 1));
                },
                Outcome::Failed => {},
                Outcome::Waiting { id } => {
                    lemma_failed_fetch(children, answers.drop_first());
                },
            }
        }
    }
}

} // verus!
