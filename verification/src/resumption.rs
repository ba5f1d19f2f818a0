//! The meaning of a suspended conversion: what it will come to on the
//! answers still to arrive, and why each move of the conversion keeps it.

use vstd::prelude::*;

use crate::block::{plain_fragment, BlockView};
use crate::document::{
    column_contents, expands, fragment, fragments, listed, rendering, unused, Outcome,
};
use crate::layout::{column_list_html, joined};

verus! {

impl<T> Outcome<T> {
    /// The same outcome, counted from `n` answers earlier.
    pub open spec fn after(self, n: nat) -> Outcome<T> {
        match self {
            Outcome::Done { value, used } => Outcome::Done { value, used: used + n },
            Outcome::Failed => Outcome::Failed,
            Outcome::Waiting { id } => Outcome::Waiting { id },
        }
    }
}

/// A rendering of `blocks` that has stopped at the column list
/// `blocks[index]`, with the fragments of the blocks before it in
/// `fragments`.
///
/// Before the columns are known (`in_columns` is false) nothing else
/// counts. Once they are, `rendered` holds what the columns before `column`
/// rendered to.
pub struct Suspended {
    pub blocks: Seq<BlockView>,
    pub index: int,
    pub fragments: Seq<Seq<char>>,
    pub in_columns: bool,
    pub columns: Seq<BlockView>,
    pub column: int,
    pub rendered: Seq<Seq<char>>,
}

impl Suspended {
    /// The rendering of `blocks` before anything has been done.
    pub open spec fn fresh(blocks: Seq<BlockView>) -> Suspended {
        Suspended {
            blocks,
            index: 0,
            fragments: Seq::empty(),
            in_columns: false,
            columns: Seq::empty(),
            column: 0,
            rendered: Seq::empty(),
        }
    }

    /// The indices are in range.
    pub open spec fn in_range(self) -> bool {
        &&& 0 <= self.index <= self.blocks.len()
        &&& self.in_columns ==> {
            &&& self.index < self.blocks.len()
            &&& expands(self.blocks[self.index])
            &&& 0 <= self.column <= self.columns.len()
        }
    }

    /// The next thing to do is to ask for the children of a block.
    pub open spec fn asking(self) -> bool {
        &&& self.in_range()
        &&& if self.in_columns {
            self.column < self.columns.len()
        } else {
            self.index < self.blocks.len() && expands(self.blocks[self.index])
        }
    }

    /// The block whose children are asked for.
    pub open spec fn request(self) -> Seq<char> {
        if self.in_columns {
            self.columns[self.column].id
        } else {
            self.blocks[self.index].id
        }
    }

    /// What the rendering comes to on the answers `next`.
    pub open spec fn outcome(self, next: Seq<Option<Seq<BlockView>>>) -> Outcome<Seq<char>> {
        if self.in_columns {
            self.after_columns(columns_from(self.rendered, self.columns, self.column, next), next)
        } else {
            list_from(self.fragments, self.blocks, self.index, next)
        }
    }

    /// What the rendering comes to once its column list has come to
    /// `columns`.
    pub open spec fn after_columns(
        self,
        columns: Outcome<Seq<Seq<char>>>,
        next: Seq<Option<Seq<BlockView>>>,
    ) -> Outcome<Seq<char>> {
        match columns {
            Outcome::Done { value, used } => list_from(
                self.fragments.push(column_list_html(value)),
                self.blocks,
                self.index + 1,
                unused(next, used),
            ).after(used),
            Outcome::Failed => Outcome::Failed,
            Outcome::Waiting { id } => Outcome::Waiting { id },
        }
    }

    /// What the rendering comes to once the children of the column at
    /// `column` have come to `child`.
    pub open spec fn after_child(
        self,
        child: Outcome<Seq<char>>,
        next: Seq<Option<Seq<BlockView>>>,
    ) -> Outcome<Seq<char>> {
        match child {
            Outcome::Done { value, used } => self.after_columns(
                columns_from(
                    self.rendered.push(value),
                    self.columns,
                    self.column + 1,
                    unused(next, used),
                ).after(used),
                next,
            ),
            Outcome::Failed => Outcome::Failed,
            Outcome::Waiting { id } => Outcome::Waiting { id },
        }
    }

    /// The state after a block that asks for nothing.
    pub open spec fn past_plain(self) -> Suspended {
        Suspended {
            index: self.index + 1,
            fragments: self.fragments + listed(plain_fragment(self.blocks[self.index].block)),
            ..self
        }
    }

    /// The state once the columns have arrived.
    pub open spec fn with_columns(self, columns: Seq<BlockView>) -> Suspended {
        Suspended { in_columns: true, columns, column: 0, rendered: Seq::empty(), ..self }
    }

    /// The state once the children of the column at `column` have rendered
    /// to `text`.
    pub open spec fn past_column(self, text: Seq<char>) -> Suspended {
        Suspended { column: self.column + 1, rendered: self.rendered.push(text), ..self }
    }

    /// The state once all columns have rendered.
    pub open spec fn past_columns(self) -> Suspended {
        Suspended {
            index: self.index + 1,
            fragments: self.fragments.push(column_list_html(self.rendered)),
            in_columns: false,
            columns: Seq::empty(),
            column: 0,
            rendered: Seq::empty(),
            ..self
        }
    }
}

/// The document of `blocks`, given the fragments of the blocks before
/// `index`.
pub open spec fn list_from(
    done: Seq<Seq<char>>,
    blocks: Seq<BlockView>,
    index: int,
    next: Seq<Option<Seq<BlockView>>>,
) -> Outcome<Seq<char>> {
    match fragments(blocks.skip(index), next) {
        Outcome::Done { value, used } => Outcome::Done {
            value: joined(done + value, "\n\n"@),
            used,
        },
        Outcome::Failed => Outcome::Failed,
        Outcome::Waiting { id } => Outcome::Waiting { id },
    }
}

/// What `columns` render to, given what the columns before `column`
/// rendered to.
pub open spec fn columns_from(
    done: Seq<Seq<char>>,
    columns: Seq<BlockView>,
    column: int,
    next: Seq<Option<Seq<BlockView>>>,
) -> Outcome<Seq<Seq<char>>> {
    match column_contents(columns.skip(column), next) {
        Outcome::Done { value, used } => Outcome::Done { value: done + value, used },
        Outcome::Failed => Outcome::Failed,
        Outcome::Waiting { id } => Outcome::Waiting { id },
    }
}

/// What the outermost rendering comes to when the innermost comes to
/// `inner`. The renderings in `outer` each wait for the next one, the last
/// for `inner`.
pub open spec fn total(
    outer: Seq<Suspended>,
    inner: Outcome<Seq<char>>,
    next: Seq<Option<Seq<BlockView>>>,
) -> Outcome<Seq<char>>
    decreases outer.len(),
{
    if outer.len() == 0 {
        inner
    } else {
        total(outer.drop_last(), outer.last().after_child(inner, next), next)
    }
}

/// The renderings `outer` and `current` are where the rendering of
/// `blocks` stands after the answers `taken`.
pub open spec fn tracks(
    outer: Seq<Suspended>,
    current: Suspended,
    blocks: Seq<BlockView>,
    taken: Seq<Option<Seq<BlockView>>>,
) -> bool {
    forall|next: Seq<Option<Seq<BlockView>>>| #[trigger]
        rendering(blocks, taken + next) == total(outer, current.outcome(next), next).after(
            taken.len(),
        )
}

/// Taking no answer leaves them all.
pub proof fn lemma_unused_all(answers: Seq<Option<Seq<BlockView>>>)
    ensures
        unused(answers, 0) == answers,
{
    assert(answers.skip(0) =~= answers);
}

/// Taking one answer more of a sequence that is longer by one at the front
/// leaves the same answers.
pub proof fn lemma_unused_one_more(
    answer: Option<Seq<BlockView>>,
    next: Seq<Option<Seq<BlockView>>>,
    used: nat,
)
    ensures
        unused(seq![answer] + next, used + 1) == unused(next, used),
{
    if used <= next.len() {
        assert((seq![answer] + next).skip(used as int + 1) =~= next.skip(used as int));
    }
}

/// With one answer more in front, a column list that took one answer more
/// leaves its rendering one answer further.
proof fn lemma_after_columns_one_more(
    frame: Suspended,
    columns: Outcome<Seq<Seq<char>>>,
    answer: Option<Seq<BlockView>>,
    next: Seq<Option<Seq<BlockView>>>,
)
    ensures
        frame.after_columns(columns.after(1), seq![answer] + next) == frame.after_columns(
            columns,
            next,
        ).after(1),
{
    if let Outcome::Done { value, used } = columns {
        lemma_unused_one_more(answer, next, used);
    }
}

/// With one answer more in front, a column that took one answer more
/// leaves the rendering around it one answer further.
proof fn lemma_after_child_one_more(
    frame: Suspended,
    child: Outcome<Seq<char>>,
    answer: Option<Seq<BlockView>>,
    next: Seq<Option<Seq<BlockView>>>,
)
    ensures
        frame.after_child(child.after(1), seq![answer] + next) == frame.after_child(
            child,
            next,
        ).after(1),
{
    if let Outcome::Done { value, used } = child {
        lemma_unused_one_more(answer, next, used);
        let columns = columns_from(
            frame.rendered.push(value),
            frame.columns,
            frame.column + 1,
            unused(next, used),
        );
        assert(columns.after(used + 1) == columns.after(used).after(1));
        lemma_after_columns_one_more(frame, columns.after(used), answer, next);
    }
}

/// Taking one more answer first moves the count of the whole by one.
pub proof fn lemma_total_one_more(
    outer: Seq<Suspended>,
    inner: Outcome<Seq<char>>,
    answer: Option<Seq<BlockView>>,
    next: Seq<Option<Seq<BlockView>>>,
)
    ensures
        total(outer, inner.after(1), seq![answer] + next) == total(outer, inner, next).after(1),
    decreases outer.len(),
{
    if outer.len() > 0 {
        lemma_after_child_one_more(outer.last(), inner, answer, next);
        lemma_total_one_more(
            outer.drop_last(),
            outer.last().after_child(inner, next),
            answer,
            next,
        );
    }
}

/// A failure or a request of the innermost rendering is that of the whole.
pub proof fn lemma_total_stops(
    outer: Seq<Suspended>,
    inner: Outcome<Seq<char>>,
    next: Seq<Option<Seq<BlockView>>>,
)
    requires
        !(inner is Done),
    ensures
        total(outer, inner, next) == inner,
    decreases outer.len(),
{
    if outer.len() > 0 {
        lemma_total_stops(outer.drop_last(), outer.last().after_child(inner, next), next);
    }
}

/// A block that asks for nothing adds its fragment, and the rendering goes
/// on behind it.
proof fn lemma_outcome_past_plain(frame: Suspended, next: Seq<Option<Seq<BlockView>>>)
    requires
        frame.in_range(),
        !frame.in_columns,
        frame.index < frame.blocks.len(),
        !expands(frame.blocks[frame.index]),
    ensures
        frame.outcome(next) == frame.past_plain().outcome(next),
{
    let rest = frame.blocks.skip(frame.index);
    let head = listed(plain_fragment(frame.blocks[frame.index].block));
    assert(rest.first() == frame.blocks[frame.index]);
    assert(rest.drop_first() =~= frame.blocks.skip(frame.index + 1));
    lemma_unused_all(next);
    assert(fragment(rest.first(), next) == Outcome::Done {
        value: plain_fragment(frame.blocks[frame.index].block),
        used: 0,
    });
    if let Outcome::Done { value: tail, used } = fragments(
        frame.blocks.skip(frame.index + 1),
        next,
    ) {
        assert(frame.fragments + (head + tail) =~= (frame.fragments + head) + tail);
    }
}

/// At the end of its blocks a rendering is complete.
proof fn lemma_outcome_at_end(frame: Suspended, next: Seq<Option<Seq<BlockView>>>)
    requires
        !frame.in_columns,
        frame.index == frame.blocks.len(),
    ensures
        frame.outcome(next) == (Outcome::Done {
            value: joined(frame.fragments, "\n\n"@),
            used: 0,
        }),
{
    assert(frame.blocks.skip(frame.index).len() == 0);
    assert(frame.fragments + Seq::<Seq<char>>::empty() =~= frame.fragments);
}

/// Behind its last column a column list is complete.
proof fn lemma_outcome_past_columns(frame: Suspended, next: Seq<Option<Seq<BlockView>>>)
    requires
        frame.in_range(),
        frame.in_columns,
        frame.column == frame.columns.len(),
    ensures
        frame.outcome(next) == frame.past_columns().outcome(next),
{
    assert(frame.columns.skip(frame.column).len() == 0);
    assert(frame.rendered + Seq::<Seq<char>>::empty() =~= frame.rendered);
    lemma_unused_all(next);
    let rest = list_from(
        frame.fragments.push(column_list_html(frame.rendered)),
        frame.blocks,
        frame.index + 1,
        next,
    );
    assert(rest.after(0) == rest);
}

/// A rendered column takes its place among the rendered columns.
proof fn lemma_outcome_past_column(
    frame: Suspended,
    text: Seq<char>,
    next: Seq<Option<Seq<BlockView>>>,
)
    requires
        frame.in_columns,
    ensures
        frame.after_child(Outcome::Done { value: text, used: 0 }, next) == frame.past_column(
            text,
        ).outcome(next),
{
    lemma_unused_all(next);
    let columns = columns_from(frame.rendered.push(text), frame.columns, frame.column + 1, next);
    assert(columns.after(0) == columns);
}

/// Without an answer, a rendering that asks stays at its request.
proof fn lemma_outcome_asks(frame: Suspended)
    requires
        frame.asking(),
    ensures
        frame.outcome(Seq::empty()) == (Outcome::<Seq<char>>::Waiting { id: frame.request() }),
{
    let none = Seq::<Option<Seq<BlockView>>>::empty();
    if frame.in_columns {
        let rest = frame.columns.skip(frame.column);
        assert(rest.first() == frame.columns[frame.column]);
        assert(column_contents(rest, none) == Outcome::<Seq<Seq<char>>>::Waiting {
            id: frame.request(),
        });
    } else {
        let rest = frame.blocks.skip(frame.index);
        assert(rest.first() == frame.blocks[frame.index]);
        assert(fragment(rest.first(), none) == Outcome::<Option<Seq<char>>>::Waiting {
            id: frame.request(),
        });
    }
}

/// A failed fetch fails the rendering that asked.
proof fn lemma_outcome_fails(frame: Suspended, next: Seq<Option<Seq<BlockView>>>)
    requires
        frame.asking(),
    ensures
        frame.outcome(seq![None] + next) == Outcome::<Seq<char>>::Failed,
{
    let answers = seq![None] + next;
    assert(answers.first() == None::<Seq<BlockView>>);
    if frame.in_columns {
        let rest = frame.columns.skip(frame.column);
        assert(rest.len() > 0);
        assert(column_contents(rest, answers) == Outcome::<Seq<Seq<char>>>::Failed);
    } else {
        let rest = frame.blocks.skip(frame.index);
        assert(rest.first() == frame.blocks[frame.index]);
        assert(fragment(rest.first(), answers) == Outcome::<Option<Seq<char>>>::Failed);
    }
}

/// The answer to the request of a column list is its columns.
proof fn lemma_outcome_columns_arrive(
    frame: Suspended,
    columns: Seq<BlockView>,
    next: Seq<Option<Seq<BlockView>>>,
)
    requires
        frame.asking(),
        !frame.in_columns,
    ensures
        frame.outcome(seq![Some(columns)] + next) == frame.with_columns(columns).outcome(
            next,
        ).after(1),
{
    let answers = seq![Some(columns)] + next;
    let rest = frame.blocks.skip(frame.index);
    assert(rest.first() == frame.blocks[frame.index]);
    assert(rest.drop_first() =~= frame.blocks.skip(frame.index + 1));
    assert(answers.first() == Some(columns));
    assert(answers.drop_first() =~= next);
    assert(columns.skip(0) =~= columns);
    if let Outcome::Done { value, used } = column_contents(columns, next) {
        lemma_unused_one_more(Some(columns), next, used);
        assert(Seq::<Seq<char>>::empty() + value =~= value);
        let html = column_list_html(value);
        assert(fragment(rest.first(), answers) == Outcome::Done {
            value: Some(html),
            used: used + 1,
        });
        if let Outcome::Done { value: tail, used: more } = fragments(
            frame.blocks.skip(frame.index + 1),
            unused(next, used),
        ) {
            assert(frame.fragments + (listed(Some(html)) + tail) =~= frame.fragments.push(html)
                + tail);
        }
    }
}

/// A rendering from its first block is the rendering of its blocks.
proof fn lemma_outcome_fresh(blocks: Seq<BlockView>, next: Seq<Option<Seq<BlockView>>>)
    ensures
        Suspended::fresh(blocks).outcome(next) == rendering(blocks, next),
{
    assert(blocks.skip(0) =~= blocks);
    if let Outcome::Done { value, used } = fragments(blocks, next) {
        assert(Seq::<Seq<char>>::empty() + value =~= value);
    }
}

/// The answer to the request of a column is its children, which are
/// rendered before the next column is asked for.
proof fn lemma_outcome_children_arrive(
    frame: Suspended,
    children: Seq<BlockView>,
    next: Seq<Option<Seq<BlockView>>>,
)
    requires
        frame.asking(),
        frame.in_columns,
    ensures
        frame.outcome(seq![Some(children)] + next) == frame.after_child(
            Suspended::fresh(children).outcome(next),
            next,
        ).after(1),
{
    let answers = seq![Some(children)] + next;
    let rest = frame.columns.skip(frame.column);
    assert(rest.len() > 0);
    assert(rest.drop_first() =~= frame.columns.skip(frame.column + 1));
    assert(answers.first() == Some(children));
    assert(answers.drop_first() =~= next);
    lemma_outcome_fresh(children, next);
    if let Outcome::Done { value: first, used } = rendering(children, next) {
        lemma_unused_one_more(Some(children), next, used);
        if let Outcome::Done { value: others, used: more } = column_contents(
            frame.columns.skip(frame.column + 1),
            unused(next, used),
        ) {
            lemma_unused_one_more(Some(children), next, used + more);
            assert(frame.rendered + (seq![first] + others) =~= frame.rendered.push(first)
                + others);
            let after = list_from(
                frame.fragments.push(column_list_html(frame.rendered.push(first) + others)),
                frame.blocks,
                frame.index + 1,
                unused(next, used + more),
            );
            assert(after.after(used + 1 + more) == after.after(more + used).after(1));
        }
    }
}

/// A conversion starts at the rendering of its blocks.
pub proof fn lemma_tracks_start(blocks: Seq<BlockView>)
    ensures
        tracks(Seq::empty(), Suspended::fresh(blocks), blocks, Seq::empty()),
{
    let taken = Seq::<Option<Seq<BlockView>>>::empty();
    assert forall|next: Seq<Option<Seq<BlockView>>>| #[trigger]
        rendering(blocks, taken + next) == total(
            Seq::empty(),
            Suspended::fresh(blocks).outcome(next),
            next,
        ).after(taken.len()) by {
        assert(taken + next =~= next);
        lemma_outcome_fresh(blocks, next);
        assert(rendering(blocks, next).after(0) == rendering(blocks, next));
    }
}

/// Replacing the innermost rendering by one of the same outcome keeps the
/// conversion on track.
proof fn lemma_tracks_same(
    outer: Seq<Suspended>,
    before: Suspended,
    after: Suspended,
    blocks: Seq<BlockView>,
    taken: Seq<Option<Seq<BlockView>>>,
)
    requires
        tracks(outer, before, blocks, taken),
        forall|next: Seq<Option<Seq<BlockView>>>| #[trigger]
            before.outcome(next) == after.outcome(next),
    ensures
        tracks(outer, after, blocks, taken),
{
    assert forall|next: Seq<Option<Seq<BlockView>>>| #[trigger]
        rendering(blocks, taken + next) == total(outer, after.outcome(next), next).after(
            taken.len(),
        ) by {
        assert(before.outcome(next) == after.outcome(next));
    }
}

/// Rendering a block that asks for nothing keeps the conversion on track.
pub proof fn lemma_tracks_past_plain(
    outer: Seq<Suspended>,
    frame: Suspended,
    blocks: Seq<BlockView>,
    taken: Seq<Option<Seq<BlockView>>>,
)
    requires
        tracks(outer, frame, blocks, taken),
        frame.in_range(),
        !frame.in_columns,
        frame.index < frame.blocks.len(),
        !expands(frame.blocks[frame.index]),
    ensures
        tracks(outer, frame.past_plain(), blocks, taken),
{
    assert forall|next: Seq<Option<Seq<BlockView>>>| #[trigger]
        frame.outcome(next) == frame.past_plain().outcome(next) by {
        lemma_outcome_past_plain(frame, next);
    }
    lemma_tracks_same(outer, frame, frame.past_plain(), blocks, taken);
}

/// Closing a column list behind its last column keeps the conversion on
/// track.
pub proof fn lemma_tracks_past_columns(
    outer: Seq<Suspended>,
    frame: Suspended,
    blocks: Seq<BlockView>,
    taken: Seq<Option<Seq<BlockView>>>,
)
    requires
        tracks(outer, frame, blocks, taken),
        frame.in_range(),
        frame.in_columns,
        frame.column == frame.columns.len(),
    ensures
        tracks(outer, frame.past_columns(), blocks, taken),
{
    assert forall|next: Seq<Option<Seq<BlockView>>>| #[trigger]
        frame.outcome(next) == frame.past_columns().outcome(next) by {
        lemma_outcome_past_columns(frame, next);
    }
    lemma_tracks_same(outer, frame, frame.past_columns(), blocks, taken);
}

/// When the innermost rendering is complete, the one that waited for it
/// goes on with its next column.
pub proof fn lemma_tracks_past_column(
    outer: Seq<Suspended>,
    parent: Suspended,
    child: Suspended,
    blocks: Seq<BlockView>,
    taken: Seq<Option<Seq<BlockView>>>,
)
    requires
        tracks(outer.push(parent), child, blocks, taken),
        parent.in_columns,
        !child.in_columns,
        child.index == child.blocks.len(),
    ensures
        tracks(outer, parent.past_column(joined(child.fragments, "\n\n"@)), blocks, taken),
{
    let text = joined(child.fragments, "\n\n"@);
    assert forall|next: Seq<Option<Seq<BlockView>>>| #[trigger]
        rendering(blocks, taken + next) == total(
            outer,
            parent.past_column(text).outcome(next),
            next,
        ).after(taken.len()) by {
        lemma_outcome_at_end(child, next);
        lemma_outcome_past_column(parent, text, next);
        assert(outer.push(parent).drop_last() =~= outer);
        assert(outer.push(parent).last() == parent);
    }
}

/// A conversion whose only rendering is at its end has produced the
/// document.
pub proof fn lemma_tracks_finished(
    frame: Suspended,
    blocks: Seq<BlockView>,
    taken: Seq<Option<Seq<BlockView>>>,
)
    requires
        tracks(Seq::empty(), frame, blocks, taken),
        !frame.in_columns,
        frame.index == frame.blocks.len(),
    ensures
        rendering(blocks, taken) == (Outcome::Done {
            value: joined(frame.fragments, "\n\n"@),
            used: taken.len(),
        }),
{
    let next = Seq::<Option<Seq<BlockView>>>::empty();
    assert(taken + next =~= taken);
    lemma_outcome_at_end(frame, next);
    assert(rendering(blocks, taken + next) == total(
        Seq::empty(),
        frame.outcome(next),
        next,
    ).after(taken.len()));
}

/// A conversion whose innermost rendering asks for a block waits for that
/// block.
pub proof fn lemma_tracks_asks(
    outer: Seq<Suspended>,
    frame: Suspended,
    blocks: Seq<BlockView>,
    taken: Seq<Option<Seq<BlockView>>>,
)
    requires
        tracks(outer, frame, blocks, taken),
        frame.asking(),
    ensures
        rendering(blocks, taken) == (Outcome::<Seq<char>>::Waiting { id: frame.request() }),
{
    let next = Seq::<Option<Seq<BlockView>>>::empty();
    assert(taken + next =~= taken);
    lemma_outcome_asks(frame);
    lemma_total_stops(outer, frame.outcome(next), next);
    assert(rendering(blocks, taken + next) == total(outer, frame.outcome(next), next).after(
        taken.len(),
    ));
}

/// A failed fetch fails the conversion.
pub proof fn lemma_tracks_fails(
    outer: Seq<Suspended>,
    frame: Suspended,
    blocks: Seq<BlockView>,
    taken: Seq<Option<Seq<BlockView>>>,
)
    requires
        tracks(outer, frame, blocks, taken),
        frame.asking(),
    ensures
        rendering(blocks, taken.push(None)) == Outcome::<Seq<char>>::Failed,
{
    let next = seq![None::<Seq<BlockView>>];
    assert(taken + next =~= taken.push(None));
    assert(next =~= seq![None] + Seq::empty());
    lemma_outcome_fails(frame, Seq::empty());
    lemma_total_stops(outer, frame.outcome(next), next);
    assert(rendering(blocks, taken + next) == total(outer, frame.outcome(next), next).after(
        taken.len(),
    ));
}

/// When the columns of a column list arrive, the conversion goes on in
/// that column list, one answer further.
pub proof fn lemma_tracks_columns_arrive(
    outer: Seq<Suspended>,
    frame: Suspended,
    columns: Seq<BlockView>,
    blocks: Seq<BlockView>,
    taken: Seq<Option<Seq<BlockView>>>,
)
    requires
        tracks(outer, frame, blocks, taken),
        frame.asking(),
        !frame.in_columns,
    ensures
        tracks(outer, frame.with_columns(columns), blocks, taken.push(Some(columns))),
{
    let answer = Some(columns);
    let after = frame.with_columns(columns);
    assert forall|next: Seq<Option<Seq<BlockView>>>| #[trigger]
        rendering(blocks, taken.push(answer) + next) == total(
            outer,
            after.outcome(next),
            next,
        ).after(taken.push(answer).len()) by {
        let longer = seq![answer] + next;
        assert(taken.push(answer) + next =~= taken + longer);
        assert(rendering(blocks, taken + longer) == total(
            outer,
            frame.outcome(longer),
            longer,
        ).after(taken.len()));
        lemma_outcome_columns_arrive(frame, columns, next);
        lemma_total_one_more(outer, after.outcome(next), answer, next);
    }
}

/// When the children of a column arrive, the conversion goes on with
/// their rendering, one answer further, while the column list waits.
pub proof fn lemma_tracks_children_arrive(
    outer: Seq<Suspended>,
    frame: Suspended,
    children: Seq<BlockView>,
    blocks: Seq<BlockView>,
    taken: Seq<Option<Seq<BlockView>>>,
)
    requires
        tracks(outer, frame, blocks, taken),
        frame.asking(),
        frame.in_columns,
    ensures
        tracks(
            outer.push(frame),
            Suspended::fresh(children),
            blocks,
            taken.push(Some(children)),
        ),
{
    let answer = Some(children);
    let child = Suspended::fresh(children);
    assert forall|next: Seq<Option<Seq<BlockView>>>| #[trigger]
        rendering(blocks, taken.push(answer) + next) == total(
            outer.push(frame),
            child.outcome(next),
            next,
        ).after(taken.push(answer).len()) by {
        let longer = seq![answer] + next;
        assert(taken.push(answer) + next =~= taken + longer);
        assert(rendering(blocks, taken + longer) == total(
            outer,
            frame.outcome(longer),
            longer,
        ).after(taken.len()));
        lemma_outcome_children_arrive(frame, children, next);
        lemma_total_one_more(outer, frame.after_child(child.outcome(next), next), answer, next);
        assert(outer.push(frame).drop_last() =~= outer);
        assert(outer.push(frame).last() == frame);
    }
}

} // verus!
