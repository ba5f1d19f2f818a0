//! The conversion of a sequence of blocks, as a machine that stops
//! whenever it needs the children of a block.
//!
//! The conversion itself fetches nothing. It says which block it needs the
//! children of, and goes on when it is handed them. Whoever drives it does
//! the fetching, in whatever way it likes.

use vstd::prelude::*;
use vstd::string::*;

use crate::block::{convert_block, Block, BlockType, BlockView};
use crate::document::{expands, rendering, Outcome};
use crate::laws::{lemma_empty_document, lemma_nothing_asked};
use crate::layout::{convert_columns, join};
use crate::resumption::{
    lemma_tracks_asks, lemma_tracks_children_arrive, lemma_tracks_columns_arrive,
    lemma_tracks_fails, lemma_tracks_finished, lemma_tracks_past_column,
    lemma_tracks_past_columns, lemma_tracks_past_plain, lemma_tracks_start, tracks, Suspended,
};
use crate::Error;

verus! {

/// The rendering of one sequence of sibling blocks, stopped at a column
/// list.
struct Frame {
    blocks: Vec<Block>,
    index: usize,
    fragments: Vec<String>,
    in_columns: bool,
    columns: Vec<Block>,
    column: usize,
    rendered: Vec<String>,
}

impl View for Frame {
    type V = Suspended;

    closed spec fn view(&self) -> Suspended {
        Suspended {
            blocks: self.blocks.deep_view(),
            index: self.index as int,
            fragments: self.fragments.deep_view(),
            in_columns: self.in_columns,
            columns: self.columns.deep_view(),
            column: self.column as int,
            rendered: self.rendered.deep_view(),
        }
    }
}

impl DeepView for Frame {
    type V = Suspended;

    closed spec fn deep_view(&self) -> Suspended {
        self@
    }
}

/// Each of `frames` has asked for the children of a column and waits for
/// them to be rendered.
spec fn all_wait(frames: Seq<Suspended>) -> bool {
    forall|i: int| 0 <= i < frames.len() ==> (#[trigger] frames[i]).asking() && frames[i].in_columns
}

/// A conversion that waits for the children of a block.
pub struct Conversion {
    outer: Vec<Frame>,
    asking: Frame,
    blocks: Ghost<Seq<BlockView>>,
    answers: Ghost<Seq<Option<Seq<BlockView>>>>,
}

/// Where a conversion stands when it hands control back.
pub enum Step {
    /// The conversion is over: this is the document, or the reason why
    /// there is none.
    Done(Result<String, Error>),
    /// The conversion needs the children of the block `block_id`. Hand
    /// them to [`Conversion::resume`] to go on.
    Fetch { block_id: String, conversion: Conversion },
}

impl Conversion {
    /// The blocks that are being converted.
    pub closed spec fn blocks(&self) -> Seq<BlockView> {
        self.blocks@
    }

    /// The answers that the conversion has been given so far, in order.
    /// `None` stands for a fetch that failed.
    pub closed spec fn answers(&self) -> Seq<Option<Seq<BlockView>>> {
        self.answers@
    }

    /// The conversion is where the rendering of its blocks stands after
    /// its answers.
    #[verifier::type_invariant]
    spec fn wf(&self) -> bool {
        &&& all_wait(self.outer.deep_view())
        &&& self.asking@.asking()
        &&& tracks(self.outer.deep_view(), self.asking@, self.blocks@, self.answers@)
    }

    /// Goes on with the conversion, given the children of the block that
    /// it asked for, or `None` where fetching them failed.
    ///
    /// The step that comes back is where the rendering of the blocks
    /// stands after one more answer. A failed fetch ends the conversion
    /// with [`Error::FetchFailure`].
    pub fn resume(self, children: Option<Vec<Block>>) -> (step: Step)
        ensures
            step.reflects(self.blocks(), self.answers().push(children.deep_view())),
            children is None ==> step matches Step::Done(Err(Error::FetchFailure)),
    {
        proof {
            use_type_invariant(&self);
        }
        let Conversion { outer, asking, blocks, answers } = self;
        let mut outer = outer;
        let mut asking = asking;
        match children {
            None => {
                proof {
                    lemma_tracks_fails(outer.deep_view(), asking@, blocks@, answers@);
                }
                Step::Done(Err(Error::FetchFailure))
            },
            Some(list) => {
                let ghost taken = answers@.push(Some(list.deep_view()));
                if asking.in_columns {
                    proof {
                        lemma_tracks_children_arrive(
                            outer.deep_view(),
                            asking@,
                            list.deep_view(),
                            blocks@,
                            answers@,
                        );
                    }
                    let ghost below = outer.deep_view();
                    let ghost parent = asking@;
                    outer.push(asking);
                    let child = Frame {
                        blocks: list,
                        index: 0,
                        fragments: Vec::new(),
                        in_columns: false,
                        columns: Vec::new(),
                        column: 0,
                        rendered: Vec::new(),
                    };
                    proof {
                        assert(outer.deep_view() =~= below.push(parent));
                        assert(child.fragments.deep_view() =~= Seq::<Seq<char>>::empty());
                        assert(child.columns.deep_view() =~= Seq::<BlockView>::empty());
                        assert(child.rendered.deep_view() =~= Seq::<Seq<char>>::empty());
                        assert(child@ == Suspended::fresh(list.deep_view()));
                    }
                    advance(outer, child, blocks, Ghost(taken))
                } else {
                    proof {
                        lemma_tracks_columns_arrive(
                            outer.deep_view(),
                            asking@,
                            list.deep_view(),
                            blocks@,
                            answers@,
                        );
                    }
                    let ghost before = asking@;
                    asking.in_columns = true;
                    asking.columns = list;
                    asking.column = 0;
                    asking.rendered = Vec::new();
                    proof {
                        assert(asking.rendered.deep_view() =~= Seq::<Seq<char>>::empty());
                        assert(asking@ == before.with_columns(asking.columns.deep_view()));
                    }
                    advance(outer, asking, blocks, Ghost(taken))
                }
            },
        }
    }
}

impl Step {
    /// The step is where the rendering of `blocks` stands after `answers`:
    /// the document once every answer has been taken, the failure, or a
    /// conversion that waits for the block that is needed next.
    pub open spec fn reflects(
        self,
        blocks: Seq<BlockView>,
        answers: Seq<Option<Seq<BlockView>>>,
    ) -> bool {
        match self {
            Step::Done(Ok(document)) => rendering(blocks, answers) == (Outcome::Done {
                value: document@,
                used: answers.len(),
            }),
            Step::Done(Err(error)) => error == Error::FetchFailure && rendering(blocks, answers)
                == Outcome::<Seq<char>>::Failed,
            Step::Fetch { block_id, conversion } => {
                &&& rendering(blocks, answers) == (Outcome::<Seq<char>>::Waiting { id: block_id@ })
                &&& conversion.blocks() == blocks
                &&& conversion.answers() == answers
            },
        }
    }
}

/// Renders on from `current` until the conversion is over or needs the
/// children of a block.
fn advance(
    outer: Vec<Frame>,
    current: Frame,
    blocks: Ghost<Seq<BlockView>>,
    answers: Ghost<Seq<Option<Seq<BlockView>>>>,
) -> (step: Step)
    requires
        all_wait(outer.deep_view()),
        current@.in_range(),
        tracks(outer.deep_view(), current@, blocks@, answers@),
    ensures
        step.reflects(blocks@, answers@),
{
    let mut outer = outer;
    let mut current = current;
    loop
        invariant
            all_wait(outer.deep_view()),
            current@.in_range(),
            tracks(outer.deep_view(), current@, blocks@, answers@),
        decreases outer.len(), current.blocks.len() - current.index,
    {
        if current.in_columns {
            if current.column < current.columns.len() {
                let block_id = current.columns[current.column].id.clone();
                proof {
                    lemma_tracks_asks(outer.deep_view(), current@, blocks@, answers@);
                }
                return Step::Fetch {
                    block_id,
                    conversion: Conversion { outer, asking: current, blocks, answers },
                };
            }
            proof {
                lemma_tracks_past_columns(outer.deep_view(), current@, blocks@, answers@);
            }
            let ghost before = current@;
            let html = convert_columns(&current.rendered);
            current.fragments.push(html);
            current.index = current.index + 1;
            current.in_columns = false;
            current.columns = Vec::new();
            current.column = 0;
            current.rendered = Vec::new();
            proof {
                assert(current.fragments.deep_view() =~= before.fragments.push(html@));
                assert(current.columns.deep_view() =~= Seq::<BlockView>::empty());
                assert(current.rendered.deep_view() =~= Seq::<Seq<char>>::empty());
                assert(current@ == before.past_columns());
            }
        } else if current.index < current.blocks.len() {
            let needs_children = match &current.blocks[current.index].block {
                BlockType::ColumnList => current.blocks[current.index].has_children,
                _ => false,
            };
            assert(needs_children == expands(current@.blocks[current.index as int]));
            if needs_children {
                let block_id = current.blocks[current.index].id.clone();
                proof {
                    lemma_tracks_asks(outer.deep_view(), current@, blocks@, answers@);
                }
                return Step::Fetch {
                    block_id,
                    conversion: Conversion { outer, asking: current, blocks, answers },
                };
            }
            proof {
                lemma_tracks_past_plain(outer.deep_view(), current@, blocks@, answers@);
            }
            let ghost before = current@;
            let fragment = convert_block(&current.blocks[current.index].block);
            match fragment {
                Some(text) => {
                    current.fragments.push(text);
                    proof {
                        assert(current.fragments.deep_view() =~= before.fragments + seq![text@]);
                    }
                },
                None => {
                    proof {
                        assert(current.fragments.deep_view() =~= before.fragments
                            + Seq::<Seq<char>>::empty());
                    }
                },
            }
            current.index = current.index + 1;
            proof {
                assert(current@ == before.past_plain());
            }
        } else {
            let text = join(&current.fragments, "\n\n");
            let ghost below = outer.deep_view();
            match outer.pop() {
                None => {
                    proof {
                        assert(outer.deep_view() =~= Seq::<Suspended>::empty());
                        lemma_tracks_finished(current@, blocks@, answers@);
                    }
                    return Step::Done(Ok(text));
                },
                Some(parent) => {
                    let ghost waiting = parent@;
                    proof {
                        assert(below[below.len() - 1] == waiting);
                        assert(waiting.asking() && waiting.in_columns);
                        assert(outer.deep_view() =~= below.drop_last());
                        assert(below =~= outer.deep_view().push(waiting));
                        lemma_tracks_past_column(
                            outer.deep_view(),
                            waiting,
                            current@,
                            blocks@,
                            answers@,
                        );
                    }
                    let mut parent = parent;
                    assert(parent.column < parent.columns.len());
                    parent.rendered.push(text);
                    parent.column = parent.column + 1;
                    proof {
                        assert(parent.rendered.deep_view() =~= waiting.rendered.push(text@));
                        assert(parent@ == waiting.past_column(text@));
                    }
                    current = parent;
                },
            }
        }
    }
}

/// Starts the conversion of `blocks` into one document.
///
/// The step that comes back is where the rendering of `blocks` stands
/// before any answer: the document, where no block needs its children, or
/// a conversion that waits for the first block that does. No blocks give
/// the empty document.
pub fn convert_blocks(blocks: Vec<Block>) -> (step: Step)
    ensures
        step.reflects(blocks.deep_view(), Seq::empty()),
        blocks.len() == 0 ==> (step matches Step::Done(Ok(document)) && document@
            == Seq::<char>::empty()),
        (forall|i: int| 0 <= i < blocks.len() ==> !expands(#[trigger] blocks[i]@)) ==> (step
            matches Step::Done(Ok(_))),
{
    let ghost origin = blocks.deep_view();
    let first = Frame {
        blocks,
        index: 0,
        fragments: Vec::new(),
        in_columns: false,
        columns: Vec::new(),
        column: 0,
        rendered: Vec::new(),
    };
    let outer: Vec<Frame> = Vec::new();
    proof {
        assert(first.fragments.deep_view() =~= Seq::<Seq<char>>::empty());
        assert(first.columns.deep_view() =~= Seq::<BlockView>::empty());
        assert(first.rendered.deep_view() =~= Seq::<Seq<char>>::empty());
        assert(first@ == Suspended::fresh(origin));
        assert(outer.deep_view() =~= Seq::<Suspended>::empty());
        lemma_tracks_start(origin);
        if origin.len() == 0 {
            assert(origin =~= Seq::empty());
            lemma_empty_document(Seq::empty());
        }
        if forall|i: int| 0 <= i < origin.len() ==> !expands(#[trigger] origin[i]) {
            lemma_nothing_asked(origin, Seq::empty());
        }
    }
    advance(outer, first, Ghost(origin), Ghost(Seq::empty()))
}

} // verus!
